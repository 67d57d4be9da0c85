use vstd::prelude::*;

verus! {

/// Least time between two progress reports, in milliseconds.
pub const REPORT_INTERVAL_MS: u64 = 200;

/// Bytes in one MiB.
pub const MIB: u64 = 1048576;

/// Whether a progress report is due: the interval has passed since the last
/// one, or this chunk completed the pass.
pub fn should_report(since_last_ms: u64, written: u64, size: u64) -> (r: bool)
    ensures
        r == (since_last_ms >= REPORT_INTERVAL_MS || written == size),
{
    since_last_ms >= REPORT_INTERVAL_MS || written == size
}

/// Share of the pass done, in hundredths of a percent, rounded down.
pub fn percent_hundredths(written: u64, size: u64) -> (r: u64)
    requires
        0 < size,
        written <= size,
    ensures
        r == written as nat * 10000 / size as nat,
        r <= 10000,
{
    let r = (written as u128 * 10000) / size as u128;
    assert(r <= 10000) by (nonlinear_arith)
        requires
            r == (written as nat * 10000) / size as nat,
            written <= size,
            0 < size;
    r as u64
}

/// Throughput of the pass in hundredths of a MiB per second, rounded down;
/// the elapsed time counts as at least one microsecond.
pub fn throughput_centi_mib(written: u64, elapsed_us: u64) -> (r: u64)
    ensures
        r == (if written as nat * 100000000 / ((if elapsed_us == 0 { 1 } else { elapsed_us as nat }) * MIB as nat) > u64::MAX {
            u64::MAX as nat
        } else {
            written as nat * 100000000 / ((if elapsed_us == 0 { 1 } else { elapsed_us as nat }) * MIB as nat)
        }),
{
    let t: u128 = if elapsed_us == 0 { 1 } else { elapsed_us as u128 };
    assert(t * MIB <= 0xFFFF_FFFF_FFFF_FFFF * MIB) by (nonlinear_arith)
        requires
            t <= 0xFFFF_FFFF_FFFF_FFFF;
    let v = (written as u128 * 100000000) / (t * MIB as u128);
    if v > u64::MAX as u128 { u64::MAX } else { v as u64 }
}

/// Seconds left in the pass at the pass's own pace so far, rounded down:
/// the remaining bytes times the elapsed time over the bytes written. Zero
/// while nothing is written; the elapsed time counts as at least one
/// microsecond; capped at `u64::MAX`.
pub open spec fn eta_spec(written: nat, size: nat, elapsed_us: nat) -> nat {
    if written == 0 {
        0
    } else {
        let t: nat = if elapsed_us == 0 { 1 } else { elapsed_us };
        let v = (size - written) as nat * t / (written * 1000000);
        if v > u64::MAX { u64::MAX as nat } else { v }
    }
}

/// Estimated seconds until the pass ends.
pub fn eta_seconds(written: u64, size: u64, elapsed_us: u64) -> (r: u64)
    requires
        written <= size,
    ensures
        r == eta_spec(written as nat, size as nat, elapsed_us as nat),
{
    if written == 0 {
        return 0;
    }
    let t: u128 = if elapsed_us == 0 { 1 } else { elapsed_us as u128 };
    let remain = (size - written) as u128;
    assert(remain * t <= 0xFFFF_FFFF_FFFF_FFFF * 0xFFFF_FFFF_FFFF_FFFF) by (nonlinear_arith)
        requires
            remain <= 0xFFFF_FFFF_FFFF_FFFF,
            t <= 0xFFFF_FFFF_FFFF_FFFF;
    let v = (remain * t) / (written as u128 * 1000000);
    if v > u64::MAX as u128 { u64::MAX } else { v as u64 }
}

} // verus!
