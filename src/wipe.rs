use vstd::prelude::*;

verus! {

/// Number of bytes written by one chunk write.
pub const CHUNK: u64 = 8388608;

/// How the bytes of each pass are chosen.
#[derive(Copy, Clone, Debug, PartialEq, Eq, Structural)]
pub enum WipeMode {
    /// Every pass writes `0x00`.
    Zeros,
    /// Every chunk of every pass gets fresh random bytes.
    Random,
    /// Odd passes write `0x00`, even passes write `0xFF`; at least two passes.
    Secureflip,
}

/// The fixed byte of pass `pass` (counted from 1), or `None` when each chunk is random.
pub open spec fn spec_pattern(mode: WipeMode, pass: int) -> Option<u8> {
    match mode {
        WipeMode::Zeros => Some(0u8),
        WipeMode::Random => None,
        WipeMode::Secureflip => if pass % 2 == 1 { Some(0u8) } else { Some(0xFFu8) },
    }
}

/// The number of passes that a request for `passes` passes runs.
pub open spec fn spec_effective_passes(mode: WipeMode, passes: u32) -> u32 {
    if mode == WipeMode::Secureflip && passes < 2 {
        2
    } else if passes < 1 {
        1
    } else {
        passes
    }
}

/// The length of the chunk written when `written` of `size` bytes are done.
pub open spec fn spec_chunk_len(size: u64, written: u64) -> u64 {
    if size - written < CHUNK { (size - written) as u64 } else { CHUNK }
}

/// The byte pattern of one pass: `Some(b)` for a fixed byte, `None` for random chunks.
pub fn pattern_for(mode: WipeMode, pass: u32) -> (r: Option<u8>)
    ensures
        r == spec_pattern(mode, pass as int),
{
    match mode {
        WipeMode::Zeros => Some(0u8),
        WipeMode::Random => None,
        WipeMode::Secureflip => if pass % 2 == 1 { Some(0u8) } else { Some(0xFFu8) },
    }
}

/// The pass count actually run, and whether it differs from the one asked for.
/// Secureflip runs at least two passes; every mode runs at least one.
pub fn effective_passes(mode: WipeMode, passes: u32) -> (r: (u32, bool))
    ensures
        r.0 == spec_effective_passes(mode, passes),
        r.1 == (r.0 != passes),
        r.0 >= passes,
{
    if mode == WipeMode::Secureflip && passes < 2 {
        (2, true)
    } else if passes < 1 {
        (1, true)
    } else {
        (passes, false)
    }
}

/// Length of the next chunk: the remaining byte count, capped at `CHUNK`.
pub fn chunk_len(size: u64, written: u64) -> (r: u64)
    requires
        written <= size,
    ensures
        r == spec_chunk_len(size, written),
        r <= size - written,
        written < size ==> r > 0,
{
    let left = size - written;
    if left < CHUNK { left } else { CHUNK }
}

} // verus!
