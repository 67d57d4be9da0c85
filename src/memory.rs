use rand::RngCore;
use vstd::prelude::*;

use crate::engine::{Phase, Step, WipeJob};
use crate::wipe::{spec_effective_passes, spec_pattern, WipeMode};

verus! {

/// Relies on rand::thread_rng and RngCore::fill_bytes: a vector of `n` bytes,
/// each drawn from the thread-local generator.
#[verifier::external_body]
fn random_bytes(n: usize) -> (r: Vec<u8>)
    ensures
        r@.len() == n,
{
    let mut v = vec![0u8; n];
    rand::thread_rng().fill_bytes(&mut v);
    v
}

/// Makes `buf` the data of one chunk of `len` bytes: every byte `b` for
/// `Some(b)`, fresh random bytes for `None`.
pub fn fill_chunk(buf: &mut Vec<u8>, len: usize, pattern: Option<u8>)
    ensures
        final(buf)@.len() == len,
        forall|b: u8, i: int| pattern == Some(b) && 0 <= i < len ==> final(buf)@[i] == b,
{
    match pattern {
        Some(b) => {
            buf.clear();
            let mut i: usize = 0;
            while i < len
                invariant
                    i <= len,
                    buf@.len() == i,
                    forall|k: int| 0 <= k < i ==> buf@[k] == b,
                decreases len - i,
            {
                buf.push(b);
                i = i + 1;
            }
        },
        None => {
            *buf = random_bytes(len);
        },
    }
}

/// Copies `chunk` into `target` starting at `offset`; the other bytes stay.
pub fn write_at(target: &mut Vec<u8>, offset: usize, chunk: &Vec<u8>)
    requires
        offset + chunk@.len() <= old(target)@.len(),
    ensures
        final(target)@.len() == old(target)@.len(),
        forall|i: int|
            0 <= i < offset || offset + chunk@.len() <= i < old(target)@.len()
                ==> final(target)@[i] == old(target)@[i],
        forall|i: int| 0 <= i < chunk@.len() ==> final(target)@[offset + i] == chunk@[i],
{
    let n = target.len();
    let mut j: usize = 0;
    while j < chunk.len()
        invariant
            n == target@.len(),
            offset + chunk@.len() <= target@.len(),
            target@.len() == old(target)@.len(),
            j <= chunk@.len(),
            forall|i: int|
                0 <= i < offset || offset + j <= i < old(target)@.len()
                    ==> target@[i] == old(target)@[i],
            forall|i: int| 0 <= i < j ==> target@[offset + i] == chunk@[i],
        decreases chunk@.len() - j,
    {
        target.set(offset + j, chunk[j]);
        j = j + 1;
    }
}

/// Runs a whole wipe on an in-memory target and returns the number of bytes
/// written in each pass, in pass order. The pass count is the one that
/// `effective_passes` gives; each pass writes exactly the target's length,
/// in chunks that follow one another from offset 0; with a fixed pattern in
/// the last pass, every byte ends equal to it.
pub fn wipe_in_memory(target: &mut Vec<u8>, mode: WipeMode, passes: u32) -> (r: Vec<u64>)
    ensures
        final(target)@.len() == old(target)@.len(),
        r@.len() == spec_effective_passes(mode, passes),
        forall|k: int| 0 <= k < r@.len() ==> r@[k] == old(target)@.len(),
        forall|b: u8, i: int|
            spec_pattern(mode, r@.len() as int) == Some(b) && 0 <= i < final(target)@.len()
                ==> final(target)@[i] == b,
        mode == WipeMode::Zeros ==> forall|i: int| 0 <= i < final(target)@.len() ==> final(target)@[i] == 0,
        mode == WipeMode::Secureflip ==> r@.len() >= 2 && forall|i: int| 0 <= i < final(target)@.len()
            ==> final(target)@[i] == (if r@.len() % 2 == 1 { 0u8 } else { 0xFFu8 }),
{
    let size = target.len() as u64;
    let mut job = WipeJob::new(size, mode, passes);
    let mut per_pass: Vec<u64> = Vec::new();
    let mut in_pass: u64 = 0;
    let mut chunk: Vec<u8> = Vec::new();
    while !job.is_done()
        invariant
            job.wf(),
            job.size == size,
            job.mode == mode,
            job.requested == passes,
            size == target@.len(),
            size == old(target)@.len(),
            size <= usize::MAX,
            per_pass@.len() == job.pass - 1 + (if job.phase == Phase::Done { 1int } else { 0 }),
            forall|k: int| 0 <= k < per_pass@.len() ==> per_pass@[k] == size,
            job.phase != Phase::Seek ==> in_pass == job.written,
            job.phase != Phase::Seek ==> forall|b: u8, i: int|
                spec_pattern(mode, job.pass as int) == Some(b) && 0 <= i < job.written
                    ==> target@[i] == b,
        decreases job.measure(),
    {
        let step = job.next_step();
        match step {
            Step::Seek { .. } => {
                in_pass = 0;
            },
            Step::Write { offset, len, pattern, .. } => {
                assert(offset + len <= size);
                fill_chunk(&mut chunk, len as usize, pattern);
                write_at(target, offset as usize, &chunk);
                in_pass = in_pass + len;
                assert forall|b: u8, i: int|
                    pattern == Some(b) && offset <= i < offset + len implies target@[i] == b by {
                    assert(target@[offset + (i - offset)] == chunk@[i - offset]);
                }
            },
            Step::Flush { .. } => {
                per_pass.push(in_pass);
            },
            Step::Done => {},
        }
    }
    assert(per_pass@.len() == job.passes);
    per_pass
}

} // verus!
