use vstd::prelude::*;

use crate::wipe::{
    CHUNK, chunk_len, pattern_for, spec_chunk_len, spec_effective_passes, spec_pattern, WipeMode,
};

verus! {

/// Where a pass stands.
#[derive(Copy, Clone, Debug, PartialEq, Eq, Structural)]
pub enum Phase {
    /// The write cursor must go back to offset 0.
    Seek,
    /// Chunks remain to be written.
    Stream,
    /// All bytes of the pass are written; they must be flushed.
    Flush,
    /// The last pass has been flushed.
    Done,
}

/// What the target must do next.
#[derive(Copy, Clone, Debug, PartialEq, Eq, Structural)]
pub enum Step {
    /// Move the write cursor of the target to offset 0.
    Seek { pass: u32 },
    /// Write `len` bytes at `offset`: all equal to `pattern`, or fresh random bytes when `None`.
    Write { pass: u32, offset: u64, len: u64, pattern: Option<u8> },
    /// Commit the writes of the pass.
    Flush { pass: u32 },
    /// Nothing is left to do.
    Done,
}

/// The pass / chunk state of one wipe of a target of `size` bytes.
#[derive(Copy, Clone, Debug)]
pub struct WipeJob {
    pub size: u64,
    pub mode: WipeMode,
    pub requested: u32,
    pub passes: u32,
    pub pass: u32,
    pub written: u64,
    pub phase: Phase,
}

impl WipeJob {
    pub open spec fn wf(&self) -> bool {
        &&& self.passes == spec_effective_passes(self.mode, self.requested)
        &&& 1 <= self.pass <= self.passes
        &&& self.written <= self.size
        &&& self.phase == Phase::Seek ==> self.written == 0
        &&& self.phase == Phase::Stream ==> self.written < self.size
        &&& self.phase == Phase::Flush ==> self.written == self.size
        &&& self.phase == Phase::Done ==> self.pass == self.passes && self.written == self.size
    }

    /// The step that `next_step` returns in state `s`, and the state after it.
    pub open spec fn spec_next(s: WipeJob) -> (Step, WipeJob) {
        match s.phase {
            Phase::Seek => (
                Step::Seek { pass: s.pass },
                WipeJob { phase: if s.size == 0 { Phase::Flush } else { Phase::Stream }, ..s },
            ),
            Phase::Stream => {
                let len = spec_chunk_len(s.size, s.written);
                let w = (s.written + len) as u64;
                (
                    Step::Write {
                        pass: s.pass,
                        offset: s.written,
                        len,
                        pattern: spec_pattern(s.mode, s.pass as int),
                    },
                    WipeJob {
                        written: w,
                        phase: if w == s.size { Phase::Flush } else { Phase::Stream },
                        ..s
                    },
                )
            },
            Phase::Flush => (
                Step::Flush { pass: s.pass },
                if s.pass == s.passes {
                    WipeJob { phase: Phase::Done, ..s }
                } else {
                    WipeJob { pass: (s.pass + 1) as u32, written: 0, phase: Phase::Seek, ..s }
                },
            ),
            Phase::Done => (Step::Done, s),
        }
    }

    /// Steps left before `Done`; each call of `next_step` short of `Done` lowers it.
    pub open spec fn measure(&self) -> nat {
        let per = self.size + 2;
        let here: int = match self.phase {
            Phase::Seek => self.size + 2,
            Phase::Stream => self.size - self.written + 1,
            Phase::Flush => 1,
            Phase::Done => 0,
        };
        ((self.passes - self.pass) * per + here) as nat
    }

    /// A job at the start of its first pass. The pass count is raised as
    /// `effective_passes` says.
    pub fn new(size: u64, mode: WipeMode, passes: u32) -> (r: WipeJob)
        ensures
            r.wf(),
            r.size == size,
            r.mode == mode,
            r.requested == passes,
            r.passes == spec_effective_passes(mode, passes),
            r.pass == 1,
            r.written == 0,
            r.phase == Phase::Seek,
    {
        let (n, _) = crate::wipe::effective_passes(mode, passes);
        WipeJob { size, mode, requested: passes, passes: n, pass: 1, written: 0, phase: Phase::Seek }
    }

    /// Whether the pass count run differs from the one asked for.
    pub fn passes_adjusted(&self) -> (r: bool)
        ensures
            r == (self.passes != self.requested),
    {
        self.passes != self.requested
    }

    pub fn is_done(&self) -> (r: bool)
        ensures
            r == (self.phase == Phase::Done),
    {
        self.phase == Phase::Done
    }

    /// The next step, and the state after it.
    pub fn next_step(&mut self) -> (r: Step)
        requires
            old(self).wf(),
        ensures
            final(self).wf(),
            (r, *final(self)) == WipeJob::spec_next(*old(self)),
            old(self).phase != Phase::Done ==> final(self).measure() < old(self).measure(),
    {
        proof {
            let s = *self;
            let per = s.size + 2;
            if s.pass < s.passes {
                assert((s.passes - s.pass) * per == (s.passes - (s.pass + 1)) * per + per)
                    by (nonlinear_arith);
            }
        }
        match self.phase {
            Phase::Seek => {
                self.phase = if self.size == 0 { Phase::Flush } else { Phase::Stream };
                Step::Seek { pass: self.pass }
            },
            Phase::Stream => {
                let len = chunk_len(self.size, self.written);
                let offset = self.written;
                self.written = offset + len;
                if self.written == self.size {
                    self.phase = Phase::Flush;
                }
                Step::Write { pass: self.pass, offset, len, pattern: pattern_for(self.mode, self.pass) }
            },
            Phase::Flush => {
                let pass = self.pass;
                if pass == self.passes {
                    self.phase = Phase::Done;
                } else {
                    self.pass = pass + 1;
                    self.written = 0;
                    self.phase = Phase::Seek;
                }
                Step::Flush { pass }
            },
            Phase::Done => Step::Done,
        }
    }
}

/// The writes `(offset, length)` that cover `[written, size)` chunk by chunk.
pub open spec fn chunks_from(size: nat, written: nat) -> Seq<(nat, nat)>
    decreases size - written,
{
    if written >= size {
        seq![]
    } else {
        let len: nat = if size - written < CHUNK { (size - written) as nat } else { CHUNK as nat };
        seq![(written, len)] + chunks_from(size, written + len)
    }
}

/// The total length of a list of writes.
pub open spec fn total_len(w: Seq<(nat, nat)>) -> nat
    decreases w.len(),
{
    if w.len() == 0 { 0 } else { w[0].1 + total_len(w.drop_first()) }
}

/// The chunks of a pass cover `[written, size)` exactly: each starts where the
/// ones before it end, none is empty or longer than `CHUNK`, and their
/// lengths add up to the bytes left.
pub proof fn lemma_chunks_cover(size: nat, written: nat)
    requires
        written <= size,
    ensures
        total_len(chunks_from(size, written)) == size - written,
        forall|k: int| 0 <= k < chunks_from(size, written).len() ==> {
            let c = #[trigger] chunks_from(size, written)[k];
            &&& c.0 == written + total_len(chunks_from(size, written).take(k))
            &&& 0 < c.1 <= CHUNK
        },
    decreases size - written,
{
    let c = chunks_from(size, written);
    if written < size {
        let len: nat = if size - written < CHUNK { (size - written) as nat } else { CHUNK as nat };
        let rest = chunks_from(size, written + len);
        lemma_chunks_cover(size, written + len);
        assert(c.drop_first() =~= rest);
        assert(c.take(0) =~= seq![]);
        assert forall|k: int| 0 <= k < c.len() implies {
            let ck = #[trigger] c[k];
            &&& ck.0 == written + total_len(c.take(k))
            &&& 0 < ck.1 <= CHUNK
        } by {
            if k > 0 {
                assert(c[k] == rest[k - 1]);
                assert(c.take(k).drop_first() =~= rest.take(k - 1));
                assert(c.take(k)[0] == c[0]);
            }
        }
    }
}

/// In a pass, the job hands out exactly the chunks of `chunks_from(size, 0)`,
/// in order: the next write is the first chunk left, and after it the chunks
/// left are the rest, until none is left and the pass is flushed.
pub proof fn lemma_stream_step(s: WipeJob)
    requires
        s.wf(),
        s.phase == Phase::Stream,
    ensures
        chunks_from(s.size as nat, s.written as nat).len() > 0,
        WipeJob::spec_next(s).0 matches Step::Write { offset, len, .. }
            && (offset as nat, len as nat) == chunks_from(s.size as nat, s.written as nat)[0],
        chunks_from(s.size as nat, WipeJob::spec_next(s).1.written as nat)
            == chunks_from(s.size as nat, s.written as nat).drop_first(),
        WipeJob::spec_next(s).1.phase == Phase::Flush
            <==> chunks_from(s.size as nat, s.written as nat).len() == 1,
{
    let c = chunks_from(s.size as nat, s.written as nat);
    let len = spec_chunk_len(s.size, s.written);
    let rest = chunks_from(s.size as nat, (s.written + len) as nat);
    assert(c.drop_first() =~= rest);
    if s.written + len < s.size {
        assert(rest.len() > 0);
    }
}

} // verus!
