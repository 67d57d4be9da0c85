use vstd::prelude::*;
use vstd::string::StrSliceExecFns;

use crate::disks::{candidates_of, lemma_candidates, DiskRecord};

verus! {

/// Where the protected device index came from.
#[derive(Copy, Clone, Debug, PartialEq, Eq, Structural)]
pub enum SystemDiskSource {
    /// Given by the operator.
    Override,
    /// Read from the boot volume's first extent.
    Detected,
    /// Detection failed; device 0 is protected.
    Fallback,
}

/// The device of the boot volume's first extent, from the extent query's
/// `(extent count, device of the first extent)`; `None` when the query failed
/// or gave no extent.
pub fn detected_disk(query: Option<(u32, u32)>) -> (r: Option<u32>)
    ensures
        r == (match query {
            Some((count, first)) => if count > 0 { Some(first) } else { None },
            None => None,
        }),
{
    match query {
        Some((count, first)) => if count > 0 { Some(first) } else { None },
        None => None,
    }
}

/// The protected device: the override if there is one, else the detected
/// device, else device 0; with where it came from.
pub fn resolve_system_disk(override_index: Option<u32>, detected: Option<u32>) -> (r: (u32, SystemDiskSource))
    ensures
        r == (match (override_index, detected) {
            (Some(n), _) => (n, SystemDiskSource::Override),
            (None, Some(n)) => (n, SystemDiskSource::Detected),
            (None, None) => (0u32, SystemDiskSource::Fallback),
        }),
{
    match override_index {
        Some(n) => (n, SystemDiskSource::Override),
        None => match detected {
            Some(n) => (n, SystemDiskSource::Detected),
            None => (0, SystemDiskSource::Fallback),
        },
    }
}

/// The value of a decimal digit character, or `None` for any other character.
pub open spec fn digit_value(c: char) -> Option<nat> {
    if c == '0' { Some(0) }
    else if c == '1' { Some(1) }
    else if c == '2' { Some(2) }
    else if c == '3' { Some(3) }
    else if c == '4' { Some(4) }
    else if c == '5' { Some(5) }
    else if c == '6' { Some(6) }
    else if c == '7' { Some(7) }
    else if c == '8' { Some(8) }
    else if c == '9' { Some(9) }
    else { None }
}

pub open spec fn all_digits(s: Seq<char>) -> bool {
    forall|i: int| 0 <= i < s.len() ==> (#[trigger] digit_value(s[i])).is_some()
}

/// The number that a string of digits writes in decimal.
pub open spec fn digits_value(s: Seq<char>) -> nat
    decreases s.len(),
{
    if s.len() == 0 {
        0
    } else {
        digits_value(s.drop_last()) * 10 + digit_value(s.last()).unwrap_or(0)
    }
}

/// `s` without one leading `+`.
pub open spec fn strip_plus(s: Seq<char>) -> Seq<char> {
    if s.len() > 0 && s[0] == '+' { s.drop_first() } else { s }
}

/// An index as `u32` parsing reads it: an optional `+`, then one or more
/// decimal digits, with a value below 2^32.
pub open spec fn parse_index_spec(s: Seq<char>) -> Option<u32> {
    let body = strip_plus(s);
    if body.len() > 0 && all_digits(body) && digits_value(body) < 0x1_0000_0000 {
        Some(digits_value(body) as u32)
    } else {
        None
    }
}

fn digit_of(c: char) -> (r: Option<u64>)
    ensures
        match digit_value(c) {
            Some(v) => r == Some(v as u64),
            None => r.is_none(),
        },
{
    if c == '0' { Some(0) }
    else if c == '1' { Some(1) }
    else if c == '2' { Some(2) }
    else if c == '3' { Some(3) }
    else if c == '4' { Some(4) }
    else if c == '5' { Some(5) }
    else if c == '6' { Some(6) }
    else if c == '7' { Some(7) }
    else if c == '8' { Some(8) }
    else if c == '9' { Some(9) }
    else { None }
}

/// Reads a device index typed by the operator.
pub fn parse_index(s: &str) -> (r: Option<u32>)
    ensures
        r == parse_index_spec(s@),
{
    let n = s.unicode_len();
    let mut i: usize = 0;
    if n > 0 && s.get_char(0) == '+' {
        i = 1;
    }
    let start = i;
    let ghost body = s@.subrange(start as int, n as int);
    assert(body =~= strip_plus(s@));
    if i == n {
        return None;
    }
    let mut value: u64 = 0;
    let mut too_big = false;
    while i < n
        invariant
            n == s@.len(),
            start <= i <= n,
            body == s@.subrange(start as int, n as int),
            body == strip_plus(s@),
            all_digits(s@.subrange(start as int, i as int)),
            too_big == (digits_value(s@.subrange(start as int, i as int)) >= 0x1_0000_0000),
            !too_big ==> value == digits_value(s@.subrange(start as int, i as int)),
        decreases n - i,
    {
        let c = s.get_char(i);
        let ghost pre = s@.subrange(start as int, i as int);
        let ghost next = s@.subrange(start as int, i as int + 1);
        assert(next.drop_last() =~= pre);
        match digit_of(c) {
            None => {
                assert(body[i - start] == c);
                assert(digit_value(body[i - start]).is_none());
                assert(!all_digits(body));
                return None;
            },
            Some(d) => {
                assert(all_digits(next)) by {
                    assert forall|k: int| 0 <= k < next.len() implies (#[trigger] digit_value(next[k])).is_some() by {
                        if k < pre.len() {
                            assert(next[k] == pre[k]);
                        }
                    }
                }
                if !too_big {
                    value = value * 10 + d;
                    if value >= 0x1_0000_0000 {
                        too_big = true;
                    }
                } else {
                    assert(digits_value(next) >= 0x1_0000_0000) by (nonlinear_arith)
                        requires digits_value(next) == digits_value(pre) * 10 + d,
                            digits_value(pre) >= 0x1_0000_0000;
                }
            },
        }
        i = i + 1;
    }
    assert(s@.subrange(start as int, n as int) =~= body);
    if too_big { None } else { Some(value as u32) }
}

/// The operator's answer at the device prompt.
#[derive(Copy, Clone, Debug, PartialEq, Eq, Structural)]
pub enum Selection {
    /// An empty answer: the wipe is called off, which is no failure.
    Cancelled,
    /// The chosen device, one of the candidates.
    Chosen(DiskRecord),
}

/// Why a device wipe request was refused.
#[derive(Copy, Clone, Debug, PartialEq, Eq, Structural)]
pub enum DiskError {
    /// No device was found.
    NoDisks,
    /// Every device found is the system disk.
    NoCandidates,
    /// The answer is not a device index.
    InvalidIndex,
    /// The index names no candidate: absent, or the protected system disk.
    NotEligible,
}

/// The first candidate with index `idx`, if any.
pub open spec fn find_candidate(candidates: Seq<DiskRecord>, idx: u32) -> Option<DiskRecord>
    decreases candidates.len(),
{
    if candidates.len() == 0 {
        None
    } else if candidates[0].index == idx {
        Some(candidates[0])
    } else {
        find_candidate(candidates.drop_first(), idx)
    }
}

/// What an answer at the device prompt selects.
pub open spec fn selection_of(reply: Seq<char>, candidates: Seq<DiskRecord>) -> Result<Selection, DiskError> {
    if reply.len() == 0 {
        Ok(Selection::Cancelled)
    } else {
        match parse_index_spec(reply) {
            None => Err(DiskError::InvalidIndex),
            Some(idx) => match find_candidate(candidates, idx) {
                Some(d) => Ok(Selection::Chosen(d)),
                None => Err(DiskError::NotEligible),
            },
        }
    }
}

proof fn lemma_find_candidate(candidates: Seq<DiskRecord>, idx: u32)
    ensures
        match find_candidate(candidates, idx) {
            Some(d) => candidates.contains(d) && d.index == idx,
            None => forall|k: int| 0 <= k < candidates.len() ==> (#[trigger] candidates[k]).index != idx,
        },
    decreases candidates.len(),
{
    if candidates.len() > 0 {
        lemma_find_candidate(candidates.drop_first(), idx);
        if candidates[0].index != idx {
            match find_candidate(candidates.drop_first(), idx) {
                Some(d) => {
                    let j = choose|j: int| 0 <= j < candidates.len() - 1 && candidates.drop_first()[j] == d;
                    assert(candidates[j + 1] == d);
                },
                None => {
                    assert forall|k: int| 0 <= k < candidates.len() implies (#[trigger] candidates[k]).index != idx by {
                        if k > 0 {
                            assert(candidates[k] == candidates.drop_first()[k - 1]);
                        }
                    }
                },
            }
        } else {
            assert(candidates[0] == candidates[0]);
        }
    }
}

/// Interprets the operator's (trimmed) answer at the device prompt. An empty
/// answer cancels; an answer that is no index, or an index that is not a
/// candidate, is refused; no other device is ever picked in its place.
pub fn select_disk(reply: &str, candidates: &Vec<DiskRecord>) -> (r: Result<Selection, DiskError>)
    ensures
        r == selection_of(reply@, candidates@),
        r matches Ok(Selection::Chosen(d)) ==> candidates@.contains(d),
{
    proof {
        match parse_index_spec(reply@) {
            Some(idx) => lemma_find_candidate(candidates@, idx),
            None => {},
        }
    }
    if reply.unicode_len() == 0 {
        return Ok(Selection::Cancelled);
    }
    match parse_index(reply) {
        None => Err(DiskError::InvalidIndex),
        Some(idx) => {
            let mut k: usize = 0;
            assert(candidates@.skip(0) =~= candidates@);
            while k < candidates.len()
                invariant
                    k <= candidates@.len(),
                    reply@.len() != 0,
                    parse_index_spec(reply@) == Some(idx),
                    find_candidate(candidates@, idx) == find_candidate(candidates@.skip(k as int), idx),
                decreases candidates@.len() - k,
            {
                let ghost rest = candidates@.skip(k as int);
                assert(rest.drop_first() =~= candidates@.skip(k as int + 1));
                if candidates[k].index == idx {
                    assert(rest.len() > 0);
                    assert(rest[0] == candidates@[k as int]);
                    assert(find_candidate(rest, idx) == Some(rest[0]));

                    assert(find_candidate(candidates@, idx) == Some(candidates@[k as int]));

                    assert(selection_of(reply@, candidates@) == Ok::<Selection, DiskError>(Selection::Chosen(candidates@[k as int])));
                    return Ok(Selection::Chosen(candidates[k]));
                }
                k = k + 1;
            }
            assert(candidates@.skip(k as int).len() == 0);
            Err(DiskError::NotEligible)
        },
    }
}

/// Whether the operator's (trimmed) answer is exactly the required phrase;
/// case and every character count.
pub fn phrase_matches(reply: &str, phrase: &str) -> (r: bool)
    ensures
        r == (reply@ == phrase@),
{
    let n = reply.unicode_len();
    if n != phrase.unicode_len() {
        return false;
    }
    let mut i: usize = 0;
    while i < n
        invariant
            n == reply@.len() == phrase@.len(),
            i <= n,
            forall|k: int| 0 <= k < i ==> reply@[k] == phrase@[k],
        decreases n - i,
    {
        if reply.get_char(i) != phrase.get_char(i) {
            return false;
        }
        i = i + 1;
    }
    assert(reply@ =~= phrase@);
    true
}

/// Whether the operator's (trimmed) answer confirms a file wipe: exactly `YES`.
pub fn confirms_file_wipe(reply: &str) -> (r: bool)
    ensures
        r == (reply@ == seq!['Y', 'E', 'S']),
{
    proof { reveal_strlit("YES"); }
    let r = phrase_matches(reply, "YES");
    assert("YES"@ =~= seq!['Y', 'E', 'S']);
    r
}

/// Whatever the operator answers, a selection among the candidates of a
/// device list never names the system disk.
pub proof fn lemma_selection_never_system(reply: Seq<char>, disks: Seq<DiskRecord>, system_disk: u32)
    ensures
        selection_of(reply, candidates_of(disks, system_disk)) matches Ok(Selection::Chosen(d))
            ==> d.index != system_disk,
{
    let c = candidates_of(disks, system_disk);
    lemma_candidates(disks, system_disk);
    match parse_index_spec(reply) {
        Some(idx) => {
            lemma_find_candidate(c, idx);
            match find_candidate(c, idx) {
                Some(d) => {
                    let k = choose|k: int| 0 <= k < c.len() && c[k] == d;
                    assert(c[k].index != system_disk);
                },
                None => {},
            }
        },
        None => {},
    }
}

} // verus!
