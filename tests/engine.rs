use wipecore::engine::{Phase, Step, WipeJob};
use wipecore::memory::{fill_chunk, wipe_in_memory};
use wipecore::wipe::{chunk_len, effective_passes, pattern_for, WipeMode, CHUNK};

#[test]
fn zeros_file_of_ten_mib() {
    let size = 10 * 1024 * 1024;
    let mut target = vec![0x5Au8; size];
    let per_pass = wipe_in_memory(&mut target, WipeMode::Zeros, 1);
    assert_eq!(per_pass, vec![size as u64]);
    assert_eq!(target.len(), size);
    assert!(target.iter().all(|b| *b == 0));
}

#[test]
fn random_one_byte_three_passes() {
    let mut target = vec![7u8; 1];
    let per_pass = wipe_in_memory(&mut target, WipeMode::Random, 3);
    assert_eq!(per_pass, vec![1, 1, 1]);
    assert_eq!(target.len(), 1);
}

#[test]
fn secureflip_final_pattern_by_parity() {
    for passes in 2u32..6 {
        let mut target = vec![0x11u8; 1000];
        let per_pass = wipe_in_memory(&mut target, WipeMode::Secureflip, passes);
        assert_eq!(per_pass.len(), passes as usize);
        let want = if passes % 2 == 1 { 0x00 } else { 0xFF };
        assert!(target.iter().all(|b| *b == want));
    }
}

#[test]
fn secureflip_one_pass_runs_two() {
    assert_eq!(effective_passes(WipeMode::Secureflip, 1), (2, true));
    let job = WipeJob::new(10, WipeMode::Secureflip, 1);
    assert_eq!(job.passes, 2);
    assert!(job.passes_adjusted());
    let mut target = vec![3u8; 10];
    let per_pass = wipe_in_memory(&mut target, WipeMode::Secureflip, 1);
    assert_eq!(per_pass, vec![10, 10]);
    assert!(target.iter().all(|b| *b == 0xFF));
}

#[test]
fn requested_pass_count_is_kept() {
    assert_eq!(effective_passes(WipeMode::Zeros, 1), (1, false));
    assert_eq!(effective_passes(WipeMode::Random, 4), (4, false));
    assert_eq!(effective_passes(WipeMode::Secureflip, 3), (3, false));
    assert_eq!(effective_passes(WipeMode::Zeros, 0), (1, true));
}

#[test]
fn patterns_per_pass() {
    assert_eq!(pattern_for(WipeMode::Zeros, 1), Some(0));
    assert_eq!(pattern_for(WipeMode::Zeros, 2), Some(0));
    assert_eq!(pattern_for(WipeMode::Random, 1), None);
    assert_eq!(pattern_for(WipeMode::Secureflip, 1), Some(0x00));
    assert_eq!(pattern_for(WipeMode::Secureflip, 2), Some(0xFF));
    assert_eq!(pattern_for(WipeMode::Secureflip, 7), Some(0x00));
}

#[test]
fn chunk_lengths() {
    assert_eq!(chunk_len(100, 0), 100);
    assert_eq!(chunk_len(CHUNK * 2 + 5, 0), CHUNK);
    assert_eq!(chunk_len(CHUNK * 2 + 5, CHUNK * 2), 5);
}

#[test]
fn pass_writes_cover_range_exactly() {
    let size = CHUNK * 2 + 123;
    let mut job = WipeJob::new(size, WipeMode::Zeros, 2);
    let mut covered: Vec<(u64, u64)> = Vec::new();
    let mut seeks = 0;
    let mut flushes = 0;
    loop {
        match job.next_step() {
            Step::Seek { .. } => {
                seeks += 1;
                covered.clear();
            }
            Step::Write { offset, len, .. } => covered.push((offset, len)),
            Step::Flush { .. } => {
                flushes += 1;
                let mut at = 0;
                for (o, l) in &covered {
                    assert_eq!(*o, at);
                    assert!(*l > 0 && *l <= CHUNK);
                    at += l;
                }
                assert_eq!(at, size);
            }
            Step::Done => break,
        }
    }
    assert_eq!((seeks, flushes), (2, 2));
    assert_eq!(job.phase, Phase::Done);
}

#[test]
fn empty_target_passes_write_nothing() {
    let mut target: Vec<u8> = Vec::new();
    let per_pass = wipe_in_memory(&mut target, WipeMode::Zeros, 2);
    assert_eq!(per_pass, vec![0, 0]);
}

#[test]
fn fill_chunk_fixed_and_random() {
    let mut buf = Vec::new();
    fill_chunk(&mut buf, 16, Some(0xFF));
    assert_eq!(buf, vec![0xFFu8; 16]);
    fill_chunk(&mut buf, 4096, None);
    assert_eq!(buf.len(), 4096);
    let first = buf.clone();
    fill_chunk(&mut buf, 4096, None);
    assert_eq!(buf.len(), 4096);
    assert_ne!(first, buf);
    assert!(first.iter().any(|b| *b != first[0]));
}
