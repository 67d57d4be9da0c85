use wipecore::disks::{
    checked_candidates, collect_disks, device_size, wipe_candidates, DeviceError, DeviceProbe,
    DiskRecord,
};
use wipecore::guard::{
    confirms_file_wipe, detected_disk, parse_index, phrase_matches, resolve_system_disk,
    select_disk, DiskError, Selection, SystemDiskSource,
};
use wipecore::text::confirmation_phrase;

fn fixture() -> Vec<DeviceProbe> {
    let mut probes = vec![DeviceProbe::Absent; 16];
    probes[0] = DeviceProbe::Length(500_000);
    probes[2] = DeviceProbe::Length(1_000_000);
    probes
}

#[test]
fn listing_and_candidates_with_system_disk_one() {
    let disks = collect_disks(&fixture(), 1);
    let idx: Vec<u32> = disks.iter().map(|d| d.index).collect();
    assert_eq!(idx, vec![0, 2]);
    let c = wipe_candidates(&disks, 1);
    let cidx: Vec<u32> = c.iter().map(|d| d.index).collect();
    assert_eq!(cidx, vec![0, 2]);
    let c0 = wipe_candidates(&disks, 0);
    let c0idx: Vec<u32> = c0.iter().map(|d| d.index).collect();
    assert_eq!(c0idx, vec![2]);
}

#[test]
fn enumeration_skips_failures_and_non_positive() {
    let probes = vec![
        DeviceProbe::QueryFailed,
        DeviceProbe::Length(0),
        DeviceProbe::Length(-5),
        DeviceProbe::Absent,
        DeviceProbe::Length(4096),
    ];
    let disks = collect_disks(&probes, 4);
    assert_eq!(disks, vec![DiskRecord { index: 4, size_bytes: 4096, is_system: true }]);
}

#[test]
fn system_disk_never_candidate() {
    let disks = collect_disks(&fixture(), 2);
    assert!(wipe_candidates(&disks, 2).iter().all(|d| d.index != 2));
    assert_eq!(checked_candidates(&Vec::new(), 0), Err(DiskError::NoDisks));
    let only = collect_disks(&vec![DeviceProbe::Length(10)], 0);
    assert_eq!(checked_candidates(&only, 0), Err(DiskError::NoCandidates));
}

#[test]
fn resolve_system_disk_sources() {
    assert_eq!(resolve_system_disk(Some(3), Some(1)), (3, SystemDiskSource::Override));
    assert_eq!(resolve_system_disk(None, Some(1)), (1, SystemDiskSource::Detected));
    assert_eq!(resolve_system_disk(None, None), (0, SystemDiskSource::Fallback));
    assert_eq!(detected_disk(Some((2, 5))), Some(5));
    assert_eq!(detected_disk(Some((0, 5))), None);
    assert_eq!(detected_disk(None), None);
}

#[test]
fn empty_selection_cancels() {
    let disks = collect_disks(&fixture(), 0);
    let c = wipe_candidates(&disks, 0);
    assert_eq!(select_disk("", &c), Ok(Selection::Cancelled));
}

#[test]
fn selection_rules() {
    let disks = collect_disks(&fixture(), 0);
    let c = wipe_candidates(&disks, 0);
    assert_eq!(
        select_disk("2", &c),
        Ok(Selection::Chosen(DiskRecord { index: 2, size_bytes: 1_000_000, is_system: false }))
    );
    assert_eq!(select_disk("0", &c), Err(DiskError::NotEligible));
    assert_eq!(select_disk("7", &c), Err(DiskError::NotEligible));
    assert_eq!(select_disk("two", &c), Err(DiskError::InvalidIndex));
    assert_eq!(select_disk("-1", &c), Err(DiskError::InvalidIndex));
}

#[test]
fn index_parsing() {
    assert_eq!(parse_index("0"), Some(0));
    assert_eq!(parse_index("+12"), Some(12));
    assert_eq!(parse_index("4294967295"), Some(4294967295));
    assert_eq!(parse_index("4294967296"), None);
    assert_eq!(parse_index("99999999999999999999999"), None);
    assert_eq!(parse_index("+"), None);
    assert_eq!(parse_index(""), None);
    assert_eq!(parse_index("1 2"), None);
}

#[test]
fn phrases_differ_per_device() {
    assert_eq!(confirmation_phrase(2), "WIPE-DISK-2");
    assert_eq!(confirmation_phrase(15), "WIPE-DISK-15");
    assert_ne!(confirmation_phrase(1), confirmation_phrase(11));
    assert!(phrase_matches("WIPE-DISK-2", &confirmation_phrase(2)));
    assert!(!phrase_matches("wipe-disk-2", &confirmation_phrase(2)));
    assert!(!phrase_matches("WIPE-DISK-2", &confirmation_phrase(3)));
    assert!(!phrase_matches("WIPE-DISK-", &confirmation_phrase(2)));
}

#[test]
fn file_confirmation_is_exact() {
    assert!(confirms_file_wipe("YES"));
    assert!(!confirms_file_wipe("yes"));
    assert!(!confirms_file_wipe("YES!"));
    assert!(!confirms_file_wipe(""));
}

#[test]
fn single_device_size() {
    assert_eq!(device_size(DeviceProbe::Absent), Err(DeviceError::Absent));
    assert_eq!(device_size(DeviceProbe::QueryFailed), Err(DeviceError::QueryFailed));
    assert_eq!(device_size(DeviceProbe::Length(-1)), Err(DeviceError::NegativeLength));
    assert_eq!(device_size(DeviceProbe::Length(0)), Ok(0));
    assert_eq!(device_size(DeviceProbe::Length(1 << 40)), Ok(1 << 40));
}
