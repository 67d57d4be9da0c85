use wipecore::cli::{check_file_target, command_of, Args, Command, TargetError};
use wipecore::ctl_code;
use wipecore::progress::{eta_seconds, percent_hundredths, should_report, throughput_centi_mib};
use wipecore::text::{format_eta, size_format};
use wipecore::wipe::WipeMode;

#[test]
fn eta_formats() {
    assert_eq!(format_eta(0), "00:00");
    assert_eq!(format_eta(83), "01:23");
    assert_eq!(format_eta(3599), "59:59");
    assert_eq!(format_eta(7805), "02:10:05");
    assert_eq!(format_eta(360000), "100:00:00");
}

#[test]
fn size_formats() {
    assert_eq!(size_format(0), "0.00 Bytes");
    assert_eq!(size_format(5), "5.00 Bytes");
    assert_eq!(size_format(512), "512 Bytes");
    assert_eq!(size_format(899), "899 Bytes");
    assert_eq!(size_format(900), "0.88 KB");
    assert_eq!(size_format(2048), "2.00 KB");
    assert_eq!(size_format(10 * 1024 * 1024), "10 MB");
    assert_eq!(size_format(1536 * 1024 * 1024), "1.50 GB");
    assert_eq!(size_format(500 * 1024 * 1024 * 1024), "500 GB");
}

#[test]
fn control_code_layout() {
    assert_eq!(ctl_code(0x56, 0, 0, 0), 0x0056_0000);
    assert_eq!(ctl_code(7, 0x17, 0, 1), (7 << 16) | (1 << 14) | (0x17 << 2));
    assert_eq!(ctl_code(0x1_0001, 0, 3, 0), 0x0001_0003);
}

#[test]
fn progress_arithmetic() {
    assert!(should_report(200, 1, 10));
    assert!(!should_report(199, 1, 10));
    assert!(should_report(0, 10, 10));
    assert_eq!(percent_hundredths(1, 3), 3333);
    assert_eq!(percent_hundredths(10, 10), 10000);
    assert_eq!(throughput_centi_mib(1048576, 1_000_000), 100);
    assert_eq!(throughput_centi_mib(1048576, 0), 100_000_000);
    assert_eq!(eta_seconds(0, 100, 5), 0);
    assert_eq!(eta_seconds(25, 100, 2_000_000), 6);
    assert_eq!(eta_seconds(100, 100, 2_000_000), 0);
}

fn args() -> Args {
    Args {
        target: None,
        mode: WipeMode::Zeros,
        passes: 1,
        disk: None,
        list_disks: false,
        system_disk: None,
        wipe_disk: false,
    }
}

#[test]
fn command_precedence() {
    assert!(matches!(command_of(&args()), Command::Usage));
    let mut a = args();
    a.target = Some("f.bin".to_string());
    assert!(matches!(command_of(&a), Command::WipeFile(ref t) if t == "f.bin"));
    a.disk = Some(3);
    assert!(matches!(command_of(&a), Command::ShowDisk(3)));
    a.list_disks = true;
    assert!(matches!(command_of(&a), Command::ListDisks));
    a.wipe_disk = true;
    assert!(matches!(command_of(&a), Command::WipeDisk));
}

#[test]
fn file_target_checks() {
    assert_eq!(check_file_target(false, 10), Err(TargetError::NotRegularFile));
    assert_eq!(check_file_target(true, 0), Err(TargetError::EmptyFile));
    assert_eq!(check_file_target(true, 10), Ok(10));
}
