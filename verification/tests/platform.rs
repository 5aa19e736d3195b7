use hardware_info::hw::os::os_info;
use hardware_info::platform::unsupported::{collect, collect_os_info};
use hardware_info::platform::windows::{
    collect_cpu, collect_memory, cpu_architecture, disk_from_drive, disk_kind, drive_mount_point,
    logical_drive_indices, windows_major_version,
};
use hardware_info::{get_hardware_info, CpuArchitecture, DiskKind, HardwareInfoError};

#[test]
fn maps_processor_architectures() {
    assert_eq!(cpu_architecture(0), CpuArchitecture::X86);
    assert_eq!(cpu_architecture(9), CpuArchitecture::X86_64);
    assert_eq!(cpu_architecture(5), CpuArchitecture::Arm);
    assert_eq!(cpu_architecture(12), CpuArchitecture::Aarch64);
    assert_eq!(cpu_architecture(6), CpuArchitecture::Unknown);
}

#[test]
fn maps_drive_types() {
    assert_eq!(disk_kind(3), DiskKind::Fixed);
    assert_eq!(disk_kind(2), DiskKind::Removable);
    assert_eq!(disk_kind(4), DiskKind::Network);
    assert_eq!(disk_kind(5), DiskKind::Optical);
    assert_eq!(disk_kind(6), DiskKind::RamDisk);
    assert_eq!(disk_kind(0), DiskKind::Unknown);
    assert_eq!(disk_kind(1), DiskKind::Unknown);
    assert_eq!(disk_kind(99), DiskKind::Unknown);
}

#[test]
fn names_windows_versions() {
    assert_eq!(windows_major_version(Some((10, 22631))).as_deref(), Some("11"));
    assert_eq!(windows_major_version(Some((10, 19045))).as_deref(), Some("10"));
    assert_eq!(windows_major_version(Some((6, 9600))).as_deref(), Some("6"));
    assert_eq!(windows_major_version(None), None);
}

#[test]
fn lists_logical_drives() {
    assert_eq!(logical_drive_indices(0b1101), vec![0, 2, 3]);
    assert_eq!(logical_drive_indices(1 << 25 | 1 << 26), vec![25]);
    assert_eq!(logical_drive_indices(0), Vec::<u8>::new());
    assert_eq!(drive_mount_point(2), "C:\\");
}

#[test]
fn keeps_drives_of_known_kind_with_space() {
    let disk = disk_from_drive(2, 3, Some((100, 40))).unwrap();
    assert_eq!(disk.mount_point, "C:\\");
    assert_eq!(disk.kind, DiskKind::Fixed);
    assert_eq!(disk.total_bytes, 100);
    assert_eq!(disk.free_bytes, 40);
    assert!(disk_from_drive(3, 1, Some((1, 1))).is_none());
    assert!(disk_from_drive(3, 3, None).is_none());
}

#[test]
fn counts_logical_cores() {
    assert_eq!(collect_cpu(9, Some(16), 8, None).logical_cores, 16);
    assert_eq!(collect_cpu(9, None, 8, None).logical_cores, 8);
    assert_eq!(collect_cpu(9, None, 0, None).logical_cores, 1);
    assert_eq!(collect_cpu(12, None, 0, None).architecture, CpuArchitecture::Aarch64);
}

#[test]
fn reports_memory_status_errors() {
    let memory = collect_memory(Ok((16, 4))).unwrap();
    assert_eq!(memory.total_physical_bytes, 16);
    assert_eq!(memory.available_physical_bytes, 4);
    let error = collect_memory(Err("bad".to_string())).unwrap_err();
    assert_eq!(error.message(), "GlobalMemoryStatusEx failed: bad");
}

#[test]
fn refuses_unsupported_platforms() {
    match get_hardware_info("linux") {
        Err(HardwareInfoError::PlatformUnsupported(p)) => assert_eq!(p, "linux"),
        _ => panic!("expected an unsupported platform"),
    }
    let error = collect("macos").unwrap_err();
    assert_eq!(error.message(), "hardware information is not implemented for macos");
    assert!(collect_os_info("macos").is_err());
}

#[test]
fn fills_os_defaults() {
    let os = os_info(None, None, "linux");
    assert_eq!(os.family, "linux");
    assert_eq!(os.version, "unknown");
    assert!(os.manufacturer.is_none());
    assert!(os.bussines.is_none());
    let os = os_info(Some("Ubuntu".to_string()), Some("Linux 24.04 Ubuntu".to_string()), "linux");
    assert_eq!(os.family, "Ubuntu");
    assert_eq!(os.version, "Linux 24.04 Ubuntu");
}

#[test]
fn zero_parallelism_falls_back_to_processor_count() {
    assert_eq!(collect_cpu(9, Some(0), 4, None).logical_cores, 4);
    assert_eq!(collect_cpu(9, Some(0), 0, None).logical_cores, 1);
}
