use hardware_info::hw::storage::{
    get_physical_storage, get_storage, is_not_found_message, physical_drive_path,
    query_physical_drive, read_descriptor_string, read_sysfs_string, read_sysfs_u64,
    sectors_to_bytes, storage_descriptor, BlockDevice, DiskInfo, PRODUCT_ID_OFFSET_FIELD,
    SERIAL_NUMBER_OFFSET_FIELD, STORAGE_DEVICE_DESCRIPTOR_SIZE,
};

/// A 128-byte storage device descriptor whose product id and serial number
/// offsets are set, with strings placed at the given offsets.
fn descriptor_bytes(strings: &[(usize, &[u8])], product_id_offset: u32, serial_offset: u32) -> Vec<u8> {
    let mut bytes = vec![0u8; 128];
    bytes[0..4].copy_from_slice(&(STORAGE_DEVICE_DESCRIPTOR_SIZE as u32).to_le_bytes());
    bytes[4..8].copy_from_slice(&128u32.to_le_bytes());
    bytes[PRODUCT_ID_OFFSET_FIELD..PRODUCT_ID_OFFSET_FIELD + 4]
        .copy_from_slice(&product_id_offset.to_le_bytes());
    bytes[SERIAL_NUMBER_OFFSET_FIELD..SERIAL_NUMBER_OFFSET_FIELD + 4]
        .copy_from_slice(&serial_offset.to_le_bytes());
    for (offset, value) in strings {
        let end = offset + value.len();
        bytes[*offset..end].copy_from_slice(value);
    }
    bytes
}

#[test]
fn reads_descriptor_string_from_valid_offset() {
    let descriptor = descriptor_bytes(&[(64, b"Samsung SSD 990 PRO 1TB\0")], 64, 0);

    assert_eq!(
        read_descriptor_string(&descriptor, PRODUCT_ID_OFFSET_FIELD),
        "Samsung SSD 990 PRO 1TB"
    );
}

#[test]
fn trims_descriptor_string_whitespace() {
    let descriptor = descriptor_bytes(&[(64, b"  S6Z2NJ0W123456A  \0")], 0, 64);

    assert_eq!(
        read_descriptor_string(&descriptor, SERIAL_NUMBER_OFFSET_FIELD),
        "S6Z2NJ0W123456A"
    );
}

#[test]
fn reads_descriptor_string_until_buffer_end_when_missing_null_terminator() {
    let mut descriptor = descriptor_bytes(&[], 64, 0);
    descriptor.truncate(64);
    descriptor.extend_from_slice(b"ST2000DM005-2U9102");

    assert_eq!(
        read_descriptor_string(&descriptor, PRODUCT_ID_OFFSET_FIELD),
        "ST2000DM005-2U9102"
    );
}

#[test]
fn returns_empty_descriptor_string_for_short_descriptor() {
    assert_eq!(read_descriptor_string(&[0; 4], PRODUCT_ID_OFFSET_FIELD), "");
}

#[test]
fn returns_empty_descriptor_string_for_zero_offset() {
    let descriptor = descriptor_bytes(&[(64, b"ignored\0")], 0, 0);

    assert_eq!(read_descriptor_string(&descriptor, PRODUCT_ID_OFFSET_FIELD), "");
}

#[test]
fn returns_empty_descriptor_string_for_out_of_bounds_offset() {
    let descriptor = descriptor_bytes(&[(64, b"ignored\0")], 512, 0);

    assert_eq!(read_descriptor_string(&descriptor, PRODUCT_ID_OFFSET_FIELD), "");
}

#[test]
fn recognizes_not_found_messages() {
    assert!(is_not_found_message(
        "The system cannot find the file specified."
    ));
    assert!(is_not_found_message("device not found"));
    assert!(is_not_found_message("Не удается найти указанный файл."));
    assert!(is_not_found_message("Устройство не найдено."));
    assert!(!is_not_found_message("Access is denied."));
}

#[test]
fn converts_sectors_to_bytes() {
    assert_eq!(sectors_to_bytes(1953525168), 1_000_204_886_016);
}

#[test]
fn converts_sectors_to_bytes_saturates_on_overflow() {
    assert_eq!(sectors_to_bytes(u64::MAX), u64::MAX);
}

#[test]
fn names_physical_drives() {
    assert_eq!(physical_drive_path(0), r"\\.\PhysicalDrive0");
    assert_eq!(physical_drive_path(31), r"\\.\PhysicalDrive31");
}

#[test]
fn keeps_only_the_returned_descriptor_bytes() {
    let output = vec![7u8; 64];
    assert_eq!(storage_descriptor(&output, 48).unwrap().len(), 48);
    assert_eq!(
        storage_descriptor(&output, 39).unwrap_err(),
        "IOCTL_STORAGE_QUERY_PROPERTY returned a short descriptor"
    );
}

#[test]
fn classifies_physical_drive_queries() {
    let descriptor = descriptor_bytes(&[(64, b"Model X\0"), (80, b" SN1 \0")], 64, 80);
    let disk = query_physical_drive(2, None, Ok(descriptor.clone()), None)
        .unwrap()
        .unwrap();
    assert_eq!(disk.name, r"\\.\PhysicalDrive2");
    assert_eq!(disk.model, "Model X");
    assert_eq!(disk.serial_number, "SN1");
    assert_eq!(disk.size, 0);
    let missing = query_physical_drive(
        3,
        Some("The system cannot find the file specified.".to_string()),
        Ok(descriptor.clone()),
        Some(5),
    );
    assert!(missing.unwrap().is_none());
    let denied = query_physical_drive(4, Some("Access is denied.".to_string()), Ok(descriptor), None);
    assert_eq!(denied.unwrap_err(), "Access is denied.");
    let failed = query_physical_drive(5, None, Err("ioctl failed".to_string()), Some(1));
    assert_eq!(failed.unwrap_err(), "ioctl failed");
}

fn disk(name: &str) -> DiskInfo {
    DiskInfo {
        name: name.to_string(),
        model: String::new(),
        serial_number: String::new(),
        size: 1,
    }
}

#[test]
fn gathers_physical_drives_or_their_errors() {
    let disks = get_physical_storage(vec![Ok(None), Ok(Some(disk("a"))), Err("x".to_string())])
        .unwrap();
    assert_eq!(disks.len(), 1);
    assert_eq!(disks[0].name, "a");
    assert_eq!(
        get_physical_storage(vec![Err("x".to_string()), Ok(None), Err("y".to_string())])
            .unwrap_err(),
        "PhysicalDrive0: x; PhysicalDrive2: y"
    );
    assert_eq!(
        get_physical_storage(vec![Ok(None), Ok(None)]).unwrap_err(),
        "no physical drives were found"
    );
}

#[test]
fn reads_sysfs_attributes() {
    assert_eq!(read_sysfs_string(&Some("  WDC  \n".to_string())).as_deref(), Some("WDC"));
    assert_eq!(read_sysfs_string(&Some(" \n".to_string())), None);
    assert_eq!(read_sysfs_string(&None), None);
    assert_eq!(read_sysfs_u64(&Some("1953525168\n".to_string())), Some(1953525168));
    assert_eq!(read_sysfs_u64(&Some("big".to_string())), None);
}

#[test]
fn lists_block_devices_sorted_by_path() {
    let devices = vec![
        BlockDevice {
            name: "sdb".to_string(),
            model: Some("Disk B\n".to_string()),
            serial: None,
            size: Some("2\n".to_string()),
        },
        BlockDevice {
            name: "nvme0n1".to_string(),
            model: None,
            serial: Some(" S1 ".to_string()),
            size: Some("junk".to_string()),
        },
    ];
    let disks = get_storage(&devices).unwrap();
    assert_eq!(disks[0].name, "/dev/nvme0n1");
    assert_eq!(disks[0].serial_number, "S1");
    assert_eq!(disks[0].size, 0);
    assert_eq!(disks[1].name, "/dev/sdb");
    assert_eq!(disks[1].model, "Disk B");
    assert_eq!(disks[1].size, 1024);
    assert_eq!(get_storage(&Vec::new()).unwrap_err(), "no physical drives were found");
}

#[test]
fn splits_logical_drive_strings() {
    let buffer: Vec<u16> = "C:\\\0D:\\\0\0\0".encode_utf16().collect();
    let drives = hardware_info::hw::storage::logical_drive_strings(&buffer);
    let texts: Vec<String> = drives.iter().map(|d| String::from_utf16_lossy(d)).collect();
    assert_eq!(texts, vec!["C:\\".to_string(), "D:\\".to_string()]);
    assert!(hardware_info::hw::storage::logical_drive_strings(&[0, 0]).is_empty());
}

#[test]
fn describes_logical_volumes() {
    let mut label = [0u8; 16];
    label[..6].copy_from_slice(b"System");
    let mut fs = [0u8; 8];
    fs[..4].copy_from_slice(b"NTFS");
    let disk = hardware_info::hw::storage::logical_disk(&label, &fs, 305419896, 512);
    assert_eq!(disk.name, "System");
    assert_eq!(disk.model, "NTFS");
    assert_eq!(disk.serial_number, "305419896");
    assert_eq!(disk.size, 512);
    assert_eq!(hardware_info::hw::storage::nul_padded_text(b"\0\0x\0y\0"), "x\0y");
}
