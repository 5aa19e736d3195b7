use hardware_info::hw::memory::{
    get_memory_info, memory_device_size_mb, memory_device_speed_mts, memory_type_name,
    parse_memory_devices, parse_memory_info_from_smbios,
};
use hardware_info::hw::smbios::parse_smbios_structures;

fn memory_table() -> Vec<u8> {
    let mut table = vec![
        0x11, 0x1c, 0x03, 0x00, 0xff, 0xff, 0xff, 0xff, 0x40, 0x00, 0x40, 0x00, 0x00, 0x40, 0x09,
        0x00, 0x01, 0x02, 0x1a, 0x80, 0x00, 0xa0, 0x0f, 0x03, 0x04, 0x00, 0x05, 0x01,
    ];
    table.extend_from_slice(b"DIMM_A1\0BANK 0\0Kingston\0SN42\0KF3200\0\0");
    table.extend_from_slice(&[0x7f, 0x04, 0x00, 0x00, 0x00, 0x00]);
    table
}

#[test]
fn decodes_memory_devices() {
    let devices = parse_memory_devices(&memory_table());
    assert_eq!(devices.len(), 1);
    let m = &devices[0];
    assert_eq!(m.memory_type, "DDR4");
    assert_eq!(m.capacity, 16384);
    assert_eq!(m.clock_speed, 4000);
    assert_eq!(m.vendor.as_deref(), Some("Kingston"));
    assert_eq!(m.manufacturer.as_deref(), Some("Kingston"));
    assert_eq!(m.serial_number.as_deref(), Some("SN42"));
    assert_eq!(m.part_number.as_deref(), Some("KF3200"));
    assert_eq!(m.device_locator.as_deref(), Some("DIMM_A1"));
    assert_eq!(m.bank_locator.as_deref(), Some("BANK 0"));
}

#[test]
fn reads_size_and_speed_words() {
    let structures = parse_smbios_structures(&memory_table());
    assert_eq!(memory_device_size_mb(&structures[0]), Some(16384));
    assert_eq!(memory_device_speed_mts(&structures[0]), Some(4000));
}

#[test]
fn names_memory_types() {
    assert_eq!(memory_type_name(0x1a), "DDR4");
    assert_eq!(memory_type_name(0x22), "DDR5");
    assert_eq!(memory_type_name(0x12), "DDR");
}

#[test]
fn decodes_windows_record() {
    let table = memory_table();
    let mut raw = vec![0, 3, 4, 0];
    raw.extend_from_slice(&(table.len() as u32).to_le_bytes());
    raw.extend_from_slice(&table);
    assert_eq!(parse_memory_info_from_smbios(&raw).unwrap().len(), 1);
    assert!(parse_memory_info_from_smbios(&raw[..4]).is_err());
}

#[test]
fn prefers_dmi_modules_then_meminfo() {
    let from_dmi = get_memory_info(&Ok(memory_table()), &Err("unused".to_string())).unwrap();
    assert_eq!(from_dmi[0].capacity, 16384);

    let meminfo = "MemTotal:       32768000 kB\nMemFree: 1 kB\n".to_string();
    let fallback = get_memory_info(&Err("no dmi".to_string()), &Ok(meminfo)).unwrap();
    assert_eq!(fallback.len(), 1);
    assert_eq!(fallback[0].memory_type, "Unknown");
    assert_eq!(fallback[0].capacity, 32000);
    assert_eq!(fallback[0].clock_speed, 0);
    assert!(fallback[0].vendor.is_none());

    let huge = "MemTotal: 999999999999 kB\n".to_string();
    assert_eq!(get_memory_info(&Ok(vec![]), &Ok(huge)).unwrap()[0].capacity, u16::MAX);

    assert_eq!(
        get_memory_info(&Ok(vec![]), &Ok("MemFree: 1 kB\n".to_string())).unwrap_err(),
        "MemTotal not found in /proc/meminfo"
    );
    assert_eq!(
        get_memory_info(&Ok(vec![]), &Err("denied".to_string())).unwrap_err(),
        "cannot read /proc/meminfo: denied"
    );
}
