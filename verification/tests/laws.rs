use hardware_info::hw::cpu::normalize_cpu_brand;
use hardware_info::hw::display::{
    bytes_to_hex, edid_manufacturer_id, utf16_null_terminated_to_string, wide_null_terminated,
};
use hardware_info::hw::gpu::normalize_gpu_name;
use hardware_info::hw::smbios::{join_non_empty, parse_smbios_structures};
use hardware_info::hw::sort::sort_by_name;
use hardware_info::hw::storage::DiskInfo;

#[test]
fn appended_bytes_after_end_marker_change_nothing() {
    let table = vec![
        0x01, 0x04, 0x00, 0x00, 0x00, 0x00, 0x7f, 0x04, 0x01, 0x00, 0x00, 0x00,
    ];
    let mut longer = table.clone();
    longer.extend_from_slice(&[0x02, 0x04, 0x02, 0x00, 0x00, 0x00]);
    let a = parse_smbios_structures(&table);
    let b = parse_smbios_structures(&longer);
    assert_eq!(a.len(), 1);
    assert_eq!(b.len(), 1);
    assert_eq!(a[0].structure_type, b[0].structure_type);
}

#[test]
fn words_are_little_endian() {
    let table = [0x02, 0x08, 0x00, 0x00, 0xcd, 0xab, 0x00, 0x00, 0x00, 0x00];
    let s = &parse_smbios_structures(&table)[0];
    let w = s.formatted_word(4).unwrap();
    assert_eq!(w, 0xab * 256 + 0xcd);
    assert_eq!(s.formatted_byte(4), Some((w % 256) as u8));
}

#[test]
fn joining_ignores_empty_values() {
    let all = ["x".to_string(), String::new(), "y".to_string(), String::new()];
    let kept = ["x".to_string(), "y".to_string()];
    assert_eq!(join_non_empty(&all), join_non_empty(&kept));
}

#[test]
fn normalizing_twice_is_normalizing_once() {
    let once = normalize_cpu_brand("\t Intel(R) Xeon(R) \n");
    assert_eq!(normalize_cpu_brand(&once), once);
    let gpu = normalize_gpu_name("NVIDIA GeForce RTX 4090 Ti");
    assert_eq!(normalize_gpu_name(&gpu), gpu);
}

#[test]
fn manufacturer_id_unpacks_packed_letters() {
    for (a, b, c) in [(1u16, 1u16, 1u16), (26, 26, 26), (4, 5, 12)] {
        let word = (a << 10) | (b << 5) | c;
        let mut edid = vec![0u8; 10];
        edid[8] = (word >> 8) as u8;
        edid[9] = (word & 0xff) as u8;
        let expected: String = [a, b, c].iter().map(|&x| (64 + x as u8) as char).collect();
        assert_eq!(edid_manufacturer_id(&edid), Some(expected));
    }
}

#[test]
fn hex_of_concatenation_is_concatenated_hex() {
    let a = [0x01u8, 0xfe];
    let b = [0x7fu8];
    let both = [0x01u8, 0xfe, 0x7f];
    assert_eq!(bytes_to_hex(&both), format!("{}{}", bytes_to_hex(&a), bytes_to_hex(&b)));
    assert_eq!(bytes_to_hex(&both).len(), 2 * both.len());
}

#[test]
fn wide_strings_read_back() {
    for text in ["PhysicalDrive0", "Écran 𝄞", ""] {
        assert_eq!(utf16_null_terminated_to_string(&wide_null_terminated(text)), text.trim());
    }
}

#[test]
fn sorting_orders_and_keeps_every_item() {
    let disks = vec![
        DiskInfo { name: "/dev/sdb".to_string(), model: "2".to_string(), serial_number: String::new(), size: 2 },
        DiskInfo { name: "/dev/nvme0n1".to_string(), model: "1".to_string(), serial_number: String::new(), size: 1 },
        DiskInfo { name: "/dev/sda".to_string(), model: "3".to_string(), serial_number: String::new(), size: 3 },
    ];
    let sorted = sort_by_name(disks);
    let names: Vec<&str> = sorted.iter().map(|d| d.name.as_str()).collect();
    assert_eq!(names, vec!["/dev/nvme0n1", "/dev/sda", "/dev/sdb"]);
}
