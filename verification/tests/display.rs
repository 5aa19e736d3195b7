use hardware_info::hw::display::{
    bytes_to_hex, describe_drm_connector, drm_displays, edid_display_name, edid_manufacturer_id,
    edid_vendor_name, is_drm_connector, monitor_hardware_id, non_zero_byte, non_zero_u16,
    non_zero_u32, parse_edid_info, utf16_null_terminated_to_string, wide_null_terminated,
    DrmEntry,
};

/// The diagonal in inches of a screen of the given size in centimetres, as
/// the program reports it.
fn diagonal_inches(width_cm: Option<u8>, height_cm: Option<u8>) -> Option<f32> {
    let width = f32::from(width_cm?);
    let height = f32::from(height_cm?);
    let diagonal = (width * width + height * height).sqrt() / 2.54;
    Some((diagonal * 10.0).round() / 10.0)
}

fn odyssey_edid() -> Vec<u8> {
    let mut edid = vec![0; 128];
    edid[54..72].copy_from_slice(&[
        0x00, 0x00, 0x00, 0xfc, 0x00, b'O', b'd', b'y', b's', b's', b'e', b'y', b' ', b'G', b'5',
        b'2', b'A', 0x0a,
    ]);
    edid
}

#[test]
fn display_parses_edid_display_name() {
    let mut edid = vec![0; 128];
    edid[54..72].copy_from_slice(&[
        0x00, 0x00, 0x00, 0xfc, 0x00, b'O', b'd', b'y', b's', b's', b'e', b'y', b' ', b'G',
        b'5', b'2', b'A', 0x0a,
    ]);

    assert_eq!(edid_display_name(&edid), Some("Odyssey G52A".to_string()));
}

#[test]
fn display_parses_monitor_hardware_id() {
    assert_eq!(
        monitor_hardware_id(r"MONITOR\SAM71E7\{4d36e96e-e325-11ce-bfc1-08002be10318}"),
        Some("SAM71E7".to_string())
    );
    assert_eq!(
        monitor_hardware_id(
            r"\\?\DISPLAY#SAM71E7#5&22264ea&1&UID4353#{e6f07b5f-ee97-4a90-b076-33f57bf4eaa7}"
        ),
        Some("SAM71E7".to_string())
    );
}

#[test]
fn tests_parses_edid_display_name() {
    let mut edid = vec![0; 128];
    edid[54..72].copy_from_slice(&[
        0x00, 0x00, 0x00, 0xfc, 0x00, b'O', b'd', b'y', b's', b's', b'e', b'y', b' ', b'G', b'5',
        b'2', b'A', 0x0a,
    ]);

    assert_eq!(edid_display_name(&edid), Some("Odyssey G52A".to_string()));
}

#[test]
fn parses_edid_display_name_empty_when_no_descriptor() {
    let edid = vec![0; 128];
    assert_eq!(edid_display_name(&edid), None);
}

#[test]
fn parses_edid_manufacturer_id() {
    let mut edid = vec![0u8; 16];
    let value: u16 = (19 << 10) | (1 << 5) | 13;
    edid[8] = (value >> 8) as u8;
    edid[9] = (value & 0xff) as u8;

    assert_eq!(edid_manufacturer_id(&edid), Some("SAM".to_string()));
}

#[test]
fn parses_edid_info_manufacture_year() {
    let mut edid = vec![0u8; 128];
    edid[17] = 34;

    let info = parse_edid_info(&edid);
    assert_eq!(info.manufacture_year, Some(2024));
}

#[test]
fn parses_edid_info_dimensions() {
    let mut edid = vec![0u8; 128];
    edid[21] = 60;
    edid[22] = 34;

    let info = parse_edid_info(&edid);
    assert_eq!(info.width_cm, Some(60));
    assert_eq!(info.height_cm, Some(34));
    assert!(diagonal_inches(info.width_cm, info.height_cm).is_some());
}

#[test]
fn tests_parses_monitor_hardware_id() {
    assert_eq!(
        monitor_hardware_id(r"MONITOR\SAM71E7\{4d36e96e-e325-11ce-bfc1-08002be10318}"),
        Some("SAM71E7".to_string())
    );
    assert_eq!(
        monitor_hardware_id(
            r"\\?\DISPLAY#SAM71E7#5&22264ea&1&UID4353#{e6f07b5f-ee97-4a90-b076-33f57bf4eaa7}"
        ),
        Some("SAM71E7".to_string())
    );
}

#[test]
fn is_drm_connector_filters_correctly() {
    assert!(is_drm_connector("card0-DP-1"));
    assert!(is_drm_connector("card2-HDMI-A-1"));
    assert!(is_drm_connector("card10-DP-3"));
    assert!(!is_drm_connector("card0"));
    assert!(!is_drm_connector("card1"));
    assert!(!is_drm_connector("renderD128"));
}

#[test]
fn monitor_id_prefix_is_case_insensitive_and_other_ids_have_none() {
    assert_eq!(
        monitor_hardware_id(r"monitor\DEL4321\x"),
        Some("DEL4321".to_string())
    );
    assert_eq!(monitor_hardware_id(r"PCI\VEN_10DE"), None);
    assert_eq!(monitor_hardware_id("no separators"), None);
}

#[test]
fn manufacturer_id_needs_ten_bytes_and_letters() {
    assert_eq!(edid_manufacturer_id(&[0u8; 9]), None);
    assert_eq!(edid_manufacturer_id(&[0u8; 16]), None);
}

#[test]
fn resolves_known_vendor_names() {
    assert_eq!(edid_vendor_name("SAM"), Some("Samsung"));
    assert_eq!(edid_vendor_name("GSM"), Some("LG"));
    assert_eq!(edid_vendor_name("XYZ"), None);
}

#[test]
fn edid_info_names_the_vendor_or_keeps_the_id() {
    let mut edid = vec![0u8; 128];
    let value: u16 = (19 << 10) | (1 << 5) | 13;
    edid[8] = (value >> 8) as u8;
    edid[9] = (value & 0xff) as u8;
    edid[16] = 0xff;
    let info = parse_edid_info(&edid);
    assert_eq!(info.vendor, Some("Samsung".to_string()));
    assert_eq!(info.manufacturer_id, Some("SAM".to_string()));
    assert_eq!(info.product_code, Some(u16::from_le_bytes([edid[8], edid[9]])));
    assert_eq!(info.serial_number, None);
    assert_eq!(info.manufacture_week, None);
    assert_eq!(info.manufacture_year, None);
}

#[test]
fn formats_hex_and_zero_markers() {
    assert_eq!(bytes_to_hex(&[0x00, 0xab, 0x1f]), "00AB1F");
    assert_eq!(bytes_to_hex(&[]), "");
    assert_eq!(non_zero_byte(0), None);
    assert_eq!(non_zero_byte(7), Some(7));
    assert_eq!(non_zero_u16(0), None);
    assert_eq!(non_zero_u32(9), Some(9));
}

#[test]
fn decodes_nul_terminated_utf16() {
    let units: Vec<u16> = " Dell U2720Q \0junk".encode_utf16().collect();
    assert_eq!(utf16_null_terminated_to_string(&units), "Dell U2720Q");
    let no_nul: Vec<u16> = "ABC".encode_utf16().collect();
    assert_eq!(utf16_null_terminated_to_string(&no_nul), "ABC");
}

#[test]
fn builds_null_terminated_utf16_paths() {
    assert_eq!(
        wide_null_terminated(r"\\.\PhysicalDrive0"),
        r"\\.\PhysicalDrive0"
            .encode_utf16()
            .chain(std::iter::once(0))
            .collect::<Vec<_>>()
    );
    assert_eq!(
        wide_null_terminated("𝄞é"),
        "𝄞é".encode_utf16().chain(std::iter::once(0)).collect::<Vec<_>>()
    );
}

#[test]
fn describes_connected_drm_connectors_only() {
    let edid = odyssey_edid();
    let display = describe_drm_connector("card0-DP-1", "connected\n", &edid).unwrap();
    assert_eq!(display.name, "Odyssey G52A");
    assert_eq!(display.edid_hex.len(), 256);
    assert!(describe_drm_connector("card0-DP-1", "disconnected", &edid).is_none());
    assert!(describe_drm_connector("card0-DP-1", "connected", &edid[..127]).is_none());
    let unnamed = describe_drm_connector("card1-HDMI-A-2", "connected", &[0u8; 128]).unwrap();
    assert_eq!(unnamed.name, "HDMI-A-2");
}

#[test]
fn lists_drm_displays_by_name() {
    let entries = vec![
        DrmEntry {
            dir_name: "card0-HDMI-A-1".to_string(),
            status: Some("connected".to_string()),
            edid: Some(vec![0u8; 128]),
        },
        DrmEntry {
            dir_name: "card0-DP-1".to_string(),
            status: Some("connected".to_string()),
            edid: Some(vec![0u8; 128]),
        },
        DrmEntry {
            dir_name: "card0-DP-2".to_string(),
            status: None,
            edid: Some(vec![0u8; 128]),
        },
        DrmEntry {
            dir_name: "renderD128".to_string(),
            status: Some("connected".to_string()),
            edid: Some(vec![0u8; 128]),
        },
    ];
    let displays = drm_displays(&entries);
    let names: Vec<&str> = displays.iter().map(|d| d.name.as_str()).collect();
    assert_eq!(names, vec!["DP-1", "HDMI-A-1"]);
}

#[test]
fn keeps_only_weeks_one_to_fifty_three() {
    let mut edid = vec![0u8; 128];
    edid[16] = 60;
    assert_eq!(parse_edid_info(&edid).manufacture_week, None);
    edid[16] = 53;
    assert_eq!(parse_edid_info(&edid).manufacture_week, Some(53));
    edid[16] = 1;
    assert_eq!(parse_edid_info(&edid).manufacture_week, Some(1));
    edid[16] = 0;
    assert_eq!(parse_edid_info(&edid).manufacture_week, None);
}

#[test]
fn decodes_surrogates_and_replaces_lone_ones() {
    let units = vec![0xd834, 0xdd1e, 0x41, 0xdc00, 0x42, 0xd800, 0];
    assert_eq!(utf16_null_terminated_to_string(&units), "𝄞A\u{fffd}B\u{fffd}");
}

#[test]
fn product_code_is_the_word_of_bytes_eight_and_nine() {
    let mut edid = vec![0u8; 128];
    edid[10] = 1;
    assert_eq!(parse_edid_info(&edid).product_code, None);
    edid[8] = 0x34;
    edid[9] = 0x12;
    assert_eq!(parse_edid_info(&edid).product_code, Some(0x1234));
}
