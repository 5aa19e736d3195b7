use hardware_info::hw::monitors::{
    active_monitor, display_name, edid_display, plan_displays, DisplaySettings, DisplaySource,
};

fn ids(values: &[&str]) -> Vec<String> {
    values.iter().map(|v| v.to_string()).collect()
}

#[test]
fn keeps_only_full_edid_blocks() {
    assert!(edid_display("SAM71E7".to_string(), vec![0u8; 127]).is_none());
    let display = edid_display("SAM71E7".to_string(), vec![0u8; 128]).unwrap();
    assert_eq!(display.hardware_id, "SAM71E7");
    assert!(display.name.is_none());
    assert_eq!(display.edid.len(), 128);
}

#[test]
fn pairs_edid_records_with_active_monitors_by_id() {
    let plan = plan_displays(
        &ids(&["SAM71E7", "DEL4321", "GSM5B7F"]),
        &vec![Some("del4321".to_string()), None, Some("SAM71E7".to_string())],
    );
    assert_eq!(
        plan,
        vec![
            DisplaySource::Edid { edid: 0, monitor: Some(2) },
            DisplaySource::Edid { edid: 1, monitor: Some(0) },
            DisplaySource::Monitor { active: 1 },
        ]
    );
}

#[test]
fn keeps_every_edid_record_when_no_monitor_is_active() {
    let plan = plan_displays(&ids(&["A", "B"]), &Vec::new());
    assert_eq!(
        plan,
        vec![
            DisplaySource::Edid { edid: 0, monitor: None },
            DisplaySource::Edid { edid: 1, monitor: None },
        ]
    );
}

#[test]
fn lists_every_monitor_without_an_edid_record() {
    let plan = plan_displays(
        &Vec::new(),
        &vec![Some("ABC1".to_string()), Some("abc1".to_string()), Some("XYZ2".to_string())],
    );
    assert_eq!(
        plan,
        vec![
            DisplaySource::Monitor { active: 0 },
            DisplaySource::Monitor { active: 1 },
            DisplaySource::Monitor { active: 2 },
        ]
    );
    assert_eq!(plan_displays(&Vec::new(), &Vec::new()), Vec::new());
}

#[test]
fn omits_monitors_that_an_edid_record_stands_for() {
    let plan = plan_displays(
        &ids(&["ABC1"]),
        &vec![Some("abc1".to_string()), Some("ABC1".to_string()), None],
    );
    assert_eq!(
        plan,
        vec![
            DisplaySource::Edid { edid: 0, monitor: Some(0) },
            DisplaySource::Monitor { active: 2 },
        ]
    );
}

fn wide(text: &str) -> Vec<u16> {
    text.encode_utf16().chain(std::iter::once(0)).collect()
}

#[test]
fn reads_active_monitors_only() {
    let settings = DisplaySettings {
        width: 2560,
        height: 1440,
        refresh_rate_hz: 144,
        bits_per_pixel: 32,
        position_x: 0,
        position_y: 0,
    };
    let monitor = active_monitor(
        &wide(r"\\.\DISPLAY1"),
        &wide("NVIDIA GeForce RTX 4090"),
        4,
        Some(settings),
        &wide(r"\\?\DISPLAY#SAM71E7#5&22264ea&1&UID4353#{e6f07b5f}"),
        &wide("Generic PnP Monitor"),
        1,
    )
    .unwrap();
    assert_eq!(monitor.hardware_id.as_deref(), Some("SAM71E7"));
    assert_eq!(monitor.name, "Generic PnP Monitor");
    assert_eq!(monitor.adapter_name, "NVIDIA GeForce RTX 4090");
    assert_eq!(monitor.adapter_device_name, r"\\.\DISPLAY1");
    assert!(monitor.is_primary);
    assert_eq!(monitor.settings.unwrap().refresh_rate_hz, 144);
    assert!(active_monitor(&wide("a"), &wide("b"), 4, None, &wide("c"), &wide("d"), 2).is_none());
}

#[test]
fn names_edid_displays() {
    let unnamed = edid_display("DEL4321".to_string(), vec![0u8; 128]).unwrap();
    let monitors = vec![active_monitor(
        &wide("a"),
        &wide("b"),
        0,
        None,
        &wide(r"MONITOR\DEL4321\x"),
        &wide("Dell U2720Q"),
        1,
    )
    .unwrap()];
    assert_eq!(display_name(&unnamed, &monitors, Some(0)), "Dell U2720Q");
    assert_eq!(display_name(&unnamed, &monitors, None), "DEL4321");
}
