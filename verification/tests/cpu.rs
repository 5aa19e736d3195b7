use hardware_info::hw::cpu::{
    compose_cpu_identifier, cpu_max_freq_hz, get_cpu_info, mhz_to_hz, normalize_cpu_brand,
    parse_cpu_info_from_procfs, parse_cpu_info_from_procfs_with_freq, scan_cpuinfo,
};

/// The first `cpu MHz` value that reads as a number, truncated to whole MHz.
fn first_cpu_mhz(content: &str) -> Option<u64> {
    scan_cpuinfo(content)
        .mhz_values
        .iter()
        .find_map(|value| value.parse::<f64>().ok())
        .map(|mhz| mhz as u64)
}

#[test]
fn normalizes_cpu_brand_by_trimming_whitespace() {
    let raw = "  Intel(R) Core(TM) i7-14700K  ";
    let normalized = normalize_cpu_brand(raw);
    assert_eq!(normalized, "Intel(R) Core(TM) i7-14700K");
}

#[test]
fn composes_cpu_identifier_from_vendor_and_name() {
    let identifier = compose_cpu_identifier("GenuineIntel", "14th Gen Intel(R) Core(TM)");
    assert_eq!(identifier, "GenuineIntel - 14th Gen Intel(R) Core(TM)");
}

#[test]
fn converts_mhz_to_hz() {
    assert_eq!(mhz_to_hz(3200), 3_200_000_000);
}

#[test]
fn converts_mhz_to_hz_saturates_on_overflow() {
    assert_eq!(mhz_to_hz(u64::MAX), u64::MAX);
}

const THREE_LOGICAL_TWO_CORES: &str = "\
processor\t: 0
vendor_id\t: GenuineIntel
cpu family\t: 6
model\t\t: 183
model name\t:   Intel(R) Core(TM) i7-14700K
stepping\t: 1
cpu MHz\t\t: 3000.000
physical id\t: 0
core id\t\t: 0

processor\t: 1
vendor_id\t: GenuineIntel
cpu family\t: 6
model\t\t: 183
model name\t:   Intel(R) Core(TM) i7-14700K
stepping\t: 1
cpu MHz\t\t: 3000.000
physical id\t: 0
core id\t\t: 1

processor\t: 2
vendor_id\t: GenuineIntel
cpu family\t: 6
model\t\t: 183
model name\t:   Intel(R) Core(TM) i7-14700K
stepping\t: 1
cpu MHz\t\t: 3000.000
physical id\t: 0
core id\t\t: 0

";

#[test]
fn parses_cpu_info_from_procfs() {
    let content = THREE_LOGICAL_TWO_CORES;

    let cpu =
        parse_cpu_info_from_procfs_with_freq(content, None, first_cpu_mhz(content)).unwrap();

    assert_eq!(cpu.name, "Intel(R) Core(TM) i7-14700K");
    assert_eq!(cpu.identifier, "GenuineIntel - Family 6 Model 183 Stepping 1");
    assert_eq!(cpu.vendor_frequency, 3_000_000_000);
    assert_eq!(cpu.physical_processor_count, 2);
    assert!(cpu.processor_id.is_none());
}

#[test]
fn parses_cpu_info_from_procfs_max_freq_overrides_cpu_mhz() {
    let content = "\
processor\t: 0
vendor_id\t: GenuineIntel
cpu family\t: 6
model\t\t: 183
model name\t: Intel(R) Core(TM) i7-14700K
stepping\t: 1
cpu MHz\t\t: 3000.000
physical id\t: 0
core id\t\t: 0

";

    let cpu =
        parse_cpu_info_from_procfs_with_freq(content, Some(5_500_000_000), first_cpu_mhz(content))
            .unwrap();

    assert_eq!(cpu.vendor_frequency, 5_500_000_000);
}

#[test]
fn parses_cpu_info_from_procfs_without_topology() {
    let content = "\
processor\t: 0
vendor_id\t: AuthenticAMD
cpu family\t: 25
model\t\t: 97
model name\t: AMD Ryzen 9 7950X
stepping\t: 2
cpu MHz\t\t: 4500.000

processor\t: 1
vendor_id\t: AuthenticAMD
cpu family\t: 25
model\t\t: 97
model name\t: AMD Ryzen 9 7950X
stepping\t: 2
cpu MHz\t\t: 4500.000

";

    let cpu =
        parse_cpu_info_from_procfs_with_freq(content, None, first_cpu_mhz(content)).unwrap();

    assert_eq!(cpu.name, "AMD Ryzen 9 7950X");
    assert_eq!(cpu.identifier, "AuthenticAMD - Family 25 Model 97 Stepping 2");
    assert_eq!(cpu.vendor_frequency, 4_500_000_000);
    assert_eq!(cpu.physical_processor_count, 2);
}

#[test]
fn scan_keeps_every_mhz_value_in_order() {
    let scan = scan_cpuinfo("cpu MHz : fast\ncpu MHz : 1200.5\n");
    assert_eq!(scan.mhz_values, vec!["fast".to_string(), "1200.5".to_string()]);
    assert_eq!(first_cpu_mhz("cpu MHz : fast\ncpu MHz : 1200.5\n"), Some(1200));
}

#[test]
fn reports_missing_model_name() {
    let error = parse_cpu_info_from_procfs_with_freq("vendor_id : X\n", Some(1), None).unwrap_err();
    assert_eq!(error, "model name not found in /proc/cpuinfo");
}

#[test]
fn reports_unknown_frequency() {
    let error = parse_cpu_info_from_procfs_with_freq("model name : X\n", None, None).unwrap_err();
    assert_eq!(error, "cannot determine CPU frequency");
}

#[test]
fn counts_processor_lines_or_one() {
    let cpu = parse_cpu_info_from_procfs_with_freq("model name : X\n", Some(1), None).unwrap();
    assert_eq!(cpu.physical_processor_count, 1);
    assert_eq!(cpu.identifier, " - Family  Model  Stepping ");
}

#[test]
fn reads_sysfs_max_frequency_in_khz() {
    assert_eq!(cpu_max_freq_hz(" 5500000\n"), Some(5_500_000_000));
    assert_eq!(cpu_max_freq_hz("n/a"), None);
    assert_eq!(cpu_max_freq_hz("18446744073709551615"), Some(u64::MAX));
}

#[test]
fn takes_max_frequency_from_its_file_when_read() {
    let content = "model name : X\ncpu MHz : 100\n";
    let cpu = parse_cpu_info_from_procfs(content, &Ok("2000000\n".to_string()), Some(100)).unwrap();
    assert_eq!(cpu.vendor_frequency, 2_000_000_000);
    let cpu = parse_cpu_info_from_procfs(content, &Err("missing".to_string()), Some(100)).unwrap();
    assert_eq!(cpu.vendor_frequency, 100_000_000);
}

#[test]
fn reports_unreadable_cpuinfo() {
    let error = get_cpu_info(&Err("denied".to_string()), &Ok("1".to_string()), None).unwrap_err();
    assert_eq!(error, "cannot read /proc/cpuinfo: denied");
}
