use hardware_info::hw::gpu::{
    enrich_gpus, find_nvml_target, gpu_from_adapter_desc, gpus_from_adapters, gpus_from_nvml,
    normalize_gpu_name, vendor_name, GpuInfo, NvmlGpuInfo, NVIDIA_VENDOR_ID,
};

fn nvml_device(name: &str, total: Option<u64>) -> NvmlGpuInfo {
    NvmlGpuInfo {
        name: name.to_string(),
        memory_total: total,
        memory_used: Some(1),
        memory_free: Some(2),
        temperature_celsius: Some(55),
        utilization_gpu_percent: Some(7),
        utilization_memory_percent: Some(8),
        power_usage_milliwatts: Some(30_000),
    }
}

fn adapter(name: &str, vendor_id: u32, memory: u64) -> GpuInfo {
    let description: Vec<u16> = name.encode_utf16().chain(std::iter::once(0)).collect();
    gpu_from_adapter_desc(&description, vendor_id, 0x2684, memory, 0, 1 << 30, 0)
}

#[test]
fn normalizes_gpu_names() {
    assert_eq!(normalize_gpu_name("NVIDIA GeForce RTX 4090"), "nvidiageforcertx4090");
    assert_eq!(normalize_gpu_name(" Rtx-4090 (TM) "), "rtx4090tm");
    assert_eq!(normalize_gpu_name("ÄÖ"), "");
}

#[test]
fn names_pci_vendors() {
    assert_eq!(vendor_name(0x10de), Some("NVIDIA"));
    assert_eq!(vendor_name(0x1002), Some("AMD"));
    assert_eq!(vendor_name(0x8086), Some("Intel"));
    assert_eq!(vendor_name(0x1414), Some("Microsoft"));
    assert_eq!(vendor_name(0x1234), None);
}

#[test]
fn builds_adapter_records() {
    let description: Vec<u16> = " Microsoft Basic Render Driver \0\0".encode_utf16().collect();
    let gpu = gpu_from_adapter_desc(&description, 0x1414, 0x8c, 0, 0, 512, 2);
    assert_eq!(gpu.name, "Microsoft Basic Render Driver");
    assert_eq!(gpu.vendor.as_deref(), Some("Microsoft"));
    assert_eq!(gpu.vendor_id, Some(0x1414));
    assert_eq!(gpu.device_id, Some(0x8c));
    assert_eq!(gpu.is_software, Some(true));
    assert_eq!(gpu.shared_system_memory, Some(512));
    assert!(gpu.driver_version.is_none());
}

#[test]
fn turns_nvml_devices_into_adapters() {
    let gpus = gpus_from_nvml(
        &Some("550.54".to_string()),
        &vec![nvml_device("RTX A", Some(24)), nvml_device("RTX B", None)],
    );
    assert_eq!(gpus.len(), 2);
    assert_eq!(gpus[0].name, "RTX A");
    assert_eq!(gpus[0].virtual_ram, 24);
    assert_eq!(gpus[0].dedicated_video_memory, Some(24));
    assert_eq!(gpus[0].vendor.as_deref(), Some("NVIDIA"));
    assert_eq!(gpus[0].vendor_id, Some(NVIDIA_VENDOR_ID));
    assert_eq!(gpus[0].driver_version.as_deref(), Some("550.54"));
    assert_eq!(gpus[1].virtual_ram, 0);
    assert_eq!(gpus[1].temperature_celsius, Some(55));
}

#[test]
fn targets_the_nvidia_adapter_by_name_then_first() {
    let gpus = vec![
        adapter("Intel(R) UHD Graphics", 0x8086, 1),
        adapter("NVIDIA GeForce RTX 3060", 0x10de, 2),
        adapter("NVIDIA GeForce RTX 4090", 0x10de, 3),
    ];
    assert_eq!(find_nvml_target(&gpus, "NVIDIA GeForce RTX-4090"), Some(2));
    assert_eq!(find_nvml_target(&gpus, "Tesla T4"), Some(1));
    let intel_only = vec![adapter("Intel(R) UHD Graphics", 0x8086, 1)];
    assert_eq!(find_nvml_target(&intel_only, "Tesla T4"), None);
}

#[test]
fn enriches_each_nvidia_adapter_once() {
    let mut gpus = vec![
        adapter("NVIDIA GeForce RTX 3060", 0x10de, 2),
        adapter("NVIDIA GeForce RTX 4090", 0x10de, 3),
        adapter("AMD Radeon", 0x1002, 4),
    ];
    let devices = vec![
        nvml_device("NVIDIA GeForce RTX 4090", Some(24)),
        nvml_device("Unknown", None),
        nvml_device("Another", Some(9)),
    ];
    enrich_gpus(&mut gpus, &Some("551.0".to_string()), &devices);
    assert_eq!(gpus.len(), 3);
    assert_eq!(gpus[1].virtual_ram, 24);
    assert_eq!(gpus[1].dedicated_video_memory, Some(24));
    assert_eq!(gpus[1].driver_version.as_deref(), Some("551.0"));
    assert_eq!(gpus[0].virtual_ram, 2);
    assert_eq!(gpus[0].driver_version.as_deref(), Some("551.0"));
    assert_eq!(gpus[0].power_usage_milliwatts, Some(30_000));
    assert!(gpus[2].driver_version.is_none());
    assert_eq!(gpus[2].virtual_ram, 4);
}

#[test]
fn passes_on_listing_errors() {
    assert_eq!(
        gpus_from_adapters(Err("cannot create DXGI factory: x".to_string())).unwrap_err(),
        "cannot create DXGI factory: x"
    );
}

#[test]
fn keeps_adapters_when_listed() {
    let gpus = gpus_from_adapters(Ok(vec![adapter("AMD Radeon", 0x1002, 4)])).unwrap();
    assert_eq!(gpus.len(), 1);
    assert_eq!(gpus[0].name, "AMD Radeon");
    assert_eq!(gpus[0].vendor.as_deref(), Some("AMD"));
}

#[test]
fn groups_nvml_readings() {
    let info = hardware_info::hw::gpu::nvml_gpu_info(
        "RTX".to_string(),
        Some((8, 3, 5)),
        None,
        Some(40),
        None,
    );
    assert_eq!(info.name, "RTX");
    assert_eq!(info.memory_total, Some(8));
    assert_eq!(info.memory_used, Some(3));
    assert_eq!(info.memory_free, Some(5));
    assert_eq!(info.utilization_gpu_percent, None);
    assert_eq!(info.utilization_memory_percent, None);
    assert_eq!(info.temperature_celsius, Some(40));
    assert_eq!(info.power_usage_milliwatts, None);
}
