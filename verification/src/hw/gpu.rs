//! Graphics adapters: NVIDIA GPUs as NVML reports them, and the merging of
//! NVML readings into adapters found another way.

use crate::hw::{opt_text, owned, HwResult};
use crate::hw::display::{ascii_lower, lower_ascii, utf16_lossy, nul_from, utf16_null_terminated_to_string};
use crate::text::{push_char, same_chars, trim};
use crate::text::{chars_of, push_decimal, decimal_text, string_of};
use vstd::prelude::*;
use nvml_wrapper::{Device, Nvml};
use nvml_wrapper::enum_wrappers::device::TemperatureSensor;

verus! {

#[verifier::external_type_specification]
#[verifier::external_body]
pub struct ExNvml(Nvml);

#[verifier::external_type_specification]
#[verifier::external_body]
pub struct ExDevice<'nvml>(Device<'nvml>);

/// Calls `Nvml::init`, turning its error into its message. Nothing is claimed:
/// whether the NVML library loads depends on the machine.
#[verifier::external_body]
fn nvml_init() -> (r: Result<Nvml, String>) {
    Nvml::init().map_err(|error| error.to_string())
}

/// Calls `Nvml::device_count`. Nothing is claimed: the count is the machine's.
#[verifier::external_body]
fn nvml_device_count(nvml: &Nvml) -> (r: Result<u32, String>) {
    nvml.device_count().map_err(|error| error.to_string())
}

/// Calls `Nvml::sys_driver_version`, keeping the version when there is one.
/// Nothing is claimed: the version is the machine's.
#[verifier::external_body]
fn nvml_driver_version(nvml: &Nvml) -> (r: Option<String>) {
    nvml.sys_driver_version().ok()
}

/// Calls `Nvml::device_by_index`. Nothing is claimed.
#[verifier::external_body]
fn nvml_device_by_index<'a>(nvml: &'a Nvml, index: u32) -> (r: Result<Device<'a>, String>) {
    nvml.device_by_index(index).map_err(|error| error.to_string())
}

/// Calls `Device::memory_info`, keeping its total, used and free bytes when
/// the device answers. Nothing is claimed: the readings are the device's.
#[verifier::external_body]
fn nvml_device_memory(device: &Device) -> (r: Option<(u64, u64, u64)>) {
    device.memory_info().ok().map(|memory| (memory.total, memory.used, memory.free))
}

/// Calls `Device::utilization_rates`, keeping its GPU and memory percentages
/// when the device answers. Nothing is claimed.
#[verifier::external_body]
fn nvml_device_utilization(device: &Device) -> (r: Option<(u32, u32)>) {
    device.utilization_rates().ok().map(|rates| (rates.gpu, rates.memory))
}

/// Calls `Device::name`. Nothing is claimed.
#[verifier::external_body]
fn nvml_device_name(device: &Device) -> (r: Result<String, String>) {
    device.name().map_err(|error| error.to_string())
}

/// Calls `Device::temperature` for the GPU die sensor, keeping the reading
/// when there is one. Nothing is claimed.
#[verifier::external_body]
fn nvml_device_temperature(device: &Device) -> (r: Option<u32>) {
    device.temperature(TemperatureSensor::Gpu).ok()
}

/// Calls `Device::power_usage` (milliwatts), keeping the reading when there
/// is one. Nothing is claimed.
#[verifier::external_body]
fn nvml_device_power_usage(device: &Device) -> (r: Option<u32>) {
    device.power_usage().ok()
}

/// What NVML reports of one device.
#[derive(Debug)]
pub struct NvmlGpuInfo {
    pub name: String,
    pub memory_total: Option<u64>,
    pub memory_used: Option<u64>,
    pub memory_free: Option<u64>,
    pub temperature_celsius: Option<u32>,
    pub utilization_gpu_percent: Option<u32>,
    pub utilization_memory_percent: Option<u32>,
    pub power_usage_milliwatts: Option<u32>,
}

/// A graphics adapter.
#[derive(Debug)]
pub struct GpuInfo {
    pub name: String,
    /// Video memory in bytes.
    pub virtual_ram: u64,
    pub vendor: Option<String>,
    pub vendor_id: Option<u32>,
    pub device_id: Option<u32>,
    pub dedicated_video_memory: Option<u64>,
    pub dedicated_system_memory: Option<u64>,
    pub shared_system_memory: Option<u64>,
    pub is_software: Option<bool>,
    pub driver_version: Option<String>,
    pub memory_used: Option<u64>,
    pub memory_free: Option<u64>,
    pub temperature_celsius: Option<u32>,
    pub utilization_gpu_percent: Option<u32>,
    pub utilization_memory_percent: Option<u32>,
    pub power_usage_milliwatts: Option<u32>,
}

/// The content of `GpuInfo` as mathematical values.
pub struct GpuInfoView {
    pub name: Seq<char>,
    pub virtual_ram: u64,
    pub vendor: Option<Seq<char>>,
    pub vendor_id: Option<u32>,
    pub device_id: Option<u32>,
    pub dedicated_video_memory: Option<u64>,
    pub dedicated_system_memory: Option<u64>,
    pub shared_system_memory: Option<u64>,
    pub is_software: Option<bool>,
    pub driver_version: Option<Seq<char>>,
    pub memory_used: Option<u64>,
    pub memory_free: Option<u64>,
    pub temperature_celsius: Option<u32>,
    pub utilization_gpu_percent: Option<u32>,
    pub utilization_memory_percent: Option<u32>,
    pub power_usage_milliwatts: Option<u32>,
}

impl View for GpuInfo {
    type V = GpuInfoView;

    open spec fn view(&self) -> GpuInfoView {
        GpuInfoView {
            name: self.name@,
            virtual_ram: self.virtual_ram,
            vendor: opt_text(self.vendor),
            vendor_id: self.vendor_id,
            device_id: self.device_id,
            dedicated_video_memory: self.dedicated_video_memory,
            dedicated_system_memory: self.dedicated_system_memory,
            shared_system_memory: self.shared_system_memory,
            is_software: self.is_software,
            driver_version: opt_text(self.driver_version),
            memory_used: self.memory_used,
            memory_free: self.memory_free,
            temperature_celsius: self.temperature_celsius,
            utilization_gpu_percent: self.utilization_gpu_percent,
            utilization_memory_percent: self.utilization_memory_percent,
            power_usage_milliwatts: self.power_usage_milliwatts,
        }
    }
}

/// The PCI vendor id of NVIDIA.
pub const NVIDIA_VENDOR_ID: u32 = 0x10de;

/// The adapter record of an NVML device: an NVIDIA GPU whose video memory is
/// the reported total (0 when unknown).
pub open spec fn gpu_of_nvml(driver: Option<Seq<char>>, d: NvmlGpuInfo) -> GpuInfoView {
    let total = match d.memory_total {
        Some(t) => t,
        None => 0,
    };
    GpuInfoView {
        name: d.name@,
        virtual_ram: total,
        vendor: Some("NVIDIA"@),
        vendor_id: Some(NVIDIA_VENDOR_ID),
        device_id: None,
        dedicated_video_memory: Some(total),
        dedicated_system_memory: None,
        shared_system_memory: None,
        is_software: None,
        driver_version: driver,
        memory_used: d.memory_used,
        memory_free: d.memory_free,
        temperature_celsius: d.temperature_celsius,
        utilization_gpu_percent: d.utilization_gpu_percent,
        utilization_memory_percent: d.utilization_memory_percent,
        power_usage_milliwatts: d.power_usage_milliwatts,
    }
}

/// The mathematical content of a list of adapters.
pub open spec fn gpu_views(gpus: Seq<GpuInfo>) -> Seq<GpuInfoView> {
    gpus.map_values(|g: GpuInfo| g@)
}

/// The adapter records of NVML devices read with driver version `driver`.
pub open spec fn nvml_gpu_views(driver: Option<Seq<char>>, devices: Seq<NvmlGpuInfo>) -> Seq<
    GpuInfoView,
> {
    devices.map_values(|d: NvmlGpuInfo| gpu_of_nvml(driver, d))
}

/// The adapter records of the NVML devices, in device order.
pub fn gpus_from_nvml(driver_version: &Option<String>, devices: &Vec<NvmlGpuInfo>) -> (r: Vec<
    GpuInfo,
>)
    ensures
        gpu_views(r@) == nvml_gpu_views(opt_text(*driver_version), devices@),
{
    let mut gpus: Vec<GpuInfo> = Vec::new();
    let mut i: usize = 0;
    while i < devices.len()
        invariant
            i <= devices.len(),
            gpu_views(gpus@) == nvml_gpu_views(opt_text(*driver_version), devices@.take(i as int)),
        decreases devices.len() - i,
    {
        let d = &devices[i];
        let total = match d.memory_total {
            Some(t) => t,
            None => 0,
        };
        let driver = match driver_version {
            Some(v) => Some(v.clone()),
            None => None,
        };
        let g = GpuInfo {
            name: d.name.clone(),
            virtual_ram: total,
            vendor: Some(owned("NVIDIA")),
            vendor_id: Some(NVIDIA_VENDOR_ID),
            device_id: None,
            dedicated_video_memory: Some(total),
            dedicated_system_memory: None,
            shared_system_memory: None,
            is_software: None,
            driver_version: driver,
            memory_used: d.memory_used,
            memory_free: d.memory_free,
            temperature_celsius: d.temperature_celsius,
            utilization_gpu_percent: d.utilization_gpu_percent,
            utilization_memory_percent: d.utilization_memory_percent,
            power_usage_milliwatts: d.power_usage_milliwatts,
        };
        let ghost before = gpus@;
        assert(g@ == gpu_of_nvml(opt_text(*driver_version), devices@[i as int]));
        gpus.push(g);
        assert(gpu_views(gpus@) =~= gpu_views(before).push(g@));
        assert(nvml_gpu_views(opt_text(*driver_version), devices@.take(i + 1)) =~= nvml_gpu_views(
            opt_text(*driver_version),
            devices@.take(i as int),
        ).push(g@));
        i += 1;
    }
    assert(devices@.take(devices@.len() as int) =~= devices@);
    gpus
}

/// `<prefix><n><suffix><message>`.
fn numbered_message(prefix: &str, n: u32, suffix: &str, message: &str) -> (r: String)
    ensures
        r@ == prefix@ + decimal_text(n as nat) + suffix@ + message@,
{
    let mut text = owned(prefix);
    push_decimal(&mut text, n);
    let text = text.concat(suffix);
    text.concat(message)
}

/// Whether `e` is one of the messages that reading NVML fails with, for the
/// outside message `m` and the device number `n`.
pub open spec fn nvml_error_with(e: Seq<char>, m: Seq<char>, n: nat) -> bool {
    ||| e == "cannot initialize NVML: "@ + m
    ||| e == "cannot get GPU count: "@ + m
    ||| e == "cannot access GPU #"@ + decimal_text(n) + ": "@ + m
    ||| e == "cannot get GPU #"@ + decimal_text(n) + " name: "@ + m
}

/// The messages that reading NVML can fail with.
pub open spec fn nvml_error(e: Seq<char>) -> bool {
    exists|m: Seq<char>, n: nat| #[trigger] nvml_error_with(e, m, n)
}

/// Whether the readings of a device come in the groups NVML gives them in:
/// the memory total, used and free amounts are all known or all unknown, and
/// so are the GPU and memory utilization percentages.
pub open spec fn nvml_readings_paired(d: NvmlGpuInfo) -> bool {
    &&& d.memory_total is Some == d.memory_used is Some
    &&& d.memory_total is Some == d.memory_free is Some
    &&& d.utilization_gpu_percent is Some == d.utilization_memory_percent is Some
}

/// The record of one NVML device from its readings: its name, its memory
/// information (total, used, free), its utilization rates (GPU, memory),
/// its temperature and its power usage, each when the device gave it.
pub fn nvml_gpu_info(
    name: String,
    memory: Option<(u64, u64, u64)>,
    utilization: Option<(u32, u32)>,
    temperature_celsius: Option<u32>,
    power_usage_milliwatts: Option<u32>,
) -> (r: NvmlGpuInfo)
    ensures
        r.name@ == name@,
        r.memory_total == match memory {
            Some((total, _, _)) => Some(total),
            None => None,
        },
        r.memory_used == match memory {
            Some((_, used, _)) => Some(used),
            None => None,
        },
        r.memory_free == match memory {
            Some((_, _, free)) => Some(free),
            None => None,
        },
        r.utilization_gpu_percent == match utilization {
            Some((gpu, _)) => Some(gpu),
            None => None,
        },
        r.utilization_memory_percent == match utilization {
            Some((_, mem)) => Some(mem),
            None => None,
        },
        r.temperature_celsius == temperature_celsius,
        r.power_usage_milliwatts == power_usage_milliwatts,
        nvml_readings_paired(r),
{
    let (memory_total, memory_used, memory_free) = match memory {
        Some((total, used, free)) => (Some(total), Some(used), Some(free)),
        None => (None, None, None),
    };
    let (utilization_gpu_percent, utilization_memory_percent) = match utilization {
        Some((gpu, mem)) => (Some(gpu), Some(mem)),
        None => (None, None),
    };
    NvmlGpuInfo {
        name,
        memory_total,
        memory_used,
        memory_free,
        temperature_celsius,
        utilization_gpu_percent,
        utilization_memory_percent,
        power_usage_milliwatts,
    }
}

/// Whether `e` is the message of a failed read of one of the devices
/// numbered below `count`.
pub open spec fn nvml_device_error(e: Seq<char>, count: u32) -> bool {
    exists|m: Seq<char>, n: nat|
        #![trigger nvml_error_with(e, m, n)]
        n < count && (e == "cannot access GPU #"@ + decimal_text(n) + ": "@ + m || e
            == "cannot get GPU #"@ + decimal_text(n) + " name: "@ + m)
}

/// Reads the devices numbered 0 to `count - 1`, in that order: one record
/// per device, each with its readings in NVML's groups, or the message of
/// the first device that could not be accessed or named.
pub fn read_nvml_devices(nvml: &Nvml, count: u32) -> (r: HwResult<Vec<NvmlGpuInfo>>)
    ensures
        r matches Err(e) ==> nvml_device_error(e@, count) && nvml_error(e@),
        r matches Ok(devices) ==> devices@.len() == count && forall|k: int|
            0 <= k < devices@.len() ==> nvml_readings_paired(#[trigger] devices@[k]),
{
    let mut devices: Vec<NvmlGpuInfo> = Vec::new();
    let mut i: u32 = 0;
    while i < count
        invariant
            i <= count,
            devices@.len() == i,
            forall|k: int| 0 <= k < devices@.len() ==> nvml_readings_paired(#[trigger] devices@[k]),
        decreases count - i,
    {
        let device = match nvml_device_by_index(nvml, i) {
            Ok(d) => d,
            Err(m) => {
                let e = numbered_message("cannot access GPU #", i, ": ", m.as_str());
                assert(e@ == "cannot access GPU #"@ + decimal_text(i as nat) + ": "@ + m@);
                assert(nvml_error_with(e@, m@, i as nat));
                return Err(e);
            },
        };
        let memory = nvml_device_memory(&device);
        let utilization = nvml_device_utilization(&device);
        let name = match nvml_device_name(&device) {
            Ok(n) => n,
            Err(m) => {
                let e = numbered_message("cannot get GPU #", i, " name: ", m.as_str());
                assert(e@ == "cannot get GPU #"@ + decimal_text(i as nat) + " name: "@ + m@);
                assert(nvml_error_with(e@, m@, i as nat));
                return Err(e);
            },
        };
        let info = nvml_gpu_info(
            name,
            memory,
            utilization,
            nvml_device_temperature(&device),
            nvml_device_power_usage(&device),
        );
        devices.push(info);
        i += 1;
    }
    Ok(devices)
}

/// Reads the driver version, the device count and every device from NVML:
/// an NVML error message, or the count NVML reported with one record per
/// device numbered 0 to count - 1, in that order, each with its readings in
/// NVML's groups. What NVML reports is the machine's.
pub fn collect_nvml_device_info() -> (r: HwResult<(Option<String>, u32, Vec<NvmlGpuInfo>)>)
    ensures
        r matches Err(e) ==> nvml_error(e@),
        r matches Ok((_, count, devices)) ==> devices@.len() == count && forall|k: int|
            0 <= k < devices@.len() ==> nvml_readings_paired(#[trigger] devices@[k]),
{
    let nvml = match nvml_init() {
        Ok(n) => n,
        Err(m) => {
            let e = owned("cannot initialize NVML: ").concat(m.as_str());
            assert(nvml_error_with(e@, m@, 0));
            return Err(e);
        },
    };
    let count = match nvml_device_count(&nvml) {
        Ok(c) => c,
        Err(m) => {
            let e = owned("cannot get GPU count: ").concat(m.as_str());
            assert(nvml_error_with(e@, m@, 0));
            return Err(e);
        },
    };
    let driver_version = nvml_driver_version(&nvml);
    let devices = read_nvml_devices(&nvml, count)?;
    Ok((driver_version, count, devices))
}

/// Every adapter record made from NVML is an NVIDIA adapter whose video
/// memory is its dedicated memory, carrying the driver version of the read.
pub proof fn lemma_nvml_gpus_are_nvidia(driver: Option<Seq<char>>, devices: Seq<NvmlGpuInfo>)
    ensures
        nvml_gpu_views(driver, devices).len() == devices.len(),
        forall|i: int|
            0 <= i < devices.len() ==> {
                let g = #[trigger] nvml_gpu_views(driver, devices)[i];
                &&& g.name == devices[i].name@
                &&& g.vendor == Some("NVIDIA"@)
                &&& g.vendor_id == Some(NVIDIA_VENDOR_ID)
                &&& g.dedicated_video_memory == Some(g.virtual_ram)
                &&& g.driver_version == driver
            },
{
}

/// An adapter record made from an NVML device carries the device's own
/// readings: its memory total as video memory (0 when unknown), its used
/// and free memory, temperature, utilization rates and power usage, each
/// in its own field.
pub proof fn lemma_nvml_gpus_carry_readings(driver: Option<Seq<char>>, devices: Seq<NvmlGpuInfo>)
    ensures
        forall|i: int|
            0 <= i < devices.len() ==> {
                let g = #[trigger] nvml_gpu_views(driver, devices)[i];
                let d = devices[i];
                &&& g.virtual_ram == (if d.memory_total is Some {
                    d.memory_total->Some_0
                } else {
                    0
                })
                &&& g.memory_used == d.memory_used
                &&& g.memory_free == d.memory_free
                &&& g.temperature_celsius == d.temperature_celsius
                &&& g.utilization_gpu_percent == d.utilization_gpu_percent
                &&& g.utilization_memory_percent == d.utilization_memory_percent
                &&& g.power_usage_milliwatts == d.power_usage_milliwatts
            },
{
}

/// An adapter that takes the readings of an NVML device carries the
/// device's used and free memory, temperature, utilization rates and power
/// usage, each in its own field, and its memory total when known.
pub proof fn lemma_with_nvml_carries_readings(
    g: GpuInfoView,
    driver: Option<Seq<char>>,
    d: NvmlGpuInfo,
)
    ensures
        with_nvml(g, driver, d).memory_used == d.memory_used,
        with_nvml(g, driver, d).memory_free == d.memory_free,
        with_nvml(g, driver, d).temperature_celsius == d.temperature_celsius,
        with_nvml(g, driver, d).utilization_gpu_percent == d.utilization_gpu_percent,
        with_nvml(g, driver, d).utilization_memory_percent == d.utilization_memory_percent,
        with_nvml(g, driver, d).power_usage_milliwatts == d.power_usage_milliwatts,
        with_nvml(g, driver, d).driver_version == driver,
        d.memory_total is Some ==> with_nvml(g, driver, d).virtual_ram == d.memory_total->Some_0
            && with_nvml(g, driver, d).dedicated_video_memory == d.memory_total,
        d.memory_total is None ==> with_nvml(g, driver, d).virtual_ram == g.virtual_ram,
{
}

/// What reading the NVML GPUs can give: an NVML error message, or the
/// adapter records of some driver version and device list.
pub open spec fn nvml_gpus_outcome(r: HwResult<Vec<GpuInfo>>) -> bool {
    match r {
        Err(e) => nvml_error(e@),
        Ok(gpus) => exists|driver: Option<Seq<char>>, devices: Seq<NvmlGpuInfo>|
            #![trigger nvml_gpu_views(driver, devices)]
            gpu_views(gpus@) == nvml_gpu_views(driver, devices),
    }
}

/// The NVIDIA GPUs that NVML reports: on success, the adapter records of
/// some driver version and device list that NVML gave.
pub fn collect_nvml_gpus() -> (r: HwResult<Vec<GpuInfo>>)
    ensures
        nvml_gpus_outcome(r),
{
    let (driver_version, _, devices) = collect_nvml_device_info()?;
    let gpus = gpus_from_nvml(&driver_version, &devices);
    Ok(gpus)
}

/// Whether a character is an ASCII letter or digit.
pub open spec fn is_ascii_alnum(c: char) -> bool {
    ('0' <= c <= '9') || ('a' <= c <= 'z') || ('A' <= c <= 'Z')
}

/// The form in which adapter names are compared: the ASCII letters and
/// digits of the name, lowercased; everything else dropped.
pub open spec fn normalized_gpu_name(name: Seq<char>) -> Seq<char>
    decreases name.len(),
{
    if name.len() == 0 {
        Seq::empty()
    } else {
        let rest = normalized_gpu_name(name.drop_last());
        if is_ascii_alnum(name.last()) {
            rest.push(ascii_lower(name.last()))
        } else {
            rest
        }
    }
}

/// The name of an adapter in the form in which names are compared.
pub fn normalize_gpu_name(name: &str) -> (r: String)
    ensures
        r@ == normalized_gpu_name(name@),
{
    let chars = crate::text::chars_of(name);
    let mut r = String::new();
    let mut i: usize = 0;
    while i < chars.len()
        invariant
            i <= chars.len(),
            chars@ == name@,
            r@ == normalized_gpu_name(chars@.take(i as int)),
        decreases chars.len() - i,
    {
        assert(chars@.take(i + 1).drop_last() =~= chars@.take(i as int));
        let c = chars[i];
        if ('0' <= c && c <= '9') || ('a' <= c && c <= 'z') || ('A' <= c && c <= 'Z') {
            push_char(&mut r, lower_ascii(c));
        }
        i += 1;
    }
    assert(chars@.take(chars.len() as int) =~= chars@);
    r
}

/// Whether an adapter is one that NVML readings can go to: an NVIDIA adapter
/// that has none yet.
pub open spec fn awaits_nvml(g: GpuInfoView) -> bool {
    g.vendor_id == Some(NVIDIA_VENDOR_ID) && g.driver_version is None
}

/// The first adapter at or after `i` that awaits NVML readings and whose
/// name compares equal to `name`.
pub open spec fn name_match_from(gpus: Seq<GpuInfoView>, name: Seq<char>, i: int) -> Option<int>
    decreases gpus.len() - i,
{
    if i < 0 || i >= gpus.len() {
        None
    } else if awaits_nvml(gpus[i]) && normalized_gpu_name(gpus[i].name)
        == normalized_gpu_name(name) {
        Some(i)
    } else {
        name_match_from(gpus, name, i + 1)
    }
}

/// The first adapter at or after `i` that awaits NVML readings.
pub open spec fn awaiting_from(gpus: Seq<GpuInfoView>, i: int) -> Option<int>
    decreases gpus.len() - i,
{
    if i < 0 || i >= gpus.len() {
        None
    } else if awaits_nvml(gpus[i]) {
        Some(i)
    } else {
        awaiting_from(gpus, i + 1)
    }
}

/// The adapter that the readings of the NVML device `name` go to: the first
/// awaiting adapter of the same name, else the first awaiting adapter.
pub open spec fn nvml_target(gpus: Seq<GpuInfoView>, name: Seq<char>) -> Option<int> {
    match name_match_from(gpus, name, 0) {
        Some(i) => Some(i),
        None => awaiting_from(gpus, 0),
    }
}

fn awaits_nvml_readings(g: &GpuInfo) -> (r: bool)
    ensures
        r == awaits_nvml(g@),
{
    match g.vendor_id {
        Some(id) => id == NVIDIA_VENDOR_ID && g.driver_version.is_none(),
        None => false,
    }
}

/// The index of the adapter that the readings of the NVML device
/// `nvml_name` go to, if any.
pub fn find_nvml_target(gpus: &Vec<GpuInfo>, nvml_name: &str) -> (r: Option<usize>)
    ensures
        match r {
            Some(i) => nvml_target(gpu_views(gpus@), nvml_name@) == Some(i as int),
            None => nvml_target(gpu_views(gpus@), nvml_name@) is None,
        },
{
    let ghost views = gpu_views(gpus@);
    let wanted = normalize_gpu_name(nvml_name);
    let wanted_chars = crate::text::chars_of(wanted.as_str());
    let mut i: usize = 0;
    while i < gpus.len()
        invariant
            i <= gpus.len(),
            views == gpu_views(gpus@),
            wanted_chars@ == normalized_gpu_name(nvml_name@),
            name_match_from(views, nvml_name@, 0) == name_match_from(views, nvml_name@, i as int),
        decreases gpus.len() - i,
    {
        let g = &gpus[i];
        assert(views[i as int] == g@);
        if awaits_nvml_readings(g) {
            let n = normalize_gpu_name(g.name.as_str());
            let n_chars = crate::text::chars_of(n.as_str());
            if same_chars(n_chars.as_slice(), wanted_chars.as_slice()) {
                return Some(i);
            }
        }
        i += 1;
    }
    let mut j: usize = 0;
    while j < gpus.len()
        invariant
            j <= gpus.len(),
            views == gpu_views(gpus@),
            name_match_from(views, nvml_name@, 0) is None,
            awaiting_from(views, 0) == awaiting_from(views, j as int),
        decreases gpus.len() - j,
    {
        assert(views[j as int] == gpus[j as int]@);
        if awaits_nvml_readings(&gpus[j]) {
            return Some(j);
        }
        j += 1;
    }
    None
}

/// An adapter after the readings of the NVML device `d` (read with driver
/// version `driver`) went to it: a known memory total replaces the video
/// memory; the driver version and the live readings are taken over.
pub open spec fn with_nvml(g: GpuInfoView, driver: Option<Seq<char>>, d: NvmlGpuInfo) -> GpuInfoView {
    GpuInfoView {
        name: g.name,
        virtual_ram: match d.memory_total {
            Some(t) => t,
            None => g.virtual_ram,
        },
        vendor: g.vendor,
        vendor_id: g.vendor_id,
        device_id: g.device_id,
        dedicated_video_memory: match d.memory_total {
            Some(t) => Some(t),
            None => g.dedicated_video_memory,
        },
        dedicated_system_memory: g.dedicated_system_memory,
        shared_system_memory: g.shared_system_memory,
        is_software: g.is_software,
        driver_version: driver,
        memory_used: d.memory_used,
        memory_free: d.memory_free,
        temperature_celsius: d.temperature_celsius,
        utilization_gpu_percent: d.utilization_gpu_percent,
        utilization_memory_percent: d.utilization_memory_percent,
        power_usage_milliwatts: d.power_usage_milliwatts,
    }
}

/// The adapters after the readings of each NVML device, in device order,
/// went to its target adapter.
pub open spec fn enriched(gpus: Seq<GpuInfoView>, driver: Option<Seq<char>>, devices: Seq<
    NvmlGpuInfo,
>) -> Seq<GpuInfoView>
    decreases devices.len(),
{
    if devices.len() == 0 {
        gpus
    } else {
        let before = enriched(gpus, driver, devices.drop_last());
        let d = devices.last();
        match nvml_target(before, d.name@) {
            Some(i) => before.update(i, with_nvml(before[i], driver, d)),
            None => before,
        }
    }
}

fn copy_text(o: &Option<String>) -> (r: Option<String>)
    ensures
        opt_text(r) == opt_text(*o),
{
    match o {
        Some(s) => Some(s.clone()),
        None => None,
    }
}

/// Gives the readings of each NVML device to its target adapter.
pub fn enrich_gpus(gpus: &mut Vec<GpuInfo>, driver_version: &Option<String>, devices: &Vec<
    NvmlGpuInfo,
>)
    ensures
        gpu_views(final(gpus)@) == enriched(
            gpu_views(old(gpus)@),
            opt_text(*driver_version),
            devices@,
        ),
{
    let ghost start = gpu_views(gpus@);
    let ghost driver = opt_text(*driver_version);
    let mut k: usize = 0;
    while k < devices.len()
        invariant
            k <= devices.len(),
            gpu_views(gpus@) == enriched(start, driver, devices@.take(k as int)),
            driver == opt_text(*driver_version),
        decreases devices.len() - k,
    {
        assert(devices@.take(k + 1).drop_last() =~= devices@.take(k as int));
        let d = &devices[k];
        assert(devices@.take(k + 1).last() == *d);
        match find_nvml_target(gpus, d.name.as_str()) {
            Some(t) => {
                proof {
                    lemma_nvml_target_bounds(gpu_views(gpus@), d.name@);
                }
                let g = &gpus[t];
                let ng = GpuInfo {
                    name: g.name.clone(),
                    virtual_ram: match d.memory_total {
                        Some(total) => total,
                        None => g.virtual_ram,
                    },
                    vendor: copy_text(&g.vendor),
                    vendor_id: g.vendor_id,
                    device_id: g.device_id,
                    dedicated_video_memory: match d.memory_total {
                        Some(total) => Some(total),
                        None => g.dedicated_video_memory,
                    },
                    dedicated_system_memory: g.dedicated_system_memory,
                    shared_system_memory: g.shared_system_memory,
                    is_software: g.is_software,
                    driver_version: copy_text(driver_version),
                    memory_used: d.memory_used,
                    memory_free: d.memory_free,
                    temperature_celsius: d.temperature_celsius,
                    utilization_gpu_percent: d.utilization_gpu_percent,
                    utilization_memory_percent: d.utilization_memory_percent,
                    power_usage_milliwatts: d.power_usage_milliwatts,
                };
                let ghost before = gpu_views(gpus@);
                assert(ng@ == with_nvml(before[t as int], driver, *d));
                gpus.set(t, ng);
                assert(gpu_views(gpus@) =~= before.update(t as int, ng@));
            },
            None => {},
        }
        k += 1;
    }
    assert(devices@.take(devices.len() as int) =~= devices@);
}

/// Whether `after` is `before` unchanged, or enriched with the readings of
/// some driver version and device list as NVML gives them (at most
/// `u32::MAX` devices, each with its readings in NVML's groups).
pub open spec fn enrichment_of(before: Seq<GpuInfoView>, after: Seq<GpuInfoView>) -> bool {
    after == before || exists|driver: Option<Seq<char>>, devices: Seq<NvmlGpuInfo>|
        #![trigger enriched(before, driver, devices)]
        devices.len() <= u32::MAX && (forall|k: int|
            0 <= k < devices.len() ==> nvml_readings_paired(#[trigger] devices[k]))
            && after == enriched(before, driver, devices)
}

/// Adds what NVML reports to the NVIDIA adapters found another way. When
/// NVML cannot be read the adapters are left as they are.
pub fn enrich_with_nvml(gpus: &mut Vec<GpuInfo>)
    ensures
        enrichment_of(gpu_views(old(gpus)@), gpu_views(final(gpus)@)),
{
    match collect_nvml_device_info() {
        Ok((driver_version, _, devices)) => enrich_gpus(gpus, &driver_version, &devices),
        Err(_) => {},
    }
}

/// Enriching never adds, drops, renames or reorders adapters, and never
/// changes what identifies them.
pub proof fn lemma_enriched_keeps_adapters(
    gpus: Seq<GpuInfoView>,
    driver: Option<Seq<char>>,
    devices: Seq<NvmlGpuInfo>,
)
    ensures
        enriched(gpus, driver, devices).len() == gpus.len(),
        forall|i: int|
            0 <= i < gpus.len() ==> {
                let e = #[trigger] enriched(gpus, driver, devices)[i];
                &&& e.name == gpus[i].name
                &&& e.vendor == gpus[i].vendor
                &&& e.vendor_id == gpus[i].vendor_id
                &&& e.device_id == gpus[i].device_id
                &&& e.is_software == gpus[i].is_software
            },
    decreases devices.len(),
{
    if devices.len() > 0 {
        lemma_enriched_keeps_adapters(gpus, driver, devices.drop_last());
        let before = enriched(gpus, driver, devices.drop_last());
        let d = devices.last();
        lemma_nvml_target_bounds(before, d.name@);
    }
}

/// NVML readings go only to NVIDIA adapters that await them: every other
/// adapter comes out of enrichment unchanged.
pub proof fn lemma_enriched_leaves_others(
    gpus: Seq<GpuInfoView>,
    driver: Option<Seq<char>>,
    devices: Seq<NvmlGpuInfo>,
    i: int,
)
    requires
        0 <= i < gpus.len(),
        !awaits_nvml(gpus[i]),
    ensures
        enriched(gpus, driver, devices).len() == gpus.len(),
        enriched(gpus, driver, devices)[i] == gpus[i],
    decreases devices.len(),
{
    lemma_enriched_keeps_adapters(gpus, driver, devices);
    if devices.len() > 0 {
        lemma_enriched_leaves_others(gpus, driver, devices.drop_last(), i);
        let before = enriched(gpus, driver, devices.drop_last());
        lemma_nvml_target_bounds(before, devices.last().name@);
    }
}

/// Every character of a normalized name is an ASCII digit or lowercase
/// letter.
proof fn lemma_normalized_chars(name: Seq<char>)
    ensures
        forall|k: int|
            0 <= k < normalized_gpu_name(name).len() ==> is_ascii_alnum(
                #[trigger] normalized_gpu_name(name)[k],
            ) && !('A' <= normalized_gpu_name(name)[k] <= 'Z'),
    decreases name.len(),
{
    if name.len() > 0 {
        lemma_normalized_chars(name.drop_last());
        let c = name.last();
        let rest = normalized_gpu_name(name.drop_last());
        if 'A' <= c <= 'Z' {
            let l = ascii_lower(c);
            assert('a' <= l <= 'z');
        }
        assert forall|k: int| 0 <= k < normalized_gpu_name(name).len() implies is_ascii_alnum(
            #[trigger] normalized_gpu_name(name)[k],
        ) && !('A' <= normalized_gpu_name(name)[k] <= 'Z') by {
            if k < rest.len() {
                assert(normalized_gpu_name(name)[k] == rest[k]);
            }
        }
    }
}

/// A name made of ASCII digits and lowercase letters is its own normal form.
proof fn lemma_normalized_fixed(name: Seq<char>)
    requires
        forall|k: int| 0 <= k < name.len() ==> is_ascii_alnum(#[trigger] name[k]) && !('A' <= name[k] <= 'Z'),
    ensures
        normalized_gpu_name(name) == name,
    decreases name.len(),
{
    if name.len() > 0 {
        lemma_normalized_fixed(name.drop_last());
        assert(name.drop_last().push(name.last()) =~= name);
    }
}

/// Normalizing a name twice gives what normalizing it once gives.
pub proof fn lemma_normalize_gpu_name_idempotent(name: Seq<char>)
    ensures
        normalized_gpu_name(normalized_gpu_name(name)) == normalized_gpu_name(name),
{
    lemma_normalized_chars(name);
    lemma_normalized_fixed(normalized_gpu_name(name));
}

/// The target of an NVML device is an adapter of the list that awaits
/// readings.
pub proof fn lemma_nvml_target_bounds(gpus: Seq<GpuInfoView>, name: Seq<char>)
    ensures
        nvml_target(gpus, name) matches Some(i) ==> 0 <= i < gpus.len() && awaits_nvml(gpus[i]),
{
    lemma_name_match_from(gpus, name, 0);
    lemma_awaiting_from(gpus, 0);
}

proof fn lemma_name_match_from(gpus: Seq<GpuInfoView>, name: Seq<char>, i: int)
    ensures
        name_match_from(gpus, name, i) matches Some(j) ==> i <= j < gpus.len() && awaits_nvml(
            gpus[j],
        ),
    decreases gpus.len() - i,
{
    if 0 <= i < gpus.len() {
        lemma_name_match_from(gpus, name, i + 1);
    }
}

proof fn lemma_awaiting_from(gpus: Seq<GpuInfoView>, i: int)
    ensures
        awaiting_from(gpus, i) matches Some(j) ==> i <= j < gpus.len() && awaits_nvml(gpus[j]),
    decreases gpus.len() - i,
{
    if 0 <= i < gpus.len() {
        lemma_awaiting_from(gpus, i + 1);
    }
}

/// The brand of a known PCI vendor id.
pub open spec fn pci_vendor(vendor_id: u32) -> Option<Seq<char>> {
    if vendor_id == 0x10de {
        Some("NVIDIA"@)
    } else if vendor_id == 0x1002 {
        Some("AMD"@)
    } else if vendor_id == 0x8086 {
        Some("Intel"@)
    } else if vendor_id == 0x1414 {
        Some("Microsoft"@)
    } else {
        None
    }
}

/// The brand of a known PCI vendor id.
pub fn vendor_name(vendor_id: u32) -> (r: Option<&'static str>)
    ensures
        r matches Some(s) ==> pci_vendor(vendor_id) == Some(s@),
        r is None ==> pci_vendor(vendor_id) is None,
{
    proof {
        reveal_strlit("NVIDIA");
        reveal_strlit("AMD");
        reveal_strlit("Intel");
        reveal_strlit("Microsoft");
    }
    if vendor_id == 0x10de {
        Some("NVIDIA")
    } else if vendor_id == 0x1002 {
        Some("AMD")
    } else if vendor_id == 0x8086 {
        Some("Intel")
    } else if vendor_id == 0x1414 {
        Some("Microsoft")
    } else {
        None
    }
}

/// The flag of a software (emulated) adapter in a DXGI adapter description.
pub const DXGI_ADAPTER_FLAG_SOFTWARE: u32 = 2;

/// The adapter record of a DXGI adapter description: its NUL-terminated
/// UTF-16 description, PCI ids, memory sizes and flags.
pub fn gpu_from_adapter_desc(
    description: &[u16],
    vendor_id: u32,
    device_id: u32,
    dedicated_video_memory: u64,
    dedicated_system_memory: u64,
    shared_system_memory: u64,
    flags: u32,
) -> (r: GpuInfo)
    ensures
        r@ == (GpuInfoView {
            name: trim(utf16_lossy(description@.take(nul_from(description@, 0)))),
            virtual_ram: dedicated_video_memory,
            vendor: pci_vendor(vendor_id),
            vendor_id: Some(vendor_id),
            device_id: Some(device_id),
            dedicated_video_memory: Some(dedicated_video_memory),
            dedicated_system_memory: Some(dedicated_system_memory),
            shared_system_memory: Some(shared_system_memory),
            is_software: Some(flags & DXGI_ADAPTER_FLAG_SOFTWARE != 0),
            driver_version: None,
            memory_used: None,
            memory_free: None,
            temperature_celsius: None,
            utilization_gpu_percent: None,
            utilization_memory_percent: None,
            power_usage_milliwatts: None,
        }),
{
    let vendor = match vendor_name(vendor_id) {
        Some(v) => Some(owned(v)),
        None => None,
    };
    GpuInfo {
        name: utf16_null_terminated_to_string(description),
        virtual_ram: dedicated_video_memory,
        vendor,
        vendor_id: Some(vendor_id),
        device_id: Some(device_id),
        dedicated_video_memory: Some(dedicated_video_memory),
        dedicated_system_memory: Some(dedicated_system_memory),
        shared_system_memory: Some(shared_system_memory),
        is_software: Some(flags & DXGI_ADAPTER_FLAG_SOFTWARE != 0),
        driver_version: None,
        memory_used: None,
        memory_free: None,
        temperature_celsius: None,
        utilization_gpu_percent: None,
        utilization_memory_percent: None,
        power_usage_milliwatts: None,
    }
}

/// The graphics adapters given the adapters that DXGI listed: the NVML GPUs
/// when DXGI listed none, else the listed adapters with what NVML reports
/// added to the NVIDIA ones. An error of the listing is passed on.
pub fn gpus_from_adapters(adapters: HwResult<Vec<GpuInfo>>) -> (r: HwResult<Vec<GpuInfo>>)
    ensures
        match adapters {
            Err(e) => r == Err::<Vec<GpuInfo>, String>(e),
            Ok(a) => if a.len() == 0 {
                nvml_gpus_outcome(r)
            } else {
                r matches Ok(gpus) && enrichment_of(gpu_views(a@), gpu_views(gpus@))
            },
        },
{
    match adapters {
        Err(e) => Err(e),
        Ok(mut a) => {
            if a.len() == 0 {
                collect_nvml_gpus()
            } else {
                enrich_with_nvml(&mut a);
                Ok(a)
            }
        },
    }
}

/// The graphics adapters: here, the NVIDIA GPUs that NVML reports.
pub fn get_gpu() -> (r: HwResult<Vec<GpuInfo>>)
    ensures
        nvml_gpus_outcome(r),
{
    collect_nvml_gpus()
}

} // verus!
