//! Hardware information collection: the decoding of firmware tables (SMBIOS,
//! EDID), kernel text interfaces and driver answers into typed records.

pub mod text;
pub mod hw;
pub mod error;
pub mod types;
pub mod platform;

pub use error::{HardwareInfoError, Result};
pub use types::{CpuArchitecture, CpuInfo, DiskInfo, DiskKind, HardwareInfo, MemoryInfo, OsInfo};

use vstd::prelude::*;

verus! {

/// Collects a snapshot of the machine on a platform without a collector:
/// an error naming the platform.
pub fn get_hardware_info(platform: &'static str) -> (r: Result<HardwareInfo>)
    ensures
        r matches Err(HardwareInfoError::PlatformUnsupported(p)) && p == platform,
{
    platform::unsupported::collect(platform)
}

} // verus!
