//! Platforms without a collector.

use crate::error::{HardwareInfoError, Result};
use crate::types::{HardwareInfo, OsInfo};
use vstd::prelude::*;

verus! {

/// The snapshot on a platform without a collector: an error naming it.
pub fn collect(platform: &'static str) -> (r: Result<HardwareInfo>)
    ensures
        r matches Err(HardwareInfoError::PlatformUnsupported(p)) && p == platform,
{
    Err(HardwareInfoError::PlatformUnsupported(platform))
}

/// The operating system on a platform without a collector: an error naming
/// it.
pub fn collect_os_info(platform: &'static str) -> (r: Result<OsInfo>)
    ensures
        r matches Err(HardwareInfoError::PlatformUnsupported(p)) && p == platform,
{
    Err(HardwareInfoError::PlatformUnsupported(platform))
}

} // verus!
