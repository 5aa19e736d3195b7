//! The records of a hardware and operating-system snapshot.

use vstd::prelude::*;

verus! {

/// A snapshot of the machine.
#[derive(Debug, Clone)]
pub struct HardwareInfo {
    pub os: OsInfo,
    pub cpu: CpuInfo,
    pub memory: MemoryInfo,
    pub disks: Vec<DiskInfo>,
}

/// The operating system.
#[derive(Debug, Clone)]
pub struct OsInfo {
    /// The OS family, e.g. `windows`.
    pub family: String,
    pub name: Option<String>,
    pub version: Option<String>,
}

/// The processor.
#[derive(Debug, Clone)]
pub struct CpuInfo {
    pub architecture: CpuArchitecture,
    pub logical_cores: usize,
    pub vendor_or_brand: Option<String>,
}

/// The instruction set of the processor.
#[derive(Debug, Clone, Copy, PartialEq, Eq, Structural)]
pub enum CpuArchitecture {
    X86,
    X86_64,
    Arm,
    Aarch64,
    Unknown,
}

/// Physical memory, in bytes.
#[derive(Debug, Clone, Copy, PartialEq, Eq, Structural)]
pub struct MemoryInfo {
    pub total_physical_bytes: u64,
    pub available_physical_bytes: u64,
}

/// A mounted volume.
#[derive(Debug, Clone)]
pub struct DiskInfo {
    /// The root of the volume, e.g. `C:\`.
    pub mount_point: String,
    pub kind: DiskKind,
    pub total_bytes: u64,
    pub free_bytes: u64,
}

/// The kind of drive a volume is on.
#[derive(Debug, Clone, Copy, PartialEq, Eq, Structural)]
pub enum DiskKind {
    Fixed,
    Removable,
    Network,
    Optical,
    RamDisk,
    Unknown,
}

} // verus!
