//! The decisions of the Windows collector, on what the system answered.

use crate::error::{HardwareInfoError, Result};
use crate::hw::{opt_text, owned};
use crate::text::{decimal_text, push_char, push_decimal};
use crate::types::{CpuArchitecture, CpuInfo, DiskInfo, DiskKind, HardwareInfo, MemoryInfo, OsInfo};
use vstd::prelude::*;

verus! {

/// `PROCESSOR_ARCHITECTURE_INTEL`.
pub const PROCESSOR_ARCHITECTURE_INTEL: u16 = 0;

/// `PROCESSOR_ARCHITECTURE_ARM`.
pub const PROCESSOR_ARCHITECTURE_ARM: u16 = 5;

/// `PROCESSOR_ARCHITECTURE_AMD64`.
pub const PROCESSOR_ARCHITECTURE_AMD64: u16 = 9;

/// `PROCESSOR_ARCHITECTURE_ARM64`.
pub const PROCESSOR_ARCHITECTURE_ARM64: u16 = 12;

/// The instruction set that a `PROCESSOR_ARCHITECTURE` value names.
pub open spec fn architecture_of(raw: u16) -> CpuArchitecture {
    if raw == PROCESSOR_ARCHITECTURE_INTEL {
        CpuArchitecture::X86
    } else if raw == PROCESSOR_ARCHITECTURE_AMD64 {
        CpuArchitecture::X86_64
    } else if raw == PROCESSOR_ARCHITECTURE_ARM {
        CpuArchitecture::Arm
    } else if raw == PROCESSOR_ARCHITECTURE_ARM64 {
        CpuArchitecture::Aarch64
    } else {
        CpuArchitecture::Unknown
    }
}

/// The instruction set that a `PROCESSOR_ARCHITECTURE` value names.
pub fn cpu_architecture(raw: u16) -> (r: CpuArchitecture)
    ensures
        r == architecture_of(raw),
{
    if raw == PROCESSOR_ARCHITECTURE_INTEL {
        CpuArchitecture::X86
    } else if raw == PROCESSOR_ARCHITECTURE_AMD64 {
        CpuArchitecture::X86_64
    } else if raw == PROCESSOR_ARCHITECTURE_ARM {
        CpuArchitecture::Arm
    } else if raw == PROCESSOR_ARCHITECTURE_ARM64 {
        CpuArchitecture::Aarch64
    } else {
        CpuArchitecture::Unknown
    }
}

/// The drive kind that a `GetDriveTypeW` value names.
pub open spec fn kind_of(raw: u32) -> DiskKind {
    if raw == 3 {
        DiskKind::Fixed
    } else if raw == 2 {
        DiskKind::Removable
    } else if raw == 4 {
        DiskKind::Network
    } else if raw == 5 {
        DiskKind::Optical
    } else if raw == 6 {
        DiskKind::RamDisk
    } else {
        DiskKind::Unknown
    }
}

/// The drive kind that a `GetDriveTypeW` value names.
pub fn disk_kind(raw: u32) -> (r: DiskKind)
    ensures
        r == kind_of(raw),
{
    match raw {
        3 => DiskKind::Fixed,
        2 => DiskKind::Removable,
        4 => DiskKind::Network,
        5 => DiskKind::Optical,
        6 => DiskKind::RamDisk,
        _ => DiskKind::Unknown,
    }
}

/// The marketing version of Windows from the kernel's major version and
/// build number: builds from 22000 of version 10 are Windows 11.
pub open spec fn version_name(major: u32, build: u32) -> Seq<char> {
    if major == 10 && build >= 22000 {
        "11"@
    } else if major == 10 {
        "10"@
    } else {
        decimal_text(major as nat)
    }
}

/// The marketing version of Windows from what `RtlGetVersion` gave (its
/// major version and build number), or none when it failed.
pub fn windows_major_version(version: Option<(u32, u32)>) -> (r: Option<String>)
    ensures
        opt_text(r) == match version {
            Some((major, build)) => Some(version_name(major, build)),
            None => None,
        },
{
    match version {
        None => None,
        Some((major, build)) => {
            if major == 10 && build >= 22000 {
                Some(owned("11"))
            } else if major == 10 {
                Some(owned("10"))
            } else {
                let mut text = String::new();
                push_decimal(&mut text, major);
                assert(text@ == decimal_text(major as nat));
                Some(text)
            }
        },
    }
}

/// The operating-system record of Windows.
pub fn collect_os(family: &str, version: Option<String>) -> (r: OsInfo)
    ensures
        r.family@ == family@,
        opt_text(r.name) == Some("Windows"@),
        opt_text(r.version) == opt_text(version),
{
    OsInfo { family: owned(family), name: Some(owned("Windows")), version }
}

/// The operating-system record of Windows, as a result.
pub fn collect_os_info(family: &str, version: Option<String>) -> (r: Result<OsInfo>)
    ensures
        r matches Ok(os) && os.family@ == family@ && opt_text(os.name) == Some("Windows"@)
            && opt_text(os.version) == opt_text(version),
{
    Ok(collect_os(family, version))
}

/// The processor record: the logical core count is the available
/// parallelism when known and positive, or else the processor count (at
/// least 1).
pub fn collect_cpu(
    architecture: u16,
    available_parallelism: Option<usize>,
    number_of_processors: u32,
    processor_identifier: Option<String>,
) -> (r: CpuInfo)
    ensures
        r.architecture == architecture_of(architecture),
        r.logical_cores == match available_parallelism {
            Some(n) if n > 0 => n as int,
            _ => if number_of_processors == 0 {
                1
            } else {
                number_of_processors as int
            },
        },
        r.logical_cores >= 1,
        opt_text(r.vendor_or_brand) == opt_text(processor_identifier),
{
    let logical_cores = match available_parallelism {
        Some(n) if n > 0 => n,
        _ => if number_of_processors == 0 {
            1
        } else {
            number_of_processors as usize
        },
    };
    CpuInfo {
        architecture: cpu_architecture(architecture),
        logical_cores,
        vendor_or_brand: processor_identifier,
    }
}

/// The memory record from what `GlobalMemoryStatusEx` gave: the total and
/// available physical bytes, or its error message.
pub fn collect_memory(status: core::result::Result<(u64, u64), String>) -> (r: Result<MemoryInfo>)
    ensures
        match status {
            Ok((total, available)) => r matches Ok(m) && m.total_physical_bytes == total
                && m.available_physical_bytes == available,
            Err(message) => r matches Err(HardwareInfoError::WindowsApi { function, message: m })
                && function@ == "GlobalMemoryStatusEx"@ && m@ == message@,
        },
{
    match status {
        Ok((total, available)) => Ok(
            MemoryInfo { total_physical_bytes: total, available_physical_bytes: available },
        ),
        Err(message) => Err(HardwareInfoError::WindowsApi { function: "GlobalMemoryStatusEx", message }),
    }
}

/// Whether drive `index` (A = 0) is present in a `GetLogicalDrives` mask.
pub open spec fn has_drive(mask: u32, index: u32) -> bool {
    (mask >> index) & 1u32 == 1u32
}

/// The drives (A = 0) present in a `GetLogicalDrives` mask among the first
/// `n`, in order.
pub open spec fn drives_below(mask: u32, n: nat) -> Seq<u8>
    decreases n,
{
    if n == 0 {
        Seq::empty()
    } else {
        let before = drives_below(mask, (n - 1) as nat);
        if has_drive(mask, (n - 1) as u32) {
            before.push((n - 1) as u8)
        } else {
            before
        }
    }
}

/// The listed drives are exactly those whose bit is set, each once, in
/// increasing order.
pub proof fn lemma_drives_below(mask: u32, n: nat)
    requires
        n <= 32,
    ensures
        forall|i: int, j: int|
            0 <= i < j < drives_below(mask, n).len() ==> drives_below(mask, n)[i] < drives_below(
                mask,
                n,
            )[j],
        forall|k: int|
            0 <= k < drives_below(mask, n).len() ==> #[trigger] drives_below(mask, n)[k] < n
                && has_drive(mask, drives_below(mask, n)[k] as u32),
        forall|d: u32| d < n && has_drive(mask, d) ==> drives_below(mask, n).contains(d as u8),
    decreases n,
{
    if n > 0 {
        let m = (n - 1) as nat;
        lemma_drives_below(mask, m);
        let before = drives_below(mask, m);
        let after = drives_below(mask, n);
        assert forall|d: u32| d < n && has_drive(mask, d) implies after.contains(d as u8) by {
            if d < m {
                let k = choose|k: int| 0 <= k < before.len() && before[k] == d as u8;
                assert(after[k] == d as u8);
            } else {
                assert(after[after.len() - 1] == d as u8);
            }
        }
    }
}

/// The drives (A = 0 to Z = 25) present in a `GetLogicalDrives` mask, in
/// order.
pub fn logical_drive_indices(mask: u32) -> (r: Vec<u8>)
    ensures
        r@ == drives_below(mask, 26),
{
    let mut r: Vec<u8> = Vec::new();
    let mut index: u32 = 0;
    while index < 26
        invariant
            index <= 26,
            r@ == drives_below(mask, index as nat),
        decreases 26 - index,
    {
        if (mask >> index) & 1u32 == 1u32 {
            r.push(index as u8);
        }
        index += 1;
    }
    r
}

/// The root of drive `index` (A = 0), e.g. `C:\`.
pub open spec fn mount_point_of(index: u8) -> Seq<char> {
    seq![(65 + index) as char, ':', '\\']
}

/// The root of drive `index` (A = 0), e.g. `C:\`.
pub fn drive_mount_point(index: u8) -> (r: String)
    requires
        index < 26,
    ensures
        r@ == mount_point_of(index),
{
    let mut text = String::new();
    push_char(&mut text, (65 + index) as char);
    push_char(&mut text, ':');
    push_char(&mut text, '\\');
    assert(text@ =~= mount_point_of(index));
    text
}

/// The volume of drive `index`, from its `GetDriveTypeW` value and what
/// `GetDiskFreeSpaceExW` gave (total and free bytes): none for a drive of
/// unknown kind or whose space could not be read.
pub fn disk_from_drive(index: u8, drive_type: u32, space: Option<(u64, u64)>) -> (r: Option<
    DiskInfo,
>)
    requires
        index < 26,
    ensures
        match space {
            Some((total, free)) if kind_of(drive_type) != DiskKind::Unknown => r matches Some(d)
                && d.mount_point@ == mount_point_of(index) && d.kind == kind_of(drive_type)
                && d.total_bytes == total && d.free_bytes == free,
            _ => r is None,
        },
{
    let kind = disk_kind(drive_type);
    match kind {
        DiskKind::Unknown => None,
        _ => match space {
            None => None,
            Some((total_bytes, free_bytes)) => Some(
                DiskInfo {
                    mount_point: drive_mount_point(index),
                    kind,
                    total_bytes,
                    free_bytes,
                },
            ),
        },
    }
}

/// The snapshot from its parts: the first error among the memory and the
/// volumes, in that order, else the assembled record.
pub fn collect(
    os: OsInfo,
    cpu: CpuInfo,
    memory: Result<MemoryInfo>,
    disks: Result<Vec<DiskInfo>>,
) -> (r: Result<HardwareInfo>)
    ensures
        memory is Err ==> r is Err && r->Err_0 == memory->Err_0,
        memory is Ok && disks is Err ==> r is Err && r->Err_0 == disks->Err_0,
        memory is Ok && disks is Ok ==> r is Ok && r->Ok_0 == (HardwareInfo {
            os,
            cpu,
            memory: memory->Ok_0,
            disks: disks->Ok_0,
        }),
{
    let memory = memory?;
    let disks = disks?;
    Ok(HardwareInfo { os, cpu, memory, disks })
}

} // verus!
