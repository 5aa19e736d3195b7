//! The SMBIOS table as Linux exposes it: `/sys/firmware/dmi/tables/DMI` holds
//! the bare table.

use crate::hw::HwResult;
use vstd::prelude::*;

verus! {

/// The table bytes of the Linux DMI file: all of it.
pub fn smbios_table_bytes(raw_smbios: &[u8]) -> (r: HwResult<&[u8]>)
    ensures
        r matches Ok(t) && t@ == raw_smbios@,
{
    Ok(raw_smbios)
}

} // verus!
