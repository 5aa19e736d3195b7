//! The SMBIOS table as Windows hands it out: `GetSystemFirmwareTable('RSMB')`
//! returns a `RawSMBIOSData` record, an 8-byte header whose bytes 4..8 hold the
//! table length (little-endian), followed by the table.

use crate::hw::HwResult;
use vstd::prelude::*;

verus! {

/// The little-endian 32-bit value of `raw[4..8]`, as a mathematical integer.
pub open spec fn declared_table_len(raw: Seq<u8>) -> int {
    raw[4] as int + 256 * raw[5] as int + 65536 * raw[6] as int + 16777216 * raw[7] as int
}

/// The table inside a `RawSMBIOSData` record: the declared number of bytes
/// after the header, or, when the record is shorter than it declares, every
/// byte after the header.
pub open spec fn raw_table(raw: Seq<u8>) -> Seq<u8> {
    if 8 + declared_table_len(raw) <= raw.len() {
        raw.subrange(8, 8 + declared_table_len(raw))
    } else {
        raw.subrange(8, raw.len() as int)
    }
}

/// Extracts the table bytes from a `RawSMBIOSData` record.
pub fn smbios_table_bytes(raw_smbios: &[u8]) -> (r: HwResult<&[u8]>)
    ensures
        raw_smbios@.len() < 8 <==> r is Err,
        r matches Err(e) ==> e@ == "SMBIOS firmware table is too small"@,
        r matches Ok(t) ==> t@ == raw_table(raw_smbios@),
{
    if raw_smbios.len() < 8 {
        return Err(String::from_str("SMBIOS firmware table is too small"));
    }
    let b4 = raw_smbios[4] as u64;
    let b5 = raw_smbios[5] as u64;
    let b6 = raw_smbios[6] as u64;
    let b7 = raw_smbios[7] as u64;
    let table_len = b4 + 256 * b5 + 65536 * b6 + 16777216 * b7;
    let available = (raw_smbios.len() - 8) as u64;
    if table_len <= available {
        let end = 8 + table_len as usize;
        Ok(&raw_smbios[8..end])
    } else {
        Ok(&raw_smbios[8..raw_smbios.len()])
    }
}

} // verus!
