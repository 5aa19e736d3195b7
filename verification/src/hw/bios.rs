//! BIOS information from the SMBIOS BIOS Information structure (type 0) and
//! the UUID of the System Information structure (type 1).

use crate::hw::smbios::{
    find_structure, first_of_type, join_non_empty, join_non_empty_text, parse_smbios_structures,
    smbios_table_bytes, string_ref, table_structures, text_or_empty, uuid_of, views,
    SmbiosStructureView,
};
use crate::hw::smbios::windows::raw_table;
use crate::hw::{hw_view, owned, HwResult};
use vstd::prelude::*;

verus! {

/// BIOS vendor, version and release date, and the system UUID.
#[derive(Debug)]
pub struct BiosInfo {
    /// System UUID; empty when the firmware reports none.
    pub uuid: String,
    /// BIOS vendor.
    pub manufacturer: String,
    /// BIOS version and release date, joined by a space.
    pub name: String,
}

/// The content of `BiosInfo` as mathematical values.
pub struct BiosInfoView {
    pub uuid: Seq<char>,
    pub manufacturer: Seq<char>,
    pub name: Seq<char>,
}

impl View for BiosInfo {
    type V = BiosInfoView;

    open spec fn view(&self) -> BiosInfoView {
        BiosInfoView { uuid: self.uuid@, manufacturer: self.manufacturer@, name: self.name@ }
    }
}

/// The system UUID: that of the first System Information structure, or empty.
pub open spec fn system_uuid(ss: Seq<SmbiosStructureView>) -> Seq<char> {
    match first_of_type(ss, 1) {
        Some(k) => text_or_empty(uuid_of(ss[k].formatted)),
        None => Seq::empty(),
    }
}

/// The BIOS record of a run of structures: vendor (string at offset 4,
/// required), version (offset 5) and release date (offset 8) of the first
/// BIOS Information structure.
pub open spec fn bios_from_structures(ss: Seq<SmbiosStructureView>) -> Result<
    BiosInfoView,
    Seq<char>,
> {
    match first_of_type(ss, 0) {
        None => Err("SMBIOS type 0 BIOS Information was not found"@),
        Some(i) => match string_ref(ss[i], 4) {
            None => Err("SMBIOS BIOS vendor is missing"@),
            Some(vendor) => Ok(
                BiosInfoView {
                    uuid: system_uuid(ss),
                    manufacturer: vendor,
                    name: join_non_empty_text(
                        seq![text_or_empty(string_ref(ss[i], 5)), text_or_empty(string_ref(ss[i], 8))],
                    ),
                },
            ),
        },
    }
}

/// Decodes the BIOS record from a bare SMBIOS table.
pub fn bios_info_from_table(table: &[u8]) -> (r: HwResult<BiosInfo>)
    ensures
        hw_view(r) == bios_from_structures(table_structures(table@)),
{
    let structures = parse_smbios_structures(table);
    let ghost ss = views(structures@);
    assert(ss == table_structures(table@));
    let i = match find_structure(structures.as_slice(), 0) {
        Some(i) => i,
        None => {
            return Err(owned("SMBIOS type 0 BIOS Information was not found"));
        },
    };
    proof {
        crate::hw::smbios::lemma_first_of_type_from(ss, 0, 0);
    }
    let bios = &structures[i];
    assert(bios@ == ss[i as int]);
    let vendor = match bios.string_ref(4) {
        Some(v) => v,
        None => {
            return Err(owned("SMBIOS BIOS vendor is missing"));
        },
    };
    let version = match bios.string_ref(5) {
        Some(v) => v,
        None => String::new(),
    };
    let release_date = match bios.string_ref(8) {
        Some(v) => v,
        None => String::new(),
    };
    let uuid = match find_structure(structures.as_slice(), 1) {
        Some(k) => {
            proof {
                crate::hw::smbios::lemma_first_of_type_from(ss, 1, 0);
            }
            assert(structures[k as int]@ == ss[k as int]);
            match structures[k].uuid() {
                Some(u) => u,
                None => String::new(),
            }
        },
        None => String::new(),
    };
    let parts = vec![version, release_date];
    let name = join_non_empty(parts.as_slice());
    assert(parts@.map_values(|v: String| v@) =~= seq![
        text_or_empty(string_ref(ss[i as int], 5)),
        text_or_empty(string_ref(ss[i as int], 8)),
    ]);
    Ok(BiosInfo { uuid, manufacturer: vendor, name })
}

/// Decodes the BIOS record from a Windows `RawSMBIOSData` record.
pub fn parse_bios_info_from_smbios(raw_smbios: &[u8]) -> (r: HwResult<BiosInfo>)
    ensures
        raw_smbios@.len() < 8 ==> hw_view(r) == Err::<BiosInfoView, Seq<char>>(
            "SMBIOS firmware table is too small"@,
        ),
        raw_smbios@.len() >= 8 ==> hw_view(r) == bios_from_structures(
            table_structures(raw_table(raw_smbios@)),
        ),
{
    let table = smbios_table_bytes(raw_smbios)?;
    bios_info_from_table(table)
}

/// The BIOS record from what reading the Linux DMI table gave: its error, or
/// the record decoded from the table.
pub fn get_bios_info(dmi_table: HwResult<Vec<u8>>) -> (r: HwResult<BiosInfo>)
    ensures
        dmi_table matches Err(e) ==> r matches Err(e2) && e2@ == e@,
        dmi_table matches Ok(t) ==> hw_view(r) == bios_from_structures(table_structures(t@)),
{
    let table = dmi_table?;
    bios_info_from_table(table.as_slice())
}

} // verus!
