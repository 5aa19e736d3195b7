//! Motherboard information from the SMBIOS Baseboard Information structure
//! (type 2), with the memory slot count of the Physical Memory Array (type
//! 16), the installed Memory Devices (type 17) and the socket of the first
//! Processor Information structure (type 4).

use crate::hw::smbios::{
    byte_at, dword_at, find_structure, first_of_type, parse_smbios_structures, string_ref,
    table_structures, text_or_empty, views, word_at, SmbiosStructure, SmbiosStructureView,
};
use crate::hw::smbios::windows::raw_table;
use crate::hw::smbios::smbios_table_bytes;
use crate::hw::{hw_view, opt_text, owned, HwResult};
use vstd::prelude::*;

verus! {

/// Motherboard information.
#[derive(Debug)]
pub struct MotherboardInfo {
    /// Same as `manufacturer`.
    pub vendor: String,
    pub manufacturer: String,
    pub product: Option<String>,
    pub version: Option<String>,
    /// Serial number; empty when the board reports none.
    pub serial_number: String,
    pub asset_tag: Option<String>,
    pub location_in_chassis: Option<String>,
    pub board_type: Option<String>,
    pub feature_flags: Vec<String>,
    pub memory_slot_count: Option<u16>,
    pub occupied_memory_slot_count: Option<u16>,
    pub processor_socket: Option<String>,
}

/// The content of `MotherboardInfo` as mathematical values.
pub struct MotherboardInfoView {
    pub vendor: Seq<char>,
    pub manufacturer: Seq<char>,
    pub product: Option<Seq<char>>,
    pub version: Option<Seq<char>>,
    pub serial_number: Seq<char>,
    pub asset_tag: Option<Seq<char>>,
    pub location_in_chassis: Option<Seq<char>>,
    pub board_type: Option<Seq<char>>,
    pub feature_flags: Seq<Seq<char>>,
    pub memory_slot_count: Option<u16>,
    pub occupied_memory_slot_count: Option<u16>,
    pub processor_socket: Option<Seq<char>>,
}

impl View for MotherboardInfo {
    type V = MotherboardInfoView;

    open spec fn view(&self) -> MotherboardInfoView {
        MotherboardInfoView {
            vendor: self.vendor@,
            manufacturer: self.manufacturer@,
            product: opt_text(self.product),
            version: opt_text(self.version),
            serial_number: self.serial_number@,
            asset_tag: opt_text(self.asset_tag),
            location_in_chassis: opt_text(self.location_in_chassis),
            board_type: opt_text(self.board_type),
            feature_flags: self.feature_flags@.map_values(|f: String| f@),
            memory_slot_count: self.memory_slot_count,
            occupied_memory_slot_count: self.occupied_memory_slot_count,
            processor_socket: opt_text(self.processor_socket),
        }
    }
}

/// The name of an SMBIOS board type code.
pub open spec fn board_type_text(value: u8) -> Option<Seq<char>> {
    if value == 0x01 {
        Some("Unknown"@)
    } else if value == 0x02 {
        Some("Other"@)
    } else if value == 0x03 {
        Some("Server Blade"@)
    } else if value == 0x04 {
        Some("Connectivity Switch"@)
    } else if value == 0x05 {
        Some("System Management Module"@)
    } else if value == 0x06 {
        Some("Processor Module"@)
    } else if value == 0x07 {
        Some("I/O Module"@)
    } else if value == 0x08 {
        Some("Memory Module"@)
    } else if value == 0x09 {
        Some("Daughter Board"@)
    } else if value == 0x0a {
        Some("Motherboard"@)
    } else if value == 0x0b {
        Some("Processor/Memory Module"@)
    } else if value == 0x0c {
        Some("Processor/IO Module"@)
    } else if value == 0x0d {
        Some("Interconnect Board"@)
    } else {
        None
    }
}

/// The names of the feature flags set in `value`, lowest bit first.
pub open spec fn feature_flag_texts(value: u8) -> Seq<Seq<char>> {
    (if value & 0x01 != 0 { seq!["Hosting Board"@] } else { Seq::empty() }) + (if value & 0x02
        != 0 {
        seq!["Requires Daughter Board"@]
    } else {
        Seq::empty()
    }) + (if value & 0x04 != 0 { seq!["Removable"@] } else { Seq::empty() }) + (if value & 0x08
        != 0 {
        seq!["Replaceable"@]
    } else {
        Seq::empty()
    }) + (if value & 0x10 != 0 { seq!["Hot Swappable"@] } else { Seq::empty() })
}

/// Whether a Memory Device structure reports an installed module: a size word
/// (offset 12) other than 0 and 0xFFFF, and, for 0x7FFF, a positive extended
/// size (offset 28).
pub open spec fn device_installed(f: Seq<u8>) -> bool {
    match word_at(f, 12) {
        None => false,
        Some(w) => if w == 0 || w == 0xffff {
            false
        } else if w == 0x7fff {
            match dword_at(f, 28) {
                Some(d) => d > 0,
                None => false,
            }
        } else {
            true
        },
    }
}

/// The number of installed Memory Device structures.
pub open spec fn installed_count(ss: Seq<SmbiosStructureView>) -> nat
    decreases ss.len(),
{
    if ss.len() == 0 {
        0
    } else {
        installed_count(ss.drop_last()) + if ss.last().structure_type == 17 && device_installed(
            ss.last().formatted,
        ) {
            1nat
        } else {
            0nat
        }
    }
}

/// A count, kept only when positive.
pub open spec fn positive(v: Option<u16>) -> Option<u16> {
    match v {
        Some(c) => if c > 0 {
            Some(c)
        } else {
            None
        },
        None => None,
    }
}

/// The motherboard record of a run of structures.
pub open spec fn motherboard_from_structures(ss: Seq<SmbiosStructureView>) -> Result<
    MotherboardInfoView,
    Seq<char>,
> {
    match first_of_type(ss, 2) {
        None => Err("SMBIOS type 2 Baseboard Information was not found"@),
        Some(i) => {
            let b = ss[i];
            match string_ref(b, 4) {
                None => Err("SMBIOS baseboard manufacturer is missing"@),
                Some(manufacturer) => Ok(
                    MotherboardInfoView {
                        vendor: manufacturer,
                        manufacturer: manufacturer,
                        product: string_ref(b, 5),
                        version: string_ref(b, 6),
                        serial_number: text_or_empty(string_ref(b, 7)),
                        asset_tag: string_ref(b, 8),
                        location_in_chassis: string_ref(b, 10),
                        board_type: match byte_at(b.formatted, 13) {
                            Some(v) => board_type_text(v),
                            None => None,
                        },
                        feature_flags: match byte_at(b.formatted, 9) {
                            Some(v) => feature_flag_texts(v),
                            None => Seq::empty(),
                        },
                        memory_slot_count: match first_of_type(ss, 16) {
                            Some(k) => positive(word_at(ss[k].formatted, 13)),
                            None => None,
                        },
                        occupied_memory_slot_count: positive(Some(installed_count(ss) as u16)),
                        processor_socket: match first_of_type(ss, 4) {
                            Some(k) => string_ref(ss[k], 4),
                            None => None,
                        },
                    },
                ),
            }
        },
    }
}

pub fn baseboard_type_description(value: u8) -> (r: Option<String>)
    ensures
        opt_text(r) == board_type_text(value),
{
    if value == 0x01 {
        Some(owned("Unknown"))
    } else if value == 0x02 {
        Some(owned("Other"))
    } else if value == 0x03 {
        Some(owned("Server Blade"))
    } else if value == 0x04 {
        Some(owned("Connectivity Switch"))
    } else if value == 0x05 {
        Some(owned("System Management Module"))
    } else if value == 0x06 {
        Some(owned("Processor Module"))
    } else if value == 0x07 {
        Some(owned("I/O Module"))
    } else if value == 0x08 {
        Some(owned("Memory Module"))
    } else if value == 0x09 {
        Some(owned("Daughter Board"))
    } else if value == 0x0a {
        Some(owned("Motherboard"))
    } else if value == 0x0b {
        Some(owned("Processor/Memory Module"))
    } else if value == 0x0c {
        Some(owned("Processor/IO Module"))
    } else if value == 0x0d {
        Some(owned("Interconnect Board"))
    } else {
        None
    }
}

pub fn baseboard_feature_flags(value: u8) -> (r: Vec<String>)
    ensures
        r@.map_values(|f: String| f@) == feature_flag_texts(value),
{
    let mut flags: Vec<String> = Vec::new();
    if value & 0x01 != 0 {
        flags.push(owned("Hosting Board"));
    }
    if value & 0x02 != 0 {
        flags.push(owned("Requires Daughter Board"));
    }
    if value & 0x04 != 0 {
        flags.push(owned("Removable"));
    }
    if value & 0x08 != 0 {
        flags.push(owned("Replaceable"));
    }
    if value & 0x10 != 0 {
        flags.push(owned("Hot Swappable"));
    }
    assert(flags@.map_values(|f: String| f@) =~= feature_flag_texts(value));
    flags
}

pub fn memory_device_is_installed(structure: &SmbiosStructure) -> (r: bool)
    ensures
        r == device_installed(structure@.formatted),
{
    match structure.formatted_word(12) {
        None => false,
        Some(w) => if w == 0 || w == 0xffff {
            false
        } else if w == 0x7fff {
            match structure.formatted_dword(28) {
                Some(d) => d > 0,
                None => false,
            }
        } else {
            true
        },
    }
}

/// Decodes the motherboard record from a bare SMBIOS table.
pub fn motherboard_info_from_table(table: &[u8]) -> (r: HwResult<MotherboardInfo>)
    ensures
        hw_view(r) == motherboard_from_structures(table_structures(table@)),
{
    let structures = parse_smbios_structures(table);
    let ghost ss = views(structures@);
    proof {
        crate::hw::smbios::lemma_first_of_type_from(ss, 2, 0);
        crate::hw::smbios::lemma_first_of_type_from(ss, 16, 0);
        crate::hw::smbios::lemma_first_of_type_from(ss, 4, 0);
    }
    let i = match find_structure(structures.as_slice(), 2) {
        Some(i) => i,
        None => {
            return Err(owned("SMBIOS type 2 Baseboard Information was not found"));
        },
    };
    let board = &structures[i];
    assert(board@ == ss[i as int]);
    let manufacturer = match board.string_ref(4) {
        Some(m) => m,
        None => {
            return Err(owned("SMBIOS baseboard manufacturer is missing"));
        },
    };
    let serial_number = match board.string_ref(7) {
        Some(s) => s,
        None => String::new(),
    };
    let product = board.string_ref(5);
    let version = board.string_ref(6);
    let asset_tag = board.string_ref(8);
    let location_in_chassis = board.string_ref(10);
    let board_type = match board.formatted_byte(13) {
        Some(v) => baseboard_type_description(v),
        None => None,
    };
    let feature_flags = match board.formatted_byte(9) {
        Some(v) => baseboard_feature_flags(v),
        None => Vec::new(),
    };
    assert(feature_flags@.map_values(|f: String| f@) =~= match byte_at(ss[i as int].formatted, 9) {
        Some(v) => feature_flag_texts(v),
        None => Seq::empty(),
    });
    let memory_slot_count = match find_structure(structures.as_slice(), 16) {
        Some(k) => {
            assert(structures[k as int]@ == ss[k as int]);
            match structures[k].formatted_word(13) {
                Some(c) => if c > 0 {
                    Some(c)
                } else {
                    None
                },
                None => None,
            }
        },
        None => None,
    };
    let mut installed: usize = 0;
    let mut j: usize = 0;
    while j < structures.len()
        invariant
            j <= structures.len(),
            ss == views(structures@),
            installed == installed_count(ss.take(j as int)),
            installed <= j,
        decreases structures.len() - j,
    {
        assert(ss.take(j + 1).drop_last() =~= ss.take(j as int));
        assert(structures[j as int]@ == ss[j as int]);
        if structures[j].structure_type == 17 && memory_device_is_installed(&structures[j]) {
            installed += 1;
        }
        j += 1;
    }
    assert(ss.take(structures.len() as int) =~= ss);
    let occupied = #[verifier::truncate] (installed as u16);
    let occupied_memory_slot_count = if occupied > 0 {
        Some(occupied)
    } else {
        None
    };
    let processor_socket = match find_structure(structures.as_slice(), 4) {
        Some(k) => {
            assert(structures[k as int]@ == ss[k as int]);
            structures[k].string_ref(4)
        },
        None => None,
    };
    let vendor = manufacturer.clone();
    Ok(
        MotherboardInfo {
            vendor,
            manufacturer,
            product,
            version,
            serial_number,
            asset_tag,
            location_in_chassis,
            board_type,
            feature_flags,
            memory_slot_count,
            occupied_memory_slot_count,
            processor_socket,
        },
    )
}

/// Decodes the motherboard record from a Windows `RawSMBIOSData` record.
pub fn parse_motherboard_info_from_smbios(raw_smbios: &[u8]) -> (r: HwResult<MotherboardInfo>)
    ensures
        raw_smbios@.len() < 8 ==> hw_view(r) == Err::<MotherboardInfoView, Seq<char>>(
            "SMBIOS firmware table is too small"@,
        ),
        raw_smbios@.len() >= 8 ==> hw_view(r) == motherboard_from_structures(
            table_structures(raw_table(raw_smbios@)),
        ),
{
    let table = smbios_table_bytes(raw_smbios)?;
    motherboard_info_from_table(table)
}

/// The motherboard record from what reading the Linux DMI table gave: its
/// error, or the record decoded from the table.
pub fn get_motherboard_info(dmi_table: HwResult<Vec<u8>>) -> (r: HwResult<MotherboardInfo>)
    ensures
        dmi_table matches Err(e) ==> r matches Err(e2) && e2@ == e@,
        dmi_table matches Ok(t) ==> hw_view(r) == motherboard_from_structures(
            table_structures(t@),
        ),
{
    let table = dmi_table?;
    motherboard_info_from_table(table.as_slice())
}

/// A Memory Device holds a module exactly when its size word (offset 12)
/// is neither 0 (empty slot) nor 0xFFFF (unknown), and, when it is 0x7FFF
/// (size given in the extended size at offset 28), that extended size is
/// positive.
pub proof fn lemma_installed_module(f: Seq<u8>)
    ensures
        device_installed(f) <==> f.len() >= 14 && f[12] + 256 * f[13] != 0 && f[12] + 256
            * f[13] != 0xffff && (f[12] + 256 * f[13] == 0x7fff ==> f.len() >= 32 && f[28] + 256
            * f[29] + 65536 * f[30] + 16777216 * f[31] > 0),
{
    crate::hw::smbios::lemma_formatted_values_little_endian(f, 12);
    crate::hw::smbios::lemma_formatted_values_little_endian(f, 28);
}

/// The occupied slot count counts the Memory Device structures that hold a
/// module.
pub proof fn lemma_installed_count_counts(ss: Seq<SmbiosStructureView>)
    ensures
        installed_count(ss) == ss.filter(
            |s: SmbiosStructureView| s.structure_type == 17 && device_installed(s.formatted),
        ).len(),
    decreases ss.len(),
{
    reveal(Seq::filter);
    if ss.len() > 0 {
        lemma_installed_count_counts(ss.drop_last());
    }
}

/// A decoded motherboard record reports as occupied slots the number of
/// Memory Device structures that hold a module, when there is at least one
/// (and fewer than 65536), and no count when there is none.
pub proof fn lemma_occupied_slots(ss: Seq<SmbiosStructureView>)
    requires
        installed_count(ss) <= 0xffff,
    ensures
        motherboard_from_structures(ss) matches Ok(m) ==> m.occupied_memory_slot_count == if ss.filter(
            |s: SmbiosStructureView| s.structure_type == 17 && device_installed(s.formatted),
        ).len() == 0 {
            None::<u16>
        } else {
            Some(
                ss.filter(
                    |s: SmbiosStructureView| s.structure_type == 17 && device_installed(s.formatted),
                ).len() as u16,
            )
        },
{
    lemma_installed_count_counts(ss);
}

} // verus!
