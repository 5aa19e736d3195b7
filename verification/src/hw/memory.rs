//! Memory modules from SMBIOS Memory Device structures (type 17).

use crate::hw::smbios::{
    dword_at, parse_smbios_structures, string_ref, table_structures, views, word_at,
    byte_or_zero, SmbiosStructure, SmbiosStructureView,
};
use crate::hw::smbios::windows::raw_table;
use crate::hw::smbios::smbios_table_bytes;
use crate::hw::{hw_view, opt_text, owned, HwResult};
use crate::text::{chars_of, has_prefix, is_space, is_whitespace, lines, lines_of, parse_u64, parse_u64_text, starts_with, trim_start};
use crate::text::{hex_pair_upper, push_char, push_hex_upper};
use vstd::prelude::*;

verus! {

/// One installed memory module.
#[derive(Debug)]
pub struct MemoryInfo {
    /// Memory type name, e.g. `DDR4`.
    pub memory_type: String,
    /// Size in MiB.
    pub capacity: u16,
    /// Speed in MT/s.
    pub clock_speed: u16,
    /// Same as `manufacturer`.
    pub vendor: Option<String>,
    pub manufacturer: Option<String>,
    pub serial_number: Option<String>,
    pub part_number: Option<String>,
    pub device_locator: Option<String>,
    pub bank_locator: Option<String>,
}

/// The content of `MemoryInfo` as mathematical values.
pub struct MemoryInfoView {
    pub memory_type: Seq<char>,
    pub capacity: u16,
    pub clock_speed: u16,
    pub vendor: Option<Seq<char>>,
    pub manufacturer: Option<Seq<char>>,
    pub serial_number: Option<Seq<char>>,
    pub part_number: Option<Seq<char>>,
    pub device_locator: Option<Seq<char>>,
    pub bank_locator: Option<Seq<char>>,
}

impl View for MemoryInfo {
    type V = MemoryInfoView;

    open spec fn view(&self) -> MemoryInfoView {
        MemoryInfoView {
            memory_type: self.memory_type@,
            capacity: self.capacity,
            clock_speed: self.clock_speed,
            vendor: opt_text(self.vendor),
            manufacturer: opt_text(self.manufacturer),
            serial_number: opt_text(self.serial_number),
            part_number: opt_text(self.part_number),
            device_locator: opt_text(self.device_locator),
            bank_locator: opt_text(self.bank_locator),
        }
    }
}

/// The size of a memory device in MiB: the word at 0x0C, where 0 means "no
/// module", 0xFFFF "unknown", 0x7FFF "see the extended size" (the double word
/// at 0x1C, in MiB), and bit 15 "the rest counts KiB".
pub open spec fn device_size_mb(f: Seq<u8>) -> Option<u32> {
    match word_at(f, 0x0c) {
        None => None,
        Some(w) => if w == 0 || w == 0xffff {
            None
        } else if w == 0x7fff {
            match dword_at(f, 0x1c) {
                None => None,
                Some(d) => if d == 0 {
                    None
                } else {
                    Some(d)
                },
            }
        } else if w & 0x8000 != 0 {
            let kb = (w & 0x7fff) as u32;
            if kb == 0 {
                None
            } else {
                Some(kb / 1024)
            }
        } else {
            Some(w as u32)
        },
    }
}

/// The speed of a memory device in MT/s: the word at 0x15, where 0 means
/// "unknown" and 0xFFFF "see the extended speed" (the double word at 0x54,
/// kept when it is positive and fits 16 bits).
pub open spec fn device_speed_mts(f: Seq<u8>) -> Option<u16> {
    match word_at(f, 0x15) {
        None => None,
        Some(w) => if w == 0 {
            None
        } else if w == 0xffff {
            match dword_at(f, 0x54) {
                None => None,
                Some(d) => if 0 < d <= 0xffff {
                    Some(d as u16)
                } else {
                    None
                },
            }
        } else {
            Some(w)
        },
    }
}

/// The name of an SMBIOS memory type code.
pub open spec fn memory_type_text(code: u8) -> Seq<char> {
    if code == 0x01 {
        "Other"@
    } else if code == 0x02 {
        "Unknown"@
    } else if code == 0x03 {
        "DRAM"@
    } else if code == 0x04 {
        "EDRAM"@
    } else if code == 0x05 {
        "VRAM"@
    } else if code == 0x06 {
        "SRAM"@
    } else if code == 0x07 {
        "RAM"@
    } else if code == 0x08 {
        "ROM"@
    } else if code == 0x09 {
        "FLASH"@
    } else if code == 0x0f {
        "SDRAM"@
    } else if code == 0x12 {
        "DDR"@
    } else if code == 0x13 {
        "DDR2"@
    } else if code == 0x18 {
        "DDR3"@
    } else if code == 0x1a {
        "DDR4"@
    } else if code == 0x1b {
        "LPDDR"@
    } else if code == 0x1c {
        "LPDDR2"@
    } else if code == 0x1d {
        "LPDDR3"@
    } else if code == 0x1e {
        "LPDDR4"@
    } else if code == 0x1f {
        "Logical Non-Volatile Device"@
    } else if code == 0x20 {
        "HBM"@
    } else if code == 0x21 {
        "HBM2"@
    } else if code == 0x22 {
        "DDR5"@
    } else if code == 0x23 {
        "LPDDR5"@
    } else {
        "Unknown (0x"@ + hex_pair_upper(code) + ")"@
    }
}

/// The module described by a Memory Device structure, when it reports both a
/// size that fits 16 bits and a speed.
pub open spec fn memory_device(s: SmbiosStructureView) -> Option<MemoryInfoView> {
    match device_size_mb(s.formatted) {
        None => None,
        Some(size) => match device_speed_mts(s.formatted) {
            None => None,
            Some(speed) => if size > 0xffff {
                None
            } else {
                Some(
                    MemoryInfoView {
                        memory_type: memory_type_text(byte_or_zero(s.formatted, 0x12)),
                        capacity: size as u16,
                        clock_speed: speed,
                        vendor: string_ref(s, 0x17),
                        manufacturer: string_ref(s, 0x17),
                        serial_number: string_ref(s, 0x18),
                        part_number: string_ref(s, 0x1a),
                        device_locator: string_ref(s, 0x10),
                        bank_locator: string_ref(s, 0x11),
                    },
                )
            },
        },
    }
}

/// The modules of a run of structures, in table order.
pub open spec fn memory_devices(ss: Seq<SmbiosStructureView>) -> Seq<MemoryInfoView>
    decreases ss.len(),
{
    if ss.len() == 0 {
        Seq::empty()
    } else {
        let before = memory_devices(ss.drop_last());
        let s = ss.last();
        if s.structure_type == 17 {
            match memory_device(s) {
                Some(m) => before.push(m),
                None => before,
            }
        } else {
            before
        }
    }
}

pub fn memory_device_size_mb(structure: &SmbiosStructure) -> (r: Option<u32>)
    ensures
        r == device_size_mb(structure@.formatted),
{
    let size = match structure.formatted_word(0x0c) {
        Some(w) => w,
        None => {
            return None;
        },
    };
    if size == 0 || size == 0xffff {
        None
    } else if size == 0x7fff {
        match structure.formatted_dword(0x1c) {
            Some(d) => if d == 0 {
                None
            } else {
                Some(d)
            },
            None => None,
        }
    } else if size & 0x8000 != 0 {
        let kb = (size & 0x7fff) as u32;
        if kb == 0 {
            None
        } else {
            Some(kb / 1024)
        }
    } else {
        Some(size as u32)
    }
}

pub fn memory_device_speed_mts(structure: &SmbiosStructure) -> (r: Option<u16>)
    ensures
        r == device_speed_mts(structure@.formatted),
{
    let speed = match structure.formatted_word(0x15) {
        Some(w) => w,
        None => {
            return None;
        },
    };
    if speed == 0 {
        None
    } else if speed == 0xffff {
        match structure.formatted_dword(0x54) {
            Some(d) => if 0 < d && d <= 0xffff {
                Some(d as u16)
            } else {
                None
            },
            None => None,
        }
    } else {
        Some(speed)
    }
}

pub fn memory_type_name(code: u8) -> (r: String)
    ensures
        r@ == memory_type_text(code),
{
    if code == 0x01 {
        owned("Other")
    } else if code == 0x02 {
        owned("Unknown")
    } else if code == 0x03 {
        owned("DRAM")
    } else if code == 0x04 {
        owned("EDRAM")
    } else if code == 0x05 {
        owned("VRAM")
    } else if code == 0x06 {
        owned("SRAM")
    } else if code == 0x07 {
        owned("RAM")
    } else if code == 0x08 {
        owned("ROM")
    } else if code == 0x09 {
        owned("FLASH")
    } else if code == 0x0f {
        owned("SDRAM")
    } else if code == 0x12 {
        owned("DDR")
    } else if code == 0x13 {
        owned("DDR2")
    } else if code == 0x18 {
        owned("DDR3")
    } else if code == 0x1a {
        owned("DDR4")
    } else if code == 0x1b {
        owned("LPDDR")
    } else if code == 0x1c {
        owned("LPDDR2")
    } else if code == 0x1d {
        owned("LPDDR3")
    } else if code == 0x1e {
        owned("LPDDR4")
    } else if code == 0x1f {
        owned("Logical Non-Volatile Device")
    } else if code == 0x20 {
        owned("HBM")
    } else if code == 0x21 {
        owned("HBM2")
    } else if code == 0x22 {
        owned("DDR5")
    } else if code == 0x23 {
        owned("LPDDR5")
    } else {
        let mut text = owned("Unknown (0x");
        push_hex_upper(&mut text, code);
        push_char(&mut text, ')');
        proof {
            reveal_strlit(")");
        }
        assert(text@ =~= "Unknown (0x"@ + hex_pair_upper(code) + ")"@);
        text
    }
}

/// The module described by one Memory Device structure.
fn memory_device_info(structure: &SmbiosStructure) -> (r: Option<MemoryInfo>)
    ensures
        r matches Some(m) ==> memory_device(structure@) == Some(m@),
        r is None ==> memory_device(structure@) is None,
{
    let size_mb = match memory_device_size_mb(structure) {
        Some(s) => s,
        None => {
            return None;
        },
    };
    let clock_speed = match memory_device_speed_mts(structure) {
        Some(s) => s,
        None => {
            return None;
        },
    };
    if size_mb > 0xffff {
        return None;
    }
    let code = match structure.formatted_byte(0x12) {
        Some(b) => b,
        None => 0,
    };
    let manufacturer = structure.string_ref(0x17);
    let vendor = match &manufacturer {
        Some(m) => Some(m.clone()),
        None => None,
    };
    Some(
        MemoryInfo {
            memory_type: memory_type_name(code),
            capacity: size_mb as u16,
            clock_speed,
            vendor,
            manufacturer,
            serial_number: structure.string_ref(0x18),
            part_number: structure.string_ref(0x1a),
            device_locator: structure.string_ref(0x10),
            bank_locator: structure.string_ref(0x11),
        },
    )
}

/// The memory modules described by the Memory Device structures of a bare
/// SMBIOS table, in table order; a structure without a usable size or speed
/// is skipped.
pub fn parse_memory_devices(table: &[u8]) -> (r: Vec<MemoryInfo>)
    ensures
        r@.map_values(|m: MemoryInfo| m@) == memory_devices(table_structures(table@)),
{
    let structures = parse_smbios_structures(table);
    let ghost ss = views(structures@);
    let mut memory: Vec<MemoryInfo> = Vec::new();
    let mut i: usize = 0;
    while i < structures.len()
        invariant
            i <= structures.len(),
            ss == views(structures@),
            ss == table_structures(table@),
            memory@.map_values(|m: MemoryInfo| m@) == memory_devices(ss.take(i as int)),
        decreases structures.len() - i,
    {
        let ghost before = memory@.map_values(|m: MemoryInfo| m@);
        assert(ss.take(i + 1).drop_last() =~= ss.take(i as int));
        let structure = &structures[i];
        assert(structure@ == ss[i as int]);
        if structure.structure_type == 17 {
            match memory_device_info(structure) {
                Some(m) => {
                    memory.push(m);
                    assert(memory@.map_values(|m: MemoryInfo| m@) =~= before.push(m@));
                },
                None => {},
            }
        }
        i += 1;
    }
    assert(ss.take(structures.len() as int) =~= ss);
    memory
}

/// Decodes the memory modules from a Windows `RawSMBIOSData` record.
pub fn parse_memory_info_from_smbios(raw_smbios: &[u8]) -> (r: HwResult<Vec<MemoryInfo>>)
    ensures
        raw_smbios@.len() < 8 <==> r is Err,
        r matches Err(e) ==> e@ == "SMBIOS firmware table is too small"@,
        r matches Ok(m) ==> m@.map_values(|m: MemoryInfo| m@) == memory_devices(
            table_structures(raw_table(raw_smbios@)),
        ),
{
    let table = smbios_table_bytes(raw_smbios)?;
    Ok(parse_memory_devices(table))
}

/// The memory modules from what reading the Linux DMI table gave, when it
/// was read and describes at least one module.
pub fn memory_devices_from_dmi(dmi_table: &HwResult<Vec<u8>>) -> (r: Option<Vec<MemoryInfo>>)
    ensures
        r matches Some(m) ==> dmi_table matches Ok(t) && m@.len() > 0 && m@.map_values(
            |m: MemoryInfo| m@,
        ) == memory_devices(table_structures(t@)),
        r is None ==> (dmi_table matches Ok(t) ==> memory_devices(table_structures(t@)).len()
            == 0),
{
    match dmi_table {
        Ok(t) => {
            let devices = parse_memory_devices(t.as_slice());
            if devices.len() > 0 {
                Some(devices)
            } else {
                None
            }
        },
        Err(_) => None,
    }
}

/// The position of the first whitespace character of `s` at or after `i`,
/// or its length.
pub open spec fn space_from(s: Seq<char>, i: int) -> int
    decreases s.len() - i,
{
    if i < 0 || i >= s.len() {
        s.len() as int
    } else if is_space(s[i]) {
        i
    } else {
        space_from(s, i + 1)
    }
}

/// The first whitespace-separated word of `s`, as
/// `split_whitespace().next()` gives it.
pub open spec fn first_word(s: Seq<char>) -> Option<Seq<char>> {
    let t = trim_start(s);
    if t.len() == 0 {
        None
    } else {
        Some(t.take(space_from(t, 0)))
    }
}

/// The `MemTotal` of a `/proc/meminfo` line: the number that follows the
/// `MemTotal:` label, when there is one.
pub open spec fn mem_total_of_line(line: Seq<char>) -> Option<u64> {
    if starts_with(line, "MemTotal:"@) {
        match first_word(line.skip("MemTotal:"@.len() as int)) {
            Some(w) => parse_u64_text(w),
            None => None,
        }
    } else {
        None
    }
}

/// The first `MemTotal` value among the lines, in kB.
pub open spec fn mem_total_kb(ls: Seq<Seq<char>>) -> Option<u64>
    decreases ls.len(),
{
    if ls.len() == 0 {
        None
    } else {
        match mem_total_kb(ls.drop_last()) {
            Some(v) => Some(v),
            None => mem_total_of_line(ls.last()),
        }
    }
}

/// The single module that stands for all memory when the firmware describes
/// none: type `Unknown`, the total size in MiB (capped at 65535), speed 0.
pub open spec fn meminfo_memory(content: Seq<char>) -> Result<Seq<MemoryInfoView>, Seq<char>> {
    match mem_total_kb(lines(content)) {
        None => Err("MemTotal not found in /proc/meminfo"@),
        Some(kb) => Ok(
            seq![
                MemoryInfoView {
                    memory_type: "Unknown"@,
                    capacity: if kb / 1024 > 0xffff {
                        0xffffu16
                    } else {
                        (kb / 1024) as u16
                    },
                    clock_speed: 0,
                    vendor: None,
                    manufacturer: None,
                    serial_number: None,
                    part_number: None,
                    device_locator: None,
                    bank_locator: None,
                },
            ],
        ),
    }
}

/// The first word of `s[from..]`.
fn first_word_of(s: &[char], from: usize) -> (r: Option<Vec<char>>)
    requires
        from <= s.len(),
    ensures
        r matches Some(w) ==> first_word(s@.skip(from as int)) == Some(w@),
        r is None ==> first_word(s@.skip(from as int)) is None,
{
    let ghost rest = s@.skip(from as int);
    let mut a = from;
    while a < s.len() && is_whitespace(s[a])
        invariant
            from <= a <= s.len(),
            rest == s@.skip(from as int),
            trim_start(rest) == trim_start(s@.skip(a as int)),
        decreases s.len() - a,
    {
        assert(s@.skip(a as int).drop_first() =~= s@.skip(a + 1));
        a += 1;
    }
    if a == s.len() {
        assert(s@.skip(a as int).len() == 0);
        return None;
    }
    let ghost t = s@.skip(a as int);
    assert(t[0] == s@[a as int]);
    assert(trim_start(t) == t);
    let mut b = a;
    while b < s.len() && !is_whitespace(s[b])
        invariant
            a <= b <= s.len(),
            t == s@.skip(a as int),
            space_from(t, 0) == space_from(t, b - a),
        decreases s.len() - b,
    {
        assert(t[b - a] == s@[b as int]);
        b += 1;
    }
    if b < s.len() {
        assert(t[b - a] == s@[b as int]);
    }
    let mut w: Vec<char> = Vec::new();
    let mut i = a;
    while i < b
        invariant
            a <= i <= b <= s.len(),
            w@ == s@.subrange(a as int, i as int),
        decreases b - i,
    {
        w.push(s[i]);
        i += 1;
        assert(w@ =~= s@.subrange(a as int, i as int));
    }
    assert(t.take(b - a) =~= s@.subrange(a as int, b as int));
    Some(w)
}

/// The `MemTotal` of one line.
fn line_mem_total(line: &[char], label: &[char]) -> (r: Option<u64>)
    requires
        label@ == "MemTotal:"@,
    ensures
        r == mem_total_of_line(line@),
{
    if !has_prefix(line, label) {
        return None;
    }
    match first_word_of(line, label.len()) {
        Some(w) => parse_u64(w.as_slice()),
        None => None,
    }
}

/// The memory record of a `/proc/meminfo` text; a failed read is reported
/// with its message.
pub fn memory_from_meminfo(meminfo: &HwResult<String>) -> (r: HwResult<Vec<MemoryInfo>>)
    ensures
        meminfo matches Err(e) ==> r matches Err(e2) && e2@ == "cannot read /proc/meminfo: "@ + e@,
        meminfo matches Ok(c) ==> match meminfo_memory(c@) {
            Ok(ms) => r matches Ok(m) && m@.map_values(|m: MemoryInfo| m@) == ms,
            Err(e) => r matches Err(e2) && e2@ == e,
        },
{
    let content = match meminfo {
        Ok(c) => c,
        Err(e) => {
            return Err(owned("cannot read /proc/meminfo: ").concat(e.as_str()));
        },
    };
    let chars = chars_of(content.as_str());
    let ls = lines_of(chars.as_slice());
    let ghost lv = ls@.map_values(|l: Vec<char>| l@);
    let label = chars_of("MemTotal:");
    let mut total: Option<u64> = None;
    let mut i: usize = 0;
    while i < ls.len()
        invariant
            i <= ls.len(),
            lv == ls@.map_values(|l: Vec<char>| l@),
            label@ == "MemTotal:"@,
            total == mem_total_kb(lv.take(i as int)),
        decreases ls.len() - i,
    {
        assert(lv.take(i + 1).drop_last() =~= lv.take(i as int));
        assert(lv.take(i + 1).last() == ls[i as int]@);
        if total.is_none() {
            total = line_mem_total(ls[i].as_slice(), label.as_slice());
        }
        i += 1;
    }
    assert(lv.take(ls.len() as int) =~= lv);
    let kb = match total {
        Some(kb) => kb,
        None => {
            return Err(owned("MemTotal not found in /proc/meminfo"));
        },
    };
    let mb = kb / 1024;
    let capacity: u16 = if mb > 0xffff {
        0xffff
    } else {
        mb as u16
    };
    let module = MemoryInfo {
        memory_type: owned("Unknown"),
        capacity,
        clock_speed: 0,
        vendor: None,
        manufacturer: None,
        serial_number: None,
        part_number: None,
        device_locator: None,
        bank_locator: None,
    };
    let r = vec![module];
    assert(meminfo_memory(chars@) matches Ok(ms) && r@.map_values(|m: MemoryInfo| m@) =~= ms);
    Ok(r)
}

/// The memory modules: those that the DMI table describes when it was read
/// and describes at least one, else the single record of `/proc/meminfo`.
pub fn get_memory_info(dmi_table: &HwResult<Vec<u8>>, meminfo: &HwResult<String>) -> (r: HwResult<
    Vec<MemoryInfo>,
>)
    ensures
        match dmi_table {
            Ok(t) if memory_devices(table_structures(t@)).len() > 0 => r matches Ok(m) && m@.map_values(
                |m: MemoryInfo| m@,
            ) == memory_devices(table_structures(t@)),
            _ => match meminfo {
                Err(e) => r matches Err(e2) && e2@ == "cannot read /proc/meminfo: "@ + e@,
                Ok(c) => match meminfo_memory(c@) {
                    Ok(ms) => r matches Ok(m) && m@.map_values(|m: MemoryInfo| m@) == ms,
                    Err(e) => r matches Err(e2) && e2@ == e,
                },
            },
        },
{
    match memory_devices_from_dmi(dmi_table) {
        Some(devices) => Ok(devices),
        None => memory_from_meminfo(meminfo),
    }
}

/// A module larger than the size word can hold (size word 0x7FFF at offset
/// 0x0C) has its size in MiB in the extended size double word at offset
/// 0x1C: that number, unchanged, is the module's capacity; its speed is the
/// word at offset 0x15.
pub proof fn lemma_extended_size_is_mib(s: SmbiosStructureView)
    requires
        s.formatted.len() >= 0x20,
        s.formatted[0x0c] == 0xff,
        s.formatted[0x0d] == 0x7f,
        0 < s.formatted[0x1c] + 256 * s.formatted[0x1d] + 65536 * s.formatted[0x1e] + 16777216
            * s.formatted[0x1f] <= 0xffff,
        s.formatted[0x15] + 256 * s.formatted[0x16] != 0,
        s.formatted[0x15] + 256 * s.formatted[0x16] != 0xffff,
    ensures
        memory_device(s) matches Some(m) && m.capacity == s.formatted[0x1c] + 256
            * s.formatted[0x1d] + 65536 * s.formatted[0x1e] + 16777216 * s.formatted[0x1f]
            && m.clock_speed == s.formatted[0x15] + 256 * s.formatted[0x16],
{
    let f = s.formatted;
    crate::hw::smbios::lemma_formatted_values_little_endian(f, 0x0c);
    crate::hw::smbios::lemma_formatted_values_little_endian(f, 0x1c);
    crate::hw::smbios::lemma_formatted_values_little_endian(f, 0x15);
}

/// A size word (offset 0x0C) from 1 to 0x7FFE counts MiB: it is the
/// module's capacity.
pub proof fn lemma_size_word_is_mib(s: SmbiosStructureView)
    requires
        s.formatted.len() >= 0x17,
        0 < s.formatted[0x0c] + 256 * s.formatted[0x0d] < 0x7fff,
        s.formatted[0x15] + 256 * s.formatted[0x16] != 0,
        s.formatted[0x15] + 256 * s.formatted[0x16] != 0xffff,
    ensures
        memory_device(s) matches Some(m) && m.capacity == s.formatted[0x0c] + 256
            * s.formatted[0x0d] && m.clock_speed == s.formatted[0x15] + 256 * s.formatted[0x16],
{
    let f = s.formatted;
    crate::hw::smbios::lemma_formatted_values_little_endian(f, 0x0c);
    crate::hw::smbios::lemma_formatted_values_little_endian(f, 0x15);
    let w = f[0x0c] + 256 * f[0x0d];
    let wu = crate::hw::smbios::le16(f[0x0c], f[0x0d]);
    assert(wu & 0x8000 == 0) by (bit_vector)
        requires
            wu < 0x7fff,
    ;
}

/// Every Memory Device structure that describes a module gives one record,
/// in table order: the records are the modules of the type-17 structures.
pub proof fn lemma_memory_devices_are_type_17(ss: Seq<SmbiosStructureView>)
    ensures
        memory_devices(ss) == ss.filter(
            |s: SmbiosStructureView| s.structure_type == 17 && memory_device(s) is Some,
        ).map_values(|s: SmbiosStructureView| memory_device(s)->Some_0),
    decreases ss.len(),
{
    reveal(Seq::filter);
    if ss.len() > 0 {
        lemma_memory_devices_are_type_17(ss.drop_last());
        let kept = ss.drop_last().filter(
            |s: SmbiosStructureView| s.structure_type == 17 && memory_device(s) is Some,
        );
        assert(kept.push(ss.last()).map_values(|s: SmbiosStructureView| memory_device(s)->Some_0)
            =~= kept.map_values(|s: SmbiosStructureView| memory_device(s)->Some_0).push(
            memory_device(ss.last())->Some_0,
        ));
    }
}

} // verus!
