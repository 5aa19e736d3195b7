//! SMBIOS structure table decoding.
//!
//! A table is a run of structures. Each has a formatted area (a 4-byte header
//! of type, length and handle, then type-specific fields; `length` counts the
//! whole area) followed by a string set: NUL-terminated strings closed by an
//! extra NUL (two NULs when there is no string). Decoding stops at the
//! end-of-table structure (type 127) and at the first malformed structure.

pub mod linux;
pub mod windows;

pub use self::windows::smbios_table_bytes;

use crate::text::{decode_utf8_lossy, push_char, push_hex_lower, utf8_text, hex_pair_lower};
use vstd::prelude::*;

verus! {

/// One decoded SMBIOS structure.
#[derive(Debug)]
pub struct SmbiosStructure {
    /// Structure type (byte 0 of the header).
    pub structure_type: u8,
    /// The whole formatted area, header included; offsets below count from
    /// its first byte.
    pub formatted: Vec<u8>,
    /// The raw bytes of the strings of the string set, in order.
    pub strings: Vec<Vec<u8>>,
}

/// The mathematical content of a structure.
pub struct SmbiosStructureView {
    pub structure_type: u8,
    pub formatted: Seq<u8>,
    pub strings: Seq<Seq<u8>>,
}

impl View for SmbiosStructure {
    type V = SmbiosStructureView;

    open spec fn view(&self) -> SmbiosStructureView {
        SmbiosStructureView {
            structure_type: self.structure_type,
            formatted: self.formatted@,
            strings: self.strings@.map_values(|v: Vec<u8>| v@),
        }
    }
}

/// The type of the end-of-table structure.
pub const END_OF_TABLE: u8 = 127;

/// Whether `t` holds two NUL bytes at `i` and `i + 1`.
pub open spec fn is_double_nul(t: Seq<u8>, i: int) -> bool {
    0 <= i && i + 1 < t.len() && t[i] == 0 && t[i + 1] == 0
}

/// The first position `j >= i` where a double NUL starts.
pub open spec fn double_nul_from(t: Seq<u8>, i: int) -> Option<int>
    decreases t.len() - i,
{
    if i < 0 || i + 1 >= t.len() {
        None
    } else if t[i] == 0 && t[i + 1] == 0 {
        Some(i)
    } else {
        double_nul_from(t, i + 1)
    }
}

/// The pieces of `s` between NUL bytes, as `<[u8]>::split` yields them: a
/// sequence with no NUL is one piece, and each NUL starts a new piece.
pub open spec fn nul_pieces(s: Seq<u8>) -> Seq<Seq<u8>>
    decreases s.len(),
{
    if s.len() == 0 {
        seq![Seq::<u8>::empty()]
    } else {
        let before = nul_pieces(s.drop_last());
        if s.last() == 0 {
            before.push(Seq::<u8>::empty())
        } else {
            before.update(before.len() - 1, before.last().push(s.last()))
        }
    }
}

/// The strings of a string set, given the bytes before its closing double
/// NUL: none when that run is empty, else its NUL-separated pieces.
pub open spec fn string_set(s: Seq<u8>) -> Seq<Seq<u8>> {
    if s.len() == 0 {
        Seq::empty()
    } else {
        nul_pieces(s)
    }
}

/// The structure whose formatted area is `t[off .. off + len]` and whose
/// string set ends with the double NUL at `end`.
pub open spec fn structure_at(t: Seq<u8>, off: int, len: int, end: int) -> SmbiosStructureView {
    SmbiosStructureView {
        structure_type: t[off],
        formatted: t.subrange(off, off + len),
        strings: string_set(t.subrange(off + len, end)),
    }
}

/// The structures of `t` from offset `off` on, up to the end-of-table
/// structure, the end of `t`, or the first structure that is malformed: a
/// header cut short, a length below 4 or past the end, or no closing double
/// NUL.
pub open spec fn structures_from(t: Seq<u8>, off: int) -> Seq<SmbiosStructureView>
    decreases t.len() - off,
{
    if off < 0 || off + 4 > t.len() {
        Seq::empty()
    } else {
        let len = t[off + 1] as int;
        if t[off] == END_OF_TABLE || len < 4 || off + len > t.len() {
            Seq::empty()
        } else {
            match double_nul_from(t, off + len) {
                None => Seq::empty(),
                Some(end) => {
                    proof {
                        lemma_double_nul_from_bounds(t, off + len);
                    }
                    seq![structure_at(t, off, len, end)] + structures_from(t, end + 2)
                },
            }
        }
    }
}

/// The structures of an SMBIOS table.
pub open spec fn table_structures(t: Seq<u8>) -> Seq<SmbiosStructureView> {
    structures_from(t, 0)
}

pub proof fn lemma_double_nul_from_bounds(t: Seq<u8>, i: int)
    ensures
        double_nul_from(t, i) matches Some(j) ==> i <= j && is_double_nul(t, j),
    decreases t.len() - i,
{
    if i >= 0 && i + 1 < t.len() && !(t[i] == 0 && t[i + 1] == 0) {
        lemma_double_nul_from_bounds(t, i + 1);
    }
}

/// With no double NUL in `[i, j)`, the search from `i` finds what the search
/// from `j` finds.
proof fn lemma_double_nul_skip(t: Seq<u8>, i: int, j: int)
    requires
        0 <= i <= j,
        forall|k: int| i <= k < j ==> !#[trigger] is_double_nul(t, k),
    ensures
        double_nul_from(t, i) == double_nul_from(t, j),
    decreases j - i,
{
    if i < j {
        assert(!is_double_nul(t, i));
        lemma_double_nul_skip(t, i + 1, j);
    }
}

/// The byte at `offset` of a formatted area.
pub open spec fn byte_at(f: Seq<u8>, offset: int) -> Option<u8> {
    if 0 <= offset < f.len() {
        Some(f[offset])
    } else {
        None
    }
}

/// Little-endian 16-bit value of two bytes.
pub open spec fn le16(b0: u8, b1: u8) -> u16 {
    (b0 as u16) | ((b1 as u16) << 8u16)
}

/// Little-endian 32-bit value of four bytes.
pub open spec fn le32(b0: u8, b1: u8, b2: u8, b3: u8) -> u32 {
    (b0 as u32) | ((b1 as u32) << 8u32) | ((b2 as u32) << 16u32) | ((b3 as u32) << 24u32)
}

/// The little-endian word at `offset` of a formatted area.
pub open spec fn word_at(f: Seq<u8>, offset: int) -> Option<u16> {
    if 0 <= offset && offset + 2 <= f.len() {
        Some(le16(f[offset], f[offset + 1]))
    } else {
        None
    }
}

/// The little-endian double word at `offset` of a formatted area.
pub open spec fn dword_at(f: Seq<u8>, offset: int) -> Option<u32> {
    if 0 <= offset && offset + 4 <= f.len() {
        Some(le32(f[offset], f[offset + 1], f[offset + 2], f[offset + 3]))
    } else {
        None
    }
}

/// String number `index` of a structure (numbered from 1; 0 means "no
/// string"), decoded as text.
pub open spec fn string_number(s: SmbiosStructureView, index: u8) -> Option<Seq<char>> {
    if index == 0 || index > s.strings.len() {
        None
    } else {
        Some(utf8_text(s.strings[index - 1]))
    }
}

/// Whether every byte of `b` equals `v`.
pub open spec fn all_bytes_are(b: Seq<u8>, v: u8) -> bool {
    forall|i: int| 0 <= i < b.len() ==> b[i] == v
}

/// The text of a 16-byte UUID in SMBIOS order: the first three fields are
/// stored little-endian, the rest as is; lowercase digits, 8-4-4-4-12 groups.
pub open spec fn uuid_text(b: Seq<u8>) -> Seq<char> {
    hex_pair_lower(b[3]) + hex_pair_lower(b[2]) + hex_pair_lower(b[1]) + hex_pair_lower(b[0])
        + seq!['-'] + hex_pair_lower(b[5]) + hex_pair_lower(b[4]) + seq!['-'] + hex_pair_lower(
        b[7],
    ) + hex_pair_lower(b[6]) + seq!['-'] + hex_pair_lower(b[8]) + hex_pair_lower(b[9]) + seq![
        '-',
    ] + hex_pair_lower(b[10]) + hex_pair_lower(b[11]) + hex_pair_lower(b[12]) + hex_pair_lower(
        b[13],
    ) + hex_pair_lower(b[14]) + hex_pair_lower(b[15])
}

/// The UUID held at offsets 8..24 of a formatted area: none when the area is
/// too short, or when the bytes are all 0x00 (not present) or all 0xFF (not
/// set).
pub open spec fn uuid_of(f: Seq<u8>) -> Option<Seq<char>> {
    if f.len() < 24 {
        None
    } else {
        let b = f.subrange(8, 24);
        if all_bytes_are(b, 0) || all_bytes_are(b, 0xff) {
            None
        } else {
            Some(uuid_text(b))
        }
    }
}

impl SmbiosStructure {
    /// The byte at `offset` of the formatted area.
    pub fn formatted_byte(&self, offset: usize) -> (r: Option<u8>)
        ensures
            r == byte_at(self@.formatted, offset as int),
    {
        if offset < self.formatted.len() {
            Some(self.formatted[offset])
        } else {
            None
        }
    }

    /// The little-endian word at `offset` of the formatted area.
    pub fn formatted_word(&self, offset: usize) -> (r: Option<u16>)
        ensures
            r == word_at(self@.formatted, offset as int),
    {
        if offset < self.formatted.len() && self.formatted.len() - offset >= 2 {
            let b0 = self.formatted[offset];
            let b1 = self.formatted[offset + 1];
            Some((b0 as u16) | ((b1 as u16) << 8u16))
        } else {
            None
        }
    }

    /// The little-endian double word at `offset` of the formatted area.
    pub fn formatted_dword(&self, offset: usize) -> (r: Option<u32>)
        ensures
            r == dword_at(self@.formatted, offset as int),
    {
        if offset < self.formatted.len() && self.formatted.len() - offset >= 4 {
            let b0 = self.formatted[offset];
            let b1 = self.formatted[offset + 1];
            let b2 = self.formatted[offset + 2];
            let b3 = self.formatted[offset + 3];
            Some((b0 as u32) | ((b1 as u32) << 8u32) | ((b2 as u32) << 16u32) | ((b3 as u32)
                << 24u32))
        } else {
            None
        }
    }

    /// String number `index` (from 1) of the string set.
    pub fn string_at(&self, index: u8) -> (r: Option<String>)
        ensures
            r matches Some(s) ==> string_number(self@, index) == Some(s@),
            r is None ==> string_number(self@, index) is None,
    {
        if index == 0 || index as usize > self.strings.len() {
            None
        } else {
            let bytes = &self.strings[index as usize - 1];
            assert(self@.strings[index - 1] == bytes@);
            Some(decode_utf8_lossy(bytes.as_slice()))
        }
    }

    /// The UUID at offsets 8..24 (the System Information layout).
    pub fn uuid(&self) -> (r: Option<String>)
        ensures
            r matches Some(s) ==> uuid_of(self@.formatted) == Some(s@),
            r is None ==> uuid_of(self@.formatted) is None,
    {
        if self.formatted.len() < 24 {
            return None;
        }
        let ghost b = self@.formatted.subrange(8, 24);
        let mut all_zero = true;
        let mut all_ff = true;
        let mut i: usize = 8;
        while i < 24
            invariant
                8 <= i <= 24,
                self.formatted.len() >= 24,
                b == self@.formatted.subrange(8, 24),
                all_zero == (forall|k: int| 0 <= k < i - 8 ==> b[k] == 0),
                all_ff == (forall|k: int| 0 <= k < i - 8 ==> b[k] == 0xff),
            decreases 24 - i,
        {
            let v = self.formatted[i];
            assert(b[i - 8] == v);
            if v != 0 {
                all_zero = false;
            }
            if v != 0xff {
                all_ff = false;
            }
            i += 1;
        }
        if all_zero || all_ff {
            return None;
        }
        let f = &self.formatted;
        let mut text = String::new();
        push_hex_lower(&mut text, f[11]);
        push_hex_lower(&mut text, f[10]);
        push_hex_lower(&mut text, f[9]);
        push_hex_lower(&mut text, f[8]);
        push_char(&mut text, '-');
        push_hex_lower(&mut text, f[13]);
        push_hex_lower(&mut text, f[12]);
        push_char(&mut text, '-');
        push_hex_lower(&mut text, f[15]);
        push_hex_lower(&mut text, f[14]);
        push_char(&mut text, '-');
        push_hex_lower(&mut text, f[16]);
        push_hex_lower(&mut text, f[17]);
        push_char(&mut text, '-');
        push_hex_lower(&mut text, f[18]);
        push_hex_lower(&mut text, f[19]);
        push_hex_lower(&mut text, f[20]);
        push_hex_lower(&mut text, f[21]);
        push_hex_lower(&mut text, f[22]);
        push_hex_lower(&mut text, f[23]);
        assert(text@ =~= uuid_text(b));
        Some(text)
    }
}

/// Copies `t[from..to]`.
fn copy_range(t: &[u8], from: usize, to: usize) -> (r: Vec<u8>)
    requires
        from <= to <= t.len(),
    ensures
        r@ == t@.subrange(from as int, to as int),
{
    let mut r: Vec<u8> = Vec::new();
    let mut i = from;
    while i < to
        invariant
            from <= i <= to <= t.len(),
            r@ == t@.subrange(from as int, i as int),
        decreases to - i,
    {
        r.push(t[i]);
        i += 1;
        assert(r@ =~= t@.subrange(from as int, i as int));
    }
    r
}

/// The strings of the string set held in `t[from..to]` (the bytes before its
/// closing double NUL).
fn split_string_set(t: &[u8], from: usize, to: usize) -> (r: Vec<Vec<u8>>)
    requires
        from <= to <= t.len(),
    ensures
        r@.map_values(|v: Vec<u8>| v@) == string_set(t@.subrange(from as int, to as int)),
{
    if from == to {
        let r: Vec<Vec<u8>> = Vec::new();
        assert(r@.map_values(|v: Vec<u8>| v@) =~= Seq::<Seq<u8>>::empty());
        return r;
    }
    let mut done: Vec<Vec<u8>> = Vec::new();
    let mut current: Vec<u8> = Vec::new();
    let mut i = from;
    assert(t@.subrange(from as int, from as int) =~= Seq::<u8>::empty());
    assert(done@.map_values(|v: Vec<u8>| v@).push(current@) =~= seq![Seq::<u8>::empty()]);
    while i < to
        invariant
            from <= i <= to <= t.len(),
            done@.map_values(|v: Vec<u8>| v@).push(current@) == nul_pieces(t@.subrange(from as int, i as int)),
        decreases to - i,
    {
        let ghost before = t@.subrange(from as int, i as int);
        let ghost after = t@.subrange(from as int, i + 1);
        assert(after.drop_last() =~= before);
        assert(after.last() == t@[i as int]);
        let ghost old_done = done@.map_values(|v: Vec<u8>| v@);
        let ghost old_current = current@;
        if t[i] == 0 {
            let finished = current;
            current = Vec::new();
            done.push(finished);
            assert(done@.map_values(|v: Vec<u8>| v@) =~= old_done.push(old_current));
            assert(done@.map_values(|v: Vec<u8>| v@).push(current@) =~= old_done.push(old_current).push(
                Seq::<u8>::empty(),
            ));
        } else {
            current.push(t[i]);
            assert(done@.map_values(|v: Vec<u8>| v@).push(current@) =~= old_done.push(old_current).update(
                old_done.len() as int,
                old_current.push(t@[i as int]),
            ));
        }
        i += 1;
    }
    done.push(current);
    done
}

/// Decodes the structures of an SMBIOS table, in order, stopping at the
/// end-of-table structure or at the first malformed structure.
pub fn parse_smbios_structures(table: &[u8]) -> (r: Vec<SmbiosStructure>)
    ensures
        r@.map_values(|s: SmbiosStructure| s@) == table_structures(table@),
{
    let t = table;
    let mut out: Vec<SmbiosStructure> = Vec::new();
    let mut off: usize = 0;
    loop
        invariant
            off <= t.len(),
            out@.map_values(|s: SmbiosStructure| s@) + structures_from(t@, off as int)
                == table_structures(t@),
        ensures
            out@.map_values(|s: SmbiosStructure| s@) == table_structures(t@),
        decreases t.len() - off,
    {
        let ghost old_out = out@.map_values(|s: SmbiosStructure| s@);
        if t.len() - off < 4 {
            assert(structures_from(t@, off as int) =~= Seq::<SmbiosStructureView>::empty());
            assert(old_out + Seq::<SmbiosStructureView>::empty() =~= old_out);
            break;
        }
        let structure_type = t[off];
        let len = t[off + 1] as usize;
        if structure_type == END_OF_TABLE || len < 4 || len > t.len() - off {
            assert(structures_from(t@, off as int) =~= Seq::<SmbiosStructureView>::empty());
            assert(old_out + Seq::<SmbiosStructureView>::empty() =~= old_out);
            break;
        }
        let start = off + len;
        let mut j = start;
        let mut found = false;
        while j < t.len() - 1
            invariant_except_break
                t.len() >= 4,
                start <= j,
                forall|k: int| start <= k < j ==> !#[trigger] is_double_nul(t@, k),
                !found,
            ensures
                start <= j,
                found ==> is_double_nul(t@, j as int),
                !found ==> j + 1 >= t.len(),
                forall|k: int| start <= k < j ==> !#[trigger] is_double_nul(t@, k),
            decreases t.len() - j,
        {
            if t[j] == 0 && t[j + 1] == 0 {
                found = true;
                break;
            }
            j += 1;
        }
        proof {
            lemma_double_nul_skip(t@, start as int, j as int);
        }
        if !found {
            assert(structures_from(t@, off as int) =~= Seq::<SmbiosStructureView>::empty());
            assert(old_out + Seq::<SmbiosStructureView>::empty() =~= old_out);
            break;
        }
        let formatted = copy_range(t, off, start);
        let strings = split_string_set(t, start, j);
        let s = SmbiosStructure { structure_type, formatted, strings };
        assert(s@ == structure_at(t@, off as int, len as int, j as int));
        out.push(s);
        assert(out@.map_values(|s: SmbiosStructure| s@) =~= old_out.push(
            structure_at(t@, off as int, len as int, j as int),
        ));
        assert(structures_from(t@, off as int) == seq![
            structure_at(t@, off as int, len as int, j as int),
        ] + structures_from(t@, j + 2));
        assert(old_out.push(structure_at(t@, off as int, len as int, j as int)) + structures_from(
            t@,
            j + 2,
        ) =~= old_out + (seq![structure_at(t@, off as int, len as int, j as int)]
            + structures_from(t@, j + 2)));
        off = j + 2;
    }
    out
}

/// The index of the first structure of type `ty` at or after `i`.
pub open spec fn first_of_type_from(ss: Seq<SmbiosStructureView>, ty: u8, i: int) -> Option<int>
    decreases ss.len() - i,
{
    if i < 0 || i >= ss.len() {
        None
    } else if ss[i].structure_type == ty {
        Some(i)
    } else {
        first_of_type_from(ss, ty, i + 1)
    }
}

/// The index of the first structure of type `ty`.
pub open spec fn first_of_type(ss: Seq<SmbiosStructureView>, ty: u8) -> Option<int> {
    first_of_type_from(ss, ty, 0)
}

pub proof fn lemma_first_of_type_from(ss: Seq<SmbiosStructureView>, ty: u8, i: int)
    requires
        0 <= i,
    ensures
        first_of_type_from(ss, ty, i) matches Some(k) ==> i <= k < ss.len()
            && ss[k].structure_type == ty,
    decreases ss.len() - i,
{
    if i < ss.len() && ss[i].structure_type != ty {
        lemma_first_of_type_from(ss, ty, i + 1);
    }
}

/// The views of a run of structures.
pub open spec fn views(ss: Seq<SmbiosStructure>) -> Seq<SmbiosStructureView> {
    ss.map_values(|s: SmbiosStructure| s@)
}

/// The position of the first structure of type `ty`.
pub fn find_structure(structures: &[SmbiosStructure], ty: u8) -> (r: Option<usize>)
    ensures
        r matches Some(i) ==> first_of_type(views(structures@), ty) == Some(i as int),
        r is None ==> first_of_type(views(structures@), ty) is None,
{
    let ghost ss = views(structures@);
    let mut i: usize = 0;
    while i < structures.len()
        invariant
            i <= structures.len(),
            ss == views(structures@),
            first_of_type(ss, ty) == first_of_type_from(ss, ty, i as int),
        decreases structures.len() - i,
    {
        if structures[i].structure_type == ty {
            return Some(i);
        }
        i += 1;
    }
    None
}

/// The byte at `offset`, or 0 when the formatted area is shorter.
pub open spec fn byte_or_zero(f: Seq<u8>, offset: int) -> u8 {
    match byte_at(f, offset) {
        Some(b) => b,
        None => 0,
    }
}

/// The string whose number is the byte at `offset` (no string when that byte
/// is missing).
pub open spec fn string_ref(s: SmbiosStructureView, offset: int) -> Option<Seq<char>> {
    string_number(s, byte_or_zero(s.formatted, offset))
}

/// A text, or the empty text.
pub open spec fn text_or_empty(t: Option<Seq<char>>) -> Seq<char> {
    match t {
        Some(v) => v,
        None => Seq::empty(),
    }
}

impl SmbiosStructure {
    /// The string whose number is stored in the byte at `offset`.
    pub fn string_ref(&self, offset: usize) -> (r: Option<String>)
        ensures
            r matches Some(s) ==> string_ref(self@, offset as int) == Some(s@),
            r is None ==> string_ref(self@, offset as int) is None,
    {
        let index = match self.formatted_byte(offset) {
            Some(b) => b,
            None => 0,
        };
        self.string_at(index)
    }
}

/// The text of `values` with the empty ones left out and the rest separated
/// by single spaces.
pub open spec fn join_non_empty_text(values: Seq<Seq<char>>) -> Seq<char>
    decreases values.len(),
{
    if values.len() == 0 {
        Seq::empty()
    } else {
        let before = join_non_empty_text(values.drop_last());
        let last = values.last();
        if last.len() == 0 {
            before
        } else if before.len() == 0 {
            last
        } else {
            before + seq![' '] + last
        }
    }
}

/// Joins the non-empty values with single spaces.
pub fn join_non_empty(values: &[String]) -> (r: String)
    ensures
        r@ == join_non_empty_text(values@.map_values(|v: String| v@)),
{
    let ghost vs = values@.map_values(|v: String| v@);
    let mut r = String::new();
    let mut i: usize = 0;
    while i < values.len()
        invariant
            i <= values.len(),
            vs == values@.map_values(|v: String| v@),
            r@ == join_non_empty_text(vs.take(i as int)),
        decreases values.len() - i,
    {
        assert(vs.take(i + 1).drop_last() =~= vs.take(i as int));
        let v = &values[i];
        if !v.as_str().is_empty() {
            if !r.as_str().is_empty() {
                push_char(&mut r, ' ');
            }
            r.append(v.as_str());
        }
        i += 1;
    }
    assert(vs.take(values.len() as int) =~= vs);
    r
}

/// Whether decoding `t` from `off` ends at an end-of-table structure whose
/// header lies inside `t`.
pub open spec fn reaches_end_marker(t: Seq<u8>, off: int) -> bool
    decreases t.len() - off,
{
    if off < 0 || off + 4 > t.len() {
        false
    } else if t[off] == END_OF_TABLE {
        true
    } else {
        let len = t[off + 1] as int;
        if len < 4 || off + len > t.len() {
            false
        } else {
            match double_nul_from(t, off + len) {
                None => false,
                Some(end) => {
                    proof {
                        lemma_double_nul_from_bounds(t, off + len);
                    }
                    reaches_end_marker(t, end + 2)
                },
            }
        }
    }
}

/// A double NUL found in `t` is found at the same place in `t` followed by
/// more bytes.
proof fn lemma_double_nul_from_extend(t: Seq<u8>, x: Seq<u8>, i: int)
    requires
        double_nul_from(t, i) is Some,
    ensures
        double_nul_from(t + x, i) == double_nul_from(t, i),
    decreases t.len() - i,
{
    assert((t + x)[i] == t[i]);
    assert((t + x)[i + 1] == t[i + 1]);
    if !(t[i] == 0 && t[i + 1] == 0) {
        lemma_double_nul_from_extend(t, x, i + 1);
    }
}

/// Decoding from `off` reads nothing past the end-of-table structure that
/// it reaches.
pub proof fn lemma_structures_from_extend(t: Seq<u8>, x: Seq<u8>, off: int)
    requires
        reaches_end_marker(t, off),
    ensures
        structures_from(t + x, off) == structures_from(t, off),
    decreases t.len() - off,
{
    let u = t + x;
    assert(u[off] == t[off]);
    assert(u[off + 1] == t[off + 1]);
    if t[off] != END_OF_TABLE {
        let len = t[off + 1] as int;
        lemma_double_nul_from_extend(t, x, off + len);
        lemma_double_nul_from_bounds(t, off + len);
        let end = double_nul_from(t, off + len)->Some_0;
        assert(u.subrange(off, off + len) =~= t.subrange(off, off + len));
        assert(u.subrange(off + len, end) =~= t.subrange(off + len, end));
        lemma_structures_from_extend(t, x, end + 2);
    }
}

/// The end-of-table structure ends the table: once decoding reaches it,
/// whatever bytes follow it change nothing.
pub proof fn lemma_bytes_after_end_marker_ignored(t: Seq<u8>, x: Seq<u8>)
    requires
        reaches_end_marker(t, 0),
    ensures
        table_structures(t + x) == table_structures(t),
{
    lemma_structures_from_extend(t, x, 0);
}

/// Formatted words and double words are little-endian: the byte at the
/// lower offset is the least significant.
pub proof fn lemma_formatted_values_little_endian(f: Seq<u8>, offset: int)
    ensures
        word_at(f, offset) matches Some(w) ==> w == f[offset] + 256 * f[offset + 1],
        dword_at(f, offset) matches Some(d) ==> d == f[offset] + 256 * f[offset + 1] + 65536
            * f[offset + 2] + 16777216 * f[offset + 3],
        word_at(f, offset) matches Some(w) ==> byte_at(f, offset) == Some((w % 256) as u8),
{
    if 0 <= offset && offset + 2 <= f.len() {
        let b0 = f[offset];
        let b1 = f[offset + 1];
        assert(le16(b0, b1) == b0 + 256 * b1) by (bit_vector);
    }
    if 0 <= offset && offset + 4 <= f.len() {
        let b0 = f[offset];
        let b1 = f[offset + 1];
        let b2 = f[offset + 2];
        let b3 = f[offset + 3];
        assert(le32(b0, b1, b2, b3) == b0 + 256 * b1 + 65536 * b2 + 16777216 * b3)
            by (bit_vector);
    }
}

/// Joining skips empty values: the text is that of the non-empty values
/// alone.
pub proof fn lemma_join_non_empty_skips_empty(values: Seq<Seq<char>>)
    ensures
        join_non_empty_text(values) == join_non_empty_text(
            values.filter(|v: Seq<char>| v.len() > 0),
        ),
    decreases values.len(),
{
    reveal(Seq::filter);
    if values.len() > 0 {
        lemma_join_non_empty_skips_empty(values.drop_last());
        let kept = values.drop_last().filter(|v: Seq<char>| v.len() > 0);
        if values.last().len() > 0 {
            assert(kept.push(values.last()).drop_last() =~= kept);
        }
    }
}

} // verus!
