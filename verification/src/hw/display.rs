//! Display monitors: EDID decoding, Windows monitor ids and Linux DRM
//! connectors.
//!
//! EDID (Extended Display Identification Data) is a 128-byte base block that a
//! monitor exposes: manufacturer id and product code, serial number, date of
//! manufacture, physical size, and four 18-byte descriptors (bytes 54..126),
//! one of which (tag 0xFC) may hold the monitor name in ASCII.

use crate::hw::opt_text;
use crate::text::{
    all_digits, chars_of, find_char, has_prefix, position_of, push_char, push_hex_upper,
    hex_pair_upper, starts_with, string_of, trim, trimmed_range,
};
use vstd::prelude::*;

verus! {

/// The position of the first LF (0x0A) or NUL of `b` at or after `i`, or
/// the length of `b`.
pub open spec fn line_end_from(b: Seq<u8>, i: int) -> int
    decreases b.len() - i,
{
    if i < 0 || i >= b.len() {
        b.len() as int
    } else if b[i] == 0x0a || b[i] == 0 {
        i
    } else {
        line_end_from(b, i + 1)
    }
}

/// The bytes of `b` before its first LF (0x0A) or NUL.
pub open spec fn until_line_end(b: Seq<u8>) -> Seq<u8> {
    b.take(line_end_from(b, 0))
}

/// Whether `b` is a printable ASCII character or a space.
pub open spec fn is_printable(b: u8) -> bool {
    0x20 <= b <= 0x7e
}

/// The printable bytes of `b`, as characters.
pub open spec fn printable_chars(b: Seq<u8>) -> Seq<char>
    decreases b.len(),
{
    if b.len() == 0 {
        Seq::empty()
    } else if is_printable(b.last()) {
        printable_chars(b.drop_last()).push(b.last() as char)
    } else {
        printable_chars(b.drop_last())
    }
}

/// The name held by an 18-byte descriptor's text (bytes 5..18): up to the
/// first LF or NUL, printable characters only, trimmed.
pub open spec fn descriptor_text(d: Seq<u8>) -> Seq<char> {
    trim(printable_chars(until_line_end(d.subrange(5, 18))))
}

/// Whether the descriptor at `edid[54 + 18 k ..]` is a monitor name
/// descriptor (zero bytes 0..3, tag 0xFC at byte 3).
pub open spec fn is_name_descriptor(d: Seq<u8>) -> bool {
    d[0] == 0 && d[1] == 0 && d[2] == 0 && d[3] == 0xfc
}

/// The descriptor number `k` of an EDID block.
pub open spec fn descriptor(edid: Seq<u8>, k: int) -> Seq<u8> {
    edid.subrange(54 + 18 * k, 72 + 18 * k)
}

/// The first non-empty monitor name among descriptors `k..4`.
pub open spec fn name_from(edid: Seq<u8>, k: int) -> Option<Seq<char>>
    decreases 4 - k,
{
    if k < 0 || k >= 4 {
        None
    } else if is_name_descriptor(descriptor(edid, k)) && descriptor_text(descriptor(edid, k)).len()
        > 0 {
        Some(descriptor_text(descriptor(edid, k)))
    } else {
        name_from(edid, k + 1)
    }
}

/// The monitor name of an EDID block; none when the block is shorter than
/// its descriptors.
pub open spec fn edid_name(edid: Seq<u8>) -> Option<Seq<char>> {
    if edid.len() < 126 {
        None
    } else {
        name_from(edid, 0)
    }
}

/// Scans the four descriptors for the monitor name.
pub fn edid_display_name(edid: &[u8]) -> (r: Option<String>)
    ensures
        opt_text(r) == edid_name(edid@),
{
    if edid.len() < 126 {
        return None;
    }
    let mut k: usize = 0;
    while k < 4
        invariant
            k <= 4,
            edid@.len() >= 126,
            edid_name(edid@) == name_from(edid@, k as int),
        decreases 4 - k,
    {
        let base = 54 + 18 * k;
        let ghost d = descriptor(edid@, k as int);
        assert(d[0] == edid@[base as int] && d[1] == edid@[base + 1] && d[2] == edid@[base + 2]
            && d[3] == edid@[base + 3]);
        if edid[base] == 0 && edid[base + 1] == 0 && edid[base + 2] == 0 && edid[base + 3] == 0xfc {
            let mut chars: Vec<char> = Vec::new();
            let mut i: usize = 5;
            let ghost text = d.subrange(5, 18);
            while i < 18
                invariant_except_break
                    5 <= i <= 18,
                    base == 54 + 18 * k,
                    k < 4,
                    edid@.len() >= 126,
                    d == descriptor(edid@, k as int),
                    text == d.subrange(5, 18),
                    line_end_from(text, 0) == line_end_from(text, i - 5),
                    chars@ == printable_chars(text.take(i - 5)),
                ensures
                    5 <= i <= 18,
                    chars@ == printable_chars(until_line_end(text)),
                decreases 18 - i,
            {
                let b = edid[base + i];
                assert(text[i - 5] == b);
                if b == 0x0a || b == 0 {
                    break;
                }
                assert(text.take(i - 4).drop_last() =~= text.take(i - 5));
                if 0x20 <= b && b <= 0x7e {
                    chars.push(b as char);
                }
                i += 1;
            }
            let name = trimmed_range(chars.as_slice(), 0, chars.len());
            assert(chars@.subrange(0, chars@.len() as int) =~= chars@);
            if name.len() > 0 {
                return Some(string_of(name.as_slice()));
            }
        }
        k += 1;
    }
    None
}

/// The letter of a 5-bit code (1 is `A`).
pub open spec fn letter(code: u16) -> char {
    (64 + code) as char
}

/// The 5-bit code at `shift` of the big-endian word of EDID bytes 8..10.
pub open spec fn id_code(edid: Seq<u8>, shift: u16) -> u16 {
    ((((edid[8] as u16) << 8u16) | (edid[9] as u16)) >> shift) & 0x1f
}

/// The three-letter manufacturer id of EDID bytes 8..10: three 5-bit codes
/// (1 to 26 stand for `A` to `Z`) packed into a big-endian word; none when a
/// code is out of range or the bytes are missing.
pub open spec fn manufacturer_id(edid: Seq<u8>) -> Option<Seq<char>> {
    if edid.len() < 10 {
        None
    } else {
        let a = id_code(edid, 10);
        let b = id_code(edid, 5);
        let c = id_code(edid, 0);
        if 1 <= a <= 26 && 1 <= b <= 26 && 1 <= c <= 26 {
            Some(seq![letter(a), letter(b), letter(c)])
        } else {
            None
        }
    }
}

/// Decodes the manufacturer id from EDID bytes 8..10.
pub fn edid_manufacturer_id(edid: &[u8]) -> (r: Option<String>)
    ensures
        opt_text(r) == manufacturer_id(edid@),
{
    if edid.len() < 10 {
        return None;
    }
    let value: u16 = ((edid[8] as u16) << 8u16) | (edid[9] as u16);
    let mut manufacturer = String::new();
    let a = (value >> 10u16) & 0x1f;
    let b = (value >> 5u16) & 0x1f;
    let c = value & 0x1f;
    assert(c == (value >> 0u16) & 0x1f) by (bit_vector)
        requires
            c == value & 0x1f,
    ;
    if !(1 <= a && a <= 26 && 1 <= b && b <= 26 && 1 <= c && c <= 26) {
        return None;
    }
    push_char(&mut manufacturer, (64 + a as u8) as char);
    push_char(&mut manufacturer, (64 + b as u8) as char);
    push_char(&mut manufacturer, (64 + c as u8) as char);
    assert(manufacturer@ =~= seq![letter(a), letter(b), letter(c)]);
    Some(manufacturer)
}

/// The brand of a known manufacturer id.
pub open spec fn vendor_of(id: Seq<char>) -> Option<Seq<char>> {
    if id == "SAM"@ {
        Some("Samsung"@)
    } else if id == "DEL"@ {
        Some("Dell"@)
    } else if id == "GSM"@ {
        Some("LG"@)
    } else if id == "ACR"@ {
        Some("Acer"@)
    } else if id == "AOC"@ {
        Some("AOC"@)
    } else if id == "APP"@ {
        Some("Apple"@)
    } else if id == "AUS"@ {
        Some("ASUS"@)
    } else if id == "BNQ"@ {
        Some("BenQ"@)
    } else if id == "HWP"@ {
        Some("HP"@)
    } else if id == "LEN"@ {
        Some("Lenovo"@)
    } else if id == "MSI"@ {
        Some("MSI"@)
    } else if id == "SNY"@ {
        Some("Sony"@)
    } else if id == "VSC"@ {
        Some("ViewSonic"@)
    } else {
        None
    }
}

/// Whether `id` is the manufacturer id `known`.
fn is_id(id: &Vec<char>, known: &str) -> (r: bool)
    ensures
        r == (id@ == known@),
{
    let k = chars_of(known);
    crate::text::same_chars(id.as_slice(), k.as_slice())
}

/// The brand of a known manufacturer id.
pub fn edid_vendor_name(manufacturer_id: &str) -> (r: Option<&'static str>)
    ensures
        r matches Some(s) ==> vendor_of(manufacturer_id@) == Some(s@),
        r is None ==> vendor_of(manufacturer_id@) is None,
{
    let id = chars_of(manufacturer_id);
    if is_id(&id, "SAM") {
        Some("Samsung")
    } else if is_id(&id, "DEL") {
        Some("Dell")
    } else if is_id(&id, "GSM") {
        Some("LG")
    } else if is_id(&id, "ACR") {
        Some("Acer")
    } else if is_id(&id, "AOC") {
        Some("AOC")
    } else if is_id(&id, "APP") {
        Some("Apple")
    } else if is_id(&id, "AUS") {
        Some("ASUS")
    } else if is_id(&id, "BNQ") {
        Some("BenQ")
    } else if is_id(&id, "HWP") {
        Some("HP")
    } else if is_id(&id, "LEN") {
        Some("Lenovo")
    } else if is_id(&id, "MSI") {
        Some("MSI")
    } else if is_id(&id, "SNY") {
        Some("Sony")
    } else if is_id(&id, "VSC") {
        Some("ViewSonic")
    } else {
        None
    }
}

/// The uppercase hexadecimal text of a byte sequence.
pub open spec fn hex_text(b: Seq<u8>) -> Seq<char>
    decreases b.len(),
{
    if b.len() == 0 {
        Seq::empty()
    } else {
        hex_text(b.drop_last()) + hex_pair_upper(b.last())
    }
}

/// The bytes as uppercase hexadecimal text, two digits per byte.
pub fn bytes_to_hex(bytes: &[u8]) -> (r: String)
    ensures
        r@ == hex_text(bytes@),
{
    let mut output = String::new();
    let mut i: usize = 0;
    while i < bytes.len()
        invariant
            i <= bytes.len(),
            output@ == hex_text(bytes@.take(i as int)),
        decreases bytes.len() - i,
    {
        assert(bytes@.take(i + 1).drop_last() =~= bytes@.take(i as int));
        push_hex_upper(&mut output, bytes[i]);
        i += 1;
    }
    assert(bytes@.take(bytes.len() as int) =~= bytes@);
    output
}

pub fn non_zero_byte(value: u8) -> (r: Option<u8>)
    ensures
        r == if value == 0 {
            None
        } else {
            Some(value)
        },
{
    if value == 0 {
        None
    } else {
        Some(value)
    }
}

pub fn non_zero_u16(value: u16) -> (r: Option<u16>)
    ensures
        r == if value == 0 {
            None
        } else {
            Some(value)
        },
{
    if value == 0 {
        None
    } else {
        Some(value)
    }
}

pub fn non_zero_u32(value: u32) -> (r: Option<u32>)
    ensures
        r == if value == 0 {
            None
        } else {
            Some(value)
        },
{
    if value == 0 {
        None
    } else {
        Some(value)
    }
}

/// Fields of the EDID base block.
#[derive(Debug)]
pub struct EdidInfo {
    /// Brand of a known manufacturer id, else the id itself.
    pub vendor: Option<String>,
    pub manufacturer_id: Option<String>,
    /// Product code: the little-endian word of bytes 8 and 9; none when zero.
    pub product_code: Option<u16>,
    /// Serial number (bytes 12..16, little-endian); none when zero.
    pub serial_number: Option<u32>,
    /// Week of manufacture (byte 16), from 1 to 53; none for any other byte
    /// (0 means unspecified, 0xFF marks a model year).
    pub manufacture_week: Option<u8>,
    /// Year of manufacture (1990 + byte 17); none when the byte is 0.
    pub manufacture_year: Option<u16>,
    /// Width in cm (byte 21); none when zero.
    pub width_cm: Option<u8>,
    /// Height in cm (byte 22); none when zero.
    pub height_cm: Option<u8>,
}

/// The content of `EdidInfo` as mathematical values.
pub struct EdidInfoView {
    pub vendor: Option<Seq<char>>,
    pub manufacturer_id: Option<Seq<char>>,
    pub product_code: Option<u16>,
    pub serial_number: Option<u32>,
    pub manufacture_week: Option<u8>,
    pub manufacture_year: Option<u16>,
    pub width_cm: Option<u8>,
    pub height_cm: Option<u8>,
}

impl View for EdidInfo {
    type V = EdidInfoView;

    open spec fn view(&self) -> EdidInfoView {
        EdidInfoView {
            vendor: opt_text(self.vendor),
            manufacturer_id: opt_text(self.manufacturer_id),
            product_code: self.product_code,
            serial_number: self.serial_number,
            manufacture_week: self.manufacture_week,
            manufacture_year: self.manufacture_year,
            width_cm: self.width_cm,
            height_cm: self.height_cm,
        }
    }
}

pub open spec fn non_zero<T>(value: T, zero: T) -> Option<T> {
    if value == zero {
        None
    } else {
        Some(value)
    }
}

/// The fields of an EDID block; all absent when it is shorter than 128
/// bytes.
pub open spec fn edid_info(edid: Seq<u8>) -> EdidInfoView {
    if edid.len() < 128 {
        EdidInfoView {
            vendor: None,
            manufacturer_id: None,
            product_code: None,
            serial_number: None,
            manufacture_week: None,
            manufacture_year: None,
            width_cm: None,
            height_cm: None,
        }
    } else {
        let id = manufacturer_id(edid);
        EdidInfoView {
            vendor: match id {
                Some(i) => match vendor_of(i) {
                    Some(v) => Some(v),
                    None => Some(i),
                },
                None => None,
            },
            manufacturer_id: id,
            product_code: non_zero(crate::hw::smbios::le16(edid[8], edid[9]), 0u16),
            serial_number: non_zero(
                crate::hw::smbios::le32(edid[12], edid[13], edid[14], edid[15]),
                0u32,
            ),
            manufacture_week: if 1 <= edid[16] <= 53 {
                Some(edid[16])
            } else {
                None
            },
            manufacture_year: if edid[17] == 0 {
                None
            } else {
                Some((1990 + edid[17]) as u16)
            },
            width_cm: non_zero(edid[21], 0u8),
            height_cm: non_zero(edid[22], 0u8),
        }
    }
}

/// Decodes the fields of an EDID base block.
pub fn parse_edid_info(edid: &[u8]) -> (r: EdidInfo)
    ensures
        r@ == edid_info(edid@),
{
    if edid.len() < 128 {
        return EdidInfo {
            vendor: None,
            manufacturer_id: None,
            product_code: None,
            serial_number: None,
            manufacture_week: None,
            manufacture_year: None,
            width_cm: None,
            height_cm: None,
        };
    }
    let manufacturer_id = edid_manufacturer_id(edid);
    let product_code = (edid[8] as u16) | ((edid[9] as u16) << 8u16);
    let serial_number = (edid[12] as u32) | ((edid[13] as u32) << 8u32) | ((edid[14] as u32)
        << 16u32) | ((edid[15] as u32) << 24u32);
    let manufacture_week = if 1 <= edid[16] && edid[16] <= 53 {
        Some(edid[16])
    } else {
        None
    };
    let manufacture_year = if edid[17] == 0 {
        None
    } else {
        Some(1990 + edid[17] as u16)
    };
    let vendor = match &manufacturer_id {
        Some(id) => match edid_vendor_name(id.as_str()) {
            Some(v) => Some(crate::hw::owned(v)),
            None => Some(id.clone()),
        },
        None => None,
    };
    EdidInfo {
        vendor,
        manufacturer_id,
        product_code: non_zero_u16(product_code),
        serial_number: non_zero_u32(serial_number),
        manufacture_week,
        manufacture_year,
        width_cm: non_zero_byte(edid[21]),
        height_cm: non_zero_byte(edid[22]),
    }
}

/// The position of the first occurrence of `pat` in `s` at or after `i`.
pub open spec fn find_text_from(s: Seq<char>, pat: Seq<char>, i: int) -> Option<int>
    decreases s.len() + 1 - i,
{
    if i < 0 || i + pat.len() > s.len() {
        None
    } else if s.subrange(i, i + pat.len()) == pat {
        Some(i)
    } else {
        find_text_from(s, pat, i + 1)
    }
}

pub proof fn lemma_find_text_from(s: Seq<char>, pat: Seq<char>, i: int)
    ensures
        find_text_from(s, pat, i) matches Some(k) ==> 0 <= i <= k && k + pat.len() <= s.len(),
    decreases s.len() + 1 - i,
{
    if 0 <= i && i + pat.len() <= s.len() && s.subrange(i, i + pat.len()) != pat {
        lemma_find_text_from(s, pat, i + 1);
    }
}

/// The text of `s` before its first `sep` (all of it when there is none).
pub open spec fn first_segment(s: Seq<char>, sep: char) -> Seq<char> {
    match find_char(s, sep) {
        Some(k) => s.take(k),
        None => s,
    }
}

/// ASCII lowercase of a character; other characters are kept.
pub open spec fn ascii_lower(c: char) -> char {
    if 'A' <= c <= 'Z' {
        ((c as u32) + 32) as char
    } else {
        c
    }
}

/// Whether two texts are equal up to ASCII case.
pub open spec fn eq_ignore_ascii_case(a: Seq<char>, b: Seq<char>) -> bool {
    a.len() == b.len() && forall|i: int| 0 <= i < a.len() ==> ascii_lower(#[trigger] a[i])
        == ascii_lower(b[i])
}

/// The hardware id (e.g. `SAM71E7`) of a Windows monitor device id: the
/// segment after `DISPLAY#` in an interface path, or the second
/// `\`-separated segment of a `MONITOR\...` id.
pub open spec fn monitor_id(d: Seq<char>) -> Option<Seq<char>> {
    match find_text_from(d, "DISPLAY#"@, 0) {
        Some(i) => Some(first_segment(d.skip(i + "DISPLAY#"@.len()), '#')),
        None => match find_char(d, '\\') {
            None => None,
            Some(k) => if eq_ignore_ascii_case(d.take(k), "MONITOR"@) {
                Some(first_segment(d.skip(k + 1), '\\'))
            } else {
                None
            },
        },
    }
}

/// The ASCII lowercase of a character; other characters are kept.
pub fn lower_ascii(c: char) -> (r: char)
    ensures
        r == ascii_lower(c),
{
    if 'A' <= c && c <= 'Z' {
        ((c as u32 + 32) as u8) as char
    } else {
        c
    }
}

/// Whether two texts are equal up to ASCII case.
pub fn same_ignoring_ascii_case(a: &[char], b: &[char]) -> (r: bool)
    ensures
        r == eq_ignore_ascii_case(a@, b@),
{
    if a.len() != b.len() {
        return false;
    }
    let mut i: usize = 0;
    while i < a.len()
        invariant
            i <= a.len() == b.len(),
            forall|k: int| 0 <= k < i ==> ascii_lower(#[trigger] a@[k]) == ascii_lower(b@[k]),
        decreases a.len() - i,
    {
        if lower_ascii(a[i]) != lower_ascii(b[i]) {
            return false;
        }
        i += 1;
    }
    true
}

/// The first position of `pat` in `s`.
pub fn find_text(s: &[char], pat: &[char]) -> (r: Option<usize>)
    ensures
        r matches Some(i) ==> find_text_from(s@, pat@, 0) == Some(i as int),
        r is None ==> find_text_from(s@, pat@, 0) is None,
{
    if pat.len() > s.len() {
        return None;
    }
    let last = s.len() - pat.len();
    let mut i: usize = 0;
    loop
        invariant
            pat.len() <= s.len(),
            last == s.len() - pat.len(),
            i <= last,
            find_text_from(s@, pat@, 0) == find_text_from(s@, pat@, i as int),
        decreases last - i,
    {
        let rest = &s[i..s.len()];
        assert(rest@.take(pat@.len() as int) =~= s@.subrange(i as int, i + pat@.len()));
        if has_prefix(rest, pat) {
            return Some(i);
        }
        if i == last {
            assert(find_text_from(s@, pat@, i + 1) is None);
            return None;
        }
        i += 1;
    }
}

/// The characters of `s` before its first `sep`.
fn segment_before(s: &[char], sep: char) -> (r: Vec<char>)
    ensures
        r@ == first_segment(s@, sep),
{
    let end = match position_of(s, sep) {
        Some(k) => k,
        None => s.len(),
    };
    proof {
        crate::text::lemma_find_char_from(s@, sep, 0);
    }
    let mut r: Vec<char> = Vec::new();
    let mut i: usize = 0;
    while i < end
        invariant
            i <= end <= s.len(),
            r@ == s@.take(i as int),
        decreases end - i,
    {
        r.push(s[i]);
        i += 1;
        assert(r@ =~= s@.take(i as int));
    }
    assert(end == s.len() ==> s@.take(end as int) =~= s@);
    r
}

/// The hardware id of a Windows monitor device id.
pub fn monitor_hardware_id(device_id: &str) -> (r: Option<String>)
    ensures
        opt_text(r) == monitor_id(device_id@),
{
    let d = chars_of(device_id);
    let marker = chars_of("DISPLAY#");
    match find_text(d.as_slice(), marker.as_slice()) {
        Some(i) => {
            proof {
                lemma_find_text_from(d@, marker@, 0);
            }
            assert(i + marker@.len() <= d@.len());
            assert(marker.len() == marker@.len() && d.len() == d@.len());
            let start = i + marker.len();
            let rest = &d[start..d.len()];
            assert(rest@ =~= d@.skip(i + marker@.len()));
            let id = segment_before(rest, '#');
            return Some(string_of(id.as_slice()));
        },
        None => {},
    }
    let k = match position_of(d.as_slice(), '\\') {
        Some(k) => k,
        None => {
            return None;
        },
    };
    proof {
        crate::text::lemma_find_char_from(d@, '\\', 0);
    }
    assert(k < d@.len());
    let prefix = &d[0..k];
    let monitor = chars_of("MONITOR");
    assert(prefix@ =~= d@.take(k as int));
    if !same_ignoring_ascii_case(prefix, monitor.as_slice()) {
        return None;
    }
    let rest = &d[k + 1..d.len()];
    assert(rest@ =~= d@.skip(k + 1));
    let id = segment_before(rest, '\\');
    Some(string_of(id.as_slice()))
}

/// Whether a `/sys/class/drm` entry is a connector (`card<N>-<name>`) rather
/// than a card (`card<N>`) or another node.
pub open spec fn drm_connector(name: Seq<char>) -> bool {
    starts_with(name, "card"@) && {
        let rest = name.skip("card"@.len() as int);
        match find_char(rest, '-') {
            Some(k) => all_digits(rest.take(k)),
            None => false,
        }
    }
}

pub fn is_drm_connector(name: &str) -> (r: bool)
    ensures
        r == drm_connector(name@),
{
    let n = chars_of(name);
    let card = chars_of("card");
    if !has_prefix(n.as_slice(), card.as_slice()) {
        return false;
    }
    let rest = &n[card.len()..n.len()];
    assert(rest@ =~= n@.skip(card@.len() as int));
    let dash = match position_of(rest, '-') {
        Some(k) => k,
        None => {
            return false;
        },
    };
    proof {
        crate::text::lemma_find_char_from(rest@, '-', 0);
    }
    let digits = &rest[0..dash];
    assert(digits@ =~= rest@.take(dash as int));
    crate::text::digits_only(digits)
}

/// The connector part of a DRM entry name: what follows its first `-`.
pub open spec fn connector_name(dir_name: Seq<char>) -> Seq<char> {
    match find_char(dir_name, '-') {
        Some(k) => dir_name.skip(k + 1),
        None => dir_name,
    }
}

/// A connected DRM connector and what its EDID says.
#[derive(Debug)]
pub struct DrmDisplay {
    /// The EDID monitor name, else the connector name.
    pub name: String,
    pub info: EdidInfo,
    /// The EDID block as uppercase hexadecimal text.
    pub edid_hex: String,
}

/// The content of `DrmDisplay` as mathematical values.
pub struct DrmDisplayView {
    pub name: Seq<char>,
    pub info: EdidInfoView,
    pub edid_hex: Seq<char>,
}

impl View for DrmDisplay {
    type V = DrmDisplayView;

    open spec fn view(&self) -> DrmDisplayView {
        DrmDisplayView { name: self.name@, info: self.info@, edid_hex: self.edid_hex@ }
    }
}

/// The display behind a DRM connector entry, given its `status` and `edid`
/// files: none unless the trimmed status is `connected` and the EDID holds a
/// full base block.
pub open spec fn drm_display(dir_name: Seq<char>, status: Seq<char>, edid: Seq<u8>) -> Option<
    DrmDisplayView,
> {
    if trim(status) != "connected"@ || edid.len() < 128 {
        None
    } else {
        Some(
            DrmDisplayView {
                name: match edid_name(edid) {
                    Some(n) => n,
                    None => connector_name(dir_name),
                },
                info: edid_info(edid),
                edid_hex: hex_text(edid),
            },
        )
    }
}

/// Describes the display of a DRM connector entry from its files.
pub fn describe_drm_connector(dir_name: &str, status: &str, edid: &[u8]) -> (r: Option<DrmDisplay>)
    ensures
        r matches Some(d) ==> drm_display(dir_name@, status@, edid@) == Some(d@),
        r is None ==> drm_display(dir_name@, status@, edid@) is None,
{
    let status_chars = chars_of(status);
    let trimmed = trimmed_range(status_chars.as_slice(), 0, status_chars.len());
    assert(status_chars@.subrange(0, status_chars@.len() as int) =~= status_chars@);
    let connected = chars_of("connected");
    if !crate::text::same_chars(trimmed.as_slice(), connected.as_slice()) {
        return None;
    }
    if edid.len() < 128 {
        return None;
    }
    let dir = chars_of(dir_name);
    let name = match edid_display_name(edid) {
        Some(n) => n,
        None => {
            proof {
                crate::text::lemma_find_char_from(dir@, '-', 0);
            }
            match position_of(dir.as_slice(), '-') {
                Some(k) => {
                    assert(k < dir@.len());
                    let rest = &dir[k + 1..dir.len()];
                    assert(rest@ =~= dir@.skip(k + 1));
                    string_of(rest)
                },
                None => string_of(dir.as_slice()),
            }
        },
    };
    Some(DrmDisplay { name, info: parse_edid_info(edid), edid_hex: bytes_to_hex(edid) })
}

use crate::hw::sort::Named;

impl Named for DrmDisplay {
    open spec fn name_view(&self) -> Seq<char> {
        self.name@
    }

    fn name_chars(&self) -> (r: Vec<char>) {
        chars_of(self.name.as_str())
    }
}

/// An entry of `/sys/class/drm` and what reading its files gave (none when a
/// file could not be read).
#[derive(Debug)]
pub struct DrmEntry {
    pub dir_name: String,
    /// The text of the `status` file.
    pub status: Option<String>,
    /// The bytes of the `edid` file.
    pub edid: Option<Vec<u8>>,
}

/// The display of one entry: none unless it is a connector whose files were
/// read and describe a connected monitor.
pub open spec fn entry_display(e: DrmEntry) -> Option<DrmDisplayView> {
    if !drm_connector(e.dir_name@) {
        None
    } else {
        match (e.status, e.edid) {
            (Some(status), Some(edid)) => drm_display(e.dir_name@, status@, edid@),
            _ => None,
        }
    }
}

/// The displays of a run of entries, in entry order.
pub open spec fn entry_displays(es: Seq<DrmEntry>) -> Seq<DrmDisplayView>
    decreases es.len(),
{
    if es.len() == 0 {
        Seq::empty()
    } else {
        match entry_display(es.last()) {
            Some(d) => entry_displays(es.drop_last()).push(d),
            None => entry_displays(es.drop_last()),
        }
    }
}

/// The connected monitors among the entries of `/sys/class/drm`, ordered by
/// name.
pub fn drm_displays(entries: &Vec<DrmEntry>) -> (r: Vec<DrmDisplay>)
    ensures
        r@.map_values(|d: DrmDisplay| d@) == crate::hw::sort::sorted_by_key(
            entry_displays(entries@),
            |d: DrmDisplayView| d.name,
        ),
{
    let mut found: Vec<DrmDisplay> = Vec::new();
    let mut i: usize = 0;
    while i < entries.len()
        invariant
            i <= entries.len(),
            found@.map_values(|d: DrmDisplay| d@) == entry_displays(entries@.take(i as int)),
        decreases entries.len() - i,
    {
        assert(entries@.take(i + 1).drop_last() =~= entries@.take(i as int));
        assert(entries@.take(i + 1).last() == entries@[i as int]);
        let e = &entries[i];
        if is_drm_connector(e.dir_name.as_str()) {
            match (&e.status, &e.edid) {
                (Some(status), Some(edid)) => {
                    match describe_drm_connector(e.dir_name.as_str(), status.as_str(), edid.as_slice()) {
                        Some(d) => {
                            let ghost before = found@.map_values(|d: DrmDisplay| d@);
                            found.push(d);
                            assert(found@.map_values(|d: DrmDisplay| d@) =~= before.push(d@));
                        },
                        None => {},
                    }
                },
                _ => {},
            }
        }
        i += 1;
    }
    assert(entries@.take(entries@.len() as int) =~= entries@);
    let ghost unsorted = found@;
    let sorted = crate::hw::sort::sort_by_name(found);
    proof {
        crate::hw::sort::lemma_sorted_by_key_map(
            unsorted,
            |d: DrmDisplay| d@,
            |d: DrmDisplay| d.name_view(),
            |d: DrmDisplayView| d.name,
        );
    }
    sorted
}

/// The UTF-16 decoding of `units`, with U+FFFD in place of each unit that
/// is not part of a valid character: a unit outside the surrogate range is
/// its character; a high surrogate (D800..DBFF) followed by a low surrogate
/// (DC00..DFFF) is the supplementary character they encode; any other
/// surrogate is one replacement character.
pub open spec fn utf16_lossy(units: Seq<u16>) -> Seq<char>
    decreases units.len(),
{
    if units.len() == 0 {
        Seq::empty()
    } else if units[0] < 0xd800 || units[0] > 0xdfff {
        seq![units[0] as char] + utf16_lossy(units.drop_first())
    } else if units[0] <= 0xdbff && units.len() >= 2 && 0xdc00 <= units[1] <= 0xdfff {
        seq![(0x10000 + (units[0] - 0xd800) * 0x400 + (units[1] - 0xdc00)) as char]
            + utf16_lossy(units.skip(2))
    } else {
        seq!['\u{fffd}'] + utf16_lossy(units.drop_first())
    }
}

/// Calls `String::from_utf16_lossy`. Claimed: the result is the UTF-16
/// decoding of the units with invalid surrogates replaced by U+FFFD, as the
/// documentation of `String::from_utf16_lossy` and `char::decode_utf16`
/// describes it.
#[verifier::external_body]
fn decode_utf16_lossy(units: &[u16]) -> (text: String)
    ensures
        text@ == utf16_lossy(units@),
{
    String::from_utf16_lossy(units)
}

/// The position of the first 0 of `value` at or after `i`, or its length.
pub open spec fn nul_from(value: Seq<u16>, i: int) -> int
    decreases value.len() - i,
{
    if i < 0 || i >= value.len() {
        value.len() as int
    } else if value[i] == 0 {
        i
    } else {
        nul_from(value, i + 1)
    }
}

/// The text of a NUL-terminated UTF-16 buffer, trimmed: the units before the
/// first 0 (all of them when there is none), decoded.
pub fn utf16_null_terminated_to_string(value: &[u16]) -> (r: String)
    ensures
        r@ == trim(utf16_lossy(value@.take(nul_from(value@, 0)))),
{
    let mut len: usize = 0;
    while len < value.len() && value[len] != 0
        invariant
            len <= value.len(),
            nul_from(value@, 0) == nul_from(value@, len as int),
        decreases value.len() - len,
    {
        len += 1;
    }
    let text = decode_utf16_lossy(&value[0..len]);
    assert(value@.subrange(0, len as int) =~= value@.take(len as int));
    crate::text::trim_str(text.as_str())
}

/// The UTF-16 code units of one character.
pub open spec fn utf16_units(c: char) -> Seq<u16> {
    let v = c as u32;
    if v < 0x10000 {
        seq![v as u16]
    } else {
        seq![(0xd800 + ((v - 0x10000) / 0x400)) as u16, (0xdc00 + ((v - 0x10000) % 0x400)) as u16]
    }
}

/// The UTF-16 encoding of a text.
pub open spec fn utf16_encode(s: Seq<char>) -> Seq<u16>
    decreases s.len(),
{
    if s.len() == 0 {
        Seq::empty()
    } else {
        utf16_encode(s.drop_last()) + utf16_units(s.last())
    }
}

/// The UTF-16 encoding of `value` followed by a 0 unit, as Windows wide
/// string APIs take it.
pub fn wide_null_terminated(value: &str) -> (r: Vec<u16>)
    ensures
        r@ == utf16_encode(value@).push(0),
{
    let chars = chars_of(value);
    let mut r: Vec<u16> = Vec::new();
    let mut i: usize = 0;
    while i < chars.len()
        invariant
            i <= chars.len(),
            r@ == utf16_encode(chars@.take(i as int)),
        decreases chars.len() - i,
    {
        assert(chars@.take(i + 1).drop_last() =~= chars@.take(i as int));
        proof {
            vstd::utf8::char_is_scalar(chars@[i as int]);
        }
        let v = chars[i] as u32;
        let ghost before = r@;
        if v < 0x10000 {
            r.push(v as u16);
        } else {
            r.push((0xd800 + (v - 0x10000) / 0x400) as u16);
            r.push((0xdc00 + (v - 0x10000) % 0x400) as u16);
        }
        assert(r@ =~= before + utf16_units(chars@[i as int]));
        i += 1;
    }
    assert(chars@.take(chars.len() as int) =~= chars@);
    r.push(0);
    r
}

/// The EDID manufacturer id unpacks what packing three letters gave: for
/// codes `a`, `b`, `c` from 1 (`A`) to 26 (`Z`) stored as the big-endian
/// word `a << 10 | b << 5 | c` in bytes 8 and 9, the id is those letters.
pub proof fn lemma_manufacturer_id_unpacks(edid: Seq<u8>, a: u16, b: u16, c: u16)
    requires
        edid.len() >= 10,
        1 <= a <= 26,
        1 <= b <= 26,
        1 <= c <= 26,
        edid[8] == (((a << 10u16) | (b << 5u16) | c) >> 8u16) as u8,
        edid[9] == (((a << 10u16) | (b << 5u16) | c) & 0xffu16) as u8,
    ensures
        manufacturer_id(edid) == Some(seq![letter(a), letter(b), letter(c)]),
{
    let b8 = edid[8];
    let b9 = edid[9];
    assert(((((b8 as u16) << 8u16) | (b9 as u16)) >> 10u16) & 0x1f == a && ((((b8 as u16) << 8u16)
        | (b9 as u16)) >> 5u16) & 0x1f == b && ((((b8 as u16) << 8u16) | (b9 as u16)) >> 0u16)
        & 0x1f == c) by (bit_vector)
        requires
            1 <= a <= 26,
            1 <= b <= 26,
            1 <= c <= 26,
            b8 == (((a << 10u16) | (b << 5u16) | c) >> 8u16) as u8,
            b9 == (((a << 10u16) | (b << 5u16) | c) & 0xffu16) as u8,
    ;
}

/// Uppercase hexadecimal text has two digits per byte, and the text of
/// concatenated bytes is the concatenated text.
pub proof fn lemma_hex_text_concat(a: Seq<u8>, b: Seq<u8>)
    ensures
        hex_text(a + b) == hex_text(a) + hex_text(b),
        hex_text(a).len() == 2 * a.len(),
    decreases b.len() + a.len(),
{
    if b.len() > 0 {
        lemma_hex_text_concat(a, b.drop_last());
        assert((a + b).drop_last() =~= a + b.drop_last());
    } else {
        assert(a + b =~= a);
        if a.len() > 0 {
            lemma_hex_text_concat(a.drop_last(), Seq::empty());
        }
    }
}

/// No unit of the UTF-16 encoding of a text without NUL characters is 0.
proof fn lemma_utf16_encode_no_zero(s: Seq<char>)
    requires
        forall|k: int| 0 <= k < s.len() ==> (#[trigger] s[k] as u32) != 0,
    ensures
        forall|k: int| 0 <= k < utf16_encode(s).len() ==> #[trigger] utf16_encode(s)[k] != 0,
    decreases s.len(),
{
    if s.len() > 0 {
        lemma_utf16_encode_no_zero(s.drop_last());
        let c = s.last();
        vstd::utf8::char_is_scalar(c);
        let v = c as u32;
        assert(v != 0);
        if v >= 0x10000 {
            assert(0xd800 + ((v - 0x10000) / 0x400) < 0x10000);
            assert(0xdc00 + ((v - 0x10000) % 0x400) < 0x10000);
        }
        assert(utf16_encode(s) == utf16_encode(s.drop_last()) + utf16_units(c));
    }
}

proof fn lemma_nul_from_none_before(value: Seq<u16>, i: int, n: int)
    requires
        0 <= i <= n < value.len(),
        value[n] == 0,
        forall|k: int| 0 <= k < n ==> #[trigger] value[k] != 0,
    ensures
        nul_from(value, i) == n,
    decreases n - i,
{
    if i < n {
        lemma_nul_from_none_before(value, i + 1, n);
    }
}

/// What `wide_null_terminated` writes, `utf16_null_terminated_to_string`
/// reads back: for a text without NUL characters, the units before the
/// first 0 are the text's encoding, and they decode to the text, so the
/// text read back is the trimmed text.
pub proof fn lemma_wide_null_terminated_reads_back(s: Seq<char>)
    requires
        forall|k: int| 0 <= k < s.len() ==> (#[trigger] s[k] as u32) != 0,
    ensures
        nul_from(utf16_encode(s).push(0), 0) == utf16_encode(s).len(),
        utf16_encode(s).push(0).take(nul_from(utf16_encode(s).push(0), 0)) == utf16_encode(s),
        trim(utf16_lossy(utf16_encode(s).push(0).take(nul_from(utf16_encode(s).push(0), 0))))
            == trim(s),
{
    lemma_utf16_round_trip(s);
    let e = utf16_encode(s);
    lemma_utf16_encode_no_zero(s);
    let w = e.push(0);
    assert forall|k: int| 0 <= k < e.len() implies #[trigger] w[k] != 0 by {
        assert(w[k] == e[k]);
    }
    lemma_nul_from_none_before(w, 0, e.len() as int);
    assert(w.take(e.len() as int) =~= e);
}

/// Byte `i` is written as the two characters at `2i` and `2i + 1`: the
/// uppercase hexadecimal digits of its high and low nibble, each `0`-`9` or
/// `A`-`F`.
pub proof fn lemma_hex_text_pairs(b: Seq<u8>)
    ensures
        hex_text(b).len() == 2 * b.len(),
        forall|i: int|
            0 <= i < b.len() ==> #[trigger] hex_text(b).subrange(2 * i, 2 * i + 2)
                == hex_pair_upper(b[i]),
        forall|k: int|
            0 <= k < hex_text(b).len() ==> ('0' <= #[trigger] hex_text(b)[k] <= '9') || ('A'
                <= hex_text(b)[k] <= 'F'),
    decreases b.len(),
{
    lemma_hex_text_concat(b, Seq::empty());
    if b.len() > 0 {
        let a = b.drop_last();
        lemma_hex_text_pairs(a);
        lemma_hex_text_concat(a, Seq::empty());
        let t = hex_text(b);
        let ta = hex_text(a);
        let last = hex_pair_upper(b.last());
        assert(t == ta + last);
        assert forall|i: int| 0 <= i < b.len() implies #[trigger] t.subrange(2 * i, 2 * i + 2)
            == hex_pair_upper(b[i]) by {
            if i < a.len() {
                assert(t.subrange(2 * i, 2 * i + 2) =~= ta.subrange(2 * i, 2 * i + 2));
            } else {
                assert(t.subrange(2 * i, 2 * i + 2) =~= last);
            }
        }
        let hi = b.last() as int / 16;
        let lo = b.last() as int % 16;
        assert('0' <= crate::text::hex_digit_upper(hi) <= '9' || 'A' <= crate::text::hex_digit_upper(hi) <= 'F');
        assert('0' <= crate::text::hex_digit_upper(lo) <= '9' || 'A' <= crate::text::hex_digit_upper(lo) <= 'F');
        assert forall|k: int| 0 <= k < t.len() implies ('0' <= #[trigger] t[k] <= '9') || ('A'
            <= t[k] <= 'F') by {
            if k < ta.len() {
                assert(t[k] == ta[k]);
            } else {
                assert(t[k] == last[k - ta.len()]);
            }
        }
    }
}

/// The encoding of a text is the units of its first character followed by
/// the encoding of the rest.
proof fn lemma_utf16_encode_front(s: Seq<char>)
    requires
        s.len() > 0,
    ensures
        utf16_encode(s) == utf16_units(s[0]) + utf16_encode(s.drop_first()),
    decreases s.len(),
{
    if s.len() == 1 {
        let d = s.drop_last();
        assert(d.len() == 0);
        assert(utf16_encode(d) =~= Seq::<u16>::empty());
        assert(s.drop_first().len() == 0);
        assert(utf16_encode(s.drop_first()) =~= Seq::<u16>::empty());
        assert(s.last() == s[0]);
        assert(utf16_encode(s) =~= utf16_units(s[0]) + utf16_encode(s.drop_first()));
    } else {
        let d = s.drop_last();
        lemma_utf16_encode_front(d);
        assert(d.drop_first() =~= s.drop_first().drop_last());
        assert(s.drop_first().last() == s.last());
        assert(utf16_encode(s) =~= utf16_units(s[0]) + utf16_encode(s.drop_first()));
    }
}

/// Decoding the units of a character followed by more units gives the
/// character followed by the decoding of the rest.
proof fn lemma_utf16_lossy_units(c: char, rest: Seq<u16>)
    ensures
        utf16_lossy(utf16_units(c) + rest) == seq![c] + utf16_lossy(rest),
{
    vstd::utf8::char_is_scalar(c);
    let v = c as u32;
    let u = utf16_units(c) + rest;
    if v < 0x10000 {
        assert(u[0] == v as u16);
        assert(u.drop_first() =~= rest);
        assert(((v as u16) as char) == c);
    } else {
        let q = (v - 0x10000) / 0x400;
        let r = (v - 0x10000) % 0x400;
        assert(v - 0x10000 == q * 0x400 + r);
        assert(q <= 0x3ff);
        assert(u[0] == (0xd800 + q) as u16);
        assert(u[1] == (0xdc00 + r) as u16);
        assert(u.skip(2) =~= rest);
        assert(0x10000 + q * 0x400 + r == v);
        assert((v as char) == c);
    }
}

/// Decoding the UTF-16 encoding of a text gives the text back.
pub proof fn lemma_utf16_round_trip(s: Seq<char>)
    ensures
        utf16_lossy(utf16_encode(s)) == s,
    decreases s.len(),
{
    if s.len() > 0 {
        lemma_utf16_encode_front(s);
        lemma_utf16_lossy_units(s[0], utf16_encode(s.drop_first()));
        lemma_utf16_round_trip(s.drop_first());
        assert(seq![s[0]] + s.drop_first() =~= s);
    } else {
        assert(utf16_encode(s) =~= Seq::<u16>::empty());
    }
}

/// The monitor name is the text of the first of the four descriptors
/// (bytes 54 + 18k to 72 + 18k, k from 0 to 3) that is a monitor name
/// descriptor (bytes 0..3 zero, tag 0xFC at byte 3) with non-empty text.
pub proof fn lemma_monitor_name_is_first_name_descriptor(edid: Seq<u8>, k: int)
    requires
        edid.len() >= 126,
        0 <= k < 4,
        edid[54 + 18 * k] == 0 && edid[55 + 18 * k] == 0 && edid[56 + 18 * k] == 0 && edid[57
            + 18 * k] == 0xfc,
        descriptor_text(edid.subrange(54 + 18 * k, 72 + 18 * k)).len() > 0,
        forall|j: int|
            0 <= j < k ==> !(edid[54 + 18 * j] == 0 && edid[55 + 18 * j] == 0 && edid[56 + 18 * j]
                == 0 && edid[57 + 18 * j] == 0xfc && descriptor_text(
                #[trigger] edid.subrange(54 + 18 * j, 72 + 18 * j),
            ).len() > 0),
    ensures
        edid_name(edid) == Some(descriptor_text(edid.subrange(54 + 18 * k, 72 + 18 * k))),
{
    lemma_name_from_skips(edid, 0, k);
}

proof fn lemma_name_from_skips(edid: Seq<u8>, i: int, k: int)
    requires
        edid.len() >= 126,
        0 <= i <= k < 4,
        edid[54 + 18 * k] == 0 && edid[55 + 18 * k] == 0 && edid[56 + 18 * k] == 0 && edid[57
            + 18 * k] == 0xfc,
        descriptor_text(edid.subrange(54 + 18 * k, 72 + 18 * k)).len() > 0,
        forall|j: int|
            0 <= j < k ==> !(edid[54 + 18 * j] == 0 && edid[55 + 18 * j] == 0 && edid[56 + 18 * j]
                == 0 && edid[57 + 18 * j] == 0xfc && descriptor_text(
                #[trigger] edid.subrange(54 + 18 * j, 72 + 18 * j),
            ).len() > 0),
    ensures
        name_from(edid, i) == Some(descriptor_text(edid.subrange(54 + 18 * k, 72 + 18 * k))),
    decreases k - i,
{
    let d = descriptor(edid, i);
    assert(d[0] == edid[54 + 18 * i] && d[1] == edid[55 + 18 * i] && d[2] == edid[56 + 18 * i]
        && d[3] == edid[57 + 18 * i]);
    if i < k {
        assert(!(edid[54 + 18 * i] == 0 && edid[55 + 18 * i] == 0 && edid[56 + 18 * i] == 0
            && edid[57 + 18 * i] == 0xfc && descriptor_text(
            edid.subrange(54 + 18 * i, 72 + 18 * i),
        ).len() > 0));
        lemma_name_from_skips(edid, i + 1, k);
    }
}

} // verus!
