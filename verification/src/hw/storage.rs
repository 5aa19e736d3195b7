//! Storage devices as Linux lists them under `/sys/block`.

use crate::hw::sort::{sort_by_name, sorted_by_key, sorted_by_name, Named};
use crate::hw::{hw_view, opt_text, owned, HwResult};
use crate::hw::display::{find_text, find_text_from};
use crate::text::{decimal_text, decode_utf8_lossy, push_decimal, trim_str, utf8_text};
use crate::text::{chars_of, parse_u64, parse_u64_text, string_of, trim, trimmed_range};
use vstd::prelude::*;

verus! {

/// A storage device.
#[derive(Debug)]
pub struct DiskInfo {
    /// Device path, e.g. `/dev/nvme0n1`.
    pub name: String,
    /// Model; empty when not reported.
    pub model: String,
    /// Serial number; empty when not reported.
    pub serial_number: String,
    /// Size in bytes.
    pub size: u64,
}

/// The content of `DiskInfo` as mathematical values.
pub struct DiskInfoView {
    pub name: Seq<char>,
    pub model: Seq<char>,
    pub serial_number: Seq<char>,
    pub size: u64,
}

impl View for DiskInfo {
    type V = DiskInfoView;

    open spec fn view(&self) -> DiskInfoView {
        DiskInfoView {
            name: self.name@,
            model: self.model@,
            serial_number: self.serial_number@,
            size: self.size,
        }
    }
}

impl Named for DiskInfo {
    open spec fn name_view(&self) -> Seq<char> {
        self.name@
    }

    fn name_chars(&self) -> (r: Vec<char>) {
        chars_of(self.name.as_str())
    }
}

/// 512-byte sectors to bytes, saturating at `u64::MAX`.
pub fn sectors_to_bytes(sectors: u64) -> (r: u64)
    ensures
        r == if sectors * 512 > u64::MAX {
            u64::MAX as int
        } else {
            sectors * 512
        },
{
    match sectors.checked_mul(512) {
        Some(v) => v,
        None => u64::MAX,
    }
}

/// A `/sys/block` entry with a `device` link, and what reading its files
/// gave (none when a file could not be read).
#[derive(Debug)]
pub struct BlockDevice {
    /// The entry name, e.g. `sda`.
    pub name: String,
    /// The text of `device/model`.
    pub model: Option<String>,
    /// The text of `device/serial`.
    pub serial: Option<String>,
    /// The text of `size` (in 512-byte sectors).
    pub size: Option<String>,
}

/// The value of a sysfs attribute: its trimmed text, unless that is empty.
pub open spec fn sysfs_text(content: Option<Seq<char>>) -> Option<Seq<char>> {
    match content {
        Some(c) => if trim(c).len() > 0 {
            Some(trim(c))
        } else {
            None
        },
        None => None,
    }
}

/// The disk of a `/sys/block` entry.
pub open spec fn disk_of(d: BlockDevice) -> DiskInfoView {
    DiskInfoView {
        name: "/dev/"@ + d.name@,
        model: crate::hw::smbios::text_or_empty(sysfs_text(crate::hw::opt_text(d.model))),
        serial_number: crate::hw::smbios::text_or_empty(
            sysfs_text(crate::hw::opt_text(d.serial)),
        ),
        size: match sysfs_text(crate::hw::opt_text(d.size)) {
            Some(t) => match parse_u64_text(t) {
                Some(sectors) => if sectors * 512 > u64::MAX {
                    u64::MAX
                } else {
                    (sectors * 512) as u64
                },
                None => 0,
            },
            None => 0,
        },
    }
}

/// The value of a sysfs attribute as characters.
fn sysfs_value(content: &Option<String>) -> (r: Option<Vec<char>>)
    ensures
        r matches Some(v) ==> sysfs_text(crate::hw::opt_text(*content)) == Some(v@),
        r is None ==> sysfs_text(crate::hw::opt_text(*content)) is None,
{
    match content {
        Some(c) => {
            let chars = chars_of(c.as_str());
            let t = trimmed_range(chars.as_slice(), 0, chars.len());
            assert(chars@.subrange(0, chars@.len() as int) =~= chars@);
            if t.len() > 0 {
                Some(t)
            } else {
                None
            }
        },
        None => None,
    }
}

/// The text of a sysfs attribute, trimmed; none when it could not be read or
/// is empty.
pub fn read_sysfs_string(content: &Option<String>) -> (r: Option<String>)
    ensures
        opt_text(r) == sysfs_text(opt_text(*content)),
{
    match sysfs_value(content) {
        Some(v) => Some(string_of(v.as_slice())),
        None => None,
    }
}

/// The number that a sysfs attribute holds; none when it could not be read,
/// is empty or is not a decimal `u64`.
pub fn read_sysfs_u64(content: &Option<String>) -> (r: Option<u64>)
    ensures
        r == match sysfs_text(opt_text(*content)) {
            Some(t) => parse_u64_text(t),
            None => None,
        },
{
    match sysfs_value(content) {
        Some(v) => parse_u64(v.as_slice()),
        None => None,
    }
}

/// The disk of one `/sys/block` entry.
pub fn disk_info(device: &BlockDevice) -> (r: DiskInfo)
    ensures
        r@ == disk_of(*device),
{
    let name = owned("/dev/").concat(device.name.as_str());
    let model = match sysfs_value(&device.model) {
        Some(v) => string_of(v.as_slice()),
        None => String::new(),
    };
    let serial_number = match sysfs_value(&device.serial) {
        Some(v) => string_of(v.as_slice()),
        None => String::new(),
    };
    let size = match read_sysfs_u64(&device.size) {
        Some(sectors) => sectors_to_bytes(sectors),
        None => 0,
    };
    DiskInfo { name, model, serial_number, size }
}

/// The disks of the `/sys/block` entries that have a device, ordered by
/// path; an error when there is none.
pub fn get_storage(devices: &Vec<BlockDevice>) -> (r: HwResult<Vec<DiskInfo>>)
    ensures
        devices@.len() == 0 <==> r is Err,
        r matches Err(e) ==> e@ == "no physical drives were found"@,
        r matches Ok(disks) ==> disks@.map_values(|d: DiskInfo| d@) == sorted_by_key(
            devices@.map_values(|d: BlockDevice| disk_of(d)),
            |d: DiskInfoView| d.name,
        ),
{
    if devices.len() == 0 {
        return Err(owned("no physical drives were found"));
    }
    let mut disks: Vec<DiskInfo> = Vec::new();
    let mut i: usize = 0;
    while i < devices.len()
        invariant
            i <= devices.len(),
            disks@.map_values(|d: DiskInfo| d@) == devices@.take(i as int).map_values(
                |d: BlockDevice| disk_of(d),
            ),
        decreases devices.len() - i,
    {
        let d = disk_info(&devices[i]);
        let ghost before = disks@.map_values(|d: DiskInfo| d@);
        assert(devices@.take(i + 1).map_values(|d: BlockDevice| disk_of(d)) =~= devices@.take(
            i as int,
        ).map_values(|d: BlockDevice| disk_of(d)).push(disk_of(devices@[i as int])));
        disks.push(d);
        assert(disks@.map_values(|d: DiskInfo| d@) =~= devices@.take(i + 1).map_values(
            |d: BlockDevice| disk_of(d),
        ));
        i += 1;
    }
    let ghost unsorted = disks@;
    let sorted = sort_by_name(disks);
    proof {
        crate::hw::sort::lemma_sorted_by_key_map(
            unsorted,
            |d: DiskInfo| d@,
            |d: DiskInfo| d.name_view(),
            |d: DiskInfoView| d.name,
        );
        assert(devices@.take(devices@.len() as int) =~= devices@);
    }
    Ok(sorted)
}

/// What `str::to_lowercase` makes of a text.
pub uninterp spec fn lowercase(s: Seq<char>) -> Seq<char>;

/// Calls `str::to_lowercase`. Claimed: the result is the named lowercasing
/// of the text. Left unsaid: the Unicode case mapping itself.
#[verifier::external_body]
fn to_lowercase(s: &str) -> (r: String)
    ensures
        r@ == lowercase(s@),
{
    s.to_lowercase()
}

/// Whether `pat` occurs in `s`.
pub open spec fn contains_text(s: Seq<char>, pat: Seq<char>) -> bool {
    find_text_from(s, pat, 0) is Some
}

/// Whether a Windows error message says that the file or device does not
/// exist (in English or Russian), whatever its case.
pub open spec fn not_found_message(message: Seq<char>) -> bool {
    let m = lowercase(message);
    ||| contains_text(m, "cannot find"@)
    ||| contains_text(m, "not found"@)
    ||| contains_text(m, "не удается найти"@)
    ||| contains_text(m, "не найден"@)
}

fn has_text(s: &[char], pat: &str) -> (r: bool)
    ensures
        r == contains_text(s@, pat@),
{
    let p = chars_of(pat);
    find_text(s, p.as_slice()).is_some()
}

/// Whether a Windows error message says that the file or device does not
/// exist: such a drive is skipped rather than reported.
pub fn is_not_found_message(message: &str) -> (r: bool)
    ensures
        r == not_found_message(message@),
{
    let lower = to_lowercase(message);
    let m = chars_of(lower.as_str());
    has_text(m.as_slice(), "cannot find") || has_text(m.as_slice(), "not found") || has_text(
        m.as_slice(),
        "не удается найти",
    ) || has_text(m.as_slice(), "не найден")
}

/// The device path of physical drive `index`, e.g. `\\.\PhysicalDrive0`.
pub fn physical_drive_path(index: u32) -> (r: String)
    ensures
        r@ == "\\\\.\\PhysicalDrive"@ + decimal_text(index as nat),
{
    let mut path = owned("\\\\.\\PhysicalDrive");
    push_decimal(&mut path, index);
    path
}

/// The size in bytes of the storage device descriptor that
/// `IOCTL_STORAGE_QUERY_PROPERTY` returns.
pub const STORAGE_DEVICE_DESCRIPTOR_SIZE: usize = 40;

/// Where the descriptor holds the offset of the product id string.
pub const PRODUCT_ID_OFFSET_FIELD: usize = 16;

/// Where the descriptor holds the offset of the serial number string.
pub const SERIAL_NUMBER_OFFSET_FIELD: usize = 24;

/// The position of the first 0 byte of `b` at or after `i`, or its length.
pub open spec fn zero_from(b: Seq<u8>, i: int) -> int
    decreases b.len() - i,
{
    if i < 0 || i >= b.len() {
        b.len() as int
    } else if b[i] == 0 {
        i
    } else {
        zero_from(b, i + 1)
    }
}

proof fn lemma_zero_from(b: Seq<u8>, i: int)
    requires
        0 <= i <= b.len(),
    ensures
        i <= zero_from(b, i) <= b.len(),
    decreases b.len() - i,
{
    if i < b.len() && b[i] != 0 {
        lemma_zero_from(b, i + 1);
    }
}

/// The string of a storage device descriptor whose offset the descriptor
/// holds (little-endian) at `offset_field`: the bytes from that offset to
/// the first 0 byte (or the end), decoded and trimmed. Empty when the
/// descriptor is short, or the offset is 0 or past its end.
pub open spec fn descriptor_string(d: Seq<u8>, offset_field: int) -> Seq<char> {
    if d.len() < STORAGE_DEVICE_DESCRIPTOR_SIZE || offset_field < 0 || offset_field + 4 > d.len() {
        Seq::empty()
    } else {
        let offset = crate::hw::smbios::le32(
            d[offset_field],
            d[offset_field + 1],
            d[offset_field + 2],
            d[offset_field + 3],
        ) as int;
        if offset == 0 || offset >= d.len() {
            Seq::empty()
        } else {
            trim(utf8_text(d.subrange(offset, zero_from(d, offset))))
        }
    }
}

/// Reads a string of a storage device descriptor (see `descriptor_string`).
pub fn read_descriptor_string(descriptor_bytes: &[u8], offset_field: usize) -> (r: String)
    requires
        offset_field + 4 <= STORAGE_DEVICE_DESCRIPTOR_SIZE,
    ensures
        r@ == descriptor_string(descriptor_bytes@, offset_field as int),
{
    let d = descriptor_bytes;
    if d.len() < STORAGE_DEVICE_DESCRIPTOR_SIZE {
        return String::new();
    }
    let offset = ((d[offset_field] as u32) | ((d[offset_field + 1] as u32) << 8u32) | ((
    d[offset_field + 2] as u32) << 16u32) | ((d[offset_field + 3] as u32) << 24u32)) as usize;
    if offset == 0 || offset >= d.len() {
        return String::new();
    }
    let mut end: usize = offset;
    while end < d.len() && d[end] != 0
        invariant
            offset <= end <= d.len(),
            zero_from(d@, offset as int) == zero_from(d@, end as int),
        decreases d.len() - end,
    {
        end += 1;
    }
    let text = decode_utf8_lossy(&d[offset..end]);
    trim_str(text.as_str())
}

/// The descriptor that a storage property query gave: the first
/// `bytes_returned` bytes of the output, or an error when they are fewer
/// than a descriptor.
pub fn storage_descriptor(output: &[u8], bytes_returned: u32) -> (r: HwResult<Vec<u8>>)
    requires
        bytes_returned <= output.len(),
    ensures
        hw_view(r) == if bytes_returned < STORAGE_DEVICE_DESCRIPTOR_SIZE {
            Err("IOCTL_STORAGE_QUERY_PROPERTY returned a short descriptor"@)
        } else {
            Ok(output@.take(bytes_returned as int))
        },
{
    if (bytes_returned as usize) < STORAGE_DEVICE_DESCRIPTOR_SIZE {
        return Err(owned("IOCTL_STORAGE_QUERY_PROPERTY returned a short descriptor"));
    }
    let mut d: Vec<u8> = Vec::new();
    let n = bytes_returned as usize;
    let mut i: usize = 0;
    while i < n
        invariant
            i <= n,
            n <= output.len(),
            n == bytes_returned,
            d@ == output@.take(i as int),
        decreases n - i,
    {
        d.push(output[i]);
        assert(d@ =~= output@.take(i + 1));
        i += 1;
    }
    Ok(d)
}

/// What querying physical drive `index` gives, from what the system
/// answered: opening the drive failed with `open_error` (a drive that does
/// not exist is no drive, any other failure an error), or else the storage
/// descriptor query and the length query answered. A failed length query
/// gives size 0.
pub open spec fn physical_drive(
    index: u32,
    open_error: Option<Seq<char>>,
    descriptor: Result<Seq<u8>, Seq<char>>,
    size: Option<u64>,
) -> Result<Option<DiskInfoView>, Seq<char>> {
    match open_error {
        Some(m) => if not_found_message(m) {
            Ok(None)
        } else {
            Err(m)
        },
        None => match descriptor {
            Err(e) => Err(e),
            Ok(d) => Ok(
                Some(
                    DiskInfoView {
                        name: "\\\\.\\PhysicalDrive"@ + decimal_text(index as nat),
                        model: descriptor_string(d, PRODUCT_ID_OFFSET_FIELD as int),
                        serial_number: descriptor_string(d, SERIAL_NUMBER_OFFSET_FIELD as int),
                        size: match size {
                            Some(s) => s,
                            None => 0,
                        },
                    },
                ),
            ),
        },
    }
}

/// The disk of physical drive `index`, from what the system answered (see
/// `physical_drive`).
pub fn query_physical_drive(
    index: u32,
    open_error: Option<String>,
    descriptor: HwResult<Vec<u8>>,
    size: Option<u64>,
) -> (r: HwResult<Option<DiskInfo>>)
    ensures
        physical_drive(index, opt_text(open_error), match descriptor {
            Ok(d) => Ok(d@),
            Err(e) => Err(e@),
        }, size) == match r {
            Ok(Some(disk)) => Ok(Some(disk@)),
            Ok(None) => Ok(None),
            Err(e) => Err(e@),
        },
{
    match open_error {
        Some(message) => {
            if is_not_found_message(message.as_str()) {
                return Ok(None);
            }
            return Err(message);
        },
        None => {},
    }
    let descriptor = descriptor?;
    Ok(
        Some(
            DiskInfo {
                name: physical_drive_path(index),
                model: read_descriptor_string(descriptor.as_slice(), PRODUCT_ID_OFFSET_FIELD),
                serial_number: read_descriptor_string(
                    descriptor.as_slice(),
                    SERIAL_NUMBER_OFFSET_FIELD,
                ),
                size: match size {
                    Some(s) => s,
                    None => 0,
                },
            },
        ),
    )
}

/// The content of what querying one physical drive gave.
pub open spec fn drive_outcome(r: HwResult<Option<DiskInfo>>) -> Result<Option<DiskInfoView>, Seq<
    char,
>> {
    match r {
        Ok(Some(d)) => Ok(Some(d@)),
        Ok(None) => Ok(None),
        Err(e) => Err(e@),
    }
}

/// The disks that the queries of the physical drives found, in drive order.
pub open spec fn found_disks(rs: Seq<Result<Option<DiskInfoView>, Seq<char>>>) -> Seq<DiskInfoView>
    decreases rs.len(),
{
    if rs.len() == 0 {
        Seq::empty()
    } else {
        let before = found_disks(rs.drop_last());
        match rs.last() {
            Ok(Some(d)) => before.push(d),
            _ => before,
        }
    }
}

/// The errors of the queries of the physical drives, in drive order, each
/// prefixed with the drive (the position of its query).
pub open spec fn drive_errors(rs: Seq<Result<Option<DiskInfoView>, Seq<char>>>) -> Seq<Seq<char>>
    decreases rs.len(),
{
    if rs.len() == 0 {
        Seq::empty()
    } else {
        let before = drive_errors(rs.drop_last());
        match rs.last() {
            Err(e) => before.push(
                "PhysicalDrive"@ + decimal_text((rs.len() - 1) as nat) + ": "@ + e,
            ),
            _ => before,
        }
    }
}

/// The texts of `parts` joined with `sep` between them.
pub open spec fn joined(parts: Seq<Seq<char>>, sep: Seq<char>) -> Seq<char>
    decreases parts.len(),
{
    if parts.len() == 0 {
        Seq::empty()
    } else if parts.len() == 1 {
        parts[0]
    } else {
        joined(parts.drop_last(), sep) + sep + parts.last()
    }
}

/// The physical disks from the queries of the drives: the disks found, or,
/// when there is none, the query errors joined with `; ` (or a message that
/// no drive was found, when no query failed).
pub open spec fn physical_storage(rs: Seq<Result<Option<DiskInfoView>, Seq<char>>>) -> Result<
    Seq<DiskInfoView>,
    Seq<char>,
> {
    if found_disks(rs).len() == 0 {
        if drive_errors(rs).len() == 0 {
            Err("no physical drives were found"@)
        } else {
            Err(joined(drive_errors(rs), "; "@))
        }
    } else {
        Ok(found_disks(rs))
    }
}

/// Joins texts with `sep` between them.
fn join_texts(parts: &Vec<String>, sep: &str) -> (r: String)
    ensures
        r@ == joined(parts@.map_values(|p: String| p@), sep@),
{
    let ghost pv = parts@.map_values(|p: String| p@);
    let mut r = String::new();
    let mut i: usize = 0;
    while i < parts.len()
        invariant
            i <= parts.len(),
            pv == parts@.map_values(|p: String| p@),
            r@ == joined(pv.take(i as int), sep@),
        decreases parts.len() - i,
    {
        assert(pv.take(i + 1).drop_last() =~= pv.take(i as int));
        assert(pv.take(i + 1).last() == parts[i as int]@);
        if i == 0 {
            r = parts[i].clone();
            assert(pv.take(1) =~= seq![parts[0]@]);
        } else {
            r = r.concat(sep).concat(parts[i].as_str());
        }
        i += 1;
    }
    assert(pv.take(parts.len() as int) =~= pv);
    r
}

/// The physical disks from what querying each drive gave, drive `i` being
/// the `i`-th query.
pub fn get_physical_storage(results: Vec<HwResult<Option<DiskInfo>>>) -> (r: HwResult<
    Vec<DiskInfo>,
>)
    requires
        results@.len() <= u32::MAX,
    ensures
        physical_storage(results@.map_values(|q: HwResult<Option<DiskInfo>>| drive_outcome(q)))
            == match r {
            Ok(disks) => Ok(disks@.map_values(|d: DiskInfo| d@)),
            Err(e) => Err(e@),
        },
{
    let ghost rs = results@.map_values(|q: HwResult<Option<DiskInfo>>| drive_outcome(q));
    let mut disks: Vec<DiskInfo> = Vec::new();
    let mut errors: Vec<String> = Vec::new();
    let mut results = results;
    let ghost all = results@;
    let mut i: usize = 0;
    let n = results.len();
    while i < n
        invariant
            i <= n,
            n == all.len(),
            n <= u32::MAX,
            rs == all.map_values(|q: HwResult<Option<DiskInfo>>| drive_outcome(q)),
            results@ == all.skip(i as int),
            disks@.map_values(|d: DiskInfo| d@) == found_disks(rs.take(i as int)),
            errors@.map_values(|e: String| e@) == drive_errors(rs.take(i as int)),
        decreases n - i,
    {
        assert(rs.take(i + 1).drop_last() =~= rs.take(i as int));
        let q = results.remove(0);
        assert(q == all[i as int]);
        assert(rs.take(i + 1).last() == drive_outcome(q));
        match q {
            Ok(Some(d)) => {
                let ghost before = disks@;
                disks.push(d);
                assert(disks@.map_values(|d: DiskInfo| d@) =~= before.map_values(
                    |d: DiskInfo| d@,
                ).push(disks@.last()@));
            },
            Ok(None) => {},
            Err(e) => {
                let mut m = owned("PhysicalDrive");
                push_decimal(&mut m, i as u32);
                let m = m.concat(": ").concat(e.as_str());
                let ghost before = errors@;
                errors.push(m);
                assert(errors@.map_values(|e: String| e@) =~= before.map_values(
                    |e: String| e@,
                ).push(errors@.last()@));
            },
        }
        i += 1;
    }
    assert(rs.take(n as int) =~= rs);
    if disks.len() == 0 {
        if errors.len() == 0 {
            Err(owned("no physical drives were found"))
        } else {
            Err(join_texts(&errors, "; "))
        }
    } else {
        Ok(disks)
    }
}

/// The strings of a `GetLogicalDriveStringsW` buffer so far, and the one
/// being read.
pub open spec fn drive_strings_state(b: Seq<u16>) -> (Seq<Seq<u16>>, Seq<u16>)
    decreases b.len(),
{
    if b.len() == 0 {
        (Seq::empty(), Seq::empty())
    } else {
        let (done, current) = drive_strings_state(b.drop_last());
        if b.last() == 0 {
            (
                if current.len() > 0 {
                    done.push(current)
                } else {
                    done
                },
                Seq::empty(),
            )
        } else {
            (done, current.push(b.last()))
        }
    }
}

/// The drive strings of a `GetLogicalDriveStringsW` buffer: its runs of
/// non-zero units, in order.
pub open spec fn drive_strings(b: Seq<u16>) -> Seq<Seq<u16>> {
    let (done, current) = drive_strings_state(b);
    if current.len() > 0 {
        done.push(current)
    } else {
        done
    }
}

/// Splits a `GetLogicalDriveStringsW` buffer into its drive strings.
pub fn logical_drive_strings(buffer: &[u16]) -> (r: Vec<Vec<u16>>)
    ensures
        r@.map_values(|v: Vec<u16>| v@) == drive_strings(buffer@),
{
    let mut done: Vec<Vec<u16>> = Vec::new();
    let mut current: Vec<u16> = Vec::new();
    let mut i: usize = 0;
    while i < buffer.len()
        invariant
            i <= buffer.len(),
            (done@.map_values(|v: Vec<u16>| v@), current@) == drive_strings_state(
                buffer@.take(i as int),
            ),
        decreases buffer.len() - i,
    {
        assert(buffer@.take(i + 1).drop_last() =~= buffer@.take(i as int));
        let unit = buffer[i];
        if unit == 0 {
            if current.len() > 0 {
                let ghost before = done@;
                let piece = current;
                done.push(piece);
                assert(done@.map_values(|v: Vec<u16>| v@) =~= before.map_values(
                    |v: Vec<u16>| v@,
                ).push(done@.last()@));
            }
            current = Vec::new();
        } else {
            current.push(unit);
        }
        i += 1;
    }
    assert(buffer@.take(buffer.len() as int) =~= buffer@);
    if current.len() > 0 {
        let ghost before = done@;
        done.push(current);
        assert(done@.map_values(|v: Vec<u16>| v@) =~= before.map_values(|v: Vec<u16>| v@).push(
            done@.last()@,
        ));
    }
    done
}

/// `s` without leading NUL characters.
pub open spec fn strip_nul_start(s: Seq<char>) -> Seq<char>
    decreases s.len(),
{
    if s.len() > 0 && s[0] == '\0' {
        strip_nul_start(s.drop_first())
    } else {
        s
    }
}

/// `s` without trailing NUL characters.
pub open spec fn strip_nul_end(s: Seq<char>) -> Seq<char>
    decreases s.len(),
{
    if s.len() > 0 && s.last() == '\0' {
        strip_nul_end(s.drop_last())
    } else {
        s
    }
}

/// `s` without leading and trailing NUL characters, as
/// `str::trim_matches('\0')` gives it.
pub open spec fn trim_nul(s: Seq<char>) -> Seq<char> {
    strip_nul_end(strip_nul_start(s))
}

/// The text of a NUL-padded byte buffer: decoded, then stripped of NULs at
/// both ends.
pub fn nul_padded_text(bytes: &[u8]) -> (r: String)
    ensures
        r@ == trim_nul(utf8_text(bytes@)),
{
    let text = decode_utf8_lossy(bytes);
    let chars = chars_of(text.as_str());
    let mut a: usize = 0;
    assert(chars@.skip(0) =~= chars@);
    while a < chars.len() && chars[a] == '\0'
        invariant
            a <= chars.len(),
            strip_nul_start(chars@) == strip_nul_start(chars@.skip(a as int)),
        decreases chars.len() - a,
    {
        assert(chars@.skip(a as int).drop_first() =~= chars@.skip(a + 1));
        a += 1;
    }
    let ghost rest = chars@.skip(a as int);
    assert(strip_nul_start(rest) == rest);
    let mut b: usize = chars.len();
    while b > a && chars[b - 1] == '\0'
        invariant
            a <= b <= chars.len(),
            strip_nul_end(rest) == strip_nul_end(chars@.subrange(a as int, b as int)),
        decreases b - a,
    {
        assert(chars@.subrange(a as int, b as int).drop_last() =~= chars@.subrange(
            a as int,
            b - 1,
        ));
        b -= 1;
    }
    assert(rest =~= chars@.subrange(a as int, chars.len() as int));
    string_of(&chars.as_slice()[a..b])
}

/// The volume of a logical drive, from what `GetVolumeInformationA` and
/// `GetDiskFreeSpaceExA` gave: its volume label, file system name, serial
/// number and total size.
pub fn logical_disk(
    volume_name: &[u8],
    file_system_name: &[u8],
    serial_number: u32,
    total_bytes: u64,
) -> (r: DiskInfo)
    ensures
        r@ == (DiskInfoView {
            name: trim_nul(utf8_text(volume_name@)),
            model: trim_nul(utf8_text(file_system_name@)),
            serial_number: decimal_text(serial_number as nat),
            size: total_bytes,
        }),
{
    let mut serial = String::new();
    push_decimal(&mut serial, serial_number);
    DiskInfo {
        name: nul_padded_text(volume_name),
        model: nul_padded_text(file_system_name),
        serial_number: serial,
        size: total_bytes,
    }
}

} // verus!
