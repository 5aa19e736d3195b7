//! CPU information from the text of `/proc/cpuinfo`.
//!
//! The text is a run of blocks separated by blank lines (`\n\n`), one per
//! logical processor, each a list of `key : value` lines. The first block that
//! names a field decides it; the physical cores are the distinct
//! `(physical id, core id)` pairs of the blocks.

use crate::hw::{hw_view, owned, HwResult};
use crate::text::{
    chars_of, has_prefix, lines, lines_of, paragraphs, paragraphs_of, position_of, same_chars,
    split_once, starts_with, string_of, trim, trim_str, trimmed_range,
};
use vstd::prelude::*;

verus! {

/// CPU information.
#[derive(Debug)]
pub struct CpuInfo {
    /// Brand name, e.g. `Intel(R) Core(TM) i7-14700K`.
    pub name: String,
    /// `<vendor> - Family <f> Model <m> Stepping <s>`.
    pub identifier: String,
    /// Processor id; not available from `/proc/cpuinfo`.
    pub processor_id: Option<String>,
    /// Maximum (or current) frequency in Hz.
    pub vendor_frequency: u64,
    /// Number of physical cores.
    pub physical_processor_count: usize,
}

/// The content of `CpuInfo` as mathematical values.
pub struct CpuInfoView {
    pub name: Seq<char>,
    pub identifier: Seq<char>,
    pub processor_id: Option<Seq<char>>,
    pub vendor_frequency: u64,
    pub physical_processor_count: usize,
}

impl View for CpuInfo {
    type V = CpuInfoView;

    open spec fn view(&self) -> CpuInfoView {
        CpuInfoView {
            name: self.name@,
            identifier: self.identifier@,
            processor_id: crate::hw::opt_text(self.processor_id),
            vendor_frequency: self.vendor_frequency,
            physical_processor_count: self.physical_processor_count,
        }
    }
}

/// A brand string with surrounding whitespace removed.
pub fn normalize_cpu_brand(brand: &str) -> (r: String)
    ensures
        r@ == trim(brand@),
{
    trim_str(brand)
}

/// `<vendor> - <name>`.
pub fn compose_cpu_identifier(vendor_id: &str, cpu_name: &str) -> (r: String)
    ensures
        r@ == vendor_id@ + " - "@ + cpu_name@,
{
    let r = owned(vendor_id);
    let r = r.concat(" - ");
    r.concat(cpu_name)
}

/// MHz to Hz, saturating at `u64::MAX`.
pub fn mhz_to_hz(mhz: u64) -> (r: u64)
    ensures
        r == if mhz * 1_000_000 > u64::MAX {
            u64::MAX as int
        } else {
            mhz * 1_000_000
        },
{
    match mhz.checked_mul(1_000_000) {
        Some(v) => v,
        None => u64::MAX,
    }
}

/// What the scan of `/proc/cpuinfo` has found.
#[derive(Debug)]
pub struct CpuInfoScan {
    /// The first `model name` value, trimmed.
    pub name: Option<String>,
    /// The first non-empty `vendor_id` value (empty if none).
    pub vendor_id: String,
    /// The first non-empty `cpu family` value.
    pub cpu_family: String,
    /// The first non-empty `model` value.
    pub model: String,
    /// The first non-empty `stepping` value.
    pub stepping: String,
    /// Every `cpu MHz` value, in order; the first that reads as a number is
    /// the frequency.
    pub mhz_values: Vec<String>,
    /// The distinct `(physical id, core id)` pairs of the blocks, in order of
    /// first appearance; a block with neither id adds none.
    pub cores: Vec<(String, String)>,
    /// The number of lines that begin with `processor`.
    pub processor_lines: usize,
}

/// The fields of the scan that the key-value lines decide.
pub struct CpuFieldsView {
    pub name: Option<Seq<char>>,
    pub vendor_id: Seq<char>,
    pub cpu_family: Seq<char>,
    pub model: Seq<char>,
    pub stepping: Seq<char>,
    pub mhz_values: Seq<Seq<char>>,
}

/// The content of `CpuInfoScan` as mathematical values.
pub struct CpuInfoScanView {
    pub fields: CpuFieldsView,
    pub cores: Seq<(Seq<char>, Seq<char>)>,
    pub processor_lines: nat,
}

pub open spec fn pair_view(p: (String, String)) -> (Seq<char>, Seq<char>) {
    (p.0@, p.1@)
}

impl View for CpuInfoScan {
    type V = CpuInfoScanView;

    open spec fn view(&self) -> CpuInfoScanView {
        CpuInfoScanView {
            fields: CpuFieldsView {
                name: crate::hw::opt_text(self.name),
                vendor_id: self.vendor_id@,
                cpu_family: self.cpu_family@,
                model: self.model@,
                stepping: self.stepping@,
                mhz_values: self.mhz_values@.map_values(|v: String| v@),
            },
            cores: self.cores@.map_values(|p: (String, String)| pair_view(p)),
            processor_lines: self.processor_lines as nat,
        }
    }
}

/// The trimmed key and value of a `key : value` line (split at its first
/// `:`).
pub open spec fn key_value(line: Seq<char>) -> Option<(Seq<char>, Seq<char>)> {
    match split_once(line, ':') {
        Some((k, v)) => Some((trim(k), trim(v))),
        None => None,
    }
}

pub open spec fn no_fields() -> CpuFieldsView {
    CpuFieldsView {
        name: None,
        vendor_id: Seq::empty(),
        cpu_family: Seq::empty(),
        model: Seq::empty(),
        stepping: Seq::empty(),
        mhz_values: Seq::empty(),
    }
}

/// What one line adds to the fields.
pub open spec fn field_step(f: CpuFieldsView, line: Seq<char>) -> CpuFieldsView {
    match key_value(line) {
        None => f,
        Some((k, v)) => if k == "model name"@ {
            if f.name is None {
                CpuFieldsView { name: Some(trim(v)), ..f }
            } else {
                f
            }
        } else if k == "vendor_id"@ {
            if f.vendor_id.len() == 0 {
                CpuFieldsView { vendor_id: v, ..f }
            } else {
                f
            }
        } else if k == "cpu family"@ {
            if f.cpu_family.len() == 0 {
                CpuFieldsView { cpu_family: v, ..f }
            } else {
                f
            }
        } else if k == "model"@ {
            if f.model.len() == 0 {
                CpuFieldsView { model: v, ..f }
            } else {
                f
            }
        } else if k == "stepping"@ {
            if f.stepping.len() == 0 {
                CpuFieldsView { stepping: v, ..f }
            } else {
                f
            }
        } else if k == "cpu MHz"@ {
            CpuFieldsView { mhz_values: f.mhz_values.push(v), ..f }
        } else {
            f
        },
    }
}

/// The fields after a run of lines.
pub open spec fn fields_of_lines(f: CpuFieldsView, ls: Seq<Seq<char>>) -> CpuFieldsView
    decreases ls.len(),
{
    if ls.len() == 0 {
        f
    } else {
        field_step(fields_of_lines(f, ls.drop_last()), ls.last())
    }
}

/// The fields after a run of blocks.
pub open spec fn fields_of_blocks(bs: Seq<Seq<char>>) -> CpuFieldsView
    decreases bs.len(),
{
    if bs.len() == 0 {
        no_fields()
    } else {
        fields_of_lines(fields_of_blocks(bs.drop_last()), lines(bs.last()))
    }
}

/// The `(physical id, core id)` values after a run of lines of one block: the
/// last of each, or empty.
pub open spec fn block_ids(ls: Seq<Seq<char>>) -> (Seq<char>, Seq<char>)
    decreases ls.len(),
{
    if ls.len() == 0 {
        (Seq::empty(), Seq::empty())
    } else {
        ids_step(block_ids(ls.drop_last()), ls.last())
    }
}

/// What one line does to the `(physical id, core id)` values of a block.
pub open spec fn ids_step(ids: (Seq<char>, Seq<char>), line: Seq<char>) -> (Seq<char>, Seq<char>) {
    match key_value(line) {
        Some((k, v)) => if k == "physical id"@ {
            (v, ids.1)
        } else if k == "core id"@ {
            (ids.0, v)
        } else {
            ids
        },
        None => ids,
    }
}

/// The distinct core pairs of a run of blocks.
pub open spec fn cores_of_blocks(bs: Seq<Seq<char>>) -> Seq<(Seq<char>, Seq<char>)>
    decreases bs.len(),
{
    if bs.len() == 0 {
        Seq::empty()
    } else {
        let before = cores_of_blocks(bs.drop_last());
        let ids = block_ids(lines(bs.last()));
        if (ids.0.len() > 0 || ids.1.len() > 0) && !before.contains(ids) {
            before.push(ids)
        } else {
            before
        }
    }
}

/// The core pairs form a set: no pair occurs twice, and every block that
/// names a physical or core id contributes its pair.
pub proof fn lemma_cores_are_a_set(bs: Seq<Seq<char>>)
    ensures
        cores_of_blocks(bs).no_duplicates(),
        forall|i: int|
            0 <= i < bs.len() ==> {
                let ids = #[trigger] block_ids(lines(bs[i]));
                (ids.0.len() > 0 || ids.1.len() > 0) ==> cores_of_blocks(bs).contains(ids)
            },
    decreases bs.len(),
{
    if bs.len() > 0 {
        lemma_cores_are_a_set(bs.drop_last());
        let before = cores_of_blocks(bs.drop_last());
        let after = cores_of_blocks(bs);
        assert forall|i: int|
            0 <= i < bs.len() implies {
                let ids = #[trigger] block_ids(lines(bs[i]));
                (ids.0.len() > 0 || ids.1.len() > 0) ==> after.contains(ids)
            } by {
            let ids = block_ids(lines(bs[i]));
            if i < bs.len() - 1 {
                assert(bs[i] == bs.drop_last()[i]);
                if (ids.0.len() > 0 || ids.1.len() > 0) {
                    let k = choose|k: int| 0 <= k < before.len() && before[k] == ids;
                    assert(after[k] == ids);
                }
            } else if (ids.0.len() > 0 || ids.1.len() > 0) && !before.contains(ids) {
                assert(after[after.len() - 1] == ids);
            } else if ids.0.len() > 0 || ids.1.len() > 0 {
                let k = choose|k: int| 0 <= k < before.len() && before[k] == ids;
                assert(after[k] == ids);
            }
        }
    }
}

/// Whether `line` is a `key : value` line whose key is `key`.
pub open spec fn line_has_key(line: Seq<char>, key: Seq<char>) -> bool {
    key_value(line) matches Some((k, _)) && k == key
}

/// The `(physical id, core id)` pair of a block holds the value of the
/// block's last `physical id` line and of its last `core id` line (each
/// empty when the block has none).
pub proof fn lemma_block_ids_are_last_values(ls: Seq<Seq<char>>)
    ensures
        forall|i: int|
            0 <= i < ls.len() && #[trigger] line_has_key(ls[i], "physical id"@) && (forall|j: int|
                i < j < ls.len() ==> !line_has_key(ls[j], "physical id"@)) ==> block_ids(ls).0
                == key_value(ls[i])->Some_0.1,
        forall|i: int|
            0 <= i < ls.len() && #[trigger] line_has_key(ls[i], "core id"@) && (forall|j: int|
                i < j < ls.len() ==> !line_has_key(ls[j], "core id"@)) ==> block_ids(ls).1
                == key_value(ls[i])->Some_0.1,
        (forall|j: int| 0 <= j < ls.len() ==> !line_has_key(ls[j], "physical id"@))
            ==> block_ids(ls).0 == Seq::<char>::empty(),
        (forall|j: int| 0 <= j < ls.len() ==> !line_has_key(ls[j], "core id"@)) ==> block_ids(
            ls,
        ).1 == Seq::<char>::empty(),
    decreases ls.len(),
{
    if ls.len() > 0 {
        let prev = ls.drop_last();
        lemma_block_ids_are_last_values(prev);
        let n = ls.len() - 1;
        assert("physical id"@ != "core id"@) by {
            reveal_strlit("physical id");
            reveal_strlit("core id");
            assert("physical id"@.len() != "core id"@.len());
        }
        assert forall|i: int|
            0 <= i < ls.len() && #[trigger] line_has_key(ls[i], "physical id"@) && (forall|j: int|
                i < j < ls.len() ==> !line_has_key(ls[j], "physical id"@)) implies block_ids(ls).0
            == key_value(ls[i])->Some_0.1 by {
            if i < n {
                assert(!line_has_key(ls[n], "physical id"@));
                assert(ls[i] == prev[i]);
                assert forall|j: int| i < j < prev.len() implies !line_has_key(
                    prev[j],
                    "physical id"@,
                ) by {
                    assert(prev[j] == ls[j]);
                }
            }
        }
        assert forall|i: int|
            0 <= i < ls.len() && #[trigger] line_has_key(ls[i], "core id"@) && (forall|j: int|
                i < j < ls.len() ==> !line_has_key(ls[j], "core id"@)) implies block_ids(ls).1
            == key_value(ls[i])->Some_0.1 by {
            if i < n {
                assert(!line_has_key(ls[n], "core id"@));
                assert(ls[i] == prev[i]);
                assert forall|j: int| i < j < prev.len() implies !line_has_key(prev[j], "core id"@) by {
                    assert(prev[j] == ls[j]);
                }
            }
        }
        if forall|j: int| 0 <= j < ls.len() ==> !line_has_key(ls[j], "physical id"@) {
            assert(!line_has_key(ls[n], "physical id"@));
            assert forall|j: int| 0 <= j < prev.len() implies !line_has_key(prev[j], "physical id"@) by {
                assert(prev[j] == ls[j]);
            }
        }
        if forall|j: int| 0 <= j < ls.len() ==> !line_has_key(ls[j], "core id"@) {
            assert(!line_has_key(ls[n], "core id"@));
            assert forall|j: int| 0 <= j < prev.len() implies !line_has_key(prev[j], "core id"@) by {
                assert(prev[j] == ls[j]);
            }
        }
    }
}

/// Every core pair is the pair of some block that names a physical or core
/// id.
proof fn lemma_cores_come_from_blocks(bs: Seq<Seq<char>>)
    ensures
        forall|k: int|
            0 <= k < cores_of_blocks(bs).len() ==> exists|i: int|
                0 <= i < bs.len() && #[trigger] cores_of_blocks(bs)[k] == block_ids(lines(bs[i]))
                    && (block_ids(lines(bs[i])).0.len() > 0 || block_ids(lines(bs[i])).1.len()
                    > 0),
    decreases bs.len(),
{
    if bs.len() > 0 {
        let prev = bs.drop_last();
        lemma_cores_come_from_blocks(prev);
        let before = cores_of_blocks(prev);
        let after = cores_of_blocks(bs);
        assert forall|k: int| 0 <= k < after.len() implies exists|i: int|
            0 <= i < bs.len() && #[trigger] after[k] == block_ids(lines(bs[i])) && (block_ids(
                lines(bs[i]),
            ).0.len() > 0 || block_ids(lines(bs[i])).1.len() > 0) by {
            if k < before.len() {
                assert(after[k] == before[k]);
                let i = choose|i: int|
                    0 <= i < prev.len() && #[trigger] before[k] == block_ids(lines(prev[i])) && (
                    block_ids(lines(prev[i])).0.len() > 0 || block_ids(lines(prev[i])).1.len()
                        > 0);
                assert(bs[i] == prev[i]);
            } else {
                assert(bs[bs.len() - 1] == bs.last());
            }
        }
    }
}

/// The physical core count: the core pairs are exactly the distinct
/// `(physical id, core id)` pairs of the blocks that name either id, so two
/// blocks that differ in either id are two cores.
pub proof fn lemma_cores_are_distinct_block_pairs(bs: Seq<Seq<char>>)
    ensures
        cores_of_blocks(bs).to_set() == Set::new(
            |p: (Seq<char>, Seq<char>)|
                exists|i: int|
                    0 <= i < bs.len() && p == #[trigger] block_ids(lines(bs[i])) && (p.0.len() > 0
                        || p.1.len() > 0),
        ),
        cores_of_blocks(bs).len() == cores_of_blocks(bs).to_set().len(),
{
    lemma_cores_are_a_set(bs);
    lemma_cores_come_from_blocks(bs);
    let c = cores_of_blocks(bs);
    c.unique_seq_to_set();
    let target = Set::new(
        |p: (Seq<char>, Seq<char>)|
            exists|i: int|
                0 <= i < bs.len() && p == #[trigger] block_ids(lines(bs[i])) && (p.0.len() > 0
                    || p.1.len() > 0),
    );
    assert forall|p: (Seq<char>, Seq<char>)| c.to_set().contains(p) implies target.contains(p) by {
        let k = choose|k: int| 0 <= k < c.len() && c[k] == p;
        assert(c[k] == p);
    }
    assert forall|p: (Seq<char>, Seq<char>)| target.contains(p) implies c.to_set().contains(p) by {
        let i = choose|i: int|
            0 <= i < bs.len() && p == #[trigger] block_ids(lines(bs[i])) && (p.0.len() > 0
                || p.1.len() > 0);
        assert(c.contains(block_ids(lines(bs[i]))));
    }
    assert(c.to_set() =~= target);
}

/// The number of lines that begin with `prefix`.
pub open spec fn count_prefixed(ls: Seq<Seq<char>>, prefix: Seq<char>) -> nat
    decreases ls.len(),
{
    if ls.len() == 0 {
        0
    } else {
        count_prefixed(ls.drop_last(), prefix) + if starts_with(ls.last(), prefix) {
            1nat
        } else {
            0nat
        }
    }
}

/// The scan of a `/proc/cpuinfo` text.
pub open spec fn cpuinfo_scan(content: Seq<char>) -> CpuInfoScanView {
    CpuInfoScanView {
        fields: fields_of_blocks(paragraphs(content)),
        cores: cores_of_blocks(paragraphs(content)),
        processor_lines: count_prefixed(lines(content), "processor"@),
    }
}

/// The keys that the scan reads.
struct Keys {
    model_name: Vec<char>,
    vendor_id: Vec<char>,
    cpu_family: Vec<char>,
    model: Vec<char>,
    stepping: Vec<char>,
    cpu_mhz: Vec<char>,
    physical_id: Vec<char>,
    core_id: Vec<char>,
}

impl Keys {
    spec fn wf(&self) -> bool {
        &&& self.model_name@ == "model name"@
        &&& self.vendor_id@ == "vendor_id"@
        &&& self.cpu_family@ == "cpu family"@
        &&& self.model@ == "model"@
        &&& self.stepping@ == "stepping"@
        &&& self.cpu_mhz@ == "cpu MHz"@
        &&& self.physical_id@ == "physical id"@
        &&& self.core_id@ == "core id"@
    }
}

/// The fields being scanned, as characters.
struct Fields {
    name: Option<Vec<char>>,
    vendor_id: Vec<char>,
    cpu_family: Vec<char>,
    model: Vec<char>,
    stepping: Vec<char>,
    mhz_values: Vec<Vec<char>>,
}

impl Fields {
    spec fn view(&self) -> CpuFieldsView {
        CpuFieldsView {
            name: match self.name {
                Some(n) => Some(n@),
                None => None,
            },
            vendor_id: self.vendor_id@,
            cpu_family: self.cpu_family@,
            model: self.model@,
            stepping: self.stepping@,
            mhz_values: self.mhz_values@.map_values(|v: Vec<char>| v@),
        }
    }
}

/// The trimmed key and value of a line.
fn line_key_value(line: &[char]) -> (r: Option<(Vec<char>, Vec<char>)>)
    ensures
        r matches Some((k, v)) ==> key_value(line@) == Some((k@, v@)),
        r is None ==> key_value(line@) is None,
{
    match position_of(line, ':') {
        None => None,
        Some(pos) => {
            proof {
                crate::text::lemma_find_char_from(line@, ':', 0);
            }
            assert(pos < line.len());
            let k = trimmed_range(line, 0, pos);
            let v = trimmed_range(line, pos + 1, line.len());
            assert(line@.subrange(0, pos as int) =~= line@.take(pos as int));
            assert(line@.subrange(pos + 1, line@.len() as int) =~= line@.skip(pos + 1));
            Some((k, v))
        },
    }
}

/// Applies one line to the fields and to the block's ids.
fn scan_line(
    keys: &Keys,
    fields: &mut Fields,
    physical_id: &mut Vec<char>,
    core_id: &mut Vec<char>,
    line: &[char],
)
    requires
        keys.wf(),
    ensures
        final(fields).view() == field_step(old(fields).view(), line@),
        (final(physical_id)@, final(core_id)@) == ids_step((old(physical_id)@, old(core_id)@), line@),
{
    let (k, v) = match line_key_value(line) {
        Some(kv) => kv,
        None => {
            return ;
        },
    };
    if same_chars(k.as_slice(), keys.physical_id.as_slice()) {
        *physical_id = v.clone();
    } else if same_chars(k.as_slice(), keys.core_id.as_slice()) {
        *core_id = v.clone();
    }
    if same_chars(k.as_slice(), keys.model_name.as_slice()) {
        if fields.name.is_none() {
            let n = trimmed_range(v.as_slice(), 0, v.len());
            assert(v@.subrange(0, v@.len() as int) =~= v@);
            fields.name = Some(n);
        }
    } else if same_chars(k.as_slice(), keys.vendor_id.as_slice()) {
        if fields.vendor_id.len() == 0 {
            fields.vendor_id = v;
        }
    } else if same_chars(k.as_slice(), keys.cpu_family.as_slice()) {
        if fields.cpu_family.len() == 0 {
            fields.cpu_family = v;
        }
    } else if same_chars(k.as_slice(), keys.model.as_slice()) {
        if fields.model.len() == 0 {
            fields.model = v;
        }
    } else if same_chars(k.as_slice(), keys.stepping.as_slice()) {
        if fields.stepping.len() == 0 {
            fields.stepping = v;
        }
    } else if same_chars(k.as_slice(), keys.cpu_mhz.as_slice()) {
        let ghost before = fields.mhz_values@.map_values(|x: Vec<char>| x@);
        fields.mhz_values.push(v);
        assert(fields.mhz_values@.map_values(|x: Vec<char>| x@) =~= before.push(v@));
    }
}

/// Whether the pair is among `cores`.
fn has_core(cores: &Vec<(Vec<char>, Vec<char>)>, p: &Vec<char>, c: &Vec<char>) -> (r: bool)
    ensures
        r == cores@.map_values(|x: (Vec<char>, Vec<char>)| (x.0@, x.1@)).contains((p@, c@)),
{
    let ghost cs = cores@.map_values(|x: (Vec<char>, Vec<char>)| (x.0@, x.1@));
    let mut i: usize = 0;
    while i < cores.len()
        invariant
            i <= cores.len(),
            cs == cores@.map_values(|x: (Vec<char>, Vec<char>)| (x.0@, x.1@)),
            forall|k: int| 0 <= k < i ==> cs[k] != (p@, c@),
        decreases cores.len() - i,
    {
        let (a, b) = &cores[i];
        assert(cs[i as int] == (a@, b@));
        if same_chars(a.as_slice(), p.as_slice()) && same_chars(b.as_slice(), c.as_slice()) {
            return true;
        }
        i += 1;
    }
    false
}

fn strings_of(values: &Vec<Vec<char>>) -> (r: Vec<String>)
    ensures
        r@.map_values(|s: String| s@) == values@.map_values(|v: Vec<char>| v@),
{
    let mut r: Vec<String> = Vec::new();
    let mut i: usize = 0;
    while i < values.len()
        invariant
            i <= values.len(),
            r@.map_values(|s: String| s@) == values@.map_values(|v: Vec<char>| v@).take(i as int),
        decreases values.len() - i,
    {
        let ghost before = r@.map_values(|s: String| s@);
        let ghost vs = values@.map_values(|v: Vec<char>| v@);
        let s = string_of(values[i].as_slice());
        assert(vs[i as int] == values[i as int]@);
        assert(vs.take(i + 1) =~= vs.take(i as int).push(s@));
        r.push(s);
        assert(r@.map_values(|s: String| s@) =~= values@.map_values(|v: Vec<char>| v@).take(
            i + 1,
        ));
        i += 1;
    }
    assert(values@.map_values(|v: Vec<char>| v@).take(values.len() as int) =~= values@.map_values(
        |v: Vec<char>| v@,
    ));
    r
}

/// Scans the text of `/proc/cpuinfo`.
pub fn scan_cpuinfo(content: &str) -> (r: CpuInfoScan)
    ensures
        r@ == cpuinfo_scan(content@),
{
    let keys = Keys {
        model_name: chars_of("model name"),
        vendor_id: chars_of("vendor_id"),
        cpu_family: chars_of("cpu family"),
        model: chars_of("model"),
        stepping: chars_of("stepping"),
        cpu_mhz: chars_of("cpu MHz"),
        physical_id: chars_of("physical id"),
        core_id: chars_of("core id"),
    };
    let chars = chars_of(content);
    let blocks = paragraphs_of(chars.as_slice());
    let ghost bs = blocks@.map_values(|b: Vec<char>| b@);
    let mut fields = Fields {
        name: None,
        vendor_id: Vec::new(),
        cpu_family: Vec::new(),
        model: Vec::new(),
        stepping: Vec::new(),
        mhz_values: Vec::new(),
    };
    assert(fields.view().mhz_values =~= Seq::<Seq<char>>::empty());
    let mut cores: Vec<(Vec<char>, Vec<char>)> = Vec::new();
    let mut i: usize = 0;
    while i < blocks.len()
        invariant
            i <= blocks.len(),
            keys.wf(),
            bs == blocks@.map_values(|b: Vec<char>| b@),
            fields.view() == fields_of_blocks(bs.take(i as int)),
            cores@.map_values(|x: (Vec<char>, Vec<char>)| (x.0@, x.1@)) == cores_of_blocks(
                bs.take(i as int),
            ),
        decreases blocks.len() - i,
    {
        assert(bs.take(i + 1).drop_last() =~= bs.take(i as int));
        assert(bs.take(i + 1).last() == blocks[i as int]@);
        let ls = lines_of(blocks[i].as_slice());
        let ghost lv = ls@.map_values(|l: Vec<char>| l@);
        let ghost start = fields.view();
        let mut physical_id: Vec<char> = Vec::new();
        let mut core_id: Vec<char> = Vec::new();
        let mut j: usize = 0;
        while j < ls.len()
            invariant
                j <= ls.len(),
                keys.wf(),
                lv == ls@.map_values(|l: Vec<char>| l@),
                fields.view() == fields_of_lines(start, lv.take(j as int)),
                (physical_id@, core_id@) == block_ids(lv.take(j as int)),
            decreases ls.len() - j,
        {
            assert(lv.take(j + 1).drop_last() =~= lv.take(j as int));
            assert(lv.take(j + 1).last() == ls[j as int]@);
            scan_line(&keys, &mut fields, &mut physical_id, &mut core_id, ls[j].as_slice());
            j += 1;
        }
        assert(lv.take(ls.len() as int) =~= lv);
        let ghost before = cores@.map_values(|x: (Vec<char>, Vec<char>)| (x.0@, x.1@));
        if physical_id.len() > 0 || core_id.len() > 0 {
            if !has_core(&cores, &physical_id, &core_id) {
                let ghost pair = (physical_id@, core_id@);
                cores.push((physical_id, core_id));
                assert(cores@.map_values(|x: (Vec<char>, Vec<char>)| (x.0@, x.1@)) =~= before.push(
                    pair,
                ));
            }
        }
        i += 1;
    }
    assert(bs.take(blocks.len() as int) =~= bs);
    let line_list = lines_of(chars.as_slice());
    let ghost lv = line_list@.map_values(|l: Vec<char>| l@);
    let prefix = chars_of("processor");
    let mut processor_lines: usize = 0;
    let mut j: usize = 0;
    while j < line_list.len()
        invariant
            j <= line_list.len(),
            lv == line_list@.map_values(|l: Vec<char>| l@),
            prefix@ == "processor"@,
            processor_lines == count_prefixed(lv.take(j as int), "processor"@),
            processor_lines <= j,
        decreases line_list.len() - j,
    {
        assert(lv.take(j + 1).drop_last() =~= lv.take(j as int));
        assert(lv.take(j + 1).last() == line_list[j as int]@);
        if has_prefix(line_list[j].as_slice(), prefix.as_slice()) {
            processor_lines += 1;
        }
        j += 1;
    }
    assert(lv.take(line_list.len() as int) =~= lv);
    let name = match &fields.name {
        Some(n) => Some(string_of(n.as_slice())),
        None => None,
    };
    let mut core_pairs: Vec<(String, String)> = Vec::new();
    let ghost cv = cores@.map_values(|x: (Vec<char>, Vec<char>)| (x.0@, x.1@));
    let mut k: usize = 0;
    while k < cores.len()
        invariant
            k <= cores.len(),
            cv == cores@.map_values(|x: (Vec<char>, Vec<char>)| (x.0@, x.1@)),
            core_pairs@.map_values(|p: (String, String)| pair_view(p)) == cv.take(k as int),
        decreases cores.len() - k,
    {
        let ghost before = core_pairs@.map_values(|p: (String, String)| pair_view(p));
        let (a, b) = &cores[k];
        assert(cv[k as int] == (a@, b@));
        let sa = string_of(a.as_slice());
        let sb = string_of(b.as_slice());
        assert(cv.take(k + 1) =~= cv.take(k as int).push((sa@, sb@)));
        core_pairs.push((sa, sb));
        assert(core_pairs@.map_values(|p: (String, String)| pair_view(p)) =~= before.push((sa@, sb@)));
        assert(core_pairs@.map_values(|p: (String, String)| pair_view(p)) =~= cv.take(k + 1));
        k += 1;
    }
    assert(cv.take(cores.len() as int) =~= cv);
    CpuInfoScan {
        name,
        vendor_id: string_of(fields.vendor_id.as_slice()),
        cpu_family: string_of(fields.cpu_family.as_slice()),
        model: string_of(fields.model.as_slice()),
        stepping: string_of(fields.stepping.as_slice()),
        mhz_values: strings_of(&fields.mhz_values),
        cores: core_pairs,
        processor_lines,
    }
}

/// `Family <f> Model <m> Stepping <s>`.
pub open spec fn family_text(f: CpuFieldsView) -> Seq<char> {
    "Family "@ + f.cpu_family + " Model "@ + f.model + " Stepping "@ + f.stepping
}

/// The CPU record of a scan, given the maximum frequency that sysfs reports
/// and the first `cpu MHz` value that reads as a number (both in their units;
/// either may be missing).
pub open spec fn cpu_info_of(
    scan: CpuInfoScanView,
    max_freq_hz: Option<u64>,
    cpu_mhz: Option<u64>,
) -> Result<CpuInfoView, Seq<char>> {
    match scan.fields.name {
        None => Err("model name not found in /proc/cpuinfo"@),
        Some(name) => {
            let frequency = match max_freq_hz {
                Some(hz) => Some(hz),
                None => match cpu_mhz {
                    Some(mhz) => Some(
                        if mhz * 1_000_000 > u64::MAX {
                            u64::MAX
                        } else {
                            (mhz * 1_000_000) as u64
                        },
                    ),
                    None => None,
                },
            };
            match frequency {
                None => Err("cannot determine CPU frequency"@),
                Some(hz) => Ok(
                    CpuInfoView {
                        name: name,
                        identifier: scan.fields.vendor_id + " - "@ + family_text(scan.fields),
                        processor_id: None,
                        vendor_frequency: hz,
                        physical_processor_count: if scan.cores.len() == 0 {
                            if scan.processor_lines == 0 {
                                1usize
                            } else {
                                scan.processor_lines as usize
                            }
                        } else {
                            scan.cores.len() as usize
                        },
                    },
                ),
            }
        },
    }
}

/// Assembles the CPU record from a scan, the sysfs maximum frequency and the
/// `cpu MHz` reading.
pub fn cpu_info_from_scan(scan: &CpuInfoScan, max_freq_hz: Option<u64>, cpu_mhz: Option<u64>) -> (r:
    HwResult<CpuInfo>)
    ensures
        hw_view(r) == cpu_info_of(scan@, max_freq_hz, cpu_mhz),
{
    let name = match &scan.name {
        Some(n) => n.clone(),
        None => {
            return Err(owned("model name not found in /proc/cpuinfo"));
        },
    };
    let family = owned("Family ").concat(scan.cpu_family.as_str()).concat(" Model ").concat(
        scan.model.as_str(),
    ).concat(" Stepping ").concat(scan.stepping.as_str());
    let identifier = compose_cpu_identifier(scan.vendor_id.as_str(), family.as_str());
    let vendor_frequency = match max_freq_hz {
        Some(hz) => hz,
        None => match cpu_mhz {
            Some(mhz) => mhz_to_hz(mhz),
            None => {
                return Err(owned("cannot determine CPU frequency"));
            },
        },
    };
    let physical_processor_count = if scan.cores.len() == 0 {
        if scan.processor_lines == 0 {
            1
        } else {
            scan.processor_lines
        }
    } else {
        scan.cores.len()
    };
    Ok(
        CpuInfo {
            name,
            identifier,
            processor_id: None,
            vendor_frequency,
            physical_processor_count,
        },
    )
}

/// The maximum frequency in Hz that the text of sysfs `cpuinfo_max_freq`
/// (kHz) gives: none when the trimmed text is not a number; saturating.
pub open spec fn max_freq_hz_of(content: Seq<char>) -> Option<u64> {
    match crate::text::parse_u64_text(trim(content)) {
        Some(khz) => Some(
            if khz * 1000 > u64::MAX {
                u64::MAX
            } else {
                (khz * 1000) as u64
            },
        ),
        None => None,
    }
}

/// The maximum frequency in Hz from the text of sysfs `cpuinfo_max_freq`
/// (kHz): none when the trimmed text is not a number.
pub fn cpu_max_freq_hz(content: &str) -> (r: Option<u64>)
    ensures
        r == max_freq_hz_of(content@),
{
    let chars = chars_of(content);
    let t = trimmed_range(chars.as_slice(), 0, chars.len());
    assert(chars@.subrange(0, chars@.len() as int) =~= chars@);
    match crate::text::parse_u64(t.as_slice()) {
        Some(khz) => Some(
            match khz.checked_mul(1000) {
                Some(v) => v,
                None => u64::MAX,
            },
        ),
        None => None,
    }
}

/// Normalizing a brand that is already normalized changes nothing.
pub proof fn lemma_normalize_cpu_brand_idempotent(brand: Seq<char>)
    ensures
        trim(trim(brand)) == trim(brand),
{
    crate::text::lemma_trim_idempotent(brand);
}

/// A decoded CPU record counts at least one physical processor, and its
/// frequency is the sysfs maximum when there is one.
pub proof fn lemma_cpu_info_counts_a_processor(
    scan: CpuInfoScanView,
    max_freq_hz: Option<u64>,
    cpu_mhz: Option<u64>,
)
    requires
        scan.cores.len() <= usize::MAX,
        scan.processor_lines <= usize::MAX,
    ensures
        cpu_info_of(scan, max_freq_hz, cpu_mhz) matches Ok(cpu) ==> cpu.physical_processor_count
            >= 1,
        cpu_info_of(scan, max_freq_hz, cpu_mhz) matches Ok(cpu) ==> (max_freq_hz matches Some(hz)
            ==> cpu.vendor_frequency == hz),
{
}

/// When the blocks name physical or core ids, a decoded CPU record counts as
/// many physical processors as there are distinct `(physical id, core id)`
/// pairs among the blocks.
pub proof fn lemma_cpu_counts_distinct_cores(
    content: Seq<char>,
    max_freq_hz: Option<u64>,
    cpu_mhz: Option<u64>,
)
    requires
        cores_of_blocks(paragraphs(content)).len() <= usize::MAX,
    ensures
        cpu_info_of(cpuinfo_scan(content), max_freq_hz, cpu_mhz) matches Ok(cpu)
            ==> cores_of_blocks(paragraphs(content)).len() > 0 ==> cpu.physical_processor_count
            == Set::new(
            |p: (Seq<char>, Seq<char>)|
                exists|i: int|
                    0 <= i < paragraphs(content).len() && p == #[trigger] block_ids(
                        lines(paragraphs(content)[i]),
                    ) && (p.0.len() > 0 || p.1.len() > 0),
        ).len(),
{
    lemma_cores_are_distinct_block_pairs(paragraphs(content));
}

/// The CPU record of the text of `/proc/cpuinfo`, given the sysfs maximum
/// frequency and the first `cpu MHz` value that reads as a number.
pub fn parse_cpu_info_from_procfs_with_freq(
    content: &str,
    max_freq_hz: Option<u64>,
    cpu_mhz: Option<u64>,
) -> (r: HwResult<CpuInfo>)
    ensures
        hw_view(r) == cpu_info_of(cpuinfo_scan(content@), max_freq_hz, cpu_mhz),
{
    let scan = scan_cpuinfo(content);
    cpu_info_from_scan(&scan, max_freq_hz, cpu_mhz)
}

/// The maximum frequency that a read of `cpuinfo_max_freq` gives: none when
/// the file could not be read or does not hold a number.
pub open spec fn max_freq_of_read(max_freq_file: HwResult<String>) -> Option<u64> {
    match max_freq_file {
        Ok(text) => max_freq_hz_of(text@),
        Err(_) => None,
    }
}

/// The CPU record of the text of `/proc/cpuinfo`, given the read of sysfs
/// `cpuinfo_max_freq` and the first `cpu MHz` value that reads as a number.
pub fn parse_cpu_info_from_procfs(
    content: &str,
    max_freq_file: &HwResult<String>,
    cpu_mhz: Option<u64>,
) -> (r: HwResult<CpuInfo>)
    ensures
        hw_view(r) == cpu_info_of(cpuinfo_scan(content@), max_freq_of_read(*max_freq_file), cpu_mhz),
{
    let max_freq_hz = match max_freq_file {
        Ok(text) => cpu_max_freq_hz(text.as_str()),
        Err(_) => None,
    };
    parse_cpu_info_from_procfs_with_freq(content, max_freq_hz, cpu_mhz)
}

/// The CPU record, given the read of `/proc/cpuinfo`, the read of sysfs
/// `cpuinfo_max_freq` and the first `cpu MHz` value that reads as a number.
/// A failed read of `/proc/cpuinfo` is reported with its message.
pub fn get_cpu_info(
    cpuinfo_file: &HwResult<String>,
    max_freq_file: &HwResult<String>,
    cpu_mhz: Option<u64>,
) -> (r: HwResult<CpuInfo>)
    ensures
        hw_view(r) == match cpuinfo_file {
            Err(e) => Err("cannot read /proc/cpuinfo: "@ + e@),
            Ok(content) => cpu_info_of(
                cpuinfo_scan(content@),
                max_freq_of_read(*max_freq_file),
                cpu_mhz,
            ),
        },
{
    match cpuinfo_file {
        Err(e) => Err(owned("cannot read /proc/cpuinfo: ").concat(e.as_str())),
        Ok(content) => parse_cpu_info_from_procfs(content.as_str(), max_freq_file, cpu_mhz),
    }
}

} // verus!
