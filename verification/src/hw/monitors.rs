//! The displays of Windows: EDID records found in the registry, paired with
//! the active monitors that the display-device enumeration lists.

use crate::hw::display::{
    edid_display_name, edid_name, eq_ignore_ascii_case, monitor_hardware_id, monitor_id, nul_from,
    same_ignoring_ascii_case, utf16_lossy, utf16_null_terminated_to_string,
};
use crate::hw::opt_text;
use crate::text::{chars_of, trim};
use vstd::prelude::*;

verus! {

/// A monitor EDID block found in the registry under a hardware id.
#[derive(Debug)]
pub struct EdidDisplay {
    pub hardware_id: String,
    /// The monitor name of the EDID block, if it has one.
    pub name: Option<String>,
    pub edid: Vec<u8>,
}

/// The registry record of a monitor: none unless the EDID block has at least
/// the 128 bytes of its base block.
pub fn edid_display(hardware_id: String, edid: Vec<u8>) -> (r: Option<EdidDisplay>)
    ensures
        match r {
            None => edid@.len() < 128,
            Some(d) => edid@.len() >= 128 && d.hardware_id@ == hardware_id@ && d.edid@ == edid@
                && opt_text(d.name) == edid_name(edid@),
        },
{
    if edid.len() < 128 {
        return None;
    }
    let name = edid_display_name(edid.as_slice());
    Some(EdidDisplay { hardware_id, name, edid })
}

/// The current mode of a display adapter.
#[derive(Debug, Clone, Copy)]
pub struct DisplaySettings {
    pub width: u32,
    pub height: u32,
    pub refresh_rate_hz: u32,
    pub bits_per_pixel: u32,
    pub position_x: i32,
    pub position_y: i32,
}

/// An active monitor and the adapter that drives it.
#[derive(Debug)]
pub struct ActiveMonitor {
    /// The hardware id within the device id, e.g. `SAM71E7`.
    pub hardware_id: Option<String>,
    pub device_id: String,
    pub name: String,
    /// The friendly name of the adapter.
    pub adapter_name: String,
    /// The device name of the adapter, e.g. `\\.\DISPLAY1`.
    pub adapter_device_name: String,
    pub is_primary: bool,
    pub settings: Option<DisplaySettings>,
}

/// `DISPLAY_DEVICE_ACTIVE`.
pub const DISPLAY_DEVICE_ACTIVE: u32 = 1;

/// `DISPLAY_DEVICE_PRIMARY_DEVICE`.
pub const DISPLAY_DEVICE_PRIMARY_DEVICE: u32 = 4;

/// The text of a NUL-terminated UTF-16 field of a display device record.
pub open spec fn wide_text(units: Seq<u16>) -> Seq<char> {
    trim(utf16_lossy(units.take(nul_from(units, 0))))
}

/// The monitor of a display device record, with the record of its adapter
/// and the adapter's current mode: none unless the monitor is active.
pub fn active_monitor(
    adapter_device_name: &[u16],
    adapter_string: &[u16],
    adapter_flags: u32,
    settings: Option<DisplaySettings>,
    monitor_device_id: &[u16],
    monitor_string: &[u16],
    monitor_flags: u32,
) -> (r: Option<ActiveMonitor>)
    ensures
        match r {
            None => monitor_flags & DISPLAY_DEVICE_ACTIVE == 0,
            Some(m) => {
                &&& monitor_flags & DISPLAY_DEVICE_ACTIVE != 0
                &&& m.device_id@ == wide_text(monitor_device_id@)
                &&& opt_text(m.hardware_id) == monitor_id(wide_text(monitor_device_id@))
                &&& m.name@ == wide_text(monitor_string@)
                &&& m.adapter_name@ == wide_text(adapter_string@)
                &&& m.adapter_device_name@ == wide_text(adapter_device_name@)
                &&& m.is_primary == (adapter_flags & DISPLAY_DEVICE_PRIMARY_DEVICE != 0)
                &&& m.settings == settings
            },
        },
{
    if monitor_flags & DISPLAY_DEVICE_ACTIVE == 0 {
        return None;
    }
    let device_id = utf16_null_terminated_to_string(monitor_device_id);
    let hardware_id = monitor_hardware_id(device_id.as_str());
    Some(
        ActiveMonitor {
            hardware_id,
            device_id,
            name: utf16_null_terminated_to_string(monitor_string),
            adapter_name: utf16_null_terminated_to_string(adapter_string),
            adapter_device_name: utf16_null_terminated_to_string(adapter_device_name),
            is_primary: adapter_flags & DISPLAY_DEVICE_PRIMARY_DEVICE != 0,
            settings,
        },
    )
}

/// Where a display of the list comes from: an EDID record, with the active
/// monitor it was matched to, or an active monitor alone.
#[derive(Debug, Clone, Copy, PartialEq, Eq, Structural)]
pub enum DisplaySource {
    Edid { edid: usize, monitor: Option<usize> },
    Monitor { active: usize },
}

/// The first active monitor at or after `i` whose hardware id equals `id`
/// up to ASCII case.
pub open spec fn monitor_for_from(monitors: Seq<Option<Seq<char>>>, id: Seq<char>, i: int) -> Option<
    int,
>
    decreases monitors.len() - i,
{
    if i < 0 || i >= monitors.len() {
        None
    } else if monitors[i] matches Some(h) && eq_ignore_ascii_case(h, id) {
        Some(i)
    } else {
        monitor_for_from(monitors, id, i + 1)
    }
}

/// The EDID records that are kept, each with its matched monitor: all of
/// them when no monitor is active, else those that match an active monitor.
pub open spec fn edid_sources(edid_ids: Seq<Seq<char>>, monitors: Seq<Option<Seq<char>>>) -> Seq<
    DisplaySource,
>
    decreases edid_ids.len(),
{
    if edid_ids.len() == 0 {
        Seq::empty()
    } else {
        let before = edid_sources(edid_ids.drop_last(), monitors);
        let m = monitor_for_from(monitors, edid_ids.last(), 0);
        if monitors.len() == 0 || m is Some {
            before.push(
                DisplaySource::Edid {
                    edid: (edid_ids.len() - 1) as usize,
                    monitor: match m {
                        Some(k) => Some(k as usize),
                        None => None,
                    },
                },
            )
        } else {
            before
        }
    }
}

/// The hardware ids of the kept EDID records.
pub open spec fn kept_ids(edid_ids: Seq<Seq<char>>, monitors: Seq<Option<Seq<char>>>) -> Seq<
    Seq<char>,
>
    decreases edid_ids.len(),
{
    if edid_ids.len() == 0 {
        Seq::empty()
    } else {
        let before = kept_ids(edid_ids.drop_last(), monitors);
        if monitors.len() == 0 || monitor_for_from(monitors, edid_ids.last(), 0) is Some {
            before.push(edid_ids.last())
        } else {
            before
        }
    }
}

/// Whether `id` equals one of `ids` up to ASCII case.
pub open spec fn id_listed(ids: Seq<Seq<char>>, id: Seq<char>) -> bool
    decreases ids.len(),
{
    ids.len() > 0 && (eq_ignore_ascii_case(ids.last(), id) || id_listed(ids.drop_last(), id))
}

/// The active monitors listed after the EDID records, from the first `n`:
/// each one whose hardware id is unknown or equals (up to ASCII case) none
/// of the `listed` ids of the kept EDID records.
pub open spec fn monitor_sources(
    monitors: Seq<Option<Seq<char>>>,
    n: nat,
    listed: Seq<Seq<char>>,
) -> Seq<DisplaySource>
    decreases n,
{
    if n == 0 {
        Seq::empty()
    } else {
        let added = monitor_sources(monitors, (n - 1) as nat, listed);
        let i = n - 1;
        if monitors[i] matches Some(h) && id_listed(listed, h) {
            added
        } else {
            added.push(DisplaySource::Monitor { active: i as usize })
        }
    }
}

/// The displays of Windows, by source: the kept EDID records in registry
/// order, then the active monitors that no kept EDID record stands for;
/// when that is nothing, every active monitor.
pub open spec fn display_sources(edid_ids: Seq<Seq<char>>, monitors: Seq<Option<Seq<char>>>) -> Seq<
    DisplaySource,
> {
    let first = edid_sources(edid_ids, monitors) + monitor_sources(
        monitors,
        monitors.len(),
        kept_ids(edid_ids, monitors),
    );
    if first.len() == 0 {
        monitor_sources(monitors, monitors.len(), Seq::empty())
    } else {
        first
    }
}

fn monitor_for(monitors: &Vec<Option<Vec<char>>>, id: &Vec<char>) -> (r: Option<usize>)
    ensures
        match r {
            Some(i) => monitor_for_from(opt_chars(monitors@), id@, 0) == Some(i as int),
            None => monitor_for_from(opt_chars(monitors@), id@, 0) is None,
        },
{
    let ghost ms = opt_chars(monitors@);
    let mut i: usize = 0;
    while i < monitors.len()
        invariant
            i <= monitors.len(),
            ms == opt_chars(monitors@),
            monitor_for_from(ms, id@, 0) == monitor_for_from(ms, id@, i as int),
        decreases monitors.len() - i,
    {
        match &monitors[i] {
            Some(h) => {
                if same_ignoring_ascii_case(h.as_slice(), id.as_slice()) {
                    return Some(i);
                }
            },
            None => {},
        }
        i += 1;
    }
    None
}

/// The characters of optional texts.
pub open spec fn opt_chars(v: Seq<Option<Vec<char>>>) -> Seq<Option<Seq<char>>> {
    v.map_values(
        |o: Option<Vec<char>>|
            match o {
                Some(c) => Some(c@),
                None => None,
            },
    )
}

fn listed(ids: &Vec<Vec<char>>, id: &Vec<char>) -> (r: bool)
    ensures
        r == id_listed(ids@.map_values(|v: Vec<char>| v@), id@),
{
    let ghost vs = ids@.map_values(|v: Vec<char>| v@);
    let mut r = false;
    let mut k: usize = 0;
    while k < ids.len()
        invariant
            k <= ids.len(),
            vs == ids@.map_values(|v: Vec<char>| v@),
            r == id_listed(vs.take(k as int), id@),
        decreases ids.len() - k,
    {
        assert(vs.take(k + 1).drop_last() =~= vs.take(k as int));
        if same_ignoring_ascii_case(ids[k].as_slice(), id.as_slice()) {
            r = true;
        }
        k += 1;
    }
    assert(vs.take(ids.len() as int) =~= vs);
    r
}

fn add_monitors(
    monitors: &Vec<Option<Vec<char>>>,
    listed_ids: &Vec<Vec<char>>,
    sources: &mut Vec<DisplaySource>,
)
    ensures
        final(sources)@ == old(sources)@ + monitor_sources(
            opt_chars(monitors@),
            monitors@.len(),
            listed_ids@.map_values(|v: Vec<char>| v@),
        ),
{
    let ghost ms = opt_chars(monitors@);
    let ghost start = listed_ids@.map_values(|v: Vec<char>| v@);
    let ghost base = sources@;
    let mut i: usize = 0;
    while i < monitors.len()
        invariant
            i <= monitors.len(),
            ms == opt_chars(monitors@),
            start == listed_ids@.map_values(|v: Vec<char>| v@),
            sources@ == base + monitor_sources(ms, i as nat, start),
        decreases monitors.len() - i,
    {
        let skip = match &monitors[i] {
            Some(h) => listed(listed_ids, h),
            None => false,
        };
        if !skip {
            sources.push(DisplaySource::Monitor { active: i });
            assert(sources@ =~= base + monitor_sources(ms, (i + 1) as nat, start));
        }
        i += 1;
    }
}

/// Pairs the EDID records (by hardware id, in registry order) with the
/// active monitors (by hardware id, if known, in enumeration order) and
/// lists the displays by source.
pub fn plan_displays(edid_ids: &Vec<String>, monitor_ids: &Vec<Option<String>>) -> (r: Vec<
    DisplaySource,
>)
    ensures
        r@ == display_sources(
            edid_ids@.map_values(|s: String| s@),
            monitor_ids@.map_values(|o: Option<String>| opt_text(o)),
        ),
{
    let ghost es = edid_ids@.map_values(|s: String| s@);
    let ghost ms0 = monitor_ids@.map_values(|o: Option<String>| opt_text(o));
    let mut monitors: Vec<Option<Vec<char>>> = Vec::new();
    let mut i: usize = 0;
    while i < monitor_ids.len()
        invariant
            i <= monitor_ids.len(),
            ms0 == monitor_ids@.map_values(|o: Option<String>| opt_text(o)),
            opt_chars(monitors@) == ms0.take(i as int),
        decreases monitor_ids.len() - i,
    {
        let ghost before = monitors@;
        let m = match &monitor_ids[i] {
            Some(h) => Some(chars_of(h.as_str())),
            None => None,
        };
        let ghost mv: Option<Seq<char>> = match &m {
            Some(c) => Some(c@),
            None => None,
        };
        assert(mv == ms0[i as int]);
        monitors.push(m);
        assert(opt_chars(monitors@) =~= opt_chars(before).push(mv));
        assert(ms0.take(i + 1) =~= ms0.take(i as int).push(ms0[i as int]));
        i += 1;
    }
    assert(ms0.take(monitor_ids.len() as int) =~= ms0);
    let ghost ms = opt_chars(monitors@);
    let mut sources: Vec<DisplaySource> = Vec::new();
    let mut kept: Vec<Vec<char>> = Vec::new();
    let mut j: usize = 0;
    while j < edid_ids.len()
        invariant
            j <= edid_ids.len(),
            es == edid_ids@.map_values(|s: String| s@),
            ms == opt_chars(monitors@),
            ms.len() == monitor_ids.len(),
            sources@ == edid_sources(es.take(j as int), ms),
            kept@.map_values(|v: Vec<char>| v@) == kept_ids(es.take(j as int), ms),
        decreases edid_ids.len() - j,
    {
        assert(es.take(j + 1).drop_last() =~= es.take(j as int));
        let id = chars_of(edid_ids[j].as_str());
        assert(es.take(j + 1).last() == id@);
        let m = monitor_for(&monitors, &id);
        if monitors.len() == 0 || m.is_some() {
            sources.push(DisplaySource::Edid { edid: j, monitor: m });
            let ghost before = kept@;
            kept.push(id);
            assert(kept@.map_values(|v: Vec<char>| v@) =~= before.map_values(
                |v: Vec<char>| v@,
            ).push(es.take(j + 1).last()));
        }
        j += 1;
    }
    assert(es.take(edid_ids.len() as int) =~= es);
    add_monitors(&monitors, &kept, &mut sources);
    if sources.len() == 0 {
        let mut all: Vec<DisplaySource> = Vec::new();
        let none: Vec<Vec<char>> = Vec::new();
        assert(none@.map_values(|v: Vec<char>| v@) =~= Seq::<Seq<char>>::empty());
        add_monitors(&monitors, &none, &mut all);
        assert(all@ =~= monitor_sources(ms, ms.len(), Seq::empty()));
        all
    } else {
        sources
    }
}

/// The name of a display made from an EDID record: the EDID monitor name,
/// else the name of its matched monitor, else its hardware id.
pub fn display_name(display: &EdidDisplay, monitors: &Vec<ActiveMonitor>, monitor: Option<usize>) -> (r:
    String)
    requires
        monitor matches Some(i) ==> i < monitors.len(),
    ensures
        r@ == match opt_text(display.name) {
            Some(n) => n,
            None => match monitor {
                Some(i) => monitors[i as int].name@,
                None => display.hardware_id@,
            },
        },
{
    match &display.name {
        Some(n) => n.clone(),
        None => match monitor {
            Some(i) => monitors[i].name.clone(),
            None => display.hardware_id.clone(),
        },
    }
}

/// Whether a display source is sound for the EDID hardware ids `es` and the
/// active monitors' ids `ms`: its indices are in range, an EDID record's
/// monitor has the record's hardware id (up to ASCII case), and an EDID
/// record goes without a monitor only when no monitor is active.
pub open spec fn source_valid(
    source: DisplaySource,
    es: Seq<Seq<char>>,
    ms: Seq<Option<Seq<char>>>,
) -> bool {
    match source {
        DisplaySource::Edid { edid, monitor } => edid < es.len() && match monitor {
            Some(k) => k < ms.len() && (ms[k as int] matches Some(h) && eq_ignore_ascii_case(
                h,
                es[edid as int],
            )),
            None => ms.len() == 0,
        },
        DisplaySource::Monitor { active } => active < ms.len(),
    }
}

proof fn lemma_monitor_for_from(ms: Seq<Option<Seq<char>>>, id: Seq<char>, i: int)
    ensures
        monitor_for_from(ms, id, i) matches Some(k) ==> i <= k < ms.len() && (ms[k] matches Some(
            h,
        ) && eq_ignore_ascii_case(h, id)),
    decreases ms.len() - i,
{
    if 0 <= i < ms.len() {
        lemma_monitor_for_from(ms, id, i + 1);
    }
}

proof fn lemma_edid_sources_valid(es: Seq<Seq<char>>, ms: Seq<Option<Seq<char>>>)
    requires
        es.len() <= usize::MAX,
        ms.len() <= usize::MAX,
    ensures
        forall|k: int|
            0 <= k < edid_sources(es, ms).len() ==> source_valid(
                #[trigger] edid_sources(es, ms)[k],
                es,
                ms,
            ) && edid_sources(es, ms)[k] is Edid,
    decreases es.len(),
{
    if es.len() > 0 {
        let prev = es.drop_last();
        lemma_edid_sources_valid(prev, ms);
        lemma_monitor_for_from(ms, es.last(), 0);
        let before = edid_sources(prev, ms);
        let after = edid_sources(es, ms);
        assert forall|k: int| 0 <= k < after.len() implies source_valid(
            #[trigger] after[k],
            es,
            ms,
        ) && after[k] is Edid by {
            if k < before.len() {
                assert(after[k] == before[k]);
                assert(source_valid(before[k], prev, ms));
                match before[k] {
                    DisplaySource::Edid { edid, monitor } => {
                        assert(es[edid as int] == prev[edid as int]);
                    },
                    DisplaySource::Monitor { .. } => {},
                }
            } else {
                assert(es[es.len() - 1] == es.last());
                assert(after[k] == DisplaySource::Edid {
                    edid: (es.len() - 1) as usize,
                    monitor: match monitor_for_from(ms, es.last(), 0) {
                        Some(j) => Some(j as usize),
                        None => None,
                    },
                });
            }
        }
    }
}

proof fn lemma_monitor_sources_valid(
    ms: Seq<Option<Seq<char>>>,
    n: nat,
    listed: Seq<Seq<char>>,
)
    requires
        n <= ms.len(),
        ms.len() <= usize::MAX,
    ensures
        forall|k: int|
            0 <= k < monitor_sources(ms, n, listed).len() ==> (#[trigger] monitor_sources(
                ms,
                n,
                listed,
            )[k] matches DisplaySource::Monitor { active } && active < n),
        forall|i: int|
            0 <= i < n && ms[i] is None ==> monitor_sources(ms, n, listed).contains(
                DisplaySource::Monitor { active: i as usize },
            ),
    decreases n,
{
    if n > 0 {
        let m = (n - 1) as nat;
        lemma_monitor_sources_valid(ms, m, listed);
        let before = monitor_sources(ms, m, listed);
        let after = monitor_sources(ms, n, listed);
        assert forall|i: int| 0 <= i < n && ms[i] is None implies after.contains(
            DisplaySource::Monitor { active: i as usize },
        ) by {
            if i < m {
                let j = choose|j: int|
                    0 <= j < before.len() && before[j] == DisplaySource::Monitor {
                        active: i as usize,
                    };
                assert(after[j] == before[j]);
            } else {
                assert(after[after.len() - 1] == DisplaySource::Monitor { active: i as usize });
            }
        }
    }
}

/// The display plan is sound: every source refers to an EDID record and
/// active monitors that exist; an EDID record is paired with a monitor of
/// the same hardware id (up to ASCII case) whenever a monitor is active;
/// and every active monitor without a hardware id is listed on its own.
pub proof fn lemma_display_sources_sound(es: Seq<Seq<char>>, ms: Seq<Option<Seq<char>>>)
    requires
        es.len() <= usize::MAX,
        ms.len() <= usize::MAX,
    ensures
        forall|k: int|
            0 <= k < display_sources(es, ms).len() ==> source_valid(
                #[trigger] display_sources(es, ms)[k],
                es,
                ms,
            ),
        forall|i: int|
            0 <= i < ms.len() && ms[i] is None ==> display_sources(es, ms).contains(
                DisplaySource::Monitor { active: i as usize },
            ),
{
    let e = edid_sources(es, ms);
    let kept = kept_ids(es, ms);
    let added = monitor_sources(ms, ms.len(), kept);
    let all = monitor_sources(ms, ms.len(), Seq::empty());
    lemma_edid_sources_valid(es, ms);
    lemma_monitor_sources_valid(ms, ms.len(), kept);
    lemma_monitor_sources_valid(ms, ms.len(), Seq::empty());
    let first = e + added;
    let r = display_sources(es, ms);
    assert forall|k: int| 0 <= k < r.len() implies source_valid(#[trigger] r[k], es, ms) by {
        if first.len() == 0 {
            assert(r[k] == all[k]);
        } else if k < e.len() {
            assert(r[k] == e[k]);
        } else {
            assert(r[k] == added[k - e.len()]);
        }
    }
    assert forall|i: int| 0 <= i < ms.len() && ms[i] is None implies r.contains(
        DisplaySource::Monitor { active: i as usize },
    ) by {
        if first.len() == 0 {
            assert(r == all);
        } else {
            let j = choose|j: int|
                0 <= j < added.len() && added[j] == DisplaySource::Monitor { active: i as usize };
            assert(r[e.len() + j] == added[j]);
        }
    }
}

proof fn lemma_kept_ids_from_records(es: Seq<Seq<char>>, ms: Seq<Option<Seq<char>>>, h: Seq<char>)
    ensures
        id_listed(kept_ids(es, ms), h) ==> exists|j: int|
            0 <= j < es.len() && #[trigger] eq_ignore_ascii_case(es[j], h),
    decreases es.len(),
{
    if es.len() > 0 {
        let prev = es.drop_last();
        lemma_kept_ids_from_records(prev, ms, h);
        let before = kept_ids(prev, ms);
        if id_listed(kept_ids(es, ms), h) {
            if monitors_kept(es, ms) {
                assert(kept_ids(es, ms) == before.push(es.last()));
                assert(kept_ids(es, ms).drop_last() =~= before);
                if eq_ignore_ascii_case(es.last(), h) {
                    assert(eq_ignore_ascii_case(es[es.len() - 1], h));
                } else {
                    let j = choose|j: int| 0 <= j < prev.len() && #[trigger] eq_ignore_ascii_case(prev[j], h);
                    assert(es[j] == prev[j]);
                }
            } else {
                let j = choose|j: int| 0 <= j < prev.len() && #[trigger] eq_ignore_ascii_case(prev[j], h);
                assert(es[j] == prev[j]);
            }
        }
    }
}

/// Whether the last EDID record of `es` is kept.
spec fn monitors_kept(es: Seq<Seq<char>>, ms: Seq<Option<Seq<char>>>) -> bool {
    ms.len() == 0 || monitor_for_from(ms, es.last(), 0) is Some
}

proof fn lemma_monitor_sources_adds_unlisted(
    ms: Seq<Option<Seq<char>>>,
    n: nat,
    listed: Seq<Seq<char>>,
    i: int,
)
    requires
        n <= ms.len(),
        ms.len() <= usize::MAX,
        0 <= i < n,
        ms[i] matches Some(h) && !id_listed(listed, h),
    ensures
        monitor_sources(ms, n, listed).contains(DisplaySource::Monitor { active: i as usize }),
    decreases n,
{
    let m = (n - 1) as nat;
    let after = monitor_sources(ms, n, listed);
    if i < m {
        lemma_monitor_sources_adds_unlisted(ms, m, listed, i);
        let before = monitor_sources(ms, m, listed);
        let j = choose|j: int|
            0 <= j < before.len() && before[j] == DisplaySource::Monitor { active: i as usize };
        assert(after[j] == before[j]);
    } else {
        assert(after[after.len() - 1] == DisplaySource::Monitor { active: i as usize });
    }
}

/// Every active monitor whose hardware id matches (up to ASCII case) no EDID
/// record is listed on its own, whatever the other monitors' ids are.
pub proof fn lemma_unmatched_monitor_listed(es: Seq<Seq<char>>, ms: Seq<Option<Seq<char>>>, i: int)
    requires
        es.len() <= usize::MAX,
        ms.len() <= usize::MAX,
        0 <= i < ms.len(),
        ms[i] matches Some(h) && forall|j: int|
            0 <= j < es.len() ==> !#[trigger] eq_ignore_ascii_case(es[j], h),
    ensures
        display_sources(es, ms).contains(DisplaySource::Monitor { active: i as usize }),
{
    let h = ms[i]->Some_0;
    let e = edid_sources(es, ms);
    let kept = kept_ids(es, ms);
    let added = monitor_sources(ms, ms.len(), kept);
    lemma_kept_ids_from_records(es, ms, h);
    assert(!id_listed(kept, h));
    assert(!id_listed(Seq::<Seq<char>>::empty(), h));
    lemma_monitor_sources_adds_unlisted(ms, ms.len(), kept, i);
    lemma_monitor_sources_adds_unlisted(ms, ms.len(), Seq::empty(), i);
    let r = display_sources(es, ms);
    if (e + added).len() > 0 {
        let j = choose|j: int|
            0 <= j < added.len() && added[j] == DisplaySource::Monitor { active: i as usize };
        assert(r[e.len() + j] == added[j]);
    }
}

} // verus!
