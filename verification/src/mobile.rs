//! Shared logic of the mobile bindings: the registry of parsed clips behind
//! opaque handles, the GPS readings of a clip, and the video-info record.
use std::collections::HashMap;

use vstd::prelude::*;

use crate::search::{
    first_some, law_first_some_is_first_hit, lemma_first_some_prefix, lemma_first_some_step,
};
use crate::tags::{GpsData, GroupId, Input, SampleInfo, TagDescription, TagGroup, TagId, TagValue};
use crate::text::chars_of;

verus! {

broadcast use vstd::std_specs::hash::group_hash_axioms;

// ---------------------------------------------------------------------------
// Handle registry
// ---------------------------------------------------------------------------
/// Parsed clips kept behind opaque, non-zero `u64` handles.
pub struct HandleRegistry<D> {
    next_handle: u64,
    entries: HashMap<u64, D>,
}

impl<D> View for HandleRegistry<D> {
    type V = Map<u64, D>;

    /// The live handles and the clip each one holds.
    closed spec fn view(&self) -> Map<u64, D> {
        self.entries@
    }
}

impl<D> HandleRegistry<D> {
    /// The handle that the next successful `open` hands out.
    pub closed spec fn next_handle(&self) -> u64 {
        self.next_handle
    }

    /// Handle 0 is never live, and every live handle was handed out before
    /// `next_handle`.
    pub open spec fn wf(&self) -> bool {
        &&& 1 <= self.next_handle()
        &&& forall|h: u64| #[trigger] self@.contains_key(h) ==> 1 <= h < self.next_handle()
    }

    /// An empty registry whose first handle is 1.
    pub fn new() -> (r: Self)
        ensures
            r@ == Map::<u64, D>::empty(),
            r.next_handle() == 1,
            r.wf(),
    {
        HandleRegistry { next_handle: 1, entries: HashMap::new() }
    }
}

/// The counter value after handing out `h` (it wraps around like an atomic
/// `fetch_add`).
pub open spec fn successor(h: u64) -> u64 {
    if h == u64::MAX {
        0
    } else {
        (h + 1) as u64
    }
}

/// Registers a parsed clip and returns its handle. A parse error is passed on
/// and consumes no handle.
pub fn open<D>(registry: &mut HandleRegistry<D>, parsed: Result<D, String>) -> (r: Result<
    u64,
    String,
>)
    ensures
        match parsed {
            Err(e) => {
                &&& r == Err::<u64, String>(e)
                &&& final(registry)@ == old(registry)@
                &&& final(registry).next_handle() == old(registry).next_handle()
            },
            Ok(d) => {
                &&& r == Ok::<u64, String>(old(registry).next_handle())
                &&& final(registry)@ == old(registry)@.insert(old(registry).next_handle(), d)
                &&& final(registry).next_handle() == successor(old(registry).next_handle())
            },
        },
        old(registry).wf() && old(registry).next_handle() < u64::MAX ==> {
            &&& final(registry).wf()
            &&& (r matches Ok(h) ==> h != 0 && !old(registry)@.contains_key(h))
        },
{
    let data = match parsed {
        Ok(d) => d,
        Err(e) => return Err(e),
    };
    let ghost old_live = registry@;
    let handle = registry.next_handle;
    registry.next_handle = if handle == u64::MAX {
        0
    } else {
        handle + 1
    };
    registry.entries.insert(handle, data);
    proof {
        if 1 <= handle && handle < u64::MAX && (forall|h: u64|
            #[trigger] old_live.contains_key(h) ==> 1 <= h < handle) {
            assert forall|h: u64| #[trigger] registry@.contains_key(h) implies 1 <= h
                < registry.next_handle() by {
                if h != handle {
                    assert(old_live.contains_key(h));
                }
            }
        }
    }
    Ok(handle)
}

/// Releases the clip behind `handle`; handle 0 is ignored.
pub fn close<D>(registry: &mut HandleRegistry<D>, handle: u64)
    ensures
        final(registry)@ == if handle == 0 {
            old(registry)@
        } else {
            old(registry)@.remove(handle)
        },
        final(registry).next_handle() == old(registry).next_handle(),
        old(registry).wf() ==> final(registry).wf(),
{
    if handle != 0 {
        registry.entries.remove(&handle);
    }
}

/// Applies `f` to the clip behind `handle`; `None` for handle 0 or a handle
/// that is not live.
pub fn with_handle<D, T, F>(registry: &HandleRegistry<D>, handle: u64, f: F) -> (r: Option<T>) where
    F: FnOnce(&D) -> T,

    requires
        handle != 0 && registry@.contains_key(handle) ==> f.requires((&registry@[handle],)),
    ensures
        handle == 0 || !registry@.contains_key(handle) ==> r is None,
        handle != 0 && registry@.contains_key(handle) ==> (r matches Some(t) && f.ensures(
            (&registry@[handle],),
            t,
        )),
{
    if handle == 0 {
        return None;
    }
    match registry.entries.get(&handle) {
        Some(d) => Some(f(d)),
        None => None,
    }
}

/// Opening a clip and then closing the handle it got gives back the live
/// handles that were there before.
pub proof fn law_open_then_close<D>(live: Map<u64, D>, h: u64, d: D)
    requires
        !live.contains_key(h),
    ensures
        live.insert(h, d).remove(h) == live,
{
    assert(live.insert(h, d).remove(h) =~= live);
}

/// Closing one handle leaves every other live handle and its clip in place.
pub proof fn law_close_keeps_others<D>(live: Map<u64, D>, h: u64, other: u64)
    requires
        live.contains_key(other),
        other != h,
    ensures
        live.remove(h).contains_key(other),
        live.remove(h)[other] == live[other],
{
}

/// Handles handed out by successive opens of a well-formed registry are
/// distinct and stay distinct from every handle live before them.
pub proof fn law_handles_distinct<D>(r: HandleRegistry<D>, d1: D, d2: D)
    requires
        r.wf(),
        r.next_handle() < u64::MAX - 1,
    ensures
        ({
            let h1 = r.next_handle();
            let h2 = successor(h1);
            &&& h1 != h2
            &&& h1 != 0 && h2 != 0
            &&& !r@.contains_key(h1)
            &&& !r@.insert(h1, d1).contains_key(h2)
        }),
{
    let h1 = r.next_handle();
    let h2 = successor(h1);
    assert(h2 == h1 + 1);
    if r@.insert(h1, d1).contains_key(h2) {
        assert(r@.contains_key(h2));
    }
}

// ---------------------------------------------------------------------------
// GPS readings
// ---------------------------------------------------------------------------
/// Where a GPS reading comes from.
#[derive(Clone, Copy, Debug, PartialEq)]
pub enum GpsSource {
    /// A GPS5 row: latitude and longitude in 1e-7 degrees, altitude in mm,
    /// 2D and 3D speed in mm/s.
    Gps5 { lat: i32, lon: i32, alt: i32, speed2d: i32, speed3d: i32 },
    /// A decoded fix of a GPS9-style stream.
    Fix(GpsData),
}

/// One GPS reading together with the payload context it was read in.
#[derive(Clone, Copy, Debug, PartialEq)]
pub struct GpsReading {
    pub source: GpsSource,
    /// Bit pattern of the payload's duration in milliseconds (`f64`).
    pub duration_ms: u64,
    /// Number of entries (rows or fixes) in the payload's data tag, usable or not.
    pub payload_len: usize,
    /// The group's GPSU time, when its GPSU tag holds a `u64`.
    pub utc_time: Option<u64>,
    /// The payload's fix state; 0 for a fix that was not acquired.
    pub fix: i32,
    pub precision: i32,
}

pub open spec fn gpsu_name() -> Seq<char> {
    seq!['G', 'P', 'S', 'U']
}

/// The value of the group's first GPSU tag.
pub open spec fn gpsu_entry(tags: Seq<(TagId, TagDescription)>) -> Option<TagValue> {
    first_some(
        tags,
        |e: (TagId, TagDescription)|
            if e.1.description@ == gpsu_name() {
                Some(e.1.value)
            } else {
                None
            },
    )
}

/// The GPSU time of a group: its first GPSU tag, when that holds a `u64`.
pub open spec fn gpsu_time(tags: Seq<(TagId, TagDescription)>) -> Option<u64> {
    match gpsu_entry(tags) {
        Some(TagValue::U64(t)) => Some(t),
        _ => None,
    }
}

/// The value of the group's data tag.
pub open spec fn data_entry(tags: Seq<(TagId, TagDescription)>) -> Option<TagValue> {
    first_some(
        tags,
        |e: (TagId, TagDescription)|
            if e.0 == TagId::Data {
                Some(e.1.value)
            } else {
                None
            },
    )
}

pub open spec fn row_reading(row: Seq<i32>, n: nat, info: SampleInfo, utc: Option<u64>) -> GpsReading {
    GpsReading {
        source: GpsSource::Gps5 {
            lat: row[0],
            lon: row[1],
            alt: row[2],
            speed2d: row[3],
            speed3d: row[4],
        },
        duration_ms: info.duration_ms,
        payload_len: n as usize,
        utc_time: utc,
        fix: info.gps_fix,
        precision: info.gps_precision,
    }
}

pub open spec fn fix_reading(g: GpsData, n: nat, info: SampleInfo, utc: Option<u64>) -> GpsReading {
    GpsReading {
        source: GpsSource::Fix(g),
        duration_ms: info.duration_ms,
        payload_len: n as usize,
        utc_time: utc,
        fix: if g.is_acquired {
            info.gps_fix
        } else {
            0
        },
        precision: info.gps_precision,
    }
}

/// The readings of the GPS5 rows that have at least five values.
pub open spec fn row_readings(rows: Seq<Vec<i32>>, n: nat, info: SampleInfo, utc: Option<u64>) -> Seq<
    GpsReading,
>
    decreases rows.len(),
{
    if rows.len() == 0 {
        Seq::empty()
    } else {
        row_readings(rows.drop_last(), n, info, utc) + if rows.last()@.len() >= 5 {
            seq![row_reading(rows.last()@, n, info, utc)]
        } else {
            Seq::empty()
        }
    }
}

pub open spec fn fix_readings(items: Seq<GpsData>, n: nat, info: SampleInfo, utc: Option<u64>) -> Seq<
    GpsReading,
> {
    items.map_values(|g: GpsData| fix_reading(g, n, info, utc))
}

/// The readings of one group: none unless it is the GPS group and its data
/// tag is a GPS5 matrix or a list of fixes.
pub open spec fn group_readings(info: SampleInfo, g: TagGroup) -> Seq<GpsReading> {
    if g.group != GroupId::Gps {
        Seq::empty()
    } else {
        let utc = gpsu_time(g.tags@);
        match data_entry(g.tags@) {
            Some(TagValue::VecVecI32(rows)) => row_readings(rows@, rows@.len(), info, utc),
            Some(TagValue::VecGpsData(items)) => fix_readings(items@, items@.len(), info, utc),
            _ => Seq::empty(),
        }
    }
}

pub open spec fn groups_readings(info: SampleInfo, gs: Seq<TagGroup>) -> Seq<GpsReading>
    decreases gs.len(),
{
    if gs.len() == 0 {
        Seq::empty()
    } else {
        groups_readings(info, gs.drop_last()) + group_readings(info, gs.last())
    }
}

pub open spec fn sample_readings(info: SampleInfo) -> Seq<GpsReading> {
    match info.tag_map {
        Some(gs) => groups_readings(info, gs@),
        None => Seq::empty(),
    }
}

pub open spec fn samples_readings(ss: Seq<SampleInfo>) -> Seq<GpsReading>
    decreases ss.len(),
{
    if ss.len() == 0 {
        Seq::empty()
    } else {
        samples_readings(ss.drop_last()) + sample_readings(ss.last())
    }
}

/// Every GPS reading of a clip, in payload order.
pub open spec fn gps_readings_spec(input: Input) -> Seq<GpsReading> {
    match input.samples {
        Some(ss) => samples_readings(ss@),
        None => Seq::empty(),
    }
}

/// Whether a description is "GPSU".
fn is_gpsu(d: &str) -> (r: bool)
    ensures
        r == (d@ == gpsu_name()),
{
    let cs = chars_of(d);
    let r = cs.len() == 4 && cs[0] == 'G' && cs[1] == 'P' && cs[2] == 'S' && cs[3] == 'U';
    proof {
        if cs@.len() == 4 && cs@[0] == 'G' && cs@[1] == 'P' && cs@[2] == 'S' && cs@[3] == 'U' {
            assert(d@ =~= gpsu_name());
        }
    }
    r
}

/// The GPSU time of a group.
fn group_gpsu_time(tags: &Vec<(TagId, TagDescription)>) -> (r: Option<u64>)
    ensures
        r == gpsu_time(tags@),
{
    let ghost f = |e: (TagId, TagDescription)|
        if e.1.description@ == gpsu_name() {
            Some(e.1.value)
        } else {
            None
        };
    let mut k: usize = 0;
    assert(tags@.take(0) =~= Seq::<(TagId, TagDescription)>::empty());
    while k < tags.len()
        invariant
            k <= tags@.len(),
            f == (|e: (TagId, TagDescription)|
                if e.1.description@ == gpsu_name() {
                    Some(e.1.value)
                } else {
                    None
                }),
            first_some(tags@.take(k as int), f) is None,
        decreases tags.len() - k,
    {
        proof {
            lemma_first_some_step(tags@, k as int, f);
        }
        if is_gpsu(tags[k].1.description.as_str()) {
            proof {
                lemma_first_some_prefix(tags@, k + 1, f);
            }
            return match &tags[k].1.value {
                TagValue::U64(t) => Some(*t),
                _ => None,
            };
        }
        k = k + 1;
    }
    assert(tags@.take(tags@.len() as int) =~= tags@);
    None
}

/// The index of the group's data tag.
fn data_index(tags: &Vec<(TagId, TagDescription)>) -> (r: Option<usize>)
    ensures
        match r {
            Some(k) => k < tags@.len() && data_entry(tags@) == Some(tags@[k as int].1.value),
            None => data_entry(tags@) is None,
        },
{
    let ghost f = |e: (TagId, TagDescription)|
        if e.0 == TagId::Data {
            Some(e.1.value)
        } else {
            None
        };
    let mut k: usize = 0;
    assert(tags@.take(0) =~= Seq::<(TagId, TagDescription)>::empty());
    while k < tags.len()
        invariant
            k <= tags@.len(),
            f == (|e: (TagId, TagDescription)|
                if e.0 == TagId::Data {
                    Some(e.1.value)
                } else {
                    None
                }),
            first_some(tags@.take(k as int), f) is None,
        decreases tags.len() - k,
    {
        proof {
            lemma_first_some_step(tags@, k as int, f);
        }
        let is_data = match tags[k].0 {
            TagId::Data => true,
            TagId::Other => false,
        };
        if is_data {
            proof {
                lemma_first_some_prefix(tags@, k + 1, f);
            }
            return Some(k);
        }
        k = k + 1;
    }
    assert(tags@.take(tags@.len() as int) =~= tags@);
    None
}

/// Appends the readings of one group to `out`.
fn push_group_readings(out: &mut Vec<GpsReading>, info: &SampleInfo, g: &TagGroup)
    ensures
        final(out)@ == old(out)@ + group_readings(*info, *g),
{
    let is_gps = match g.group {
        GroupId::Gps => true,
        GroupId::Other => false,
    };
    if !is_gps {
        assert(old(out)@ + Seq::<GpsReading>::empty() =~= old(out)@);
        return;
    }
    let utc = group_gpsu_time(&g.tags);
    let k = match data_index(&g.tags) {
        Some(k) => k,
        None => {
            assert(old(out)@ + Seq::<GpsReading>::empty() =~= old(out)@);
            return;
        },
    };
    let ghost start = out@;
    match &g.tags[k].1.value {
        TagValue::VecVecI32(rows) => {
            let n = rows.len();
            let mut i: usize = 0;
            assert(rows@.take(0) =~= Seq::<Vec<i32>>::empty());
            assert(start + Seq::<GpsReading>::empty() =~= start);
            while i < n
                invariant
                    n == rows@.len(),
                    i <= n,
                    out@ == start + row_readings(rows@.take(i as int), n as nat, *info, utc),
                decreases n - i,
            {
                let row = &rows[i];
                assert(rows@.take(i + 1).drop_last() =~= rows@.take(i as int));
                if row.len() >= 5 {
                    let reading = GpsReading {
                        source: GpsSource::Gps5 {
                            lat: row[0],
                            lon: row[1],
                            alt: row[2],
                            speed2d: row[3],
                            speed3d: row[4],
                        },
                        duration_ms: info.duration_ms,
                        payload_len: n,
                        utc_time: utc,
                        fix: info.gps_fix,
                        precision: info.gps_precision,
                    };
                    out.push(reading);
                    assert(reading == row_reading(row@, n as nat, *info, utc));
                    assert(out@ =~= start + row_readings(rows@.take(i + 1), n as nat, *info, utc));
                } else {
                    assert(out@ =~= start + row_readings(rows@.take(i + 1), n as nat, *info, utc));
                }
                i = i + 1;
            }
            assert(rows@.take(n as int) =~= rows@);
        },
        TagValue::VecGpsData(items) => {
            let n = items.len();
            let mut i: usize = 0;
            assert(start + fix_readings(items@.take(0), n as nat, *info, utc) =~= start);
            while i < n
                invariant
                    n == items@.len(),
                    i <= n,
                    out@ == start + fix_readings(items@.take(i as int), n as nat, *info, utc),
                decreases n - i,
            {
                let g = items[i];
                let reading = GpsReading {
                    source: GpsSource::Fix(g),
                    duration_ms: info.duration_ms,
                    payload_len: n,
                    utc_time: utc,
                    fix: if g.is_acquired {
                        info.gps_fix
                    } else {
                        0
                    },
                    precision: info.gps_precision,
                };
                out.push(reading);
                assert(out@ =~= start + fix_readings(items@.take(i + 1), n as nat, *info, utc));
                i = i + 1;
            }
            assert(items@.take(n as int) =~= items@);
        },
        _ => {
            assert(out@ =~= start + Seq::<GpsReading>::empty());
        },
    }
}

/// Every GPS reading of a clip: for each payload with a tag map, for each
/// GPS group, the usable entries of its data tag, in order (see
/// [`gps_readings_spec`]).
pub fn gps_readings(input: &Input) -> (r: Vec<GpsReading>)
    ensures
        r@ == gps_readings_spec(*input),
{
    let mut out: Vec<GpsReading> = Vec::new();
    let samples = match &input.samples {
        Some(s) => s,
        None => return out,
    };
    let mut i: usize = 0;
    assert(samples@.take(0) =~= Seq::<SampleInfo>::empty());
    while i < samples.len()
        invariant
            i <= samples@.len(),
            out@ == samples_readings(samples@.take(i as int)),
        decreases samples.len() - i,
    {
        let info = &samples[i];
        let ghost before = out@;
        if let Some(groups) = &info.tag_map {
            let mut j: usize = 0;
            assert(groups@.take(0) =~= Seq::<TagGroup>::empty());
            assert(before + Seq::<GpsReading>::empty() =~= before);
            while j < groups.len()
                invariant
                    j <= groups@.len(),
                    out@ == before + groups_readings(*info, groups@.take(j as int)),
                decreases groups.len() - j,
            {
                push_group_readings(&mut out, info, &groups[j]);
                assert(groups@.take(j + 1).drop_last() =~= groups@.take(j as int));
                assert(out@ =~= before + groups_readings(*info, groups@.take(j + 1)));
                j = j + 1;
            }
            assert(groups@.take(groups@.len() as int) =~= groups@);
        } else {
            assert(out@ =~= before + sample_readings(*info));
        }
        assert(samples@.take(i + 1).drop_last() =~= samples@.take(i as int));
        assert(out@ =~= samples_readings(samples@.take(i + 1)));
        i = i + 1;
    }
    assert(samples@.take(samples@.len() as int) =~= samples@);
    out
}



/// The rows of a GPS5 matrix that have at least five values, in order.
pub open spec fn long_rows(rows: Seq<Vec<i32>>) -> Seq<Vec<i32>> {
    rows.filter(|r: Vec<i32>| r@.len() >= 5)
}

proof fn lemma_row_readings(rows: Seq<Vec<i32>>, n: nat, info: SampleInfo, utc: Option<u64>)
    ensures
        row_readings(rows, n, info, utc).len() == long_rows(rows).len(),
        forall|k: int|
            0 <= k < long_rows(rows).len() ==> #[trigger] row_readings(rows, n, info, utc)[k]
                == (GpsReading {
                source: GpsSource::Gps5 {
                    lat: long_rows(rows)[k]@[0],
                    lon: long_rows(rows)[k]@[1],
                    alt: long_rows(rows)[k]@[2],
                    speed2d: long_rows(rows)[k]@[3],
                    speed3d: long_rows(rows)[k]@[4],
                },
                duration_ms: info.duration_ms,
                payload_len: n as usize,
                utc_time: utc,
                fix: info.gps_fix,
                precision: info.gps_precision,
            }),
        forall|k: int| 0 <= k < long_rows(rows).len() ==> (#[trigger] long_rows(rows)[k])@.len() >= 5,
    decreases rows.len(),
{
    if rows.len() > 0 {
        let pre = rows.drop_last();
        lemma_row_readings(pre, n, info, utc);
        let last = rows.last();
        reveal(Seq::filter);
        assert(long_rows(rows) == if last@.len() >= 5 {
            long_rows(pre).push(last)
        } else {
            long_rows(pre)
        });
        let a = row_readings(pre, n, info, utc);
        if last@.len() >= 5 {
            assert(row_readings(rows, n, info, utc) =~= a.push(row_reading(last@, n, info, utc)));
        } else {
            assert(row_readings(rows, n, info, utc) =~= a);
        }
    }
}

/// A GPS group whose data tag is a GPS5 matrix yields one reading per row
/// holding at least five values, whatever the signs of the values, in row
/// order: the k-th reading carries the k-th such row's latitude, longitude,
/// altitude, 2D and 3D speed, together with the payload's duration, the
/// matrix's row count, the group's GPSU time and the payload's fix and
/// precision.
pub proof fn law_gps5_group_readings(info: SampleInfo, g: TagGroup, rows: Vec<Vec<i32>>)
    requires
        g.group == GroupId::Gps,
        data_entry(g.tags@) == Some(TagValue::VecVecI32(rows)),
    ensures
        ({
            let rs = group_readings(info, g);
            let long = rows@.filter(|r: Vec<i32>| r@.len() >= 5);
            &&& rs.len() == long.len()
            &&& forall|k: int|
                0 <= k < rs.len() ==> #[trigger] rs[k] == (GpsReading {
                    source: GpsSource::Gps5 {
                        lat: long[k]@[0],
                        lon: long[k]@[1],
                        alt: long[k]@[2],
                        speed2d: long[k]@[3],
                        speed3d: long[k]@[4],
                    },
                    duration_ms: info.duration_ms,
                    payload_len: rows@.len() as usize,
                    utc_time: gpsu_time(g.tags@),
                    fix: info.gps_fix,
                    precision: info.gps_precision,
                })
        }),
{
    lemma_row_readings(rows@, rows@.len(), info, gpsu_time(g.tags@));
}

/// A GPS group whose data tag is a list of decoded fixes yields one reading
/// per fix, in order, carrying that fix; its fix state is the payload's when
/// the fix was acquired and 0 otherwise.
pub proof fn law_fix_group_readings(info: SampleInfo, g: TagGroup, items: Vec<GpsData>)
    requires
        g.group == GroupId::Gps,
        data_entry(g.tags@) == Some(TagValue::VecGpsData(items)),
    ensures
        ({
            let rs = group_readings(info, g);
            &&& rs.len() == items@.len()
            &&& forall|k: int|
                0 <= k < rs.len() ==> {
                    &&& (#[trigger] rs[k]).source == GpsSource::Fix(items@[k])
                    &&& rs[k].fix == if items@[k].is_acquired {
                        info.gps_fix
                    } else {
                        0
                    }
                    &&& rs[k].precision == info.gps_precision
                    &&& rs[k].payload_len == items@.len() as usize
                    &&& rs[k].duration_ms == info.duration_ms
                }
        }),
{
}

/// Groups other than the GPS group yield no readings.
pub proof fn law_non_gps_groups_are_ignored(info: SampleInfo, g: TagGroup)
    requires
        g.group != GroupId::Gps,
    ensures
        group_readings(info, g).len() == 0,
{
}


/// The data tag of a group is its first entry keyed `Data`; a group without
/// such an entry has none.
pub proof fn law_data_entry_is_first_data_tag(tags: Seq<(TagId, TagDescription)>, k: int)
    ensures
        0 <= k < tags.len() && tags[k].0 == TagId::Data && (forall|j: int|
            0 <= j < k ==> (#[trigger] tags[j]).0 != TagId::Data) ==> data_entry(tags) == Some(
            tags[k].1.value,
        ),
        (forall|j: int| 0 <= j < tags.len() ==> (#[trigger] tags[j]).0 != TagId::Data) ==> data_entry(
            tags,
        ) is None,
{
    let f = |e: (TagId, TagDescription)|
        if e.0 == TagId::Data {
            Some(e.1.value)
        } else {
            None
        };
    law_first_some_is_first_hit(tags, f);
    if 0 <= k < tags.len() && tags[k].0 == TagId::Data && (forall|j: int|
        0 <= j < k ==> (#[trigger] tags[j]).0 != TagId::Data) {
        assert(f(tags[k]) is Some);
        assert(forall|j: int| 0 <= j < k ==> (#[trigger] f(tags[j])) is None);
    }
    if forall|j: int| 0 <= j < tags.len() ==> (#[trigger] tags[j]).0 != TagId::Data {
        assert(forall|j: int| 0 <= j < tags.len() ==> (#[trigger] f(tags[j])) is None);
    }
}

/// The GPSU time of a group comes from its first tag described "GPSU", and
/// only when that tag holds a `u64`; a group without such a tag has none.
pub proof fn law_gpsu_time_is_first_gpsu_tag(tags: Seq<(TagId, TagDescription)>, k: int)
    ensures
        0 <= k < tags.len() && tags[k].1.description@ == seq!['G', 'P', 'S', 'U'] && (forall|j: int|
            0 <= j < k ==> (#[trigger] tags[j]).1.description@ != seq!['G', 'P', 'S', 'U'])
            ==> gpsu_time(tags) == match tags[k].1.value {
            TagValue::U64(t) => Some(t),
            _ => None,
        },
        (forall|j: int|
            0 <= j < tags.len() ==> (#[trigger] tags[j]).1.description@ != seq!['G', 'P', 'S', 'U'])
            ==> gpsu_time(tags) is None,
{
    let f = |e: (TagId, TagDescription)|
        if e.1.description@ == gpsu_name() {
            Some(e.1.value)
        } else {
            None
        };
    law_first_some_is_first_hit(tags, f);
    if 0 <= k < tags.len() && tags[k].1.description@ == seq!['G', 'P', 'S', 'U'] && (forall|j: int|
        0 <= j < k ==> (#[trigger] tags[j]).1.description@ != seq!['G', 'P', 'S', 'U']) {
        assert(f(tags[k]) is Some);
        assert(forall|j: int| 0 <= j < k ==> (#[trigger] f(tags[j])) is None);
    }
    if forall|j: int|
        0 <= j < tags.len() ==> (#[trigger] tags[j]).1.description@ != seq!['G', 'P', 'S', 'U'] {
        assert(forall|j: int| 0 <= j < tags.len() ==> (#[trigger] f(tags[j])) is None);
    }
}

/// The readings of a clip are the readings of its payloads one after the
/// other: splitting the payload list anywhere and reading each part gives
/// the same readings.
pub proof fn law_gps_readings_by_payload(a: Seq<SampleInfo>, b: Seq<SampleInfo>)
    ensures
        samples_readings(a + b) == samples_readings(a) + samples_readings(b),
    decreases b.len(),
{
    if b.len() == 0 {
        assert(a + b =~= a);
        assert(samples_readings(a) + samples_readings(b) =~= samples_readings(a));
    } else {
        law_gps_readings_by_payload(a, b.drop_last());
        assert((a + b).drop_last() =~= a + b.drop_last());
        assert(samples_readings(a + b) =~= samples_readings(a) + samples_readings(b));
    }
}

// ---------------------------------------------------------------------------
// Video info
// ---------------------------------------------------------------------------
/// Frame count and frame rate (as a fraction) of a clip.
#[derive(Clone, Copy, Debug, PartialEq)]
pub struct VideoInfoJson {
    pub frame_count: i32,
    pub fps_numerator: i32,
    pub fps_denominator: i32,
}

impl VideoInfoJson {
    /// The record for `frame_count` frames at `fps_numerator` (the rounded
    /// rate) over 1, or over 1001 for an NTSC-style fractional rate.
    pub fn from_rate(frame_count: usize, fps_numerator: i32, fractional_rate: bool) -> (r: Self)
        ensures
            r.frame_count == frame_count as i32,
            r.fps_numerator == fps_numerator,
            r.fps_denominator == if fractional_rate {
                1001i32
            } else {
                1i32
            },
    {
        let den: i32 = if fractional_rate {
            1001
        } else {
            1
        };
        VideoInfoJson {
            frame_count: frame_count as i32,
            fps_numerator: fps_numerator,
            fps_denominator: den,
        }
    }
}

} // verus!
