use crate::clock::{parse_utc_millis, squeeze, squeeze_spaces, utc_millis_of};
use crate::text::{chars_of, find_map, lemma_find_map_prefix};
use vstd::prelude::*;

pub mod act104;
pub mod act123;
pub mod act136;
pub mod act146;
pub mod act152;
pub mod act154;
pub mod act158;
pub mod act160;
pub mod act165;
pub mod act166;
pub mod act172;
pub mod act189;
pub mod act196;
pub mod act186;
pub mod act197;
pub mod act198;
pub mod act199;
pub mod act205;
pub mod act206;
pub mod act208;
pub mod act209;
pub mod act212;
pub mod act216;
pub mod act217;
pub mod act218;
pub mod act221;
pub mod act228;
pub mod act229;
pub mod catalog;
pub mod dice_hero;
pub mod weights;

verus! {

/// The end time given to events that never close, in milliseconds.
pub const PERMANENT_END_MS: u64 = 2_145_934_800_000;

/// The format of the version window's times.
pub open spec fn config_time_format() -> Seq<char> {
    "%Y-%m-%d %H:%M:%S"@
}

/// The same format with an unpadded hour.
pub open spec fn config_time_format_short_hour() -> Seq<char> {
    "%Y-%m-%d %-H:%M:%S"@
}

/// A version-window time: the text with its white space squeezed to single
/// spaces, read as UTC in either format; `None` when it does not parse or lies
/// before the epoch.
pub open spec fn config_time_spec(value: Seq<char>) -> Option<u64> {
    let text = squeeze_spaces(value);
    let parsed = match utc_millis_of(text, config_time_format()) {
        Some(ms) => Some(ms),
        None => utc_millis_of(text, config_time_format_short_hour()),
    };
    match parsed {
        Some(ms) => if ms >= 0 {
            Some(ms as u64)
        } else {
            None
        },
        None => None,
    }
}

/// Reads a version-window time; see `config_time_spec`.
pub fn parse_config_time_millis(value: &str) -> (res: Option<u64>)
    ensures
        res == config_time_spec(value@),
{
    let chars = chars_of(value);
    let text = squeeze(chars.as_slice());
    proof {
        reveal_strlit("%Y-%m-%d %H:%M:%S");
        reveal_strlit("%Y-%m-%d %-H:%M:%S");
    }
    let parsed = match parse_utc_millis(text.as_slice(), "%Y-%m-%d %H:%M:%S") {
        Some(ms) => Some(ms),
        None => parse_utc_millis(text.as_slice(), "%Y-%m-%d %-H:%M:%S"),
    };
    match parsed {
        Some(ms) => if ms >= 0 {
            Some(ms as u64)
        } else {
            None
        },
        None => None,
    }
}

/// The version window: both ends readable and the start before the end.
pub open spec fn version_range_spec(start: Option<Seq<char>>, end: Option<Seq<char>>) -> Option<(u64, u64)> {
    let s = match start {
        Some(t) => config_time_spec(t),
        None => None,
    };
    let e = match end {
        Some(t) => config_time_spec(t),
        None => None,
    };
    match (s, e) {
        (Some(a), Some(b)) => if a < b {
            Some((a, b))
        } else {
            None
        },
        _ => None,
    }
}

/// The window in which the current version's events run, from the start and
/// end entries of the version table (`None` when an entry is missing).
pub fn version_activity_time_range(start_value: Option<&str>, end_value: Option<&str>) -> (res: Option<(u64, u64)>)
    ensures
        res == version_range_spec(
            match start_value {
                Some(t) => Some(t@),
                None => None,
            },
            match end_value {
                Some(t) => Some(t@),
                None => None,
            },
        ),
{
    let start = match start_value {
        Some(t) => parse_config_time_millis(t),
        None => None,
    };
    let end = match end_value {
        Some(t) => parse_config_time_millis(t),
        None => None,
    };
    match (start, end) {
        (Some(a), Some(b)) => if a < b {
            Some((a, b))
        } else {
            None
        },
        _ => None,
    }
}

/// One row of the event table.
#[derive(Clone, Copy, Debug)]
pub struct ActivityRow {
    pub id: i32,
    pub type_id: i32,
    pub open_id: i32,
    pub is_retro_acitivity: i32,
}

/// One row of the feature-switch table.
#[derive(Clone, Copy, Debug)]
pub struct OpenRow {
    pub id: i32,
    pub is_online: i32,
}

/// The row of `id`, if the table has one (the first such row).
pub open spec fn activity_row(rows: Seq<ActivityRow>, id: i32) -> Option<ActivityRow> {
    find_map(rows, activity_row_fn(id))
}

/// A row, when it is the row of `id`.
pub open spec fn activity_row_fn(id: i32) -> spec_fn(ActivityRow) -> Option<ActivityRow> {
    |r: ActivityRow| if r.id == id { Some(r) } else { None }
}

/// The row of `id`, if the switch table has one (the first such row).
pub open spec fn open_row(rows: Seq<OpenRow>, id: i32) -> Option<OpenRow> {
    find_map(rows, open_row_fn(id))
}

/// A row, when it is the row of `id`.
pub open spec fn open_row_fn(id: i32) -> spec_fn(OpenRow) -> Option<OpenRow> {
    |r: OpenRow| if r.id == id { Some(r) } else { None }
}

pub(crate) fn find_activity(rows: &[ActivityRow], id: i32) -> (res: Option<ActivityRow>)
    ensures
        res == activity_row(rows@, id),
{
    let ghost f = activity_row_fn(id);
    let mut i: usize = 0;
    while i < rows.len()
        invariant
            i <= rows@.len(),
            f == activity_row_fn(id),
            find_map(rows@.take(i as int), f) is None,
        decreases rows.len() - i,
    {
        assert(rows@.take(i + 1).drop_last() =~= rows@.take(i as int));
        if rows[i].id == id {
            proof {
                lemma_find_map_prefix(rows@, f, i + 1);
            }
            return Some(rows[i]);
        }
        i = i + 1;
    }
    assert(rows@.take(rows@.len() as int) =~= rows@);
    None
}

/// A feature switch is on: switch `0` always is, any other when its row says so.
pub open spec fn is_open_spec(opens: Seq<OpenRow>, open_id: i32) -> bool {
    open_id == 0 || match open_row(opens, open_id) {
        Some(r) => r.is_online != 0,
        None => false,
    }
}

/// Whether the feature switch `open_id` is on.
pub fn is_open(opens: &[OpenRow], open_id: i32) -> (res: bool)
    ensures
        res == is_open_spec(opens@, open_id),
{
    if open_id == 0 {
        return true;
    }
    let ghost f = open_row_fn(open_id);
    let mut i: usize = 0;
    while i < opens.len()
        invariant
            i <= opens@.len(),
            open_id != 0,
            f == open_row_fn(open_id),
            find_map(opens@.take(i as int), f) is None,
        decreases opens.len() - i,
    {
        assert(opens@.take(i + 1).drop_last() =~= opens@.take(i as int));
        if opens[i].id == open_id {
            proof {
                lemma_find_map_prefix(opens@, f, i + 1);
            }
            return opens[i].is_online != 0;
        }
        i = i + 1;
    }
    assert(opens@.take(opens@.len() as int) =~= opens@);
    false
}

/// The event `id` is in the table and its switch is on.
pub open spec fn activity_open_spec(activities: Seq<ActivityRow>, opens: Seq<OpenRow>, id: i32) -> bool {
    match activity_row(activities, id) {
        Some(r) => is_open_spec(opens, r.open_id),
        None => false,
    }
}

fn activity_open(activities: &[ActivityRow], opens: &[OpenRow], id: i32) -> (res: bool)
    ensures
        res == activity_open_spec(activities@, opens@, id),
{
    match find_activity(activities, id) {
        Some(r) => is_open(opens, r.open_id),
        None => false,
    }
}

/// The largest of `ids` that satisfies `p`, if any.
pub open spec fn max_where(ids: Seq<i32>, p: spec_fn(i32) -> bool) -> Option<i32>
    decreases ids.len(),
{
    if ids.len() == 0 {
        None
    } else {
        let front = max_where(ids.drop_last(), p);
        let x = ids.last();
        if p(x) {
            match front {
                Some(b) => if x > b {
                    Some(x)
                } else {
                    Some(b)
                },
                None => Some(x),
            }
        } else {
            front
        }
    }
}

/// The id to use for an event type whose tables list the ids `ids`: the
/// largest positive id that is open; else the largest positive id; else
/// `fallback`.
pub open spec fn latest_id_spec(ids: Seq<i32>, activities: Seq<ActivityRow>, opens: Seq<OpenRow>, fallback: i32) -> i32 {
    match max_where(ids, |i: i32| i > 0 && activity_open_spec(activities, opens, i)) {
        Some(b) => b,
        None => match max_where(ids, |i: i32| i > 0) {
            Some(b) => b,
            None => fallback,
        },
    }
}

/// The latest event id among `ids`; see `latest_id_spec`.
pub fn latest_config_activity_id(ids: &[i32], activities: &[ActivityRow], opens: &[OpenRow], fallback: i32) -> (res: i32)
    ensures
        res == latest_id_spec(ids@, activities@, opens@, fallback),
{
    let ghost po = |i: i32| i > 0 && activity_open_spec(activities@, opens@, i);
    let ghost pp = |i: i32| i > 0;
    let mut best_open: Option<i32> = None;
    let mut best_any: Option<i32> = None;
    let mut k: usize = 0;
    while k < ids.len()
        invariant
            k <= ids@.len(),
            po == (|i: i32| i > 0 && activity_open_spec(activities@, opens@, i)),
            pp == (|i: i32| i > 0),
            best_open == max_where(ids@.take(k as int), po),
            best_any == max_where(ids@.take(k as int), pp),
        decreases ids.len() - k,
    {
        let id = ids[k];
        assert(ids@.take(k + 1).drop_last() =~= ids@.take(k as int));
        if id > 0 {
            best_any = match best_any {
                Some(b) => if id > b { Some(id) } else { Some(b) },
                None => Some(id),
            };
            if activity_open(activities, opens, id) {
                best_open = match best_open {
                    Some(b) => if id > b { Some(id) } else { Some(b) },
                    None => Some(id),
                };
            }
        }
        k = k + 1;
    }
    assert(ids@.take(ids@.len() as int) =~= ids@);
    match best_open {
        Some(b) => b,
        None => match best_any {
            Some(b) => b,
            None => fallback,
        },
    }
}

/// An event of the limited-time-shop kind (type `125`) whose switch is on.
pub open spec fn act125_open_spec(activities: Seq<ActivityRow>, opens: Seq<OpenRow>, id: i32) -> bool {
    match activity_row(activities, id) {
        Some(r) => r.type_id == 125 && is_open_spec(opens, r.open_id),
        None => false,
    }
}

/// The first of `candidates` that is an open type-`125` event; else `fallback`.
pub open spec fn default_act125_spec(candidates: Seq<i32>, activities: Seq<ActivityRow>, opens: Seq<OpenRow>, fallback: i32) -> i32 {
    match find_map(candidates, |i: i32| if act125_open_spec(activities, opens, i) { Some(i) } else { None }) {
        Some(i) => i,
        None => fallback,
    }
}

/// The shop event to show by default: the first of the shop event ids
/// `candidates` that is configured as a type-`125` event and open, else
/// `fallback`.
pub fn default_act125_activity_id(candidates: &[i32], activities: &[ActivityRow], opens: &[OpenRow], fallback: i32) -> (res: i32)
    ensures
        res == default_act125_spec(candidates@, activities@, opens@, fallback),
{
    let ghost f = |i: i32| if act125_open_spec(activities@, opens@, i) { Some(i) } else { None };
    let mut k: usize = 0;
    while k < candidates.len()
        invariant
            k <= candidates@.len(),
            f == (|i: i32| if act125_open_spec(activities@, opens@, i) { Some(i) } else { None }),
            find_map(candidates@.take(k as int), f) is None,
        decreases candidates.len() - k,
    {
        assert(candidates@.take(k + 1).drop_last() =~= candidates@.take(k as int));
        let id = candidates[k];
        let open = match find_activity(activities, id) {
            Some(r) => r.type_id == 125 && is_open(opens, r.open_id),
            None => false,
        };
        if open {
            proof {
                lemma_find_map_prefix(candidates@, f, k + 1);
            }
            return id;
        }
        k = k + 1;
    }
    assert(candidates@.take(candidates@.len() as int) =~= candidates@);
    fallback
}

/// Events that are not permanent reruns (retro type `2`) start unlocked, and so
/// do ids the table does not know.
pub open spec fn unlocked_by_default_spec(activities: Seq<ActivityRow>, activity_id: i32) -> bool {
    match activity_row(activities, activity_id) {
        Some(r) => r.is_retro_acitivity != 2,
        None => true,
    }
}

/// Whether an event starts unlocked; see `unlocked_by_default_spec`.
pub fn is_unlocked_by_default(activities: &[ActivityRow], activity_id: i32) -> (res: bool)
    ensures
        res == unlocked_by_default_spec(activities@, activity_id),
{
    match find_activity(activities, activity_id) {
        Some(r) => r.is_retro_acitivity != 2,
        None => true,
    }
}

/// When an event runs: a permanent rerun always; any other within the version
/// window `version_range`, or always when there is no window.
pub open spec fn time_range_spec(activities: Seq<ActivityRow>, activity_id: i32, version_range: Option<(u64, u64)>) -> (u64, u64) {
    if (match activity_row(activities, activity_id) {
        Some(r) => r.is_retro_acitivity == 2,
        None => false,
    }) {
        (0u64, PERMANENT_END_MS)
    } else {
        match version_range {
            Some(w) => w,
            None => (0u64, PERMANENT_END_MS),
        }
    }
}

/// When an event runs; see `time_range_spec`.
pub fn activity_time_range(activities: &[ActivityRow], activity_id: i32, version_range: Option<(u64, u64)>) -> (res: (u64, u64))
    ensures
        res == time_range_spec(activities@, activity_id, version_range),
{
    let permanent = match find_activity(activities, activity_id) {
        Some(r) => r.is_retro_acitivity == 2,
        None => false,
    };
    if permanent {
        return (0, PERMANENT_END_MS);
    }
    match version_range {
        Some(w) => w,
        None => (0, PERMANENT_END_MS),
    }
}

/// The stored state of entry `id` among the stored `(entry, state)` pairs
/// (the first pair for it).
pub open spec fn state_of(states: Seq<(i32, i32)>, id: i32) -> Option<i32> {
    find_map(states, state_fn(id))
}

/// A stored pair read as its state, when it is entry `id`'s.
pub open spec fn state_fn(id: i32) -> spec_fn((i32, i32)) -> Option<i32> {
    |p: (i32, i32)| if p.0 == id { Some(p.1) } else { None }
}

/// The stored state of entry `id`; see `state_of`.
pub fn lookup_state(states: &[(i32, i32)], id: i32) -> (res: Option<i32>)
    ensures
        res == state_of(states@, id),
{
    let ghost f = state_fn(id);
    let mut i: usize = 0;
    while i < states.len()
        invariant
            i <= states@.len(),
            f == state_fn(id),
            find_map(states@.take(i as int), f) is None,
        decreases states.len() - i,
    {
        assert(states@.take(i + 1).drop_last() =~= states@.take(i as int));
        if states[i].0 == id {
            proof {
                lemma_find_map_prefix(states@, f, i + 1);
            }
            return Some(states[i].1);
        }
        i = i + 1;
    }
    assert(states@.take(states@.len() as int) =~= states@);
    None
}

} // verus!
