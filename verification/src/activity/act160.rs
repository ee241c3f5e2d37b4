use crate::error::LogicError;
use crate::activity::{latest_config_activity_id, latest_id_spec, lookup_state, state_of, ActivityRow, OpenRow};
use crate::sorting::{sort_by_pair_key, sorted_by_pair};
use crate::text::{filter_map, find_map, lemma_find_map_prefix};
use vstd::prelude::*;

verus! {

/// One mission of the mission-chain event.
#[derive(Clone, Copy, Debug)]
pub struct Act160MissionRow {
    pub id: i32,
    pub activity_id: i32,
    pub pre_id: i32,
    /// Where the mission stands in the event's list.
    pub sort: i32,
}

/// The row of mission `id` (the first such row).
pub open spec fn mission_row(rows: Seq<Act160MissionRow>, id: i32) -> Option<Act160MissionRow> {
    find_map(rows, mission_row_fn(id))
}

/// A row, when it is the row of `id`.
pub open spec fn mission_row_fn(id: i32) -> spec_fn(Act160MissionRow) -> Option<Act160MissionRow> {
    |r: Act160MissionRow| if r.id == id { Some(r) } else { None }
}

/// The missions of the event that follow `id`, in table order, as opened (state `1`).
pub open spec fn opened_after(rows: Seq<Act160MissionRow>, activity_id: i32, id: i32) -> Seq<(i32, i32)> {
    filter_map(rows, |r: Act160MissionRow| if r.activity_id == activity_id && r.pre_id == id { Some((r.id, 1i32)) } else { None })
}

/// The new states when mission `id` of `activity_id` (stored state `stored`)
/// is finished; see `finish_act160_mission`.
fn mission_updates(rows: &[Act160MissionRow], activity_id: i32, id: i32, stored: Option<i32>) -> (res: Result<Vec<(i32, i32)>, LogicError>)
    ensures
        ({
            let ok = match mission_row(rows@, id) {
                Some(r) => r.activity_id == activity_id,
                None => false,
            } && stored == Some(1i32);
            if ok {
                res is Ok && res->Ok_0@ == seq![(id, 2i32)] + opened_after(rows@, activity_id, id)
            } else {
                res == Err::<Vec<(i32, i32)>, LogicError>(LogicError::InvalidRequest)
            }
        }),
{
    let ghost f = mission_row_fn(id);
    let mut i: usize = 0;
    let mut found: Option<Act160MissionRow> = None;
    assert(rows@.take(rows@.len() as int) =~= rows@);
    while i < rows.len()
        invariant_except_break
            found is None,
        invariant
            i <= rows@.len(),
            f == mission_row_fn(id),
            find_map(rows@.take(i as int), f) is None,
            rows@.take(rows@.len() as int) == rows@,
        ensures
            found == mission_row(rows@, id),
        decreases rows.len() - i,
    {
        assert(rows@.take(i + 1).drop_last() =~= rows@.take(i as int));
        if rows[i].id == id {
            proof {
                lemma_find_map_prefix(rows@, f, i + 1);
            }
            found = Some(rows[i]);
            break;
        }
        i = i + 1;
    }
    match found {
        Some(r) => {
            if r.activity_id != activity_id {
                return Err(LogicError::InvalidRequest);
            }
        },
        None => {
            return Err(LogicError::InvalidRequest);
        },
    }
    if stored != Some(1) {
        return Err(LogicError::InvalidRequest);
    }
    let ghost g = |r: Act160MissionRow| if r.activity_id == activity_id && r.pre_id == id { Some((r.id, 1i32)) } else { None };
    let mut updates: Vec<(i32, i32)> = Vec::new();
    updates.push((id, 2));
    let mut k: usize = 0;
    while k < rows.len()
        invariant
            k <= rows@.len(),
            g == (|r: Act160MissionRow| if r.activity_id == activity_id && r.pre_id == id { Some((r.id, 1i32)) } else { None }),
            updates@ == seq![(id, 2i32)] + filter_map(rows@.take(k as int), g),
        decreases rows.len() - k,
    {
        assert(rows@.take(k + 1).drop_last() =~= rows@.take(k as int));
        let r = rows[k];
        if r.activity_id == activity_id && r.pre_id == id {
            updates.push((r.id, 1));
            assert(updates@ =~= seq![(id, 2i32)] + filter_map(rows@.take(k + 1), g));
        }
        k = k + 1;
    }
    assert(rows@.take(rows@.len() as int) =~= rows@);
    Ok(updates)
}

/// What finishing a mission answers and stores.
#[derive(Clone, Debug)]
pub struct Act160Finish {
    pub activity_id: i32,
    /// The first new state, shown in the reply.
    pub act160_info: Option<(i32, i32)>,
    /// The reply never asks to read the mail.
    pub is_read_mail: Option<bool>,
    /// The new `(mission, state)` entries, in order.
    pub updates: Vec<(i32, i32)>,
}

/// The player finishes mission `id` of `activity_id`, whose stored state is
/// `stored` (`None` when nothing is stored). Refused without a mission id, or
/// unless the mission belongs to the event and stands ready (state `1`).
/// Otherwise the new states are the mission done (`2`), then each mission that
/// follows it opened (`1`); the reply shows the first of them and no mail to
/// read; the mission's bonus is granted.
pub fn finish_act160_mission(rows: &[Act160MissionRow], activity_id: i32, id: Option<i32>, stored: Option<i32>) -> (res: Result<
    Act160Finish,
    LogicError,
>)
    ensures
        match id {
            None => res == Err::<Act160Finish, LogicError>(LogicError::InvalidRequest),
            Some(m) => {
                let ok = match mission_row(rows@, m) {
                    Some(r) => r.activity_id == activity_id,
                    None => false,
                } && stored == Some(1i32);
                if ok {
                    res matches Ok(f) && f.activity_id == activity_id && f.updates@ == seq![(m, 2i32)] + opened_after(
                        rows@,
                        activity_id,
                        m,
                    ) && f.act160_info == Some(f.updates@[0]) && f.is_read_mail == Some(false)
                } else {
                    res == Err::<Act160Finish, LogicError>(LogicError::InvalidRequest)
                }
            },
        },
{
    let m = match id {
        Some(m) => m,
        None => {
            return Err(LogicError::InvalidRequest);
        },
    };
    let updates = match mission_updates(rows, activity_id, m, stored) {
        Ok(u) => u,
        Err(e) => {
            return Err(e);
        },
    };
    let first = updates[0];
    Ok(Act160Finish { activity_id, act160_info: Some(first), is_read_mail: Some(false), updates })
}

/// The event ids of the mission table, in table order.
pub open spec fn mission_ids(rows: Seq<Act160MissionRow>) -> Seq<i32> {
    rows.map_values(|r: Act160MissionRow| r.activity_id)
}

/// The event a request names: the one asked for, else the latest in the
/// mission table (see `latest_id_spec`, with `fallback` when it has none).
pub fn act160_activity_id(
    activity_id: Option<i32>,
    rows: &[Act160MissionRow],
    activities: &[ActivityRow],
    opens: &[OpenRow],
    fallback: i32,
) -> (res: i32)
    ensures
        res == match activity_id {
            Some(a) => a,
            None => latest_id_spec(mission_ids(rows@), activities@, opens@, fallback),
        },
{
    if let Some(a) = activity_id {
        return a;
    }
    let mut ids: Vec<i32> = Vec::new();
    let mut i: usize = 0;
    while i < rows.len()
        invariant
            i <= rows@.len(),
            ids@ == mission_ids(rows@.take(i as int)),
        decreases rows.len() - i,
    {
        ids.push(rows[i].activity_id);
        i = i + 1;
        assert(ids@ =~= mission_ids(rows@.take(i as int)));
    }
    assert(rows@.take(rows@.len() as int) =~= rows@);
    latest_config_activity_id(ids.as_slice(), activities, opens, fallback)
}

/// The missions of event `activity_id` in table order, keyed by `(sort, id)`,
/// each with its stored state (`0` when none is stored).
pub open spec fn mission_entries(rows: Seq<Act160MissionRow>, activity_id: i32, states: Seq<(i32, i32)>) -> Seq<((i32, i32), (i32, i32))> {
    filter_map(rows, mission_entry_fn(activity_id, states))
}

/// A row as an entry, when it belongs to event `activity_id`.
pub open spec fn mission_entry_fn(activity_id: i32, states: Seq<(i32, i32)>) -> spec_fn(Act160MissionRow) -> Option<((i32, i32), (i32, i32))> {
    |r: Act160MissionRow|
        if r.activity_id == activity_id {
            Some(
                (
                    (r.sort, r.id),
                    (
                        r.id,
                        match state_of(states, r.id) {
                            Some(s) => s,
                            None => 0i32,
                        },
                    ),
                ),
            )
        } else {
            None
        }
}

/// The event's missions as `(id, state)`, ordered by `(sort, id)`: the
/// entries of `mission_entries`, each once, in that order; `states` holds the
/// stored `(mission, state)` pairs.
pub fn act160_get_info(activity_id: i32, rows: &[Act160MissionRow], states: &[(i32, i32)]) -> (res: Vec<((i32, i32), (i32, i32))>)
    ensures
        sorted_by_pair(res@),
        res@.to_multiset() == mission_entries(rows@, activity_id, states@).to_multiset(),
{
    let ghost f = mission_entry_fn(activity_id, states@);
    let mut entries: Vec<((i32, i32), (i32, i32))> = Vec::new();
    let mut i: usize = 0;
    while i < rows.len()
        invariant
            i <= rows@.len(),
            f == mission_entry_fn(activity_id, states@),
            entries@ == filter_map(rows@.take(i as int), f),
        decreases rows.len() - i,
    {
        assert(rows@.take(i + 1).drop_last() =~= rows@.take(i as int));
        let r = rows[i];
        if r.activity_id == activity_id {
            let state = match lookup_state(states, r.id) {
                Some(s) => s,
                None => 0,
            };
            entries.push(((r.sort, r.id), (r.id, state)));
        }
        i = i + 1;
    }
    assert(rows@.take(rows@.len() as int) =~= rows@);
    sort_by_pair_key(entries)
}

} // verus!
