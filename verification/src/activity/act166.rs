use crate::activity::max_where;
use crate::text::filter_map;
use vstd::prelude::*;

verus! {

/// The season event's opening view: the event, its bases, trainings, lessons
/// and talents by id, each at its starting state.
#[derive(Clone, Debug, PartialEq, Eq)]
pub struct Act166Infos {
    pub activity_id: i32,
    pub base_ids: Vec<i32>,
    pub train_ids: Vec<i32>,
    pub teach_ids: Vec<i32>,
    pub talent_ids: Vec<i32>,
}

/// The ids of the rows `(activity, id)` of one event, in table order.
pub open spec fn ids_of(rows: Seq<(i32, i32)>, activity_id: i32) -> Seq<i32> {
    filter_map(rows, row_id_fn(activity_id))
}

/// A row `(event, id)` read as its id when it belongs to `activity_id`.
pub open spec fn row_id_fn(activity_id: i32) -> spec_fn((i32, i32)) -> Option<i32> {
    |r: (i32, i32)| if r.0 == activity_id { Some(r.1) } else { None }
}

/// The event shown when none is named: the largest event id of the base
/// table, `0` when it is empty.
pub open spec fn default_act166_spec(bases: Seq<(i32, i32)>) -> i32 {
    match max_where(bases.map_values(|r: (i32, i32)| r.0), |i: i32| true) {
        Some(b) => b,
        None => 0,
    }
}

fn ids_for(rows: &[(i32, i32)], activity_id: i32) -> (out: Vec<i32>)
    ensures
        out@ == ids_of(rows@, activity_id),
{
    let ghost f = row_id_fn(activity_id);
    let mut out: Vec<i32> = Vec::new();
    let mut i: usize = 0;
    while i < rows.len()
        invariant
            i <= rows@.len(),
            f == row_id_fn(activity_id),
            out@ == filter_map(rows@.take(i as int), f),
        decreases rows.len() - i,
    {
        assert(rows@.take(i + 1).drop_last() =~= rows@.take(i as int));
        if rows[i].0 == activity_id {
            out.push(rows[i].1);
        }
        i = i + 1;
    }
    assert(rows@.take(rows@.len() as int) =~= rows@);
    out
}

/// The event shown when none is named; see `default_act166_spec`.
pub fn default_act166_activity_id(bases: &[(i32, i32)]) -> (res: i32)
    ensures
        res == default_act166_spec(bases@),
{
    let ghost ids = bases@.map_values(|r: (i32, i32)| r.0);
    let ghost p = |i: i32| true;
    let mut best: Option<i32> = None;
    let mut k: usize = 0;
    while k < bases.len()
        invariant
            k <= bases@.len(),
            ids == bases@.map_values(|r: (i32, i32)| r.0),
            p == (|i: i32| true),
            best == max_where(ids.take(k as int), p),
        decreases bases.len() - k,
    {
        assert(ids.take(k + 1).drop_last() =~= ids.take(k as int));
        assert(ids.take(k + 1).last() == bases@[k as int].0);
        let id = bases[k].0;
        best = match best {
            Some(b) => if id > b { Some(id) } else { Some(b) },
            None => Some(id),
        };
        k = k + 1;
    }
    assert(ids.take(bases@.len() as int) =~= ids);
    match best {
        Some(b) => b,
        None => 0,
    }
}

/// The opening view of event `activity_id` (the default event when none is
/// named): the bases, trainings and talents of that event and every lesson,
/// in table order. `bases`, `trains` and `talents` hold `(event, id)` rows.
pub fn act166_infos(
    activity_id: Option<i32>,
    bases: &[(i32, i32)],
    trains: &[(i32, i32)],
    teaches: &[i32],
    talents: &[(i32, i32)],
) -> (res: Act166Infos)
    ensures
        res.activity_id == match activity_id {
            Some(a) => a,
            None => default_act166_spec(bases@),
        },
        res.base_ids@ == ids_of(bases@, res.activity_id),
        res.train_ids@ == ids_of(trains@, res.activity_id),
        res.teach_ids@ == teaches@,
        res.talent_ids@ == ids_of(talents@, res.activity_id),
{
    let activity_id = match activity_id {
        Some(a) => a,
        None => default_act166_activity_id(bases),
    };
    let mut teach_ids: Vec<i32> = Vec::new();
    let mut i: usize = 0;
    while i < teaches.len()
        invariant
            i <= teaches@.len(),
            teach_ids@ == teaches@.take(i as int),
        decreases teaches.len() - i,
    {
        teach_ids.push(teaches[i]);
        i = i + 1;
        assert(teach_ids@ =~= teaches@.take(i as int));
    }
    assert(teaches@.take(teaches@.len() as int) =~= teaches@);
    Act166Infos {
        activity_id,
        base_ids: ids_for(bases, activity_id),
        train_ids: ids_for(trains, activity_id),
        teach_ids,
        talent_ids: ids_for(talents, activity_id),
    }
}

} // verus!
