use crate::activity::act123::max_or_zero;
use crate::activity::{lookup_state, state_of};
use crate::error::LogicError;
use crate::text::{find_map, lemma_find_map_prefix};
use vstd::prelude::*;

verus! {

/// One bonus of the check-in event table.
#[derive(Clone, Debug)]
pub struct Activity208BonusRow {
    pub id: i32,
    pub activity_id: i32,
    pub bonus: String,
}

/// The event ids of the table, in table order.
pub open spec fn row_ids(rows: Seq<Activity208BonusRow>) -> Seq<i32> {
    rows.map_values(|r: Activity208BonusRow| r.activity_id)
}

/// The event asked for, else the largest in the table (`0` for an empty table).
pub open spec fn act208_id(activity_id: Option<i32>, rows: Seq<Activity208BonusRow>) -> i32 {
    match activity_id {
        Some(a) => a,
        None => max_or_zero(row_ids(rows)),
    }
}

/// The event a request names; see `act208_id`.
pub fn act208_activity_id(activity_id: Option<i32>, rows: &[Activity208BonusRow]) -> (res: i32)
    ensures
        res == act208_id(activity_id, rows@),
{
    if let Some(a) = activity_id {
        return a;
    }
    if rows.len() == 0 {
        return 0;
    }
    let ghost ids = row_ids(rows@);
    let mut best = rows[0].activity_id;
    assert(ids.take(1) =~= seq![ids[0]]);
    let mut i: usize = 1;
    while i < rows.len()
        invariant
            1 <= i <= rows@.len(),
            ids == row_ids(rows@),
            best == max_or_zero(ids.take(i as int)),
        decreases rows.len() - i,
    {
        assert(ids.take(i + 1).drop_last() =~= ids.take(i as int));
        assert(ids.take(i + 1).last() == rows@[i as int].activity_id);
        if rows[i].activity_id > best {
            best = rows[i].activity_id;
        }
        i = i + 1;
    }
    assert(ids.take(rows@.len() as int) =~= ids);
    best
}

/// The bonuses of event `activity_id` with their stored state (`0` when none
/// is stored), in table order.
pub open spec fn bonus_states(rows: Seq<Activity208BonusRow>, activity_id: i32, states: Seq<(i32, i32)>) -> Seq<(i32, i32)>
    decreases rows.len(),
{
    if rows.len() == 0 {
        Seq::empty()
    } else {
        let front = bonus_states(rows.drop_last(), activity_id, states);
        let r = rows.last();
        if r.activity_id == activity_id {
            front.push(
                (
                    r.id,
                    match state_of(states, r.id) {
                        Some(s) => s,
                        None => 0,
                    },
                ),
            )
        } else {
            front
        }
    }
}

/// The event's view: the event (see `act208_id`) and its bonuses with their
/// states; `states` holds the stored `(bonus, state)` pairs of that event.
pub fn act208_info(activity_id: Option<i32>, rows: &[Activity208BonusRow], states: &[(i32, i32)]) -> (res: (i32, Vec<(i32, i32)>))
    ensures
        res.0 == act208_id(activity_id, rows@),
        res.1@ == bonus_states(rows@, res.0, states@),
{
    let id = act208_activity_id(activity_id, rows);
    let mut out: Vec<(i32, i32)> = Vec::new();
    let mut i: usize = 0;
    while i < rows.len()
        invariant
            i <= rows@.len(),
            out@ == bonus_states(rows@.take(i as int), id, states@),
        decreases rows.len() - i,
    {
        assert(rows@.take(i + 1).drop_last() =~= rows@.take(i as int));
        if rows[i].activity_id == id {
            let status = match lookup_state(states, rows[i].id) {
                Some(s) => s,
                None => 0,
            };
            out.push((rows[i].id, status));
        }
        i = i + 1;
    }
    assert(rows@.take(rows@.len() as int) =~= rows@);
    (id, out)
}

/// The bonus row with id `id` (the first such).
pub open spec fn bonus_row(rows: Seq<Activity208BonusRow>, id: i32) -> Option<Activity208BonusRow> {
    find_map(rows, bonus_fn(id))
}

/// A row, when its id is `id`.
pub open spec fn bonus_fn(id: i32) -> spec_fn(Activity208BonusRow) -> Option<Activity208BonusRow> {
    |r: Activity208BonusRow| if r.id == id { Some(r) } else { None }
}

/// A bonus taken: the event, the bonus and what it grants.
#[derive(Clone, Debug, PartialEq, Eq)]
pub struct Act208Claim {
    pub activity_id: i32,
    pub id: i32,
    pub bonus: String,
}

/// Takes bonus `id` of event `activity_id`: refused without an event or an
/// id, when the table's row `id` is missing or belongs to another event, and
/// unless its stored state is `1` (ready); else granted (the caller then
/// stores state `2`).
pub fn receive_act208_bonus(
    activity_id: Option<i32>,
    id: Option<i32>,
    rows: &[Activity208BonusRow],
    stored_state: Option<i32>,
) -> (res: Result<Act208Claim, LogicError>)
    ensures
        match (activity_id, id) {
            (Some(a), Some(b)) => match bonus_row(rows@, b) {
                Some(r) => if r.activity_id == a && stored_state == Some(1i32) {
                    res == Ok::<Act208Claim, LogicError>(Act208Claim { activity_id: a, id: b, bonus: r.bonus })
                } else {
                    res == Err::<Act208Claim, LogicError>(LogicError::InvalidRequest)
                },
                None => res == Err::<Act208Claim, LogicError>(LogicError::InvalidRequest),
            },
            _ => res == Err::<Act208Claim, LogicError>(LogicError::InvalidRequest),
        },
{
    let act = match activity_id {
        Some(a) => a,
        None => {
            return Err(LogicError::InvalidRequest);
        },
    };
    let bid = match id {
        Some(b) => b,
        None => {
            return Err(LogicError::InvalidRequest);
        },
    };
    let ghost f = bonus_fn(bid);
    let mut i: usize = 0;
    while i < rows.len()
        invariant
            i <= rows@.len(),
            f == bonus_fn(bid),
            activity_id == Some(act),
            id == Some(bid),
            find_map(rows@.take(i as int), f) is None,
        decreases rows.len() - i,
    {
        assert(rows@.take(i + 1).drop_last() =~= rows@.take(i as int));
        if rows[i].id == bid {
            proof {
                lemma_find_map_prefix(rows@, f, i + 1);
            }
            let ready = match stored_state {
                Some(s) => s == 1,
                None => false,
            };
            if rows[i].activity_id != act || !ready {
                return Err(LogicError::InvalidRequest);
            }
            return Ok(Act208Claim { activity_id: act, id: bid, bonus: rows[i].bonus.clone() });
        }
        i = i + 1;
    }
    assert(rows@.take(rows@.len() as int) =~= rows@);
    Err(LogicError::InvalidRequest)
}

} // verus!
