use crate::activity::act123::max_or_zero;
use crate::error::LogicError;
use crate::text::{find_map, lemma_find_map_prefix};
use vstd::prelude::*;

verus! {

/// One row of the sign-in gift event table: its one-time bonus.
#[derive(Clone, Debug)]
pub struct Activity189Row {
    pub activity_id: i32,
    pub bonus: String,
}

/// The event ids of the table, in table order.
pub open spec fn row_ids(rows: Seq<Activity189Row>) -> Seq<i32> {
    rows.map_values(|r: Activity189Row| r.activity_id)
}

/// The latest event of the table: its largest id, `0` when it is empty.
pub fn latest_act189_activity_id(rows: &[Activity189Row]) -> (res: i32)
    ensures
        res == max_or_zero(row_ids(rows@)),
{
    let ghost ids = row_ids(rows@);
    if rows.len() == 0 {
        return 0;
    }
    let mut best = rows[0].activity_id;
    assert(ids.take(1) =~= seq![ids[0]]);
    let mut i: usize = 1;
    while i < rows.len()
        invariant
            1 <= i <= rows@.len(),
            ids == row_ids(rows@),
            best == max_or_zero(ids.take(i as int)),
        decreases rows.len() - i,
    {
        assert(ids.take(i + 1).drop_last() =~= ids.take(i as int));
        assert(ids.take(i + 1).last() == rows@[i as int].activity_id);
        if rows[i].activity_id > best {
            best = rows[i].activity_id;
        }
        i = i + 1;
    }
    assert(ids.take(rows@.len() as int) =~= ids);
    best
}

/// The event asked for, else the latest one.
pub open spec fn act189_id(activity_id: Option<i32>, rows: Seq<Activity189Row>) -> i32 {
    match activity_id {
        Some(a) => a,
        None => max_or_zero(row_ids(rows)),
    }
}

/// The event's view: the event (see `act189_id`) and whether its bonus was
/// taken, which is when the stored state of entry `0` is set.
pub fn act189_info(activity_id: Option<i32>, rows: &[Activity189Row], stored_state: Option<i32>) -> (res: (i32, bool))
    ensures
        res == (act189_id(activity_id, rows@), match stored_state {
            Some(s) => s != 0,
            None => false,
        }),
{
    let id = match activity_id {
        Some(a) => a,
        None => latest_act189_activity_id(rows),
    };
    let taken = match stored_state {
        Some(s) => s != 0,
        None => false,
    };
    (id, taken)
}

/// The row of event `activity_id` (the first such).
pub open spec fn act189_row(rows: Seq<Activity189Row>, activity_id: i32) -> Option<Activity189Row> {
    find_map(rows, act189_row_fn(activity_id))
}

/// A row, when it belongs to event `activity_id`.
pub open spec fn act189_row_fn(activity_id: i32) -> spec_fn(Activity189Row) -> Option<Activity189Row> {
    |r: Activity189Row| if r.activity_id == activity_id { Some(r) } else { None }
}

/// The bonus was taken: the stored state of entry `0` is set.
pub open spec fn bonus_taken(stored_state: Option<i32>) -> bool {
    match stored_state {
        Some(s) => s != 0,
        None => false,
    }
}

/// The outcome of claiming the one-time bonus.
#[derive(Clone, Debug, PartialEq, Eq)]
pub struct Act189OnceBonusClaim {
    pub activity_id: i32,
    /// The bonus granted now; `None` when it was taken before.
    pub bonus: Option<String>,
}

/// Claims the one-time bonus of an event (see `act189_id`): refused when the
/// table has no row for it; granted, with the row's bonus, while the stored
/// state of entry `0` is unset (the caller then sets it); else nothing again.
pub fn get_act189_once_bonus(activity_id: Option<i32>, rows: &[Activity189Row], stored_state: Option<i32>) -> (res: Result<
    Act189OnceBonusClaim,
    LogicError,
>)
    ensures
        match act189_row(rows@, act189_id(activity_id, rows@)) {
            None => res == Err::<Act189OnceBonusClaim, LogicError>(LogicError::InvalidRequest),
            Some(r) => (res matches Ok(c) && c.activity_id == act189_id(activity_id, rows@) && c.bonus == if bonus_taken(
                stored_state,
            ) {
                None
            } else {
                Some(r.bonus)
            }),
        },
{
    let id = match activity_id {
        Some(a) => a,
        None => latest_act189_activity_id(rows),
    };
    let ghost f = act189_row_fn(id);
    let mut i: usize = 0;
    while i < rows.len()
        invariant
            i <= rows@.len(),
            f == act189_row_fn(id),
            id == act189_id(activity_id, rows@),
            find_map(rows@.take(i as int), f) is None,
        decreases rows.len() - i,
    {
        assert(rows@.take(i + 1).drop_last() =~= rows@.take(i as int));
        if rows[i].activity_id == id {
            proof {
                lemma_find_map_prefix(rows@, f, i + 1);
            }
            let state = match stored_state {
                Some(s) => s,
                None => 0,
            };
            let bonus = if state == 0 { Some(rows[i].bonus.clone()) } else { None };
            assert(find_map(rows@.take(i + 1), f) == Some(rows@[i as int]));
            return Ok(Act189OnceBonusClaim { activity_id: id, bonus });
        }
        i = i + 1;
    }
    assert(rows@.take(rows@.len() as int) =~= rows@);
    Err(LogicError::InvalidRequest)
}

} // verus!
