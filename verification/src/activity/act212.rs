use crate::activity::{latest_config_activity_id, latest_id_spec, lookup_state, state_of, ActivityRow, OpenRow};
use crate::error::LogicError;
use crate::sorting::{sort_by_key_stable, stably_sorted};
use crate::text::{find_map, lemma_find_map_prefix};
use vstd::prelude::*;

verus! {

/// One bonus of the milestone event table.
#[derive(Clone, Debug)]
pub struct Activity212BonusRow {
    pub activity_id: i32,
    pub id: i32,
    pub bonus: String,
}

/// The event's length in days.
#[derive(Clone, Copy, Debug)]
pub struct Activity212ConstRow {
    pub activity_id: i32,
    pub value: i32,
}

/// The event ids of the bonus table, in table order.
pub open spec fn row_ids(rows: Seq<Activity212BonusRow>) -> Seq<i32> {
    rows.map_values(|r: Activity212BonusRow| r.activity_id)
}

/// The event asked for, else the latest in the bonus table (see
/// `latest_id_spec`, with `fallback` when the table has none).
pub open spec fn act212_id(
    activity_id: Option<i32>,
    rows: Seq<Activity212BonusRow>,
    activities: Seq<ActivityRow>,
    opens: Seq<OpenRow>,
    fallback: i32,
) -> i32 {
    match activity_id {
        Some(a) => a,
        None => latest_id_spec(row_ids(rows), activities, opens, fallback),
    }
}

/// The event a request names; see `act212_id`.
pub fn act212_activity_id(
    activity_id: Option<i32>,
    rows: &[Activity212BonusRow],
    activities: &[ActivityRow],
    opens: &[OpenRow],
    fallback: i32,
) -> (res: i32)
    ensures
        res == act212_id(activity_id, rows@, activities@, opens@, fallback),
{
    if let Some(a) = activity_id {
        return a;
    }
    let mut ids: Vec<i32> = Vec::new();
    let mut i: usize = 0;
    while i < rows.len()
        invariant
            i <= rows@.len(),
            ids@ == row_ids(rows@.take(i as int)),
        decreases rows.len() - i,
    {
        ids.push(rows[i].activity_id);
        i = i + 1;
        assert(ids@ =~= row_ids(rows@.take(i as int)));
    }
    assert(rows@.take(rows@.len() as int) =~= rows@);
    latest_config_activity_id(ids.as_slice(), activities, opens, fallback)
}

/// The bonuses of event `activity_id` as `(id, state)`, in table order: the
/// stored state, else `1` (ready) for bonus `1` and `0` for the others.
pub open spec fn bonus_states(rows: Seq<Activity212BonusRow>, activity_id: i32, states: Seq<(i32, i32)>) -> Seq<(i32, i32)>
    decreases rows.len(),
{
    if rows.len() == 0 {
        Seq::empty()
    } else {
        let front = bonus_states(rows.drop_last(), activity_id, states);
        let r = rows.last();
        if r.activity_id == activity_id {
            front.push(
                (
                    r.id,
                    match state_of(states, r.id) {
                        Some(s) => s,
                        None => if r.id == 1 { 1i32 } else { 0i32 },
                    },
                ),
            )
        } else {
            front
        }
    }
}

/// The length of event `activity_id` in days, from its first constant row.
pub open spec fn const_days(consts: Seq<Activity212ConstRow>, activity_id: i32) -> Option<i32> {
    find_map(consts, const_fn(activity_id))
}

/// A constant row read as its value, when it belongs to event `activity_id`.
pub open spec fn const_fn(activity_id: i32) -> spec_fn(Activity212ConstRow) -> Option<i32> {
    |c: Activity212ConstRow| if c.activity_id == activity_id { Some(c.value) } else { None }
}

/// The milestone event as the client shows it.
#[derive(Clone, Debug, PartialEq, Eq)]
pub struct Act212Info {
    pub activity_id: i32,
    pub is_active: bool,
    /// `(id, state)` of each bonus, by id.
    pub bonuss: Vec<(i32, i32)>,
    /// The event's length in milliseconds, `0` when the table has none.
    pub end_time: i64,
}

/// The view of event `activity_id`: its bonuses with their states (see
/// `bonus_states`) ordered by id (equal ids in table order), active when it
/// has any, and its length; `states` holds the stored `(bonus, state)` pairs.
pub fn act212_info_no(
    activity_id: i32,
    rows: &[Activity212BonusRow],
    states: &[(i32, i32)],
    consts: &[Activity212ConstRow],
) -> (res: Act212Info)
    ensures
        res.activity_id == activity_id,
        stably_sorted(res.bonuss@, bonus_states(rows@, activity_id, states@)),
        res.is_active == (res.bonuss@.len() > 0),
        res.end_time == match const_days(consts@, activity_id) {
            Some(v) => v as i64 * 86_400_000,
            None => 0,
        },
{
    let mut listed: Vec<(i32, i32)> = Vec::new();
    let mut i: usize = 0;
    while i < rows.len()
        invariant
            i <= rows@.len(),
            listed@ == bonus_states(rows@.take(i as int), activity_id, states@),
        decreases rows.len() - i,
    {
        assert(rows@.take(i + 1).drop_last() =~= rows@.take(i as int));
        if rows[i].activity_id == activity_id {
            let status = match lookup_state(states, rows[i].id) {
                Some(s) => s,
                None => if rows[i].id == 1 { 1 } else { 0 },
            };
            listed.push((rows[i].id, status));
        }
        i = i + 1;
    }
    assert(rows@.take(rows@.len() as int) =~= rows@);
    let bonuss = sort_by_key_stable(listed);
    let ghost f = const_fn(activity_id);
    let mut days: Option<i32> = None;
    let mut k: usize = 0;
    while k < consts.len() && days.is_none()
        invariant
            k <= consts@.len(),
            f == const_fn(activity_id),
            days is None ==> find_map(consts@.take(k as int), f) is None,
            days is Some ==> find_map(consts@, f) == days,
        decreases consts.len() - k,
    {
        assert(consts@.take(k + 1).drop_last() =~= consts@.take(k as int));
        if consts[k].activity_id == activity_id {
            proof {
                lemma_find_map_prefix(consts@, f, k + 1);
            }
            days = Some(consts[k].value);
        }
        k = k + 1;
    }
    if days.is_none() {
        assert(consts@.take(consts@.len() as int) =~= consts@);
    }
    let end_time = match days {
        Some(v) => v as i64 * 86_400_000,
        None => 0,
    };
    Act212Info { activity_id, is_active: bonuss.len() > 0, bonuss, end_time }
}

/// Bonus `id` of event `activity_id` (the first such row).
pub open spec fn bonus_row(rows: Seq<Activity212BonusRow>, activity_id: i32, id: i32) -> Option<Activity212BonusRow> {
    find_map(rows, bonus_fn(activity_id, id))
}

/// A row, when it is bonus `id` of event `activity_id`.
pub open spec fn bonus_fn(activity_id: i32, id: i32) -> spec_fn(Activity212BonusRow) -> Option<Activity212BonusRow> {
    |r: Activity212BonusRow| if r.activity_id == activity_id && r.id == id { Some(r) } else { None }
}

/// A bonus taken: the event, the bonus and what it grants.
#[derive(Clone, Debug, PartialEq, Eq)]
pub struct Act212Claim {
    pub activity_id: i32,
    pub id: i32,
    pub bonus: String,
}

/// Takes bonus `id` of event `activity_id`: refused without an id, when the
/// table has no such bonus, and unless its stored state is `1` (ready); else
/// granted (the caller then stores state `2`).
pub fn receive_act212_bonus(
    activity_id: i32,
    id: Option<i32>,
    rows: &[Activity212BonusRow],
    stored_state: Option<i32>,
) -> (res: Result<Act212Claim, LogicError>)
    ensures
        match id {
            Some(b) => match bonus_row(rows@, activity_id, b) {
                Some(r) => if stored_state == Some(1i32) {
                    res == Ok::<Act212Claim, LogicError>(Act212Claim { activity_id, id: b, bonus: r.bonus })
                } else {
                    res == Err::<Act212Claim, LogicError>(LogicError::InvalidRequest)
                },
                None => res == Err::<Act212Claim, LogicError>(LogicError::InvalidRequest),
            },
            None => res == Err::<Act212Claim, LogicError>(LogicError::InvalidRequest),
        },
{
    let bid = match id {
        Some(b) => b,
        None => {
            return Err(LogicError::InvalidRequest);
        },
    };
    let ghost f = bonus_fn(activity_id, bid);
    let mut i: usize = 0;
    while i < rows.len()
        invariant
            i <= rows@.len(),
            f == bonus_fn(activity_id, bid),
            id == Some(bid),
            find_map(rows@.take(i as int), f) is None,
        decreases rows.len() - i,
    {
        assert(rows@.take(i + 1).drop_last() =~= rows@.take(i as int));
        if rows[i].activity_id == activity_id && rows[i].id == bid {
            proof {
                lemma_find_map_prefix(rows@, f, i + 1);
            }
            let ready = match stored_state {
                Some(s) => s == 1,
                None => false,
            };
            if !ready {
                return Err(LogicError::InvalidRequest);
            }
            return Ok(Act212Claim { activity_id, id: bid, bonus: rows[i].bonus.clone() });
        }
        i = i + 1;
    }
    assert(rows@.take(rows@.len() as int) =~= rows@);
    Err(LogicError::InvalidRequest)
}

} // verus!
