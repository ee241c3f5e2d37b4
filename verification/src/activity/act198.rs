use crate::activity::act123::max_or_zero;
use crate::error::LogicError;
use crate::text::{chars_of, contains_i32, find_map, i32_list, i32_list_spec, lemma_find_map_prefix};
use vstd::prelude::*;

verus! {

/// One row of the skin-collection event table: the skins that count
/// (`#`-separated ids), how many are needed, and the bonus.
#[derive(Clone, Debug)]
pub struct Activity198Row {
    pub activity_id: i32,
    pub skin_ids: String,
    pub num: i32,
    pub bonus: String,
}

/// The event ids of the table, in table order.
pub open spec fn row_ids(rows: Seq<Activity198Row>) -> Seq<i32> {
    rows.map_values(|r: Activity198Row| r.activity_id)
}

/// The event asked for, else the largest in the table; none for an empty table.
pub open spec fn resolved_act198(activity_id: Option<i32>, rows: Seq<Activity198Row>) -> Option<i32> {
    match activity_id {
        Some(a) => Some(a),
        None => if rows.len() > 0 { Some(max_or_zero(row_ids(rows))) } else { None },
    }
}

/// The event a request names (see `resolved_act198`); refused when there is none.
pub fn resolve_activity_id(activity_id: Option<i32>, rows: &[Activity198Row]) -> (res: Result<i32, LogicError>)
    ensures
        res == match resolved_act198(activity_id, rows@) {
            Some(a) => Ok::<i32, LogicError>(a),
            None => Err(LogicError::InvalidRequest),
        },
{
    if let Some(a) = activity_id {
        return Ok(a);
    }
    if rows.len() == 0 {
        return Err(LogicError::InvalidRequest);
    }
    let ghost ids = row_ids(rows@);
    let mut best = rows[0].activity_id;
    assert(ids.take(1) =~= seq![ids[0]]);
    let mut i: usize = 1;
    while i < rows.len()
        invariant
            1 <= i <= rows@.len(),
            ids == row_ids(rows@),
            best == max_or_zero(ids.take(i as int)),
        decreases rows.len() - i,
    {
        assert(ids.take(i + 1).drop_last() =~= ids.take(i as int));
        assert(ids.take(i + 1).last() == rows@[i as int].activity_id);
        if rows[i].activity_id > best {
            best = rows[i].activity_id;
        }
        i = i + 1;
    }
    assert(ids.take(rows@.len() as int) =~= ids);
    Ok(best)
}

/// The row of event `activity_id` (the first such).
pub open spec fn act198_row(rows: Seq<Activity198Row>, activity_id: i32) -> Option<Activity198Row> {
    find_map(rows, act198_row_fn(activity_id))
}

/// A row, when it belongs to event `activity_id`.
pub open spec fn act198_row_fn(activity_id: i32) -> spec_fn(Activity198Row) -> Option<Activity198Row> {
    |r: Activity198Row| if r.activity_id == activity_id { Some(r) } else { None }
}

fn find_row(rows: &[Activity198Row], activity_id: i32) -> (res: Option<usize>)
    ensures
        match res {
            Some(i) => i < rows@.len() && act198_row(rows@, activity_id) == Some(rows@[i as int]),
            None => act198_row(rows@, activity_id) is None,
        },
{
    let ghost f = act198_row_fn(activity_id);
    let mut i: usize = 0;
    while i < rows.len()
        invariant
            i <= rows@.len(),
            f == act198_row_fn(activity_id),
            find_map(rows@.take(i as int), f) is None,
        decreases rows.len() - i,
    {
        assert(rows@.take(i + 1).drop_last() =~= rows@.take(i as int));
        if rows[i].activity_id == activity_id {
            proof {
                lemma_find_map_prefix(rows@, f, i + 1);
            }
            return Some(i);
        }
        i = i + 1;
    }
    assert(rows@.take(rows@.len() as int) =~= rows@);
    None
}

/// How many of `ids` the player owns (each listed id counted).
pub open spec fn owned_count(ids: Seq<i32>, owned: Seq<i32>) -> nat
    decreases ids.len(),
{
    if ids.len() == 0 {
        0
    } else {
        owned_count(ids.drop_last(), owned) + if owned.contains(ids.last()) { 1nat } else { 0nat }
    }
}

/// The skins of a row reach its need (the count taken as an `i32`).
pub open spec fn gate_met(row: Activity198Row, owned: Seq<i32>) -> bool {
    (owned_count(i32_list_spec(row.skin_ids@, '#'), owned) as i32) >= row.num
}

/// Whether the player may take an event's bonus (see `resolve_activity_id`):
/// refused without an event or its row; `None` once taken (`claimed`);
/// else the event while the player owns enough of its skins (see `gate_met`).
pub fn act198_can_gain(
    activity_id: Option<i32>,
    rows: &[Activity198Row],
    claimed: bool,
    owned_skins: &[i32],
) -> (res: Result<Option<i32>, LogicError>)
    ensures
        match resolved_act198(activity_id, rows@) {
            None => res == Err::<Option<i32>, LogicError>(LogicError::InvalidRequest),
            Some(a) => match act198_row(rows@, a) {
                None => res == Err::<Option<i32>, LogicError>(LogicError::InvalidRequest),
                Some(r) => res == Ok::<Option<i32>, LogicError>(
                    if !claimed && gate_met(r, owned_skins@) { Some(a) } else { None },
                ),
            },
        },
{
    let a = match resolve_activity_id(activity_id, rows) {
        Ok(a) => a,
        Err(e) => {
            return Err(e);
        },
    };
    let i = match find_row(rows, a) {
        Some(i) => i,
        None => {
            return Err(LogicError::InvalidRequest);
        },
    };
    if claimed {
        return Ok(None);
    }
    let chars = chars_of(rows[i].skin_ids.as_str());
    let ids = i32_list(chars.as_slice(), '#');
    let mut count: usize = 0;
    let mut k: usize = 0;
    while k < ids.len()
        invariant
            k <= ids@.len(),
            count == owned_count(ids@.take(k as int), owned_skins@),
            count <= k,
        decreases ids.len() - k,
    {
        assert(ids@.take(k + 1).drop_last() =~= ids@.take(k as int));
        if contains_i32(owned_skins, ids[k]) {
            count = count + 1;
        }
        k = k + 1;
    }
    assert(ids@.take(ids@.len() as int) =~= ids@);
    if (count as i32) >= rows[i].num {
        Ok(Some(a))
    } else {
        Ok(None)
    }
}

/// A bonus taken: the event and what it grants.
#[derive(Clone, Debug, PartialEq, Eq)]
pub struct Act198Claim {
    pub activity_id: i32,
    pub bonus: String,
}

/// Takes an event's bonus: granted with the row's bonus when
/// `act198_can_gain` gives the event (the caller then stores the claim),
/// refused otherwise.
pub fn act198_gain(activity_id: Option<i32>, rows: &[Activity198Row], claimed: bool, owned_skins: &[i32]) -> (res: Result<
    Act198Claim,
    LogicError,
>)
    ensures
        match resolved_act198(activity_id, rows@) {
            Some(a) => match act198_row(rows@, a) {
                Some(r) => if !claimed && gate_met(r, owned_skins@) {
                    res == Ok::<Act198Claim, LogicError>(Act198Claim { activity_id: a, bonus: r.bonus })
                } else {
                    res == Err::<Act198Claim, LogicError>(LogicError::InvalidRequest)
                },
                None => res == Err::<Act198Claim, LogicError>(LogicError::InvalidRequest),
            },
            None => res == Err::<Act198Claim, LogicError>(LogicError::InvalidRequest),
        },
{
    let a = match act198_can_gain(activity_id, rows, claimed, owned_skins) {
        Ok(Some(a)) => a,
        Ok(None) => {
            return Err(LogicError::InvalidRequest);
        },
        Err(e) => {
            return Err(e);
        },
    };
    match find_row(rows, a) {
        Some(i) => Ok(Act198Claim { activity_id: a, bonus: rows[i].bonus.clone() }),
        None => Err(LogicError::InvalidRequest),
    }
}

} // verus!
