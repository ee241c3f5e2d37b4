use crate::activity::act123::max_or_zero;
use crate::error::LogicError;
use crate::text::{filter_map, find_map, lemma_find_map_prefix};
use vstd::prelude::*;

verus! {

/// One gift of the gift event table.
#[derive(Clone, Debug)]
pub struct Activity196Row {
    pub activity_id: i32,
    pub id: i32,
    pub bonus: String,
}

/// The event ids of the table, in table order.
pub open spec fn row_ids(rows: Seq<Activity196Row>) -> Seq<i32> {
    rows.map_values(|r: Activity196Row| r.activity_id)
}

/// The event asked for, else the largest in the table; none for an empty table.
pub open spec fn resolved_act196(activity_id: Option<i32>, rows: Seq<Activity196Row>) -> Option<i32> {
    match activity_id {
        Some(a) => Some(a),
        None => if rows.len() > 0 { Some(max_or_zero(row_ids(rows))) } else { None },
    }
}

/// The event a request names (see `resolved_act196`); refused when there is none.
pub fn resolve_activity_id(activity_id: Option<i32>, rows: &[Activity196Row]) -> (res: Result<i32, LogicError>)
    ensures
        res == match resolved_act196(activity_id, rows@) {
            Some(a) => Ok::<i32, LogicError>(a),
            None => Err(LogicError::InvalidRequest),
        },
{
    if let Some(a) = activity_id {
        return Ok(a);
    }
    if rows.len() == 0 {
        return Err(LogicError::InvalidRequest);
    }
    let ghost ids = row_ids(rows@);
    let mut best = rows[0].activity_id;
    assert(ids.take(1) =~= seq![ids[0]]);
    let mut i: usize = 1;
    while i < rows.len()
        invariant
            1 <= i <= rows@.len(),
            ids == row_ids(rows@),
            best == max_or_zero(ids.take(i as int)),
        decreases rows.len() - i,
    {
        assert(ids.take(i + 1).drop_last() =~= ids.take(i as int));
        assert(ids.take(i + 1).last() == rows@[i as int].activity_id);
        if rows[i].activity_id > best {
            best = rows[i].activity_id;
        }
        i = i + 1;
    }
    assert(ids.take(rows@.len() as int) =~= ids);
    Ok(best)
}

/// The gifts taken: the entries whose stored state is set, in the order given.
pub open spec fn gained_ids(states: Seq<(i32, i32)>) -> Seq<i32> {
    filter_map(states, |p: (i32, i32)| if p.1 != 0 { Some(p.0) } else { None })
}

/// The event's view: the event (see `resolve_activity_id`) and the gifts
/// taken; `states` holds the stored `(gift, state)` pairs.
pub fn act196_info(activity_id: Option<i32>, rows: &[Activity196Row], states: &[(i32, i32)]) -> (res: Result<
    (i32, Vec<i32>),
    LogicError,
>)
    ensures
        match resolved_act196(activity_id, rows@) {
            None => res == Err::<(i32, Vec<i32>), LogicError>(LogicError::InvalidRequest),
            Some(a) => (res matches Ok((id, gained)) && id == a && gained@ == gained_ids(states@)),
        },
{
    let id = match resolve_activity_id(activity_id, rows) {
        Ok(a) => a,
        Err(e) => {
            return Err(e);
        },
    };
    let ghost f = |p: (i32, i32)| if p.1 != 0 { Some(p.0) } else { None };
    let mut gained: Vec<i32> = Vec::new();
    let mut i: usize = 0;
    while i < states.len()
        invariant
            i <= states@.len(),
            f == (|p: (i32, i32)| if p.1 != 0 { Some(p.0) } else { None }),
            gained@ == filter_map(states@.take(i as int), f),
        decreases states.len() - i,
    {
        assert(states@.take(i + 1).drop_last() =~= states@.take(i as int));
        if states[i].1 != 0 {
            gained.push(states[i].0);
        }
        i = i + 1;
    }
    assert(states@.take(states@.len() as int) =~= states@);
    Ok((id, gained))
}

/// The gift `id` of event `activity_id` (the first such row).
pub open spec fn gift_row(rows: Seq<Activity196Row>, activity_id: i32, id: i32) -> Option<Activity196Row> {
    find_map(rows, gift_fn(activity_id, id))
}

/// A row, when it is gift `id` of event `activity_id`.
pub open spec fn gift_fn(activity_id: i32, id: i32) -> spec_fn(Activity196Row) -> Option<Activity196Row> {
    |r: Activity196Row| if r.activity_id == activity_id && r.id == id { Some(r) } else { None }
}

/// The outcome of taking a gift.
#[derive(Clone, Debug, PartialEq, Eq)]
pub struct Act196Claim {
    pub activity_id: i32,
    pub id: i32,
    /// The bonus granted now; `None` when the gift was taken before.
    pub bonus: Option<String>,
}

/// Takes gift `id` of an event (see `resolve_activity_id`): refused without an
/// event, without an id or when the table has no such gift; granted, with
/// the gift's bonus, while its stored state is unset (the caller then sets
/// it); else nothing again.
pub fn act196_gain(activity_id: Option<i32>, id: Option<i32>, rows: &[Activity196Row], stored_state: Option<i32>) -> (res:
    Result<Act196Claim, LogicError>)
    ensures
        match (resolved_act196(activity_id, rows@), id) {
            (Some(a), Some(g)) => match gift_row(rows@, a, g) {
                None => res == Err::<Act196Claim, LogicError>(LogicError::InvalidRequest),
                Some(r) => (res matches Ok(c) && c.activity_id == a && c.id == g && c.bonus == if (match stored_state {
                    Some(s) => s != 0,
                    None => false,
                }) {
                    None
                } else {
                    Some(r.bonus)
                }),
            },
            _ => res == Err::<Act196Claim, LogicError>(LogicError::InvalidRequest),
        },
{
    let act = match resolve_activity_id(activity_id, rows) {
        Ok(a) => a,
        Err(e) => {
            return Err(e);
        },
    };
    let gift = match id {
        Some(g) => g,
        None => {
            return Err(LogicError::InvalidRequest);
        },
    };
    let ghost f = gift_fn(act, gift);
    let mut i: usize = 0;
    while i < rows.len()
        invariant
            i <= rows@.len(),
            f == gift_fn(act, gift),
            resolved_act196(activity_id, rows@) == Some(act),
            id == Some(gift),
            find_map(rows@.take(i as int), f) is None,
        decreases rows.len() - i,
    {
        assert(rows@.take(i + 1).drop_last() =~= rows@.take(i as int));
        if rows[i].activity_id == act && rows[i].id == gift {
            proof {
                lemma_find_map_prefix(rows@, f, i + 1);
            }
            let taken = match stored_state {
                Some(s) => s != 0,
                None => false,
            };
            let bonus = if taken { None } else { Some(rows[i].bonus.clone()) };
            return Ok(Act196Claim { activity_id: act, id: gift, bonus });
        }
        i = i + 1;
    }
    assert(rows@.take(rows@.len() as int) =~= rows@);
    Err(LogicError::InvalidRequest)
}

} // verus!
