use crate::activity::act123::max_or_zero;
use crate::error::LogicError;
use crate::text::{chars_of, contains_i32, find_map, i32_list, i32_list_spec, lemma_find_map_prefix};
use vstd::prelude::*;

verus! {

/// One row of a hero-pick event table (the tables of events 136 and 199 share
/// this shape): the heroes (`#`-separated ids) a player may pick from.
#[derive(Clone, Debug)]
pub struct HeroPickRow {
    pub activity_id: i32,
    pub hero_ids: String,
}

/// The event ids of the table, in table order.
pub open spec fn row_ids(rows: Seq<HeroPickRow>) -> Seq<i32> {
    rows.map_values(|r: HeroPickRow| r.activity_id)
}

/// The event asked for, else the largest in the table; none for an empty table.
pub open spec fn resolved_act136(activity_id: Option<i32>, rows: Seq<HeroPickRow>) -> Option<i32> {
    match activity_id {
        Some(a) => Some(a),
        None => if rows.len() > 0 { Some(max_or_zero(row_ids(rows))) } else { None },
    }
}

/// The event a request names (see `resolved_act136`); refused when there is none.
pub fn resolve_activity_id(activity_id: Option<i32>, rows: &[HeroPickRow]) -> (res: Result<i32, LogicError>)
    ensures
        res == match resolved_act136(activity_id, rows@) {
            Some(a) => Ok::<i32, LogicError>(a),
            None => Err(LogicError::InvalidRequest),
        },
{
    if let Some(a) = activity_id {
        return Ok(a);
    }
    if rows.len() == 0 {
        return Err(LogicError::InvalidRequest);
    }
    let ghost ids = row_ids(rows@);
    let mut best = rows[0].activity_id;
    assert(ids.take(1) =~= seq![ids[0]]);
    let mut i: usize = 1;
    while i < rows.len()
        invariant
            1 <= i <= rows@.len(),
            ids == row_ids(rows@),
            best == max_or_zero(ids.take(i as int)),
        decreases rows.len() - i,
    {
        assert(ids.take(i + 1).drop_last() =~= ids.take(i as int));
        assert(ids.take(i + 1).last() == rows@[i as int].activity_id);
        if rows[i].activity_id > best {
            best = rows[i].activity_id;
        }
        i = i + 1;
    }
    assert(ids.take(rows@.len() as int) =~= ids);
    Ok(best)
}

/// The row of event `activity_id` (the first such).
pub open spec fn act136_row(rows: Seq<HeroPickRow>, activity_id: i32) -> Option<HeroPickRow> {
    find_map(rows, act136_row_fn(activity_id))
}

/// A row, when it belongs to event `activity_id`.
pub open spec fn act136_row_fn(activity_id: i32) -> spec_fn(HeroPickRow) -> Option<HeroPickRow> {
    |r: HeroPickRow| if r.activity_id == activity_id { Some(r) } else { None }
}

/// The event's row lists the hero.
pub open spec fn allowed_spec(rows: Seq<HeroPickRow>, activity_id: i32, hero_id: i32) -> bool {
    match act136_row(rows, activity_id) {
        Some(r) => i32_list_spec(r.hero_ids@, '#').contains(hero_id),
        None => false,
    }
}

/// Whether a player may pick `hero_id` in event `activity_id`; see `allowed_spec`.
pub fn is_allowed_hero(activity_id: i32, hero_id: i32, rows: &[HeroPickRow]) -> (res: bool)
    ensures
        res == allowed_spec(rows@, activity_id, hero_id),
{
    let ghost f = act136_row_fn(activity_id);
    let mut i: usize = 0;
    while i < rows.len()
        invariant
            i <= rows@.len(),
            f == act136_row_fn(activity_id),
            find_map(rows@.take(i as int), f) is None,
        decreases rows.len() - i,
    {
        assert(rows@.take(i + 1).drop_last() =~= rows@.take(i as int));
        if rows[i].activity_id == activity_id {
            proof {
                lemma_find_map_prefix(rows@, f, i + 1);
            }
            let chars = chars_of(rows[i].hero_ids.as_str());
            let ids = i32_list(chars.as_slice(), '#');
            return contains_i32(ids.as_slice(), hero_id);
        }
        i = i + 1;
    }
    assert(rows@.take(rows@.len() as int) =~= rows@);
    false
}

/// The outcome of a pick.
#[derive(Clone, Copy, Debug, PartialEq, Eq)]
pub struct Act136Select {
    pub activity_id: i32,
    /// The hero picked: the earlier pick when there was one.
    pub select_hero_id: i32,
    /// The hero is granted now (the caller then stores the pick).
    pub grant: bool,
}

/// A player picks `hero_id` in an event (see `resolve_activity_id`):
/// refused without an event or a hero, or for a hero the event does not
/// list; answered with the earlier pick when `selected_hero_id` (the stored
/// pick, `0` for none) is set; else the hero is granted.
pub fn act136_select(
    activity_id: Option<i32>,
    hero_id: Option<i32>,
    rows: &[HeroPickRow],
    selected_hero_id: i32,
) -> (res: Result<Act136Select, LogicError>)
    ensures
        match (resolved_act136(activity_id, rows@), hero_id) {
            (Some(a), Some(h)) => if !allowed_spec(rows@, a, h) {
                res == Err::<Act136Select, LogicError>(LogicError::InvalidRequest)
            } else if selected_hero_id != 0 {
                res == Ok::<Act136Select, LogicError>(Act136Select { activity_id: a, select_hero_id: selected_hero_id, grant: false })
            } else {
                res == Ok::<Act136Select, LogicError>(Act136Select { activity_id: a, select_hero_id: h, grant: true })
            },
            _ => res == Err::<Act136Select, LogicError>(LogicError::InvalidRequest),
        },
{
    let a = match resolve_activity_id(activity_id, rows) {
        Ok(a) => a,
        Err(e) => {
            return Err(e);
        },
    };
    let h = match hero_id {
        Some(h) => h,
        None => {
            return Err(LogicError::InvalidRequest);
        },
    };
    if !is_allowed_hero(a, h, rows) {
        return Err(LogicError::InvalidRequest);
    }
    if selected_hero_id != 0 {
        return Ok(Act136Select { activity_id: a, select_hero_id: selected_hero_id, grant: false });
    }
    Ok(Act136Select { activity_id: a, select_hero_id: h, grant: true })
}

} // verus!
