use crate::activity::act136::{act136_select, allowed_spec, is_allowed_hero as pick_allowed, resolve_activity_id as resolve_pick, resolved_act136, HeroPickRow};
use crate::error::LogicError;
use vstd::prelude::*;

verus! {

/// The event a request names: the one asked for, else the largest in the
/// table (see `resolved_act136`); refused when there is none.
pub fn resolve_activity_id(activity_id: Option<i32>, rows: &[HeroPickRow]) -> (res: Result<i32, LogicError>)
    ensures
        res == match resolved_act136(activity_id, rows@) {
            Some(a) => Ok::<i32, LogicError>(a),
            None => Err(LogicError::InvalidRequest),
        },
{
    resolve_pick(activity_id, rows)
}

/// Whether a player may pick `hero_id` in event `activity_id`; see `allowed_spec`.
pub fn is_allowed_hero(activity_id: i32, hero_id: i32, rows: &[HeroPickRow]) -> (res: bool)
    ensures
        res == allowed_spec(rows@, activity_id, hero_id),
{
    pick_allowed(activity_id, hero_id, rows)
}

/// The outcome of a pick.
#[derive(Clone, Copy, Debug, PartialEq, Eq)]
pub struct Act199Gain {
    pub activity_id: i32,
    /// The hero picked: the earlier pick when there was one.
    pub hero_id: i32,
    /// The hero is granted now (the caller then stores the pick).
    pub grant: bool,
}

/// A player picks `hero_id` in an event (see `resolve_activity_id`):
/// refused without an event or a hero, or for a hero the event does not
/// list; answered with the earlier pick when `selected_hero_id` (the stored
/// pick, `0` for none) is set; else the hero is granted.
pub fn act199_gain(
    activity_id: Option<i32>,
    hero_id: Option<i32>,
    rows: &[HeroPickRow],
    selected_hero_id: i32,
) -> (res: Result<Act199Gain, LogicError>)
    ensures
        match (resolved_act136(activity_id, rows@), hero_id) {
            (Some(a), Some(h)) => if !allowed_spec(rows@, a, h) {
                res == Err::<Act199Gain, LogicError>(LogicError::InvalidRequest)
            } else if selected_hero_id != 0 {
                res == Ok::<Act199Gain, LogicError>(Act199Gain { activity_id: a, hero_id: selected_hero_id, grant: false })
            } else {
                res == Ok::<Act199Gain, LogicError>(Act199Gain { activity_id: a, hero_id: h, grant: true })
            },
            _ => res == Err::<Act199Gain, LogicError>(LogicError::InvalidRequest),
        },
{
    match act136_select(activity_id, hero_id, rows, selected_hero_id) {
        Ok(s) => Ok(Act199Gain { activity_id: s.activity_id, hero_id: s.select_hero_id, grant: s.grant }),
        Err(e) => Err(e),
    }
}

} // verus!
