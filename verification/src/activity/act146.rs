use crate::activity::{lookup_state, state_of};
use crate::error::LogicError;
use crate::sorting::{sort_by_key_stable, stably_sorted};
use crate::text::{find_map, lemma_find_map_prefix};
use vstd::prelude::*;

verus! {

/// An episode not finished yet.
pub const ACT146_UNFINISHED: i32 = 0;

/// An episode finished, its bonus not taken.
pub const ACT146_FINISHED: i32 = 1;

/// An episode whose bonus was taken.
pub const ACT146_RECEIVED: i32 = 2;

/// One episode of the episode event table.
#[derive(Clone, Debug)]
pub struct Activity146Row {
    pub activity_id: i32,
    pub id: i32,
    pub bonus: String,
}

/// The event asked for, else the event of the table's first row; none for an
/// empty table.
pub open spec fn act146_id(activity_id: Option<i32>, rows: Seq<Activity146Row>) -> Option<i32> {
    match activity_id {
        Some(a) => Some(a),
        None => if rows.len() > 0 { Some(rows[0].activity_id) } else { None },
    }
}

/// The event a request names (see `act146_id`); refused when there is none.
pub fn act146_activity_id(activity_id: Option<i32>, rows: &[Activity146Row]) -> (res: Result<i32, LogicError>)
    ensures
        res == match act146_id(activity_id, rows@) {
            Some(a) => Ok::<i32, LogicError>(a),
            None => Err(LogicError::InvalidRequest),
        },
{
    match activity_id {
        Some(a) => Ok(a),
        None => if rows.len() > 0 {
            Ok(rows[0].activity_id)
        } else {
            Err(LogicError::InvalidRequest)
        },
    }
}

/// Episode `episode_id` of event `activity_id` is in the table.
pub open spec fn has_episode(rows: Seq<Activity146Row>, activity_id: i32, episode_id: i32) -> bool {
    exists|i: int| 0 <= i < rows.len() && (#[trigger] rows[i]).activity_id == activity_id && rows[i].id == episode_id
}

/// The episode a request names: refused without one or when the event has no
/// such episode.
pub fn valid_act146_episode(activity_id: i32, episode_id: Option<i32>, rows: &[Activity146Row]) -> (res: Result<i32, LogicError>)
    ensures
        res == match episode_id {
            Some(e) => if has_episode(rows@, activity_id, e) {
                Ok::<i32, LogicError>(e)
            } else {
                Err(LogicError::InvalidRequest)
            },
            None => Err(LogicError::InvalidRequest),
        },
{
    let e = match episode_id {
        Some(e) => e,
        None => {
            return Err(LogicError::InvalidRequest);
        },
    };
    let mut i: usize = 0;
    while i < rows.len()
        invariant
            i <= rows@.len(),
            episode_id == Some(e),
            forall|k: int| 0 <= k < i ==> !((#[trigger] rows@[k]).activity_id == activity_id && rows@[k].id == e),
        decreases rows.len() - i,
    {
        if rows[i].activity_id == activity_id && rows[i].id == e {
            assert(rows@[i as int].activity_id == activity_id);
            return Ok(e);
        }
        i = i + 1;
    }
    Err(LogicError::InvalidRequest)
}

/// The episodes of event `activity_id` as `(id, state)` in table order, the
/// state unfinished when none is stored.
pub open spec fn episode_states(rows: Seq<Activity146Row>, activity_id: i32, states: Seq<(i32, i32)>) -> Seq<(i32, i32)>
    decreases rows.len(),
{
    if rows.len() == 0 {
        Seq::empty()
    } else {
        let front = episode_states(rows.drop_last(), activity_id, states);
        let r = rows.last();
        if r.activity_id == activity_id {
            front.push(
                (
                    r.id,
                    match state_of(states, r.id) {
                        Some(s) => s,
                        None => ACT146_UNFINISHED,
                    },
                ),
            )
        } else {
            front
        }
    }
}

/// The episodes of event `activity_id` with their states (see
/// `episode_states`), ordered by id (equal ids in table order); `states`
/// holds the stored `(episode, state)` pairs.
pub fn act146_infos(activity_id: i32, rows: &[Activity146Row], states: &[(i32, i32)]) -> (res: Vec<(i32, i32)>)
    ensures
        stably_sorted(res@, episode_states(rows@, activity_id, states@)),
{
    let mut listed: Vec<(i32, i32)> = Vec::new();
    let mut i: usize = 0;
    while i < rows.len()
        invariant
            i <= rows@.len(),
            listed@ == episode_states(rows@.take(i as int), activity_id, states@),
        decreases rows.len() - i,
    {
        assert(rows@.take(i + 1).drop_last() =~= rows@.take(i as int));
        if rows[i].activity_id == activity_id {
            let state = match lookup_state(states, rows[i].id) {
                Some(s) => s,
                None => ACT146_UNFINISHED,
            };
            listed.push((rows[i].id, state));
        }
        i = i + 1;
    }
    assert(rows@.take(rows@.len() as int) =~= rows@);
    sort_by_key_stable(listed)
}

/// Finishing an episode: the event (see `act146_activity_id`) and the episode
/// (see `valid_act146_episode`), whose state the caller sets to finished;
/// refused as those are.
pub fn finish_act146_episode(activity_id: Option<i32>, episode_id: Option<i32>, rows: &[Activity146Row]) -> (res: Result<
    (i32, i32),
    LogicError,
>)
    ensures
        match act146_id(activity_id, rows@) {
            None => res == Err::<(i32, i32), LogicError>(LogicError::InvalidRequest),
            Some(a) => match episode_id {
                Some(e) => if has_episode(rows@, a, e) {
                    res == Ok::<(i32, i32), LogicError>((a, e))
                } else {
                    res == Err::<(i32, i32), LogicError>(LogicError::InvalidRequest)
                },
                None => res == Err::<(i32, i32), LogicError>(LogicError::InvalidRequest),
            },
        },
{
    let a = match act146_activity_id(activity_id, rows) {
        Ok(a) => a,
        Err(e) => {
            return Err(e);
        },
    };
    match valid_act146_episode(a, episode_id, rows) {
        Ok(e) => Ok((a, e)),
        Err(err) => Err(err),
    }
}

/// Episode `episode_id` of event `activity_id` (the first such row).
pub open spec fn episode_row(rows: Seq<Activity146Row>, activity_id: i32, episode_id: i32) -> Option<Activity146Row> {
    find_map(rows, episode_fn(activity_id, episode_id))
}

/// A row, when it is episode `episode_id` of event `activity_id`.
pub open spec fn episode_fn(activity_id: i32, episode_id: i32) -> spec_fn(Activity146Row) -> Option<Activity146Row> {
    |r: Activity146Row| if r.activity_id == activity_id && r.id == episode_id { Some(r) } else { None }
}

/// An episode bonus taken: the event, the episode and what it grants.
#[derive(Clone, Debug, PartialEq, Eq)]
pub struct Act146Claim {
    pub activity_id: i32,
    pub episode_id: i32,
    pub bonus: String,
}

/// Takes the bonus of an episode of event `activity_id`: refused for an
/// episode the request does not name or the event lacks, and unless the
/// episode's stored state is finished; else granted with the episode's bonus
/// (the caller then stores the state received).
pub fn act146_episode_bonus(
    activity_id: i32,
    episode_id: Option<i32>,
    rows: &[Activity146Row],
    stored_state: Option<i32>,
) -> (res: Result<Act146Claim, LogicError>)
    ensures
        match episode_id {
            Some(e) => match episode_row(rows@, activity_id, e) {
                Some(r) => if stored_state == Some(ACT146_FINISHED) {
                    res == Ok::<Act146Claim, LogicError>(Act146Claim { activity_id, episode_id: e, bonus: r.bonus })
                } else {
                    res == Err::<Act146Claim, LogicError>(LogicError::InvalidRequest)
                },
                None => res == Err::<Act146Claim, LogicError>(LogicError::InvalidRequest),
            },
            None => res == Err::<Act146Claim, LogicError>(LogicError::InvalidRequest),
        },
{
    let e = match episode_id {
        Some(e) => e,
        None => {
            return Err(LogicError::InvalidRequest);
        },
    };
    let ghost f = episode_fn(activity_id, e);
    let mut i: usize = 0;
    while i < rows.len()
        invariant
            i <= rows@.len(),
            f == episode_fn(activity_id, e),
            episode_id == Some(e),
            find_map(rows@.take(i as int), f) is None,
        decreases rows.len() - i,
    {
        assert(rows@.take(i + 1).drop_last() =~= rows@.take(i as int));
        if rows[i].activity_id == activity_id && rows[i].id == e {
            proof {
                lemma_find_map_prefix(rows@, f, i + 1);
            }
            let finished = match stored_state {
                Some(s) => s == ACT146_FINISHED,
                None => false,
            };
            if !finished {
                return Err(LogicError::InvalidRequest);
            }
            return Ok(Act146Claim { activity_id, episode_id: e, bonus: rows[i].bonus.clone() });
        }
        i = i + 1;
    }
    assert(rows@.take(rows@.len() as int) =~= rows@);
    Err(LogicError::InvalidRequest)
}

} // verus!
