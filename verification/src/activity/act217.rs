use crate::error::LogicError;
use vstd::prelude::*;

verus! {

/// The smallest of `ids`, or `0` when there is none.
pub open spec fn min_or_zero(ids: Seq<i32>) -> i32
    decreases ids.len(),
{
    if ids.len() == 0 {
        0
    } else if ids.len() == 1 {
        ids[0]
    } else {
        let m = min_or_zero(ids.drop_last());
        if ids.last() < m {
            ids.last()
        } else {
            m
        }
    }
}

/// The event a request names: the one asked for, else the smallest event id
/// of the control table (`ids`); refused when there is none.
pub fn act217_activity_id(activity_id: Option<i32>, ids: &[i32]) -> (res: Result<i32, LogicError>)
    ensures
        res == match activity_id {
            Some(a) => Ok::<i32, LogicError>(a),
            None => if ids@.len() > 0 {
                Ok(min_or_zero(ids@))
            } else {
                Err(LogicError::InvalidRequest)
            },
        },
{
    if let Some(a) = activity_id {
        return Ok(a);
    }
    if ids.len() == 0 {
        return Err(LogicError::InvalidRequest);
    }
    let mut best = ids[0];
    let mut i: usize = 1;
    assert(ids@.take(1) =~= seq![ids@[0]]);
    while i < ids.len()
        invariant
            1 <= i <= ids@.len(),
            best == min_or_zero(ids@.take(i as int)),
        decreases ids.len() - i,
    {
        assert(ids@.take(i + 1).drop_last() =~= ids@.take(i as int));
        if ids[i] < best {
            best = ids[i];
        }
        i = i + 1;
    }
    assert(ids@.take(ids@.len() as int) =~= ids@);
    Ok(best)
}

/// The resource-episode event as the client shows it.
#[derive(Clone, Debug, PartialEq, Eq)]
pub struct Act217Infos {
    pub activity_id: i32,
    pub exp_episode_count: u32,
    pub coin_episode_count: u32,
    /// `(type, daily use count, total use count)` of each episode type.
    pub type_infos: Vec<(i32, i32, i32)>,
}

/// The event's view from its stored counts: a count below zero shows as zero;
/// the per-type counts as stored.
pub fn act217_infos(activity_id: i32, exp_episode_count: i32, coin_episode_count: i32, type_states: Vec<(i32, i32, i32)>) -> (res:
    Act217Infos)
    ensures
        res.activity_id == activity_id,
        res.exp_episode_count == if exp_episode_count < 0 { 0 } else { exp_episode_count },
        res.coin_episode_count == if coin_episode_count < 0 { 0 } else { coin_episode_count },
        res.type_infos@ == type_states@,
{
    let exp = if exp_episode_count < 0 { 0 } else { exp_episode_count as u32 };
    let coin = if coin_episode_count < 0 { 0 } else { coin_episode_count as u32 };
    Act217Infos { activity_id, exp_episode_count: exp, coin_episode_count: coin, type_infos: type_states }
}

} // verus!
