use crate::activity::act123::{largest_or_zero, max_or_zero};
use vstd::prelude::*;

verus! {

/// The challenge event's view: nothing opened, entered or passed yet.
#[derive(Clone, Debug, PartialEq, Eq)]
pub struct Act158Info {
    pub activity_id: i32,
    pub open_challenge: bool,
    pub curr_difficulty: i32,
    pub pass_difficulty: Vec<i32>,
    pub enter_difficulty: Vec<i32>,
    pub pass_challenge_ids: Vec<i32>,
}

/// The challenge event's view of the event asked for, else of the largest
/// event id of its challenge table (`ids`; `0` when empty), at its start.
pub fn act158_infos(activity_id: Option<i32>, ids: &[i32]) -> (res: Act158Info)
    ensures
        res.activity_id == match activity_id {
            Some(a) => a,
            None => max_or_zero(ids@),
        },
        !res.open_challenge,
        res.curr_difficulty == 0,
        res.pass_difficulty@.len() == 0,
        res.enter_difficulty@.len() == 0,
        res.pass_challenge_ids@.len() == 0,
{
    let id = match activity_id {
        Some(a) => a,
        None => largest_or_zero(ids),
    };
    Act158Info {
        activity_id: id,
        open_challenge: false,
        curr_difficulty: 0,
        pass_difficulty: Vec::new(),
        enter_difficulty: Vec::new(),
        pass_challenge_ids: Vec::new(),
    }
}

/// The event asked for, else the largest event id of the red-envelope event's
/// constant table (`ids`; `0` when empty).
pub fn act225_activity_id(activity_id: Option<i32>, ids: &[i32]) -> (res: i32)
    ensures
        res == match activity_id {
            Some(a) => a,
            None => max_or_zero(ids@),
        },
{
    match activity_id {
        Some(a) => a,
        None => largest_or_zero(ids),
    }
}

} // verus!
