use crate::activity::act123::{largest_or_zero, max_or_zero};
use crate::error::LogicError;
use crate::text::{filter_map, find_map, lemma_find_map_prefix};
use vstd::prelude::*;

verus! {

/// How a game of the board-game event ended.
#[derive(Clone, Copy, PartialEq, Eq, Debug)]
pub enum GameResultType {
    Defeat,
    Draw,
    Victory,
}

impl GameResultType {
    /// The result stored as `id` (`0` defeat, `1` draw, `2` victory).
    pub fn from_id(id: i32) -> (res: Option<Self>)
        ensures
            res == if id == 0 {
                Some(GameResultType::Defeat)
            } else if id == 1 {
                Some(GameResultType::Draw)
            } else if id == 2 {
                Some(GameResultType::Victory)
            } else {
                None
            },
    {
        match id {
            0 => Some(GameResultType::Defeat),
            1 => Some(GameResultType::Draw),
            2 => Some(GameResultType::Victory),
            _ => None,
        }
    }
}

/// The accepted-reward number as the client counts it: one past the stored
/// index (held at `i32::MAX`), as a `u32` (two's complement for negatives).
pub open spec fn client_reward_id(reward_id: i32) -> u32 {
    let next: int = if reward_id == i32::MAX { i32::MAX as int } else { reward_id + 1 };
    if next >= 0 {
        next as u32
    } else {
        (next + 0x1_0000_0000) as u32
    }
}

/// Converts the stored accepted-reward index for the client.
pub fn to_client_accepted_reward_id(reward_id: i32) -> (res: u32)
    ensures
        res == client_reward_id(reward_id),
{
    let next: i64 = if reward_id == i32::MAX { i32::MAX as i64 } else { reward_id as i64 + 1 };
    if next >= 0 {
        next as u32
    } else {
        (next + 0x1_0000_0000) as u32
    }
}

/// The points of each game result, per event.
#[derive(Clone, Copy, Debug)]
pub struct Activity218ControlRow {
    pub activity_id: i32,
    pub lose_point: i32,
    pub draw_point: i32,
    pub win_point: i32,
}

/// One milestone of the board-game event: the coins it needs and its bonus.
#[derive(Clone, Debug)]
pub struct Activity218MilestoneRow {
    pub activity_id: i32,
    pub reward_id: i32,
    pub coin_num: i32,
    pub bonus: String,
}

/// The event ids of the control table, in table order.
pub open spec fn control_ids(controls: Seq<Activity218ControlRow>) -> Seq<i32> {
    controls.map_values(|c: Activity218ControlRow| c.activity_id)
}

/// The event asked for, else the largest in the control table; none for an empty table.
pub open spec fn resolved_act218(activity_id: Option<i32>, controls: Seq<Activity218ControlRow>) -> Option<i32> {
    match activity_id {
        Some(a) => Some(a),
        None => if controls.len() > 0 { Some(max_or_zero(control_ids(controls))) } else { None },
    }
}

/// The event a request names (see `resolved_act218`); refused when there is none.
pub fn resolve_activity_id(activity_id: Option<i32>, controls: &[Activity218ControlRow]) -> (res: Result<i32, LogicError>)
    ensures
        res == match resolved_act218(activity_id, controls@) {
            Some(a) => Ok::<i32, LogicError>(a),
            None => Err(LogicError::InvalidRequest),
        },
{
    if let Some(a) = activity_id {
        return Ok(a);
    }
    if controls.len() == 0 {
        return Err(LogicError::InvalidRequest);
    }
    let ghost ids = control_ids(controls@);
    let mut best = controls[0].activity_id;
    assert(ids.take(1) =~= seq![ids[0]]);
    let mut i: usize = 1;
    while i < controls.len()
        invariant
            1 <= i <= controls@.len(),
            ids == control_ids(controls@),
            best == max_or_zero(ids.take(i as int)),
        decreases controls.len() - i,
    {
        assert(ids.take(i + 1).drop_last() =~= ids.take(i as int));
        assert(ids.take(i + 1).last() == controls@[i as int].activity_id);
        if controls[i].activity_id > best {
            best = controls[i].activity_id;
        }
        i = i + 1;
    }
    assert(ids.take(controls@.len() as int) =~= ids);
    Ok(best)
}

/// The control row of event `activity_id` (the first such).
pub open spec fn control_row(controls: Seq<Activity218ControlRow>, activity_id: i32) -> Option<Activity218ControlRow> {
    find_map(controls, control_fn(activity_id))
}

/// A control row, when it belongs to event `activity_id`.
pub open spec fn control_fn(activity_id: i32) -> spec_fn(Activity218ControlRow) -> Option<Activity218ControlRow> {
    |c: Activity218ControlRow| if c.activity_id == activity_id { Some(c) } else { None }
}

/// The points a result earns in an event, from its control row.
pub open spec fn points_of(c: Activity218ControlRow, result: GameResultType) -> i32 {
    match result {
        GameResultType::Defeat => c.lose_point,
        GameResultType::Draw => c.draw_point,
        GameResultType::Victory => c.win_point,
    }
}

/// The points a result earns in event `activity_id`; refused when the
/// control table has no row for it.
pub fn game_points(activity_id: i32, result: GameResultType, controls: &[Activity218ControlRow]) -> (res: Result<i32, LogicError>)
    ensures
        res == match control_row(controls@, activity_id) {
            Some(c) => Ok::<i32, LogicError>(points_of(c, result)),
            None => Err(LogicError::InvalidRequest),
        },
{
    let ghost f = control_fn(activity_id);
    let mut i: usize = 0;
    while i < controls.len()
        invariant
            i <= controls@.len(),
            f == control_fn(activity_id),
            find_map(controls@.take(i as int), f) is None,
        decreases controls.len() - i,
    {
        assert(controls@.take(i + 1).drop_last() =~= controls@.take(i as int));
        if controls[i].activity_id == activity_id {
            proof {
                lemma_find_map_prefix(controls@, f, i + 1);
            }
            let c = controls[i];
            return Ok(
                match result {
                    GameResultType::Defeat => c.lose_point,
                    GameResultType::Draw => c.draw_point,
                    GameResultType::Victory => c.win_point,
                },
            );
        }
        i = i + 1;
    }
    assert(controls@.take(controls@.len() as int) =~= controls@);
    Err(LogicError::InvalidRequest)
}

/// The coins of event `activity_id`'s milestones, in table order.
pub open spec fn milestone_coins(milestones: Seq<Activity218MilestoneRow>, activity_id: i32) -> Seq<i32> {
    filter_map(milestones, |m: Activity218MilestoneRow| if m.activity_id == activity_id { Some(m.coin_num) } else { None })
}

/// The most coins an event counts: those of its largest milestone, `0` without one.
pub fn max_coin(activity_id: i32, milestones: &[Activity218MilestoneRow]) -> (res: i32)
    ensures
        res == max_or_zero(milestone_coins(milestones@, activity_id)),
{
    let ghost f = |m: Activity218MilestoneRow| if m.activity_id == activity_id { Some(m.coin_num) } else { None };
    let mut coins: Vec<i32> = Vec::new();
    let mut i: usize = 0;
    while i < milestones.len()
        invariant
            i <= milestones@.len(),
            f == (|m: Activity218MilestoneRow| if m.activity_id == activity_id { Some(m.coin_num) } else { None }),
            coins@ == filter_map(milestones@.take(i as int), f),
        decreases milestones.len() - i,
    {
        assert(milestones@.take(i + 1).drop_last() =~= milestones@.take(i as int));
        if milestones[i].activity_id == activity_id {
            coins.push(milestones[i].coin_num);
        }
        i = i + 1;
    }
    assert(milestones@.take(milestones@.len() as int) =~= milestones@);
    largest_or_zero(coins.as_slice())
}

/// What finishing a game stores: the event, the points earned and the coin cap.
#[derive(Clone, Copy, Debug, PartialEq, Eq)]
pub struct Act218Finish {
    pub activity_id: i32,
    pub points: i32,
    pub max_coin: i32,
}

/// Finishing a game of an event (see `resolve_activity_id`): refused without
/// an event, without a known result (see `GameResultType::from_id`) or
/// without the event's control row; else the points the result earns (see
/// `points_of`) and the event's coin cap (see `max_coin`), for the caller to store.
pub fn finish_act218_game(
    activity_id: Option<i32>,
    result: Option<i32>,
    controls: &[Activity218ControlRow],
    milestones: &[Activity218MilestoneRow],
) -> (res: Result<Act218Finish, LogicError>)
    ensures
        match resolved_act218(activity_id, controls@) {
            None => res == Err::<Act218Finish, LogicError>(LogicError::InvalidRequest),
            Some(a) => {
                let kind = match result {
                    Some(0) => Some(GameResultType::Defeat),
                    Some(1) => Some(GameResultType::Draw),
                    Some(2) => Some(GameResultType::Victory),
                    _ => None,
                };
                match (kind, control_row(controls@, a)) {
                    (Some(k), Some(c)) => res == Ok::<Act218Finish, LogicError>(
                        Act218Finish {
                            activity_id: a,
                            points: points_of(c, k),
                            max_coin: max_or_zero(milestone_coins(milestones@, a)),
                        },
                    ),
                    _ => res == Err::<Act218Finish, LogicError>(LogicError::InvalidRequest),
                }
            },
        },
{
    let a = match resolve_activity_id(activity_id, controls) {
        Ok(a) => a,
        Err(e) => {
            return Err(e);
        },
    };
    let kind = match result {
        Some(id) => GameResultType::from_id(id),
        None => None,
    };
    let kind = match kind {
        Some(k) => k,
        None => {
            return Err(LogicError::InvalidRequest);
        },
    };
    let points = match game_points(a, kind, controls) {
        Ok(p) => p,
        Err(e) => {
            return Err(e);
        },
    };
    Ok(Act218Finish { activity_id: a, points, max_coin: max_coin(a, milestones) })
}

/// Milestone `reward_id` of event `activity_id` (the first such row).
pub open spec fn milestone_row(milestones: Seq<Activity218MilestoneRow>, activity_id: i32, reward_id: i32) -> Option<Activity218MilestoneRow> {
    find_map(milestones, milestone_fn(activity_id, reward_id))
}

/// A milestone row, when it is milestone `reward_id` of event `activity_id`.
pub open spec fn milestone_fn(activity_id: i32, reward_id: i32) -> spec_fn(Activity218MilestoneRow) -> Option<Activity218MilestoneRow> {
    |m: Activity218MilestoneRow| if m.activity_id == activity_id && m.reward_id == reward_id { Some(m) } else { None }
}

/// A milestone taken: its number, its bonus, and the number the client is told.
#[derive(Clone, Debug, PartialEq, Eq)]
pub struct Act218Accept {
    pub reward_id: i32,
    pub bonus: String,
    pub accepted_reward_id: u32,
}

/// Taking the next milestone of event `activity_id`, after milestone
/// `accepted_reward_id`: refused when the event has no such milestone or the
/// coins gathered fall short of it; else its bonus (the caller then stores it
/// taken).
pub fn accept_act218_reward(
    activity_id: i32,
    accepted_reward_id: i32,
    total_coin_num: i32,
    milestones: &[Activity218MilestoneRow],
) -> (res: Result<Act218Accept, LogicError>)
    requires
        accepted_reward_id < i32::MAX,
    ensures
        match milestone_row(milestones@, activity_id, (accepted_reward_id + 1) as i32) {
            Some(m) => if total_coin_num < m.coin_num {
                res == Err::<Act218Accept, LogicError>(LogicError::InvalidRequest)
            } else {
                res == Ok::<Act218Accept, LogicError>(
                    Act218Accept {
                        reward_id: (accepted_reward_id + 1) as i32,
                        bonus: m.bonus,
                        accepted_reward_id: client_reward_id((accepted_reward_id + 1) as i32),
                    },
                )
            },
            None => res == Err::<Act218Accept, LogicError>(LogicError::InvalidRequest),
        },
{
    let reward_id = accepted_reward_id + 1;
    let ghost f = milestone_fn(activity_id, reward_id);
    let mut i: usize = 0;
    while i < milestones.len()
        invariant
            i <= milestones@.len(),
            reward_id == accepted_reward_id + 1,
            f == milestone_fn(activity_id, reward_id),
            find_map(milestones@.take(i as int), f) is None,
        decreases milestones.len() - i,
    {
        assert(milestones@.take(i + 1).drop_last() =~= milestones@.take(i as int));
        if milestones[i].activity_id == activity_id && milestones[i].reward_id == reward_id {
            proof {
                lemma_find_map_prefix(milestones@, f, i + 1);
            }
            if total_coin_num < milestones[i].coin_num {
                return Err(LogicError::InvalidRequest);
            }
            return Ok(
                Act218Accept {
                    reward_id,
                    bonus: milestones[i].bonus.clone(),
                    accepted_reward_id: to_client_accepted_reward_id(reward_id),
                },
            );
        }
        i = i + 1;
    }
    assert(milestones@.take(milestones@.len() as int) =~= milestones@);
    Err(LogicError::InvalidRequest)
}

} // verus!
