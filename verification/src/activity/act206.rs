use crate::activity::weights::{law_weighted_roll_lands_on_an_entry, lemma_total_from_bounds, parse_weight_table, pick_spec, pick_weighted, random_below, total_of, total_weight, weights_spec};
use crate::clock::now_ms;
use crate::error::LogicError;
use crate::sorting::{sort_by_key_stable, stably_sorted};
use crate::text::{filter_map, find_map, lemma_find_map_prefix};
use vstd::prelude::*;

verus! {

/// The `reward#weight` pairs of a reward table such as `1#30|2#40|7#30`.
pub fn parse_weighted(value: &str) -> (out: Vec<(i32, u32)>)
    ensures
        out@ == weights_spec(value@),
{
    parse_weight_table(value)
}

/// Draws a reward from a weighted table: nothing when the weights add up to
/// zero; else the reward that a random roll below the total lands on.
pub fn choose_weighted_reward(value: &str) -> (res: Option<i32>)
    requires
        total_weight(weights_spec(value@)) <= u32::MAX,
    ensures
        total_weight(weights_spec(value@)) == 0 ==> res is None,
        total_weight(weights_spec(value@)) > 0 ==> exists|roll: int|
            0 <= roll < total_weight(weights_spec(value@)) && res == pick_spec(weights_spec(value@), roll),
{
    let rewards = parse_weighted(value);
    let total = total_of(rewards.as_slice());
    if total == 0 {
        return None;
    }
    let roll = random_below(total);
    pick_weighted(rewards.as_slice(), roll)
}

/// A direction a player may choose, and the reward group it draws from.
#[derive(Clone, Copy, Debug)]
pub struct Act206DirectionRow {
    pub activity_id: i32,
    pub direction_id: i32,
    pub reward_group_id: i32,
}

/// A reward group, with its weighted rewards `reward#weight|...`.
#[derive(Clone, Debug)]
pub struct Act206GroupRow {
    pub group_id: i32,
    pub reward_id2_prob: String,
}

/// The stored choice of a player.
#[derive(Clone, Copy, Debug, PartialEq, Eq)]
pub struct ChosenState {
    pub direction_id: i32,
    pub direction_gen_time: u64,
    pub reselected_num: i32,
    pub reward_id: i32,
}

/// The state of the stored entry that holds a made choice.
pub const ACT206_STATE_CHOSEN: i32 = 1;

/// The text a stored choice is read from: only an entry in the chosen state
/// holds one (`stored` is the entry's state, progress and text).
pub fn chosen_entry_text(stored: Option<(i32, i32, String)>) -> (res: Option<String>)
    ensures
        res == match stored {
            Some(s) => if s.0 == ACT206_STATE_CHOSEN { Some(s.2) } else { None::<String> },
            None => None::<String>,
        },
{
    match stored {
        Some(s) => if s.0 == ACT206_STATE_CHOSEN {
            Some(s.2)
        } else {
            None
        },
        None => None,
    }
}

/// The direction row `direction_id` of the event (the first such).
pub open spec fn direction_row(rows: Seq<Act206DirectionRow>, activity_id: i32, direction_id: i32) -> Option<Act206DirectionRow> {
    find_map(rows, direction_fn(activity_id, direction_id))
}

/// A row, when it is the direction `direction_id` of the event.
pub open spec fn direction_fn(activity_id: i32, direction_id: i32) -> spec_fn(Act206DirectionRow) -> Option<Act206DirectionRow> {
    |r: Act206DirectionRow| if r.activity_id == activity_id && r.direction_id == direction_id { Some(r) } else { None }
}

/// The first row of the group `group_id`.
pub open spec fn group_row(rows: Seq<Act206GroupRow>, group_id: i32) -> Option<Act206GroupRow> {
    find_map(rows, group_fn(group_id))
}

/// A row, when it belongs to the group `group_id`.
pub open spec fn group_fn(group_id: i32) -> spec_fn(Act206GroupRow) -> Option<Act206GroupRow> {
    |r: Act206GroupRow| if r.group_id == group_id { Some(r) } else { None }
}

/// Every group's weights add up within `u32`.
pub open spec fn groups_fit(groups: Seq<Act206GroupRow>) -> bool {
    forall|i: int| 0 <= i < groups.len() ==> total_weight(weights_spec((#[trigger] groups[i]).reward_id2_prob@)) <= u32::MAX
}

/// Some roll below the total weight of `ws` lands on `reward_id`.
pub open spec fn drawn_from(ws: Seq<(i32, u32)>, reward_id: i32) -> bool {
    exists|roll: int| 0 <= roll < total_weight(ws) && pick_spec(ws, roll) == Some(reward_id)
}

/// The player chooses a direction: refused for an unknown direction, a
/// missing reward group, or a group whose weights are all zero; otherwise the
/// reward is drawn from the group's first row, and the choice is stamped with
/// the current time and no reselection.
pub fn act206_choose_direction(
    directions: &[Act206DirectionRow],
    groups: &[Act206GroupRow],
    activity_id: i32,
    direction_id: i32,
) -> (res: Result<ChosenState, LogicError>)
    requires
        groups_fit(groups@),
    ensures
        match direction_row(directions@, activity_id, direction_id) {
            None => res == Err::<ChosenState, LogicError>(LogicError::InvalidRequest),
            Some(d) => match group_row(groups@, d.reward_group_id) {
                None => res == Err::<ChosenState, LogicError>(LogicError::InvalidRequest),
                Some(g) => {
                    let ws = weights_spec(g.reward_id2_prob@);
                    if total_weight(ws) == 0 {
                        res == Err::<ChosenState, LogicError>(LogicError::InvalidRequest)
                    } else {
                        res is Ok && res->Ok_0.direction_id == direction_id && res->Ok_0.reselected_num == 0
                            && drawn_from(ws, res->Ok_0.reward_id)
                    }
                },
            },
        },
{
    let ghost f = direction_fn(activity_id, direction_id);
    let mut i: usize = 0;
    let mut found: Option<Act206DirectionRow> = None;
    assert(directions@.take(directions@.len() as int) =~= directions@);
    while i < directions.len()
        invariant_except_break
            found is None,
        invariant
            i <= directions@.len(),
            f == direction_fn(activity_id, direction_id),
            find_map(directions@.take(i as int), f) is None,
            directions@.take(directions@.len() as int) == directions@,
        ensures
            found == direction_row(directions@, activity_id, direction_id),
        decreases directions.len() - i,
    {
        assert(directions@.take(i + 1).drop_last() =~= directions@.take(i as int));
        if directions[i].activity_id == activity_id && directions[i].direction_id == direction_id {
            proof {
                lemma_find_map_prefix(directions@, f, i + 1);
            }
            found = Some(directions[i]);
            break;
        }
        i = i + 1;
    }
    let d = match found {
        Some(d) => d,
        None => {
            return Err(LogicError::InvalidRequest);
        },
    };
    let ghost g = group_fn(d.reward_group_id);
    let mut k: usize = 0;
    while k < groups.len()
        invariant
            k <= groups@.len(),
            groups_fit(groups@),
            g == group_fn(d.reward_group_id),
            find_map(groups@.take(k as int), g) is None,
            direction_row(directions@, activity_id, direction_id) == Some(d),
        decreases groups.len() - k,
    {
        assert(groups@.take(k + 1).drop_last() =~= groups@.take(k as int));
        if groups[k].group_id == d.reward_group_id {
            proof {
                lemma_find_map_prefix(groups@, g, k + 1);
                assert(total_weight(weights_spec(groups@[k as int].reward_id2_prob@)) <= u32::MAX);
            }
            return match choose_weighted_reward(groups[k].reward_id2_prob.as_str()) {
                Some(reward_id) => {
                    proof {
                        let ws = weights_spec(groups@[k as int].reward_id2_prob@);
                        lemma_total_from_bounds(ws, 0);
                        assert(total_weight(ws) > 0);
                        let roll = choose|roll: int| 0 <= roll < total_weight(ws) && Some(reward_id) == pick_spec(ws, roll);
                        assert(pick_spec(ws, roll) == Some(reward_id));
                        assert(drawn_from(ws, reward_id));
                    }
                    let now = now_ms();
                    Ok(ChosenState { direction_id, direction_gen_time: now as u64, reselected_num: 0, reward_id })
                },
                None => {
                    proof {
                        let ws = weights_spec(groups@[k as int].reward_id2_prob@);
                        if total_weight(ws) > 0 {
                            let roll = choose|roll: int| 0 <= roll < total_weight(ws) && None::<i32> == pick_spec(ws, roll);
                            law_weighted_roll_lands_on_an_entry(ws, roll);
                            assert(false);
                        }
                        lemma_total_from_bounds(ws, 0);
                    }
                    Err(LogicError::InvalidRequest)
                },
            };
        }
        k = k + 1;
    }
    assert(groups@.take(groups@.len() as int) =~= groups@);
    Err(LogicError::InvalidRequest)
}

/// The event's directions, ids in increasing order.
pub fn option_directions(directions: &[Act206DirectionRow], activity_id: i32) -> (out: Vec<i32>)
    ensures
        stably_sorted(
            out@.map_values(|d: i32| (d, ())),
            filter_map(directions@, |r: Act206DirectionRow| if r.activity_id == activity_id { Some((r.direction_id, ())) } else { None }),
        ),
{
    let ghost f = |r: Act206DirectionRow| if r.activity_id == activity_id { Some((r.direction_id, ())) } else { None };
    let mut keyed: Vec<(i32, ())> = Vec::new();
    let mut i: usize = 0;
    while i < directions.len()
        invariant
            i <= directions@.len(),
            f == (|r: Act206DirectionRow| if r.activity_id == activity_id { Some((r.direction_id, ())) } else { None }),
            keyed@ == filter_map(directions@.take(i as int), f),
        decreases directions.len() - i,
    {
        assert(directions@.take(i + 1).drop_last() =~= directions@.take(i as int));
        if directions[i].activity_id == activity_id {
            keyed.push((directions[i].direction_id, ()));
        }
        i = i + 1;
    }
    assert(directions@.take(directions@.len() as int) =~= directions@);
    let sorted = sort_by_key_stable(keyed);
    let mut out: Vec<i32> = Vec::new();
    let mut k: usize = 0;
    while k < sorted.len()
        invariant
            k <= sorted@.len(),
            out@.len() == k,
            forall|j: int| 0 <= j < k ==> #[trigger] out@[j] == sorted@[j].0,
        decreases sorted.len() - k,
    {
        out.push(sorted[k].0);
        k = k + 1;
    }
    assert forall|j: int| 0 <= j < sorted@.len() implies #[trigger] sorted@[j] == (out@[j], ()) by {
        let (a, b) = sorted@[j];
        assert(b == ());
    }
    assert(out@.map_values(|d: i32| (d, ())) =~= sorted@);
    out
}

/// The reward a stored choice leads to: refused without a current choice or
/// when the reward table lacks its reward; else the position of the reward's
/// first row.
pub fn act206_get_bonus(rewards: &[i32], chosen: Option<ChosenState>) -> (res: Result<usize, LogicError>)
    ensures
        match chosen {
            None => res == Err::<usize, LogicError>(LogicError::InvalidRequest),
            Some(c) => if rewards@.contains(c.reward_id) {
                res is Ok && res->Ok_0 < rewards@.len() && rewards@[res->Ok_0 as int] == c.reward_id && forall|j: int|
                    0 <= j < res->Ok_0 ==> rewards@[j] != c.reward_id
            } else {
                res == Err::<usize, LogicError>(LogicError::InvalidRequest)
            },
        },
{
    let c = match chosen {
        Some(c) => c,
        None => {
            return Err(LogicError::InvalidRequest);
        },
    };
    let mut i: usize = 0;
    while i < rewards.len()
        invariant
            i <= rewards@.len(),
            chosen == Some(c),
            forall|j: int| 0 <= j < i ==> rewards@[j] != c.reward_id,
        decreases rewards.len() - i,
    {
        if rewards[i] == c.reward_id {
            return Ok(i);
        }
        i = i + 1;
    }
    Err(LogicError::InvalidRequest)
}

} // verus!
