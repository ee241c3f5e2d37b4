use crate::activity::weights::{
    law_weighted_roll_lands_on_an_entry, parse_weight_table, pick_spec, pick_weighted, random_below, total_of,
    total_weight, weights_spec,
};
use crate::error::LogicError;
use vstd::prelude::*;

verus! {

/// The `rarity#weight` pairs of a summon pool's weights.
pub fn parse_weights(value: &str) -> (out: Vec<(i32, u32)>)
    ensures
        out@ == weights_spec(value@),
{
    parse_weight_table(value)
}

/// Draws a rarity: refused when the weights add up to zero; else the rarity
/// that a random roll below the total lands on.
pub fn choose_weighted(weights: &[(i32, u32)]) -> (res: Result<i32, LogicError>)
    requires
        total_weight(weights@) <= u32::MAX,
    ensures
        total_weight(weights@) == 0 ==> res == Err::<i32, LogicError>(LogicError::InvalidRequest),
        total_weight(weights@) > 0 ==> exists|roll: int|
            0 <= roll < total_weight(weights@) && pick_spec(weights@, roll) == Some(res->Ok_0) && res is Ok,
{
    let total = total_of(weights);
    if total == 0 {
        return Err(LogicError::InvalidRequest);
    }
    let roll = random_below(total);
    proof {
        law_weighted_roll_lands_on_an_entry(weights@, roll as int);
    }
    match pick_weighted(weights, roll) {
        Some(r) => Ok(r),
        None => Ok(weights[0].0),
    }
}

/// One row of the simulated-summon event table.
#[derive(Clone, Debug)]
pub struct Activity221Row {
    pub activity_id: i32,
    pub summon_times: i32,
    pub pool_id: i32,
    pub double_six_rate: i32,
    pub init_weight: String,
}

/// A player's state in the simulated-summon event: the ten-hero draws kept so
/// far, and the draw picked (`0` while none is; the pick counts from `1`).
#[derive(Clone, Debug, PartialEq, Eq)]
pub struct Act221State {
    pub saved_hero_ids: Vec<Vec<i32>>,
    pub select_index: i32,
}

/// The index of the row with the largest event id (the last such in table
/// order), none for an empty table.
pub open spec fn last_max_index(rows: Seq<Activity221Row>) -> Option<int>
    decreases rows.len(),
{
    if rows.len() == 0 {
        None
    } else {
        let i = rows.len() - 1;
        match last_max_index(rows.drop_last()) {
            Some(m) => if rows[i].activity_id >= rows[m].activity_id { Some(i) } else { Some(m) },
            None => Some(i),
        }
    }
}

/// The index of the first row of event `activity_id`, none when it has none.
pub open spec fn first_index_of(rows: Seq<Activity221Row>, activity_id: i32) -> Option<int>
    decreases rows.len(),
{
    if rows.len() == 0 {
        None
    } else {
        match first_index_of(rows.drop_last(), activity_id) {
            Some(k) => Some(k),
            None => if rows.last().activity_id == activity_id { Some(rows.len() - 1) } else { None },
        }
    }
}

/// The event row a request uses: the row of the event asked for, else (none
/// asked, or none found) the row with the largest event id.
pub open spec fn cfg_index(activity_id: Option<i32>, rows: Seq<Activity221Row>) -> Option<int> {
    match activity_id {
        Some(a) => match first_index_of(rows, a) {
            Some(k) => Some(k),
            None => last_max_index(rows),
        },
        None => last_max_index(rows),
    }
}

/// The event row a request uses (see `cfg_index`), by index; refused for an
/// empty table.
pub fn activity_cfg(activity_id: Option<i32>, rows: &[Activity221Row]) -> (res: Result<usize, LogicError>)
    ensures
        match cfg_index(activity_id, rows@) {
            Some(k) => res == Ok::<usize, LogicError>(k as usize) && 0 <= k < rows@.len(),
            None => res == Err::<usize, LogicError>(LogicError::InvalidRequest),
        },
{
    let mut first: Option<usize> = None;
    let mut best: Option<usize> = None;
    let mut i: usize = 0;
    while i < rows.len()
        invariant
            i <= rows@.len(),
            match first {
                Some(k) => match activity_id {
                    Some(a) => first_index_of(rows@.take(i as int), a) == Some(k as int) && k < i,
                    None => false,
                },
                None => match activity_id {
                    Some(a) => first_index_of(rows@.take(i as int), a) is None,
                    None => true,
                },
            },
            match best {
                Some(m) => last_max_index(rows@.take(i as int)) == Some(m as int) && m < i,
                None => last_max_index(rows@.take(i as int)) is None && i == 0,
            },
        decreases rows.len() - i,
    {
        let ghost t = rows@.take(i + 1);
        assert(t.drop_last() =~= rows@.take(i as int));
        assert(t[i as int] == rows@[i as int]);
        if let Some(a) = activity_id {
            if first.is_none() && rows[i].activity_id == a {
                first = Some(i);
            }
        }
        best = match best {
            Some(m) => {
                assert(t[m as int] == rows@[m as int]);
                if rows[i].activity_id >= rows[m].activity_id { Some(i) } else { Some(m) }
            },
            None => Some(i),
        };
        i = i + 1;
    }
    assert(rows@.take(rows@.len() as int) =~= rows@);
    match first {
        Some(k) => Ok(k),
        None => match best {
            Some(m) => Ok(m),
            None => Err(LogicError::InvalidRequest),
        },
    }
}

/// The draws left: the event's draws less those kept, never below zero.
pub open spec fn left_times_spec(cfg: Activity221Row, state: Act221State) -> int {
    let left = cfg.summon_times - state.saved_hero_ids@.len();
    if left < 0 { 0 } else { left }
}

/// The draws left; see `left_times_spec`.
pub fn left_times(cfg: &Activity221Row, state: &Act221State) -> (res: i32)
    requires
        state.saved_hero_ids@.len() <= i32::MAX,
        i32::MIN <= cfg.summon_times - state.saved_hero_ids@.len(),
    ensures
        res == left_times_spec(*cfg, *state),
{
    let left = cfg.summon_times - state.saved_hero_ids.len() as i32;
    if left < 0 { 0 } else { left }
}

/// A draw may be made: no pick made yet and draws left.
pub fn act221_can_summon(cfg: &Activity221Row, state: &Act221State) -> (res: bool)
    requires
        state.saved_hero_ids@.len() <= i32::MAX,
        i32::MIN <= cfg.summon_times - state.saved_hero_ids@.len(),
    ensures
        res == (state.select_index == 0 && left_times_spec(*cfg, *state) > 0),
{
    state.select_index == 0 && left_times(cfg, state) > 0
}

/// Keeps a new draw, after those kept so far.
pub fn act221_record_summon(state: &mut Act221State, heroes: Vec<i32>)
    ensures
        final(state).select_index == old(state).select_index,
        final(state).saved_hero_ids@ == old(state).saved_hero_ids@.push(heroes),
{
    state.saved_hero_ids.push(heroes);
}

/// The kept draw a pick names: pick `k` names draw `k - 1`, a pick below `1`
/// the first draw.
pub open spec fn picked_draw(select_index: i32) -> int {
    if select_index - 1 < 0 { 0 } else { select_index - 1 }
}

/// A player picks one of the kept draws: refused once a pick was made, without
/// a pick, or for a pick that names no kept draw (see `picked_draw`); else the
/// pick is stored and the heroes of that draw are returned, to be granted.
pub fn act221_select(state: &mut Act221State, select_index: Option<i32>) -> (res: Result<Vec<i32>, LogicError>)
    requires
        old(state).select_index == 0 ==> select_index != Some(i32::MIN),
    ensures
        match select_index {
            Some(k) => if old(state).select_index == 0 && picked_draw(k) < old(state).saved_hero_ids@.len() {
                (res matches Ok(h) && h@ == old(state).saved_hero_ids@[picked_draw(k)]@)
                    && final(state).select_index == k
                    && final(state).saved_hero_ids@ == old(state).saved_hero_ids@
            } else {
                res == Err::<Vec<i32>, LogicError>(LogicError::InvalidRequest) && *final(state) == *old(state)
            },
            None => res == Err::<Vec<i32>, LogicError>(LogicError::InvalidRequest) && *final(state) == *old(state),
        },
{
    if state.select_index != 0 {
        return Err(LogicError::InvalidRequest);
    }
    let k = match select_index {
        Some(k) => k,
        None => {
            return Err(LogicError::InvalidRequest);
        },
    };
    let draw = if k - 1 < 0 { 0 } else { k - 1 };
    if (draw as usize) >= state.saved_hero_ids.len() {
        return Err(LogicError::InvalidRequest);
    }
    let heroes = state.saved_hero_ids[draw as usize].clone();
    state.select_index = k;
    Ok(heroes)
}

} // verus!
