use crate::clock::{now_ms, parse_utc_millis, utc_millis_of};
use crate::error::LogicError;
use crate::text::{chars_of, find_map, lemma_find_map_prefix};
use crate::activity::act123::{largest_or_zero, max_or_zero};
use vstd::prelude::*;

verus! {

/// One stage (game type) of the dice event, with its window and its number of games.
#[derive(Clone, Debug)]
pub struct Act205StageRow {
    pub activity_id: i32,
    pub stage_id: i32,
    pub start_time: String,
    pub end_time: String,
    pub times: i32,
}

/// One prize of a mini game.
#[derive(Clone, Copy, Debug)]
pub struct Act205RewardRow {
    pub game_type: i32,
    pub reward_id: i32,
    pub is_win: bool,
}

/// The format of the stage windows.
pub open spec fn stage_format() -> Seq<char> {
    "%Y-%m-%d %H:%M:%S"@
}

/// A stage time as UTC milliseconds, `0` when it does not parse.
pub open spec fn time_ms_spec(value: Seq<char>) -> i64 {
    match utc_millis_of(value, stage_format()) {
        Some(ms) => ms,
        None => 0,
    }
}

/// Reads a stage time; see `time_ms_spec`.
pub fn parse_time_ms(value: &str) -> (res: i64)
    ensures
        res == time_ms_spec(value@),
{
    let chars = chars_of(value);
    proof {
        reveal_strlit("%Y-%m-%d %H:%M:%S");
    }
    match parse_utc_millis(chars.as_slice(), "%Y-%m-%d %H:%M:%S") {
        Some(ms) => ms,
        None => 0,
    }
}

/// The stage of the event whose window holds `now` (the first such).
pub open spec fn running_stage(stages: Seq<Act205StageRow>, activity_id: i32, now: i64) -> Option<i32> {
    find_map(stages, running_fn(activity_id, now))
}

/// A stage's id, when it belongs to the event and its window holds `now`.
pub open spec fn running_fn(activity_id: i32, now: i64) -> spec_fn(Act205StageRow) -> Option<i32> {
    |r: Act205StageRow|
        if r.activity_id == activity_id && time_ms_spec(r.start_time@) <= now && now < time_ms_spec(r.end_time@) {
            Some(r.stage_id)
        } else {
            None
        }
}

/// The smallest stage id of the event, if it has stages.
pub open spec fn min_stage(stages: Seq<Act205StageRow>, activity_id: i32) -> Option<i32>
    decreases stages.len(),
{
    if stages.len() == 0 {
        None
    } else {
        let front = min_stage(stages.drop_last(), activity_id);
        let r = stages.last();
        if r.activity_id != activity_id {
            front
        } else {
            match front {
                Some(m) => if r.stage_id < m {
                    Some(r.stage_id)
                } else {
                    Some(m)
                },
                None => Some(r.stage_id),
            }
        }
    }
}

/// The game type played at `now`: the running stage, else the event's first
/// stage; refused when the event has no stage.
pub fn active_game_type_at(stages: &[Act205StageRow], activity_id: i32, now: i64) -> (res: Result<i32, LogicError>)
    ensures
        res == match running_stage(stages@, activity_id, now) {
            Some(s) => Ok::<i32, LogicError>(s),
            None => match min_stage(stages@, activity_id) {
                Some(m) => Ok(m),
                None => Err(LogicError::InvalidRequest),
            },
        },
{
    let ghost f = running_fn(activity_id, now);
    let mut i: usize = 0;
    while i < stages.len()
        invariant
            i <= stages@.len(),
            f == running_fn(activity_id, now),
            find_map(stages@.take(i as int), f) is None,
        decreases stages.len() - i,
    {
        assert(stages@.take(i + 1).drop_last() =~= stages@.take(i as int));
        let r = &stages[i];
        if r.activity_id == activity_id {
            let start = parse_time_ms(r.start_time.as_str());
            let end = parse_time_ms(r.end_time.as_str());
            if start <= now && now < end {
                proof {
                    lemma_find_map_prefix(stages@, f, i + 1);
                }
                return Ok(r.stage_id);
            }
        }
        i = i + 1;
    }
    assert(stages@.take(stages@.len() as int) =~= stages@);
    let mut best: Option<i32> = None;
    let mut k: usize = 0;
    while k < stages.len()
        invariant
            k <= stages@.len(),
            best == min_stage(stages@.take(k as int), activity_id),
        decreases stages.len() - k,
    {
        assert(stages@.take(k + 1).drop_last() =~= stages@.take(k as int));
        if stages[k].activity_id == activity_id {
            let s = stages[k].stage_id;
            best = match best {
                Some(m) => if s < m { Some(s) } else { Some(m) },
                None => Some(s),
            };
        }
        k = k + 1;
    }
    assert(stages@.take(stages@.len() as int) =~= stages@);
    match best {
        Some(m) => Ok(m),
        None => Err(LogicError::InvalidRequest),
    }
}

/// The game type played now, by the system clock; the result is
/// `active_game_type_at` for the instant read.
pub fn active_game_type(stages: &[Act205StageRow], activity_id: i32) -> (res: Result<i32, LogicError>)
    ensures
        exists|now: i64| res == match #[trigger] running_stage(stages@, activity_id, now) {
            Some(s) => Ok::<i32, LogicError>(s),
            None => match min_stage(stages@, activity_id) {
                Some(m) => Ok(m),
                None => Err(LogicError::InvalidRequest),
            },
        },
{
    let now = now_ms();
    active_game_type_at(stages, activity_id, now)
}

/// How many games a player starts with: the stage's count, else the entry
/// table's count for the game type, else `0`.
pub fn default_game_count(stages: &[Act205StageRow], enters: &[(i32, i32)], activity_id: i32, game_type: i32) -> (res: i32)
    ensures
        res == match find_map(stages@, |r: Act205StageRow| if r.activity_id == activity_id && r.stage_id == game_type { Some(r.times) } else { None }) {
            Some(t) => t,
            None => match find_map(enters@, |e: (i32, i32)| if e.0 == game_type { Some(e.1) } else { None }) {
                Some(t) => t,
                None => 0,
            },
        },
{
    let ghost f = |r: Act205StageRow| if r.activity_id == activity_id && r.stage_id == game_type { Some(r.times) } else { None };
    let mut i: usize = 0;
    while i < stages.len()
        invariant
            i <= stages@.len(),
            f == (|r: Act205StageRow| if r.activity_id == activity_id && r.stage_id == game_type { Some(r.times) } else { None }),
            find_map(stages@.take(i as int), f) is None,
        decreases stages.len() - i,
    {
        assert(stages@.take(i + 1).drop_last() =~= stages@.take(i as int));
        if stages[i].activity_id == activity_id && stages[i].stage_id == game_type {
            proof {
                lemma_find_map_prefix(stages@, f, i + 1);
            }
            return stages[i].times;
        }
        i = i + 1;
    }
    assert(stages@.take(stages@.len() as int) =~= stages@);
    let ghost g = |e: (i32, i32)| if e.0 == game_type { Some(e.1) } else { None };
    let mut k: usize = 0;
    while k < enters.len()
        invariant
            k <= enters@.len(),
            g == (|e: (i32, i32)| if e.0 == game_type { Some(e.1) } else { None }),
            find_map(enters@.take(k as int), g) is None,
            f == (|r: Act205StageRow| if r.activity_id == activity_id && r.stage_id == game_type { Some(r.times) } else { None }),
            find_map(stages@, f) is None,
        decreases enters.len() - k,
    {
        assert(enters@.take(k + 1).drop_last() =~= enters@.take(k as int));
        if enters[k].0 == game_type {
            proof {
                lemma_find_map_prefix(enters@, g, k + 1);
            }
            return enters[k].1;
        }
        k = k + 1;
    }
    assert(enters@.take(enters@.len() as int) =~= enters@);
    0
}

/// The prize row for `reward_id` of `game_type` (the first such row).
pub open spec fn reward_row(rows: Seq<Act205RewardRow>, game_type: i32, reward_id: i32) -> Option<Act205RewardRow> {
    find_map(rows, reward_row_fn(game_type, reward_id))
}

/// A row, when it is the prize `reward_id` of `game_type`.
pub open spec fn reward_row_fn(game_type: i32, reward_id: i32) -> spec_fn(Act205RewardRow) -> Option<Act205RewardRow> {
    |r: Act205RewardRow| if r.game_type == game_type && r.reward_id == reward_id { Some(r) } else { None }
}

/// A player finishes a game of `game_type` with prize `reward_id`, holding
/// `have_game_count` games: refused for an unknown prize or with no game left;
/// otherwise one game is used up and the answer is the games left and whether
/// the prize counts as a win.
pub fn act205_finish_game(rows: &[Act205RewardRow], game_type: i32, reward_id: i32, have_game_count: i32) -> (res: Result<(i32, bool), LogicError>)
    ensures
        res == match reward_row(rows@, game_type, reward_id) {
            None => Err::<(i32, bool), LogicError>(LogicError::InvalidRequest),
            Some(r) => if have_game_count <= 0 {
                Err(LogicError::InvalidRequest)
            } else {
                Ok(((have_game_count - 1) as i32, r.is_win))
            },
        },
{
    let ghost f = reward_row_fn(game_type, reward_id);
    let mut i: usize = 0;
    while i < rows.len()
        invariant
            i <= rows@.len(),
            f == reward_row_fn(game_type, reward_id),
            find_map(rows@.take(i as int), f) is None,
        decreases rows.len() - i,
    {
        assert(rows@.take(i + 1).drop_last() =~= rows@.take(i as int));
        if rows[i].game_type == game_type && rows[i].reward_id == reward_id {
            proof {
                lemma_find_map_prefix(rows@, f, i + 1);
            }
            if have_game_count <= 0 {
                return Err(LogicError::InvalidRequest);
            }
            return Ok((have_game_count - 1, rows[i].is_win));
        }
        i = i + 1;
    }
    assert(rows@.take(rows@.len() as int) =~= rows@);
    Err(LogicError::InvalidRequest)
}

/// The event ids of the stage table, in table order.
pub open spec fn stage_ids(stages: Seq<Act205StageRow>) -> Seq<i32> {
    stages.map_values(|r: Act205StageRow| r.activity_id)
}

/// The event a request names: the one asked for, else the largest in the
/// stage table; refused for an empty table.
pub fn resolve_activity_id(activity_id: Option<i32>, stages: &[Act205StageRow]) -> (res: Result<i32, LogicError>)
    ensures
        res == match activity_id {
            Some(a) => Ok::<i32, LogicError>(a),
            None => if stages@.len() > 0 {
                Ok(max_or_zero(stage_ids(stages@)))
            } else {
                Err(LogicError::InvalidRequest)
            },
        },
{
    if let Some(a) = activity_id {
        return Ok(a);
    }
    if stages.len() == 0 {
        return Err(LogicError::InvalidRequest);
    }
    let mut ids: Vec<i32> = Vec::new();
    let mut i: usize = 0;
    while i < stages.len()
        invariant
            i <= stages@.len(),
            ids@ == stage_ids(stages@.take(i as int)),
        decreases stages.len() - i,
    {
        ids.push(stages[i].activity_id);
        i = i + 1;
        assert(ids@ =~= stage_ids(stages@.take(i as int)));
    }
    assert(stages@.take(stages@.len() as int) =~= stages@);
    Ok(largest_or_zero(ids.as_slice()))
}

/// The games a player has of `game_type`: the stored count, else the default
/// count (see `default_game_count`).
pub fn game_count(stored: Option<i32>, stages: &[Act205StageRow], enters: &[(i32, i32)], activity_id: i32, game_type: i32) -> (res: i32)
    ensures
        match stored {
            Some(c) => res == c,
            None => res == match find_map(
                stages@,
                |r: Act205StageRow| if r.activity_id == activity_id && r.stage_id == game_type { Some(r.times) } else { None },
            ) {
                Some(t) => t,
                None => match find_map(enters@, |e: (i32, i32)| if e.0 == game_type { Some(e.1) } else { None }) {
                    Some(t) => t,
                    None => 0,
                },
            },
        },
{
    match stored {
        Some(c) => c,
        None => default_game_count(stages, enters, activity_id, game_type),
    }
}

} // verus!
