use crate::error::LogicError;
use crate::sorting::{sort_by_key_stable, stably_sorted};
use crate::text::{chars_of, find_map, lemma_find_map_prefix, parse_i32, parse_i32_spec};
use vstd::prelude::*;

verus! {

/// The constant entry of the stage event that names its current event.
pub const ACT229_CURRENT_ACTIVITY_CONST_ID: i32 = 2;

/// One stage of the stage event table.
#[derive(Clone, Copy, Debug)]
pub struct Activity229EpisodeRow {
    pub activity_id: i32,
    pub stage: i32,
}

/// What a player saved of one stage: its stars and rounds, and the heroes used
/// (as stored, a JSON list).
#[derive(Clone, Debug)]
pub struct SavedStage {
    pub stage_id: i32,
    pub star: i32,
    pub max_star: i32,
    pub round: i32,
    pub min_round: i32,
    pub heroes_json: String,
}

/// One hero of a saved team, as the client shows it.
#[derive(Clone, Debug, PartialEq, Eq)]
pub struct Act229Hero {
    pub hero_id: Option<i32>,
    pub equip_uids: Vec<i64>,
}

/// One stage as the client shows it; `heroes_json` is `None` for a stage
/// never saved.
#[derive(Clone, Debug, PartialEq, Eq)]
pub struct Act229Stage {
    pub star: i32,
    pub max_star: i32,
    pub round: i32,
    pub min_round: i32,
    pub heroes_json: Option<String>,
}

/// The value of constant `id` (the first such row) read as a number.
pub open spec fn const_value(consts: Seq<(i32, String)>, id: i32) -> Option<i32> {
    match find_map(consts, const_fn(id)) {
        Some(v) => parse_i32_spec(v@),
        None => None,
    }
}

/// A constant row read as its text, when its id is `id`.
pub open spec fn const_fn(id: i32) -> spec_fn((i32, String)) -> Option<String> {
    |c: (i32, String)| if c.0 == id { Some(c.1) } else { None }
}

/// The event a request names: the one asked for, else the number in the
/// constant entry that names the current event; refused when there is none.
pub fn act229_activity_id(activity_id: Option<i32>, consts: &[(i32, String)]) -> (res: Result<i32, LogicError>)
    ensures
        res == match activity_id {
            Some(a) => Ok::<i32, LogicError>(a),
            None => match const_value(consts@, ACT229_CURRENT_ACTIVITY_CONST_ID) {
                Some(v) => Ok(v),
                None => Err(LogicError::InvalidRequest),
            },
        },
{
    if let Some(a) = activity_id {
        return Ok(a);
    }
    let ghost f = const_fn(ACT229_CURRENT_ACTIVITY_CONST_ID);
    let mut i: usize = 0;
    while i < consts.len()
        invariant
            i <= consts@.len(),
            f == const_fn(ACT229_CURRENT_ACTIVITY_CONST_ID),
            activity_id is None,
            find_map(consts@.take(i as int), f) is None,
        decreases consts.len() - i,
    {
        assert(consts@.take(i + 1).drop_last() =~= consts@.take(i as int));
        if consts[i].0 == ACT229_CURRENT_ACTIVITY_CONST_ID {
            proof {
                lemma_find_map_prefix(consts@, f, i + 1);
            }
            let chars = chars_of(consts[i].1.as_str());
            return match parse_i32(chars.as_slice()) {
                Some(v) => Ok(v),
                None => Err(LogicError::InvalidRequest),
            };
        }
        i = i + 1;
    }
    assert(consts@.take(consts@.len() as int) =~= consts@);
    Err(LogicError::InvalidRequest)
}

/// The saved state of stage `stage` (the first such), as the client shows it:
/// zeros and no heroes when it was never saved.
pub open spec fn stage_state(saved: Seq<SavedStage>, stage: i32) -> Act229Stage {
    match find_map(saved, saved_fn(stage)) {
        Some(s) => Act229Stage {
            star: s.star,
            max_star: s.max_star,
            round: s.round,
            min_round: s.min_round,
            heroes_json: Some(s.heroes_json),
        },
        None => Act229Stage { star: 0, max_star: 0, round: 0, min_round: 0, heroes_json: None },
    }
}

/// A saved stage, when it is stage `stage`.
pub open spec fn saved_fn(stage: i32) -> spec_fn(SavedStage) -> Option<SavedStage> {
    |s: SavedStage| if s.stage_id == stage { Some(s) } else { None }
}

fn find_saved(saved: &[SavedStage], stage: i32) -> (res: Act229Stage)
    ensures
        res == stage_state(saved@, stage),
{
    let ghost f = saved_fn(stage);
    let mut i: usize = 0;
    while i < saved.len()
        invariant
            i <= saved@.len(),
            f == saved_fn(stage),
            find_map(saved@.take(i as int), f) is None,
        decreases saved.len() - i,
    {
        assert(saved@.take(i + 1).drop_last() =~= saved@.take(i as int));
        if saved[i].stage_id == stage {
            proof {
                lemma_find_map_prefix(saved@, f, i + 1);
            }
            let s = &saved[i];
            return Act229Stage {
                star: s.star,
                max_star: s.max_star,
                round: s.round,
                min_round: s.min_round,
                heroes_json: Some(s.heroes_json.clone()),
            };
        }
        i = i + 1;
    }
    assert(saved@.take(saved@.len() as int) =~= saved@);
    Act229Stage { star: 0, max_star: 0, round: 0, min_round: 0, heroes_json: None }
}

/// The stages of event `activity_id` in table order, each with its saved state.
pub open spec fn stage_entries(rows: Seq<Activity229EpisodeRow>, activity_id: i32, saved: Seq<SavedStage>) -> Seq<(i32, Act229Stage)>
    decreases rows.len(),
{
    if rows.len() == 0 {
        Seq::empty()
    } else {
        let front = stage_entries(rows.drop_last(), activity_id, saved);
        let r = rows.last();
        if r.activity_id == activity_id {
            front.push((r.stage, stage_state(saved, r.stage)))
        } else {
            front
        }
    }
}

/// The stages of event `activity_id` with their saved state (see
/// `stage_entries`), ordered by stage (equal stages in table order).
pub fn act229_info(activity_id: i32, rows: &[Activity229EpisodeRow], saved: &[SavedStage]) -> (res: Vec<(i32, Act229Stage)>)
    ensures
        stably_sorted(res@, stage_entries(rows@, activity_id, saved@)),
{
    let mut listed: Vec<(i32, Act229Stage)> = Vec::new();
    let mut i: usize = 0;
    while i < rows.len()
        invariant
            i <= rows@.len(),
            listed@ == stage_entries(rows@.take(i as int), activity_id, saved@),
        decreases rows.len() - i,
    {
        assert(rows@.take(i + 1).drop_last() =~= rows@.take(i as int));
        if rows[i].activity_id == activity_id {
            let state = find_saved(saved, rows[i].stage);
            listed.push((rows[i].stage, state));
        }
        i = i + 1;
    }
    assert(rows@.take(rows@.len() as int) =~= rows@);
    sort_by_key_stable(listed)
}

} // verus!
