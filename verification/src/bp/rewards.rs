use crate::text::{chars_of, contains_i32, filter_map, split, split_spec};
use vstd::prelude::*;

verus! {

/// The `index`-th `|`-separated choice of a self-select reward list; none for
/// a negative index or one past the list.
pub open spec fn select_reward_spec(value: Seq<char>, index: i32) -> Option<Seq<char>> {
    let parts = split_spec(value, '|');
    if index < 0 || index >= parts.len() {
        None
    } else {
        Some(parts[index as int])
    }
}

/// The chosen entry of a self-select reward list, as its characters.
pub fn select_reward(value: &str, index: i32) -> (res: Option<Vec<char>>)
    ensures
        match res {
            Some(v) => select_reward_spec(value@, index) == Some(v@),
            None => select_reward_spec(value@, index) is None,
        },
{
    if index < 0 {
        return None;
    }
    let chars = chars_of(value);
    let mut parts = split(chars.as_slice(), '|');
    let i = index as usize;
    if i >= parts.len() {
        return None;
    }
    let ghost pv = parts.deep_view();
    assert(pv[i as int] == parts@[i as int]@);
    let piece = parts.swap_remove(i);
    Some(piece)
}

/// `a / b` as Rust's `/` computes it on integers: rounded toward zero.
pub open spec fn trunc_div(a: int, b: int) -> int {
    if a >= 0 {
        a / b
    } else {
        -((-a) / b)
    }
}

/// The highest level a score reaches, with `exp_level_up` points a level
/// (at least one point a level).
pub open spec fn max_claim_level(score: i32, exp_level_up: i32) -> int {
    trunc_div(score as int, if exp_level_up > 1 { exp_level_up as int } else { 1 })
}

fn claim_level(score: i32, exp_level_up: i32) -> (res: i32)
    ensures
        res == max_claim_level(score, exp_level_up),
{
    let per: i32 = if exp_level_up > 1 { exp_level_up } else { 1 };
    if score >= 0 {
        score / per
    } else {
        let q: i64 = (-(score as i64)) / (per as i64);
        assert(q <= 0x8000_0000);
        (-q) as i32
    }
}

/// One level of a battle pass, with its four reward lists.
#[derive(Clone, Debug)]
pub struct BpBonusRow {
    pub level: i32,
    pub free_bonus: String,
    pub pay_bonus: String,
    pub sp_free_bonus: String,
    pub sp_pay_bonus: String,
}

/// What a player holds of a battle pass.
#[derive(Clone, Debug)]
pub struct BpState {
    pub score: i32,
    pub pay_status: i32,
    pub has_get_free_bonus: Vec<i32>,
    pub has_get_pay_bonus: Vec<i32>,
    pub has_get_sp_free_bonus: Vec<i32>,
    pub has_get_sp_pay_bonus: Vec<i32>,
}

/// The levels whose rewards a claim takes, per track, in table order.
#[derive(Clone, Debug)]
pub struct BpClaimPlan {
    pub free: Vec<i32>,
    pub pay: Vec<i32>,
    pub sp_free: Vec<i32>,
    pub sp_pay: Vec<i32>,
}

/// The reward list of a level on one track (`0` free, `1` pay, `2` special
/// free, `3` special pay).
pub open spec fn track_text(r: BpBonusRow, track: int) -> Seq<char> {
    if track == 0 {
        r.free_bonus@
    } else if track == 1 {
        r.pay_bonus@
    } else if track == 2 {
        r.sp_free_bonus@
    } else {
        r.sp_pay_bonus@
    }
}

/// A level is claimed on a track when the track is included, the level is
/// reached and asked for (all levels, or the one named), the track has a
/// reward there, and it was not taken before.
pub open spec fn claim_fn(max_level: int, level: Option<i32>, claim_all: bool, enabled: bool, track: int, claimed: Seq<i32>) -> spec_fn(BpBonusRow) -> Option<i32> {
    |r: BpBonusRow|
        if enabled && r.level <= max_level && (claim_all || level == Some(r.level)) && track_text(r, track).len() > 0
            && !claimed.contains(r.level) {
            Some(r.level)
        } else {
            None
        }
}

/// The levels claimed on one track.
pub open spec fn claim_levels(rows: Seq<BpBonusRow>, max_level: int, level: Option<i32>, claim_all: bool, enabled: bool, track: int, claimed: Seq<i32>) -> Seq<i32> {
    filter_map(rows, claim_fn(max_level, level, claim_all, enabled, track, claimed))
}

/// Which tracks a claim takes: the special tracks when asked for, else the
/// normal ones; the free track unless only the paid one is asked for a single
/// level; the paid tracks only once the pass is bought.
pub open spec fn includes(state_pay: i32, level: Option<i32>, pay_bonus: Option<bool>, is_sp: Option<bool>) -> (bool, bool, bool, bool) {
    let claim_all = level.unwrap_or(0) <= 0;
    let wants_sp = is_sp.unwrap_or(false);
    let wants_pay = pay_bonus.unwrap_or(false);
    (
        !wants_sp && (!wants_pay || claim_all),
        !wants_sp && (wants_pay || claim_all) && state_pay > 0,
        wants_sp && (!wants_pay || claim_all),
        wants_sp && (wants_pay || claim_all) && state_pay > 0,
    )
}

fn track_levels(rows: &[BpBonusRow], max_level: i32, level: Option<i32>, claim_all: bool, enabled: bool, track: u8, claimed: &[i32]) -> (out: Vec<i32>)
    requires
        track < 4,
    ensures
        out@ == claim_levels(rows@, max_level as int, level, claim_all, enabled, track as int, claimed@),
{
    let ghost f = claim_fn(max_level as int, level, claim_all, enabled, track as int, claimed@);
    let mut out: Vec<i32> = Vec::new();
    let mut i: usize = 0;
    while i < rows.len()
        invariant
            i <= rows@.len(),
            track < 4,
            f == claim_fn(max_level as int, level, claim_all, enabled, track as int, claimed@),
            out@ == filter_map(rows@.take(i as int), f),
        decreases rows.len() - i,
    {
        assert(rows@.take(i + 1).drop_last() =~= rows@.take(i as int));
        let r = &rows[i];
        let text = if track == 0 {
            chars_of(r.free_bonus.as_str())
        } else if track == 1 {
            chars_of(r.pay_bonus.as_str())
        } else if track == 2 {
            chars_of(r.sp_free_bonus.as_str())
        } else {
            chars_of(r.sp_pay_bonus.as_str())
        };
        let asked = claim_all || level == Some(r.level);
        if enabled && r.level <= max_level && asked && text.len() > 0 && !contains_i32(claimed, r.level) {
            out.push(r.level);
        }
        i = i + 1;
    }
    assert(rows@.take(rows@.len() as int) =~= rows@);
    out
}

/// The levels a battle-pass claim takes on each track; see `includes` and
/// `claim_fn`. `level` names one level, or all reached levels when it is
/// missing or not positive.
pub fn bp_claim_plan(
    rows: &[BpBonusRow],
    state: &BpState,
    exp_level_up: i32,
    level: Option<i32>,
    pay_bonus: Option<bool>,
    is_sp: Option<bool>,
) -> (plan: BpClaimPlan)
    ensures
        ({
            let m = max_claim_level(state.score, exp_level_up);
            let all = level.unwrap_or(0) <= 0;
            let inc = includes(state.pay_status, level, pay_bonus, is_sp);
            &&& plan.free@ == claim_levels(rows@, m, level, all, inc.0, 0, state.has_get_free_bonus@)
            &&& plan.pay@ == claim_levels(rows@, m, level, all, inc.1, 1, state.has_get_pay_bonus@)
            &&& plan.sp_free@ == claim_levels(rows@, m, level, all, inc.2, 2, state.has_get_sp_free_bonus@)
            &&& plan.sp_pay@ == claim_levels(rows@, m, level, all, inc.3, 3, state.has_get_sp_pay_bonus@)
        }),
{
    let max_level = claim_level(state.score, exp_level_up);
    let claim_all = match level {
        Some(l) => l <= 0,
        None => true,
    };
    let wants_sp = match is_sp {
        Some(b) => b,
        None => false,
    };
    let wants_pay = match pay_bonus {
        Some(b) => b,
        None => false,
    };
    let include_free = !wants_sp && (!wants_pay || claim_all);
    let include_pay = !wants_sp && (wants_pay || claim_all) && state.pay_status > 0;
    let include_sp_free = wants_sp && (!wants_pay || claim_all);
    let include_sp_pay = wants_sp && (wants_pay || claim_all) && state.pay_status > 0;
    BpClaimPlan {
        free: track_levels(rows, max_level, level, claim_all, include_free, 0, state.has_get_free_bonus.as_slice()),
        pay: track_levels(rows, max_level, level, claim_all, include_pay, 1, state.has_get_pay_bonus.as_slice()),
        sp_free: track_levels(rows, max_level, level, claim_all, include_sp_free, 2, state.has_get_sp_free_bonus.as_slice()),
        sp_pay: track_levels(rows, max_level, level, claim_all, include_sp_pay, 3, state.has_get_sp_pay_bonus.as_slice()),
    }
}

/// A self-select reward of `level` may be taken: the pass is bought, the score
/// reaches the level, and no self-select reward of that level was taken.
pub fn self_select_allowed(pay_status: i32, score: i32, exp_level_up: i32, level: i32, taken_levels: &[Option<i32>]) -> (res: bool)
    ensures
        res == (pay_status != 0 && max_claim_level(score, exp_level_up) >= level && !taken_levels@.contains(
            Some(level),
        )),
{
    if pay_status == 0 || claim_level(score, exp_level_up) < level {
        return false;
    }
    let mut i: usize = 0;
    while i < taken_levels.len()
        invariant
            i <= taken_levels@.len(),
            forall|k: int| 0 <= k < i ==> taken_levels@[k] != Some(level),
        decreases taken_levels.len() - i,
    {
        if taken_levels[i] == Some(level) {
            assert(taken_levels@[i as int] == Some(level));
            return false;
        }
        i = i + 1;
    }
    true
}

} // verus!
