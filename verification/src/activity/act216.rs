use crate::error::LogicError;
use crate::sorting::{lemma_sorted_keeps, sort_by_key_stable, stably_sorted};
use crate::text::{contains_i32, chars_eq, chars_of, find_map, i32_list, i32_list_spec, lemma_find_map_prefix, lemma_split_nonempty, parse_i32, parse_i32_spec, split, split_spec};
use vstd::prelude::*;

verus! {

/// The flags the growth event stores per player.
#[derive(Clone, Copy, PartialEq, Eq, Debug)]
pub enum Act216Flag {
    OnceBonus,
    TalentItem,
}

impl Act216Flag {
    /// The stored entry of the flag (`1` once bonus, `2` talent item).
    pub fn id(self) -> (res: i32)
        ensures
            res == match self {
                Act216Flag::OnceBonus => 1i32,
                Act216Flag::TalentItem => 2i32,
            },
    {
        match self {
            Act216Flag::OnceBonus => 1,
            Act216Flag::TalentItem => 2,
        }
    }
}

/// What the growth tasks read of a hero.
#[derive(Clone, Copy, Debug)]
pub struct HeroSnapshot {
    pub hero_id: i32,
    pub level: i32,
    pub rank: i32,
    pub talent: i32,
}

/// `value.split(separator)` with every piece that is not an `i32` skipped.
pub fn parse_i32s(value: &str, separator: char) -> (out: Vec<i32>)
    ensures
        out@ == i32_list_spec(value@, separator),
{
    let chars = chars_of(value);
    i32_list(chars.as_slice(), separator)
}

/// The rarity of `hero_id` in the hero table `rares` of `(hero, rarity)` pairs
/// (the first pair of that hero).
pub open spec fn rare_of_spec(rares: Seq<(i32, i32)>, hero_id: i32) -> Option<i32> {
    find_map(rares, rare_pair_fn(hero_id))
}

/// The rarity in a `(hero, rarity)` pair, when it is the pair of `hero_id`.
pub open spec fn rare_pair_fn(hero_id: i32) -> spec_fn((i32, i32)) -> Option<i32> {
    |p: (i32, i32)| if p.0 == hero_id { Some(p.1) } else { None }
}

/// The rarity of a hero, if the table lists it.
pub fn hero_rare(rares: &[(i32, i32)], hero_id: i32) -> (res: Option<i32>)
    ensures
        res == rare_of_spec(rares@, hero_id),
{
    let ghost f = rare_pair_fn(hero_id);
    let mut i: usize = 0;
    while i < rares.len()
        invariant
            i <= rares@.len(),
            f == rare_pair_fn(hero_id),
            find_map(rares@.take(i as int), f) is None,
        decreases rares.len() - i,
    {
        assert(rares@.take(i + 1).drop_last() =~= rares@.take(i as int));
        if rares[i].0 == hero_id {
            proof {
                lemma_find_map_prefix(rares@, f, i + 1);
            }
            return Some(rares[i].1);
        }
        i = i + 1;
    }
    assert(rares@.take(rares@.len() as int) =~= rares@);
    None
}

/// How many of the first `n` heroes satisfy `p`.
pub open spec fn count_heroes(heroes: Seq<HeroSnapshot>, p: spec_fn(int) -> bool, n: int) -> int
    decreases n,
{
    if n <= 0 {
        0
    } else {
        count_heroes(heroes, p, n - 1) + if p(n - 1) { 1int } else { 0int }
    }
}

proof fn lemma_count_bound(heroes: Seq<HeroSnapshot>, p: spec_fn(int) -> bool, n: int)
    requires
        n >= 0,
    ensures
        0 <= count_heroes(heroes, p, n) <= n,
    decreases n,
{
    if n > 0 {
        lemma_count_bound(heroes, p, n - 1);
    }
}

/// A task that counts heroes of a rarity with at least a value in one of
/// their stats: `rare#min` read from `param`; `0` unless it has exactly two numbers.
pub open spec fn stat_progress_spec(param: Seq<char>, heroes: Seq<HeroSnapshot>, rares: Seq<(i32, i32)>, talent: bool) -> int {
    let parts = i32_list_spec(param, '#');
    if parts.len() != 2 {
        0
    } else {
        count_heroes(
            heroes,
            |i: int|
                rare_of_spec(rares, heroes[i].hero_id) == Some(parts[0]) && (if talent {
                    heroes[i].talent
                } else {
                    heroes[i].rank
                }) >= parts[1],
            heroes.len() as int,
        )
    }
}

fn stat_progress(param: &str, heroes: &[HeroSnapshot], rares: &[(i32, i32)], talent: bool) -> (res: i32)
    requires
        heroes@.len() <= i32::MAX,
    ensures
        res == stat_progress_spec(param@, heroes@, rares@, talent),
{
    let parts = parse_i32s(param, '#');
    if parts.len() != 2 {
        return 0;
    }
    let rare = parts[0];
    let min = parts[1];
    let ghost p = |i: int|
        rare_of_spec(rares@, heroes@[i].hero_id) == Some(rare) && (if talent {
            heroes@[i].talent
        } else {
            heroes@[i].rank
        }) >= min;
    let mut count: i32 = 0;
    let mut i: usize = 0;
    while i < heroes.len()
        invariant
            i <= heroes@.len(),
            heroes@.len() <= i32::MAX,
            p == (|i: int|
                rare_of_spec(rares@, heroes@[i].hero_id) == Some(rare) && (if talent {
                    heroes@[i].talent
                } else {
                    heroes@[i].rank
                }) >= min),
            count == count_heroes(heroes@, p, i as int),
        decreases heroes.len() - i,
    {
        proof {
            lemma_count_bound(heroes@, p, i as int);
        }
        let h = heroes[i];
        let stat = if talent { h.talent } else { h.rank };
        if hero_rare(rares, h.hero_id) == Some(rare) && stat >= min {
            count = count + 1;
        }
        i = i + 1;
    }
    assert(parts@ == i32_list_spec(param@, '#'));
    count
}

/// Heroes of the rarity `rare` with rank at least `rank`, for `param` = `rare#rank`.
pub fn rare_rank_progress(param: &str, heroes: &[HeroSnapshot], rares: &[(i32, i32)]) -> (res: i32)
    requires
        heroes@.len() <= i32::MAX,
    ensures
        res == stat_progress_spec(param@, heroes@, rares@, false),
{
    stat_progress(param, heroes, rares, false)
}

/// Heroes of the rarity `rare` with talent at least `talent`, for `param` = `rare#talent`.
pub fn talent_progress(param: &str, heroes: &[HeroSnapshot], rares: &[(i32, i32)]) -> (res: i32)
    requires
        heroes@.len() <= i32::MAX,
    ensures
        res == stat_progress_spec(param@, heroes@, rares@, true),
{
    stat_progress(param, heroes, rares, true)
}

/// The parts of a level task's `param`: `rare|level` or `rare|level|id#id...`;
/// `None` when the rarity or the level is not a number.
pub open spec fn level_param(param: Seq<char>) -> Option<(i32, i32, Option<Seq<i32>>)> {
    let parts = split_spec(param, '|');
    match parse_i32_spec(parts[0]) {
        None => None,
        Some(rare) => if parts.len() < 2 {
            None
        } else {
            match parse_i32_spec(parts[1]) {
                None => None,
                Some(level) => Some(
                    (rare, level, if parts.len() >= 3 { Some(i32_list_spec(parts[2], '#')) } else { None }),
                ),
            }
        },
    }
}

/// The hero `h`, whose rarity is `rare_h`, counts for a level task.
pub open spec fn level_hit(h: HeroSnapshot, rare_h: Option<i32>, rare: i32, level: i32, ids: Option<Seq<i32>>) -> bool {
    rare_h == Some(rare) && h.level >= level && match ids {
        Some(s) => s.contains(h.hero_id),
        None => true,
    }
}

/// The progress of a level task, with `rs[i]` the rarity of the `i`-th hero:
/// heroes of the rarity with at least the level, and among the listed heroes
/// when a list is given; `0` when `param` is malformed.
pub open spec fn level_progress_spec(param: Seq<char>, heroes: Seq<HeroSnapshot>, rs: Seq<Option<i32>>) -> int {
    match level_param(param) {
        None => 0,
        Some((rare, level, ids)) => count_heroes(
            heroes,
            |i: int| level_hit(heroes[i], rs[i], rare, level, ids),
            heroes.len() as int,
        ),
    }
}

/// The progress of a level task, reading each hero's rarity with `rare_of`;
/// see `level_progress_spec`. `rare_of` is asked once for every hero.
pub fn rare_level_progress_with<F: Fn(i32) -> Option<i32>>(param: &str, heroes: &[HeroSnapshot], rare_of: F) -> (res: i32)
    requires
        heroes@.len() <= i32::MAX,
        forall|id: i32| rare_of.requires((id,)),
    ensures
        level_param(param@) is None ==> res == 0,
        level_param(param@) is Some ==> exists|rs: Seq<Option<i32>>|
            rs.len() == heroes@.len() && (forall|i: int| 0 <= i < heroes@.len() ==> rare_of.ensures(
                (heroes@[i].hero_id,),
                #[trigger] rs[i],
            )) && res == level_progress_spec(param@, heroes@, rs),
{
    let chars = chars_of(param);
    let parts = split(chars.as_slice(), '|');
    proof {
        lemma_split_nonempty(param@, '|');
    }
    let ghost pv = parts.deep_view();
    assert(pv[0] == parts[0]@);
    let rare = match parse_i32(parts[0].as_slice()) {
        Some(r) => r,
        None => {
            return 0;
        },
    };
    if parts.len() < 2 {
        return 0;
    }
    assert(pv[1] == parts[1]@);
    let level = match parse_i32(parts[1].as_slice()) {
        Some(l) => l,
        None => {
            return 0;
        },
    };
    let ids: Option<Vec<i32>> = if parts.len() >= 3 {
        assert(pv[2] == parts[2]@);
        Some(i32_list(parts[2].as_slice(), '#'))
    } else {
        None
    };
    let ghost ids_view: Option<Seq<i32>> = match &ids {
        Some(v) => Some(v@),
        None => None,
    };
    assert(level_param(param@) == Some((rare, level, ids_view)));
    let ghost mut rs: Seq<Option<i32>> = Seq::empty();
    let mut count: i32 = 0;
    let mut i: usize = 0;
    while i < heroes.len()
        invariant
            i <= heroes@.len(),
            heroes@.len() <= i32::MAX,
            forall|id: i32| rare_of.requires((id,)),
            rs.len() == i,
            forall|k: int| 0 <= k < i ==> rare_of.ensures((heroes@[k].hero_id,), #[trigger] rs[k]),
            ids_view == match &ids {
                Some(v) => Some(v@),
                None => None,
            },
            count == count_heroes(heroes@, |k: int| level_hit(heroes@[k], rs[k], rare, level, ids_view), i as int),
        decreases heroes.len() - i,
    {
        let h = heroes[i];
        let r = rare_of(h.hero_id);
        let ghost old_rs = rs;
        proof {
            rs = rs.push(r);
            let p_old = |k: int| level_hit(heroes@[k], old_rs[k], rare, level, ids_view);
            let p_new = |k: int| level_hit(heroes@[k], rs[k], rare, level, ids_view);
            lemma_count_same(heroes@, p_old, p_new, i as int);
            lemma_count_bound(heroes@, p_new, i as int);
        }
        let hit = r == Some(rare) && h.level >= level && match &ids {
            Some(v) => contains_i32(v.as_slice(), h.hero_id),
            None => true,
        };
        if hit {
            count = count + 1;
        }
        i = i + 1;
    }
    proof {
        let p_loop = |k: int| level_hit(heroes@[k], rs[k], rare, level, ids_view);
        let p_spec = |i: int| level_hit(heroes@[i], rs[i], rare, level, ids_view);
        lemma_count_same(heroes@, p_loop, p_spec, heroes@.len() as int);
        assert(count == level_progress_spec(param@, heroes@, rs));
    }
    count
}

proof fn lemma_count_same(heroes: Seq<HeroSnapshot>, p: spec_fn(int) -> bool, q: spec_fn(int) -> bool, n: int)
    requires
        forall|k: int| 0 <= k < n ==> #[trigger] p(k) == q(k),
    ensures
        count_heroes(heroes, p, n) == count_heroes(heroes, q, n),
    decreases n,
{
    if n > 0 {
        lemma_count_same(heroes, p, q, n - 1);
    }
}

/// The progress of a level task with rarities from the hero table `rares`.
pub fn rare_level_progress(param: &str, heroes: &[HeroSnapshot], rares: &[(i32, i32)]) -> (res: i32)
    requires
        heroes@.len() <= i32::MAX,
    ensures
        res == level_progress_spec(
            param@,
            heroes@,
            Seq::new(heroes@.len(), |i: int| rare_of_spec(rares@, heroes@[i].hero_id)),
        ),
{
    let lookup = |id: i32| -> (r: Option<i32>)
        ensures
            r == rare_of_spec(rares@, id),
        { hero_rare(rares, id) };
    let res = rare_level_progress_with(param, heroes, lookup);
    proof {
        let want = Seq::new(heroes@.len(), |i: int| rare_of_spec(rares@, heroes@[i].hero_id));
        if level_param(param@) is Some {
            let rs = choose|rs: Seq<Option<i32>>|
                rs.len() == heroes@.len() && (forall|i: int| 0 <= i < heroes@.len() ==> lookup.ensures(
                    (heroes@[i].hero_id,),
                    #[trigger] rs[i],
                )) && res == level_progress_spec(param@, heroes@, rs);
            assert(rs =~= want) by {
                assert forall|i: int| 0 <= i < heroes@.len() implies rs[i] == want[i] by {
                    assert(lookup.ensures((heroes@[i].hero_id,), rs[i]));
                }
            }
        }
    }
    res
}

/// One task of the growth event.
#[derive(Clone, Debug)]
pub struct Act216TaskRow {
    pub id: i32,
    pub activity_id: i32,
    pub is_online: i32,
    pub max_progress: i32,
    pub listener_type: String,
    pub listener_param: String,
}

/// A task as the client sees it.
#[derive(Clone, Copy, Debug, PartialEq, Eq)]
pub struct Act216TaskInfo {
    pub task_id: Option<i32>,
    pub progress: Option<i32>,
    pub has_finish: Option<bool>,
}

/// The progress that the player's heroes give a task, by its listener:
/// heroes of a rarity and rank, of a rarity and talent, or of a rarity and
/// level; `0` for any other listener.
pub open spec fn dynamic_spec(row: Act216TaskRow, heroes: Seq<HeroSnapshot>, rares: Seq<(i32, i32)>) -> int {
    if row.listener_type@ == "UpdateTargetRareHeroRank"@ {
        stat_progress_spec(row.listener_param@, heroes, rares, false)
    } else if row.listener_type@ == "UpdateTalent"@ {
        stat_progress_spec(row.listener_param@, heroes, rares, true)
    } else if row.listener_type@ == "UpdateTargetRareHeroLevel"@ {
        level_progress_spec(
            row.listener_param@,
            heroes,
            Seq::new(heroes.len(), |i: int| rare_of_spec(rares, heroes[i].hero_id)),
        )
    } else {
        0
    }
}

/// The progress of a task from its listener and the player's heroes.
pub fn dynamic_progress(row: &Act216TaskRow, heroes: &[HeroSnapshot], rares: &[(i32, i32)]) -> (res: i32)
    requires
        heroes@.len() <= i32::MAX,
    ensures
        res == dynamic_spec(*row, heroes@, rares@),
{
    let kind = chars_of(row.listener_type.as_str());
    let rank = chars_of("UpdateTargetRareHeroRank");
    let talent = chars_of("UpdateTalent");
    let level = chars_of("UpdateTargetRareHeroLevel");
    if chars_eq(kind.as_slice(), rank.as_slice()) {
        rare_rank_progress(row.listener_param.as_str(), heroes, rares)
    } else if chars_eq(kind.as_slice(), talent.as_slice()) {
        talent_progress(row.listener_param.as_str(), heroes, rares)
    } else if chars_eq(kind.as_slice(), level.as_slice()) {
        rare_level_progress(row.listener_param.as_str(), heroes, rares)
    } else {
        0
    }
}

/// A task's state for the client: finished when its stored state is set (then
/// at full progress); else the larger of the stored and the heroes' progress;
/// never above the task's goal.
pub open spec fn task_info_spec(row: Act216TaskRow, stored: (i32, i32), heroes: Seq<HeroSnapshot>, rares: Seq<(i32, i32)>) -> Act216TaskInfo {
    let has_finish = stored.0 != 0;
    let d = dynamic_spec(row, heroes, rares);
    let progress: int = if has_finish {
        row.max_progress as int
    } else if stored.1 >= d {
        stored.1 as int
    } else {
        d
    };
    Act216TaskInfo {
        task_id: Some(row.id),
        progress: Some(if progress <= row.max_progress { progress as i32 } else { row.max_progress }),
        has_finish: Some(has_finish),
    }
}

/// A task's state for the client; see `task_info_spec`. `stored` is the
/// task's stored `(state, progress)`, `(0, 0)` when nothing is stored.
pub fn task_info(row: &Act216TaskRow, stored: (i32, i32), heroes: &[HeroSnapshot], rares: &[(i32, i32)]) -> (info: Act216TaskInfo)
    requires
        heroes@.len() <= i32::MAX,
    ensures
        info == task_info_spec(*row, stored, heroes@, rares@),
{
    let has_finish = stored.0 != 0;
    let progress = if has_finish {
        row.max_progress
    } else {
        let d = dynamic_progress(row, heroes, rares);
        if stored.1 >= d {
            stored.1
        } else {
            d
        }
    };
    Act216TaskInfo {
        task_id: Some(row.id),
        progress: Some(if progress <= row.max_progress { progress } else { row.max_progress }),
        has_finish: Some(has_finish),
    }
}

/// The stored `(state, progress)` of `id` among `(entry, state, progress)`
/// triples, or `(0, 0)`.
pub open spec fn stored_of(states: Seq<(i32, i32, i32)>, id: i32) -> (i32, i32) {
    match find_map(states, stored_fn(id)) {
        Some(p) => p,
        None => (0, 0),
    }
}

/// The `(state, progress)` of a triple, when it is the triple of `id`.
pub open spec fn stored_fn(id: i32) -> spec_fn((i32, i32, i32)) -> Option<(i32, i32)> {
    |t: (i32, i32, i32)| if t.0 == id { Some((t.1, t.2)) } else { None }
}

fn stored(states: &[(i32, i32, i32)], id: i32) -> (res: (i32, i32))
    ensures
        res == stored_of(states@, id),
{
    let ghost f = stored_fn(id);
    let mut i: usize = 0;
    while i < states.len()
        invariant
            i <= states@.len(),
            f == stored_fn(id),
            find_map(states@.take(i as int), f) is None,
        decreases states.len() - i,
    {
        assert(states@.take(i + 1).drop_last() =~= states@.take(i as int));
        if states[i].0 == id {
            proof {
                lemma_find_map_prefix(states@, f, i + 1);
            }
            return (states[i].1, states[i].2);
        }
        i = i + 1;
    }
    assert(states@.take(states@.len() as int) =~= states@);
    (0, 0)
}

/// The event's online tasks in table order, keyed by id.
pub open spec fn task_infos_unsorted(rows: Seq<Act216TaskRow>, activity_id: i32, states: Seq<(i32, i32, i32)>, heroes: Seq<HeroSnapshot>, rares: Seq<(i32, i32)>) -> Seq<(i32, Act216TaskInfo)>
    decreases rows.len(),
{
    if rows.len() == 0 {
        Seq::empty()
    } else {
        let front = task_infos_unsorted(rows.drop_last(), activity_id, states, heroes, rares);
        let r = rows.last();
        if r.activity_id == activity_id && r.is_online != 0 {
            front.push((r.id, task_info_spec(r, stored_of(states, r.id), heroes, rares)))
        } else {
            front
        }
    }
}

/// The event's online tasks for the client, sorted stably by task id.
pub fn task_infos(rows: &[Act216TaskRow], activity_id: i32, states: &[(i32, i32, i32)], heroes: &[HeroSnapshot], rares: &[(i32, i32)]) -> (out: Vec<Act216TaskInfo>)
    requires
        heroes@.len() <= i32::MAX,
    ensures
        stably_sorted(
            out@.map_values(|t: Act216TaskInfo| (t.task_id.unwrap_or(0), t)),
            task_infos_unsorted(rows@, activity_id, states@, heroes@, rares@),
        ),
{
    let mut keyed: Vec<(i32, Act216TaskInfo)> = Vec::new();
    let mut i: usize = 0;
    while i < rows.len()
        invariant
            i <= rows@.len(),
            heroes@.len() <= i32::MAX,
            keyed@ == task_infos_unsorted(rows@.take(i as int), activity_id, states@, heroes@, rares@),
            forall|j: int| 0 <= j < keyed@.len() ==> (#[trigger] keyed@[j]).0 == keyed@[j].1.task_id.unwrap_or(0),
        decreases rows.len() - i,
    {
        assert(rows@.take(i + 1).drop_last() =~= rows@.take(i as int));
        let r = &rows[i];
        if r.activity_id == activity_id && r.is_online != 0 {
            let info = task_info(r, stored(states, r.id), heroes, rares);
            keyed.push((r.id, info));
        }
        i = i + 1;
    }
    assert(rows@.take(rows@.len() as int) =~= rows@);
    let ghost input = keyed@;
    let sorted = sort_by_key_stable(keyed);
    proof {
        lemma_sorted_keeps(input, sorted@, |q: (i32, Act216TaskInfo)| q.0 == q.1.task_id.unwrap_or(0));
    }
    let mut out: Vec<Act216TaskInfo> = Vec::new();
    let mut k: usize = 0;
    while k < sorted.len()
        invariant
            k <= sorted@.len(),
            out@.len() == k,
            forall|j: int| 0 <= j < k ==> #[trigger] out@[j] == sorted@[j].1,
        decreases sorted.len() - k,
    {
        out.push(sorted[k].1);
        k = k + 1;
    }
    assert(out@.map_values(|t: Act216TaskInfo| (t.task_id.unwrap_or(0), t)) =~= sorted@);
    out
}

/// What finishing a task does.
#[derive(Clone, Copy, Debug, PartialEq, Eq)]
pub enum Act216Finish {
    /// The task was finished before: nothing is granted again.
    AlreadyFinished(Act216TaskInfo),
    /// The task is finished now, at full progress; its bonus is granted.
    Finished(Act216TaskInfo),
}

/// The task `task_id` of the event: the task table's row with that id (the
/// first such), when it belongs to the event and is online.
pub open spec fn task_row_spec(rows: Seq<Act216TaskRow>, activity_id: i32, task_id: i32) -> Option<Act216TaskRow> {
    match find_map(rows, task_id_fn(task_id)) {
        Some(r) => if r.activity_id == activity_id && r.is_online != 0 { Some(r) } else { None },
        None => None,
    }
}

/// A task row, when its id is `task_id`.
pub open spec fn task_id_fn(task_id: i32) -> spec_fn(Act216TaskRow) -> Option<Act216TaskRow> {
    |r: Act216TaskRow| if r.id == task_id { Some(r) } else { None }
}

fn find_task(rows: &[Act216TaskRow], task_id: i32) -> (res: Option<usize>)
    ensures
        match res {
            Some(i) => i < rows@.len() && find_map(rows@, task_id_fn(task_id)) == Some(rows@[i as int]),
            None => find_map(rows@, task_id_fn(task_id)) is None,
        },
{
    let ghost f = task_id_fn(task_id);
    let mut i: usize = 0;
    while i < rows.len()
        invariant
            i <= rows@.len(),
            f == task_id_fn(task_id),
            find_map(rows@.take(i as int), f) is None,
        decreases rows.len() - i,
    {
        assert(rows@.take(i + 1).drop_last() =~= rows@.take(i as int));
        if rows[i].id == task_id {
            proof {
                lemma_find_map_prefix(rows@, f, i + 1);
            }
            return Some(i);
        }
        i = i + 1;
    }
    assert(rows@.take(rows@.len() as int) =~= rows@);
    None
}

/// The player finishes task `task_id` of event `activity_id`: refused without a
/// task id or when the event has no such online task (see `task_row_spec`); a
/// task finished before is answered as it is; one short of its goal is
/// refused; any other is finished at its goal. `states` holds the stored
/// `(task, state, progress)` entries.
pub fn finish_act216_task(
    rows: &[Act216TaskRow],
    activity_id: i32,
    task_id: Option<i32>,
    states: &[(i32, i32, i32)],
    heroes: &[HeroSnapshot],
    rares: &[(i32, i32)],
) -> (res: Result<Act216Finish, LogicError>)
    requires
        heroes@.len() <= i32::MAX,
    ensures
        match task_id {
            None => res == Err::<Act216Finish, LogicError>(LogicError::InvalidRequest),
            Some(t) => match task_row_spec(rows@, activity_id, t) {
                None => res == Err::<Act216Finish, LogicError>(LogicError::InvalidRequest),
                Some(row) => {
                    let info = task_info_spec(row, stored_of(states@, t), heroes@, rares@);
                    if info.has_finish == Some(true) {
                        res == Ok::<Act216Finish, LogicError>(Act216Finish::AlreadyFinished(info))
                    } else if info.progress.unwrap_or(0) < row.max_progress {
                        res == Err::<Act216Finish, LogicError>(LogicError::InvalidRequest)
                    } else {
                        res == Ok::<Act216Finish, LogicError>(
                            Act216Finish::Finished(
                                Act216TaskInfo { task_id: Some(row.id), progress: Some(row.max_progress), has_finish: Some(true) },
                            ),
                        )
                    }
                },
            },
        },
{
    let t = match task_id {
        Some(t) => t,
        None => {
            return Err(LogicError::InvalidRequest);
        },
    };
    let i = match find_task(rows, t) {
        Some(i) => i,
        None => {
            return Err(LogicError::InvalidRequest);
        },
    };
    let row = &rows[i];
    if row.activity_id != activity_id || row.is_online == 0 {
        return Err(LogicError::InvalidRequest);
    }
    let info = task_info(row, stored(states, t), heroes, rares);
    if info.has_finish == Some(true) {
        return Ok(Act216Finish::AlreadyFinished(info));
    }
    let progress = match info.progress {
        Some(p) => p,
        None => 0,
    };
    if progress < row.max_progress {
        return Err(LogicError::InvalidRequest);
    }
    Ok(
        Act216Finish::Finished(
            Act216TaskInfo { task_id: Some(row.id), progress: Some(row.max_progress), has_finish: Some(true) },
        ),
    )
}

/// How many of the tasks are finished.
pub open spec fn finished_count(s: Seq<Act216TaskInfo>) -> int
    decreases s.len(),
{
    if s.len() == 0 {
        0
    } else {
        finished_count(s.drop_last()) + if s.last().has_finish == Some(true) { 1int } else { 0int }
    }
}

/// The one-time bonus of an event: the finished tasks it needs and what it grants.
#[derive(Clone, Debug)]
pub struct Act216OnceBonusRow {
    pub activity_id: i32,
    pub need_finish_task_num: i32,
    pub bonus: String,
}

/// The event's one-time bonus row (the first such).
pub open spec fn once_bonus_row(rows: Seq<Act216OnceBonusRow>, activity_id: i32) -> Option<Act216OnceBonusRow> {
    find_map(rows, once_bonus_fn(activity_id))
}

/// A once-bonus row, when it is the event's.
pub open spec fn once_bonus_fn(activity_id: i32) -> spec_fn(Act216OnceBonusRow) -> Option<Act216OnceBonusRow> {
    |r: Act216OnceBonusRow| if r.activity_id == activity_id { Some(r) } else { None }
}

/// What claiming the event's one-time bonus does.
#[derive(Clone, Debug, PartialEq, Eq)]
pub enum Act216OnceBonus {
    /// Taken before: nothing is granted again.
    AlreadyTaken,
    /// Taken now: the bonus (its reward text) is granted.
    Granted { bonus: String },
}

/// The player claims event `activity_id`'s one-time bonus: refused when the
/// event has none; answered as taken when its flag is set (`taken`); refused
/// while fewer of `tasks` are finished than it needs; granted otherwise.
pub fn get_act216_once_bonus(rows: &[Act216OnceBonusRow], activity_id: i32, taken: bool, tasks: &[Act216TaskInfo]) -> (res: Result<
    Act216OnceBonus,
    LogicError,
>)
    requires
        tasks@.len() <= i32::MAX,
    ensures
        match once_bonus_row(rows@, activity_id) {
            None => res == Err::<Act216OnceBonus, LogicError>(LogicError::InvalidRequest),
            Some(row) => if taken {
                res == Ok::<Act216OnceBonus, LogicError>(Act216OnceBonus::AlreadyTaken)
            } else if finished_count(tasks@) < row.need_finish_task_num {
                res == Err::<Act216OnceBonus, LogicError>(LogicError::InvalidRequest)
            } else {
                res matches Ok(Act216OnceBonus::Granted { bonus }) && bonus@ == row.bonus@
            },
        },
{
    let ghost f = once_bonus_fn(activity_id);
    let mut found: Option<usize> = None;
    let mut r: usize = 0;
    while r < rows.len()
        invariant
            r <= rows@.len(),
            f == once_bonus_fn(activity_id),
            found is None ==> find_map(rows@.take(r as int), f) is None,
            found matches Some(k) ==> k < rows@.len() && find_map(rows@, f) == Some(rows@[k as int]),
        decreases rows.len() - r,
    {
        if found.is_none() {
            assert(rows@.take(r + 1).drop_last() =~= rows@.take(r as int));
            if rows[r].activity_id == activity_id {
                proof {
                    lemma_find_map_prefix(rows@, f, r + 1);
                }
                found = Some(r);
            }
        }
        r = r + 1;
    }
    let k = match found {
        Some(k) => k,
        None => {
            assert(rows@.take(rows@.len() as int) =~= rows@);
            return Err(LogicError::InvalidRequest);
        },
    };
    if taken {
        return Ok(Act216OnceBonus::AlreadyTaken);
    }
    let mut finished: i32 = 0;
    let mut i: usize = 0;
    while i < tasks.len()
        invariant
            i <= tasks@.len(),
            tasks@.len() <= i32::MAX,
            finished == finished_count(tasks@.take(i as int)),
            0 <= finished <= i,
        decreases tasks.len() - i,
    {
        assert(tasks@.take(i + 1).drop_last() =~= tasks@.take(i as int));
        if tasks[i].has_finish == Some(true) {
            finished = finished + 1;
        }
        i = i + 1;
    }
    assert(tasks@.take(tasks@.len() as int) =~= tasks@);
    if finished < rows[k].need_finish_task_num {
        return Err(LogicError::InvalidRequest);
    }
    Ok(Act216OnceBonus::Granted { bonus: rows[k].bonus.clone() })
}

} // verus!
