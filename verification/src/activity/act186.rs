use crate::error::LogicError;
use crate::sorting::{lemma_sorted_keeps, sort_by_key_stable, stably_sorted};
use crate::clock::{blank, is_blank, now_ms, parse_utc_millis, utc_millis_of};
use crate::server_time::{next_daily_refresh_ms_spec, next_weekly_refresh_ms_spec, ServerTime, SERVER_UTC_OFFSET_MS};
use crate::text::{chars_of, find_map, lemma_find_map_prefix, parse_i32, parse_i32_spec, split, split_spec};
use vstd::prelude::*;

verus! {

/// The format of the event's stage times.
pub open spec fn stage_time_format() -> Seq<char> {
    "%Y-%m-%d %H:%M:%S"@
}

/// The same format with an unpadded month.
pub open spec fn stage_time_format_short_month() -> Seq<char> {
    "%Y-%-m-%d %H:%M:%S"@
}

/// A stage time in server-local milliseconds: `0` for a blank or unreadable
/// time; else the time read as UTC, shifted back by the server's UTC offset
/// (saturating at the ends of `i64`).
pub open spec fn time_millis_spec(value: Seq<char>) -> i64 {
    if blank(value) {
        0
    } else {
        let parsed = match utc_millis_of(value, stage_time_format()) {
            Some(ms) => Some(ms),
            None => utc_millis_of(value, stage_time_format_short_month()),
        };
        match parsed {
            Some(ms) => clamp_i64(ms - SERVER_UTC_OFFSET_MS),
            None => 0,
        }
    }
}

/// `v`, held to the range of `i64`.
pub open spec fn clamp_i64(v: int) -> i64 {
    if v > i64::MAX {
        i64::MAX
    } else if v < i64::MIN {
        i64::MIN
    } else {
        v as i64
    }
}

fn clamp_to_i64(v: i128) -> (res: i64)
    ensures
        res == clamp_i64(v as int),
{
    if v > i64::MAX as i128 {
        i64::MAX
    } else if v < i64::MIN as i128 {
        i64::MIN
    } else {
        v as i64
    }
}

/// Reads a stage time; see `time_millis_spec`.
pub fn parse_time_millis(value: &str) -> (res: i64)
    ensures
        res == time_millis_spec(value@),
{
    let chars = chars_of(value);
    if is_blank(chars.as_slice()) {
        return 0;
    }
    proof {
        reveal_strlit("%Y-%m-%d %H:%M:%S");
        reveal_strlit("%Y-%-m-%d %H:%M:%S");
    }
    let parsed = match parse_utc_millis(chars.as_slice(), "%Y-%m-%d %H:%M:%S") {
        Some(ms) => Some(ms),
        None => parse_utc_millis(chars.as_slice(), "%Y-%-m-%d %H:%M:%S"),
    };
    match parsed {
        Some(ms) => clamp_to_i64(ms as i128 - ServerTime::server_utc_offset_ms() as i128),
        None => 0,
    }
}

/// How long a task of the event lasts: a daily task until the next server day,
/// a weekly one until the next server week (both to the whole second, in
/// milliseconds), any other until the event ends.
pub open spec fn task_expire_spec(loop_type: i32, activity_end: i64, now: i64) -> i64 {
    if loop_type == 1 {
        clamp_i64(next_daily_refresh_ms_spec(now as int) / 1000 * 1000)
    } else if loop_type == 2 {
        clamp_i64(next_weekly_refresh_ms_spec(now as int) / 1000 * 1000)
    } else {
        activity_end
    }
}

/// When a task of the given loop type expires; see `task_expire_spec`.
pub fn task_expire_time(loop_type: i32, activity_end: i64, now: i64) -> (res: i64)
    ensures
        res == task_expire_spec(loop_type, activity_end, now),
{
    if loop_type == 1 {
        clamp_to_i64(ServerTime::next_daily_refresh_sec(now) as i128 * 1000)
    } else if loop_type == 2 {
        clamp_to_i64(ServerTime::next_weekly_refresh_sec(now) as i128 * 1000)
    } else {
        activity_end
    }
}

/// The first number of a `|`-separated piece `id#weight`.
pub open spec fn leading_id_fn() -> spec_fn(Seq<char>) -> Option<i32> {
    |part: Seq<char>| parse_i32_spec(split_spec(part, '#')[0])
}

/// The id of the first piece of `id#weight|id#weight|...` that starts with a number.
pub open spec fn first_weighted_id_spec(value: Seq<char>) -> Option<i32> {
    find_map(split_spec(value, '|'), leading_id_fn())
}

/// The game type that opens a weighted list such as `1#500|2#500`.
pub fn first_weighted_id(value: &str) -> (res: Option<i32>)
    ensures
        res == first_weighted_id_spec(value@),
{
    let chars = chars_of(value);
    let parts = split(chars.as_slice(), '|');
    let mut i: usize = 0;
    while i < parts.len()
        invariant
            i <= parts@.len(),
            parts.deep_view() == split_spec(value@, '|'),
            find_map(parts.deep_view().take(i as int), leading_id_fn()) is None,
        decreases parts.len() - i,
    {
        let ghost pv = parts.deep_view();
        assert(pv.take(i + 1).drop_last() =~= pv.take(i as int));
        assert(pv[i as int] == parts[i as int]@);
        let fields = split(parts[i].as_slice(), '#');
        proof {
            crate::text::lemma_split_nonempty(parts[i as int]@, '#');
        }
        assert(fields.deep_view()[0] == fields[0]@);
        let id = parse_i32(fields[0].as_slice());
        if id.is_some() {
            proof {
                lemma_find_map_prefix(pv, leading_id_fn(), i + 1);
            }
            return id;
        }
        i = i + 1;
    }
    assert(parts.deep_view().take(parts@.len() as int) =~= parts.deep_view());
    None
}

/// One stage of the event's schedule.
#[derive(Clone, Debug)]
pub struct Act186StageRow {
    pub activity_id: i32,
    pub stage_id: i32,
    pub start_time: String,
    pub end_time: String,
}

/// The stage at `now`, looking at the rows from the `k`-th on with `latest` the
/// last stage already over: the first stage of the event that holds `now`;
/// else the last one that ended by `now`; else stage `1`.
pub open spec fn stage_scan(rows: Seq<Act186StageRow>, activity_id: i32, now: i64, k: int, latest: Option<i32>) -> i32
    decreases rows.len() - k,
{
    if k < 0 || k >= rows.len() {
        match latest {
            Some(s) => s,
            None => 1,
        }
    } else if rows[k].activity_id != activity_id {
        stage_scan(rows, activity_id, now, k + 1, latest)
    } else {
        let start = time_millis_spec(rows[k].start_time@);
        let end = time_millis_spec(rows[k].end_time@);
        if start <= now && now <= end {
            rows[k].stage_id
        } else if end <= now {
            stage_scan(rows, activity_id, now, k + 1, Some(rows[k].stage_id))
        } else {
            stage_scan(rows, activity_id, now, k + 1, latest)
        }
    }
}

/// The stage of `activity_id` at the instant `now`; see `stage_scan`.
pub fn current_stage_at(rows: &[Act186StageRow], activity_id: i32, now: i64) -> (res: i32)
    ensures
        res == stage_scan(rows@, activity_id, now, 0, None),
{
    let mut latest: Option<i32> = None;
    let mut k: usize = 0;
    while k < rows.len()
        invariant
            k <= rows@.len(),
            stage_scan(rows@, activity_id, now, 0, None) == stage_scan(rows@, activity_id, now, k as int, latest),
        decreases rows.len() - k,
    {
        if rows[k].activity_id == activity_id {
            let start = parse_time_millis(rows[k].start_time.as_str());
            let end = parse_time_millis(rows[k].end_time.as_str());
            if start <= now && now <= end {
                return rows[k].stage_id;
            }
            if end <= now {
                latest = Some(rows[k].stage_id);
            }
        }
        k = k + 1;
    }
    match latest {
        Some(s) => s,
        None => 1,
    }
}

/// The stage of `activity_id` now, by the system clock; the result is
/// `current_stage_at` for the instant read, which no contract can name.
pub fn current_stage(rows: &[Act186StageRow], activity_id: i32) -> (res: i32)
    ensures
        exists|now: i64| res == stage_scan(rows@, activity_id, now, 0, None),
{
    let now = now_ms();
    current_stage_at(rows, activity_id, now)
}

/// One task of the event.
#[derive(Clone, Copy, Debug)]
pub struct Act186TaskRow {
    pub activity_id: i32,
    pub id: i32,
    pub loop_type: i32,
    pub is_online: i32,
}

/// One kind of like of the event.
#[derive(Clone, Copy, Debug)]
pub struct Act186LikeRow {
    pub activity_id: i32,
    pub like_type: i32,
}

/// One mini game of the event.
#[derive(Clone, Debug)]
pub struct Act186GameRow {
    pub activity_id: i32,
    pub id: i32,
    pub game_type2_prob: String,
}

/// A task as the client sees it.
#[derive(Clone, Copy, Debug, PartialEq, Eq)]
pub struct Act186TaskInfo {
    pub task_id: Option<i32>,
    pub progress: Option<i32>,
    pub expire_time: Option<i64>,
    pub has_get_bonus: Option<bool>,
}

/// A like as the client sees it.
#[derive(Clone, Copy, Debug, PartialEq, Eq)]
pub struct Act186LikeInfo {
    pub like_type: Option<i32>,
    pub value: Option<i32>,
}

/// A mini game as the client sees it.
#[derive(Clone, Copy, Debug, PartialEq, Eq)]
pub struct Act186GameInfo {
    pub game_id: Option<i32>,
    pub game_type_id: Option<i32>,
    pub expire_time: Option<i64>,
}

/// The event as the client sees it.
#[derive(Clone, Debug)]
pub struct GetAct186InfoReply {
    pub activity_id: Option<i32>,
    pub current_stage: Option<i32>,
    pub get_milestone_progress: Option<i64>,
    pub get_daily_collection: Option<bool>,
    pub get_onece_bonus: Option<bool>,
    pub task_infos: Vec<Act186TaskInfo>,
    pub like_infos: Vec<Act186LikeInfo>,
    pub game_infos: Vec<Act186GameInfo>,
}

/// The event's end: the latest end time among its stages, or `0`.
pub open spec fn activity_end_spec(rows: Seq<Act186StageRow>, activity_id: i32) -> i64
    decreases rows.len(),
{
    if rows.len() == 0 {
        0
    } else {
        let front = activity_end_spec(rows.drop_last(), activity_id);
        let r = rows.last();
        if r.activity_id != activity_id {
            front
        } else {
            let e = time_millis_spec(r.end_time@);
            if !has_stage(rows.drop_last(), activity_id) || e > front {
                e
            } else {
                front
            }
        }
    }
}

/// The event has a stage among `rows`.
pub open spec fn has_stage(rows: Seq<Act186StageRow>, activity_id: i32) -> bool {
    exists|i: int| 0 <= i < rows.len() && (#[trigger] rows[i]).activity_id == activity_id
}

/// The stored `(state, progress)` of task `id` among `(task, state, progress)`
/// triples, or nothing.
pub open spec fn task_state_of(states: Seq<(i32, i32, i32)>, id: i32) -> (i32, i32) {
    match find_map(states, task_state_fn(id)) {
        Some(p) => p,
        None => (0, 0),
    }
}

/// The `(state, progress)` of a triple, when it is the triple of `id`.
pub open spec fn task_state_fn(id: i32) -> spec_fn((i32, i32, i32)) -> Option<(i32, i32)> {
    |t: (i32, i32, i32)| if t.0 == id { Some((t.1, t.2)) } else { None }
}

/// The event's online tasks in table order, keyed by id.
pub open spec fn task_infos_spec(rows: Seq<Act186TaskRow>, activity_id: i32, states: Seq<(i32, i32, i32)>, end: i64, now: i64) -> Seq<(i32, Act186TaskInfo)>
    decreases rows.len(),
{
    if rows.len() == 0 {
        Seq::empty()
    } else {
        let front = task_infos_spec(rows.drop_last(), activity_id, states, end, now);
        let r = rows.last();
        if r.activity_id == activity_id && r.is_online != 0 {
            let st = task_state_of(states, r.id);
            front.push(
                (
                    r.id,
                    Act186TaskInfo {
                        task_id: Some(r.id),
                        progress: Some(st.1),
                        expire_time: Some(task_expire_spec(r.loop_type, end, now)),
                        has_get_bonus: Some(st.0 != 0),
                    },
                ),
            )
        } else {
            front
        }
    }
}

/// The event's likes in table order, keyed by type, none given yet.
pub open spec fn like_infos_spec(rows: Seq<Act186LikeRow>, activity_id: i32) -> Seq<(i32, Act186LikeInfo)>
    decreases rows.len(),
{
    if rows.len() == 0 {
        Seq::empty()
    } else {
        let front = like_infos_spec(rows.drop_last(), activity_id);
        let r = rows.last();
        if r.activity_id == activity_id {
            front.push((r.like_type, Act186LikeInfo { like_type: Some(r.like_type), value: Some(0) }))
        } else {
            front
        }
    }
}

/// The event's mini games in table order, keyed by id, each with the first
/// game type of its weighted list (or `0`).
pub open spec fn game_infos_spec(rows: Seq<Act186GameRow>, activity_id: i32) -> Seq<(i32, Act186GameInfo)>
    decreases rows.len(),
{
    if rows.len() == 0 {
        Seq::empty()
    } else {
        let front = game_infos_spec(rows.drop_last(), activity_id);
        let r = rows.last();
        if r.activity_id == activity_id {
            front.push(
                (
                    r.id,
                    Act186GameInfo {
                        game_id: Some(r.id),
                        game_type_id: Some(
                            match first_weighted_id_spec(r.game_type2_prob@) {
                                Some(v) => v,
                                None => 0,
                            },
                        ),
                        expire_time: Some(0),
                    },
                ),
            )
        } else {
            front
        }
    }
}

/// The largest event id among the stages, if any.
pub open spec fn latest_stage_activity(rows: Seq<Act186StageRow>) -> Option<i32>
    decreases rows.len(),
{
    if rows.len() == 0 {
        None
    } else {
        match latest_stage_activity(rows.drop_last()) {
            Some(m) => if rows.last().activity_id > m {
                Some(rows.last().activity_id)
            } else {
                Some(m)
            },
            None => Some(rows.last().activity_id),
        }
    }
}

/// The event id a request is about: the asked one, else the latest with
/// stages; refused when there is none.
pub fn act186_activity_id(stages: &[Act186StageRow], activity_id: Option<i32>) -> (res: Result<i32, LogicError>)
    ensures
        res == match activity_id {
            Some(a) => Ok::<i32, LogicError>(a),
            None => match latest_stage_activity(stages@) {
                Some(m) => Ok(m),
                None => Err(LogicError::InvalidRequest),
            },
        },
{
    match activity_id {
        Some(a) => Ok(a),
        None => {
            let mut best: Option<i32> = None;
            let mut i: usize = 0;
            while i < stages.len()
                invariant
                    i <= stages@.len(),
                    best == latest_stage_activity(stages@.take(i as int)),
                decreases stages.len() - i,
            {
                assert(stages@.take(i + 1).drop_last() =~= stages@.take(i as int));
                let a = stages[i].activity_id;
                best = match best {
                    Some(m) => if a > m { Some(a) } else { Some(m) },
                    None => Some(a),
                };
                i = i + 1;
            }
            assert(stages@.take(stages@.len() as int) =~= stages@);
            match best {
                Some(m) => Ok(m),
                None => Err(LogicError::InvalidRequest),
            }
        },
    }
}

fn activity_end(stages: &[Act186StageRow], activity_id: i32) -> (res: i64)
    ensures
        res == activity_end_spec(stages@, activity_id),
{
    let mut best: i64 = 0;
    let mut seen = false;
    let mut i: usize = 0;
    while i < stages.len()
        invariant
            i <= stages@.len(),
            best == activity_end_spec(stages@.take(i as int), activity_id),
            seen == has_stage(stages@.take(i as int), activity_id),
        decreases stages.len() - i,
    {
        let ghost pre = stages@.take(i as int);
        let ghost t = stages@.take(i + 1);
        assert(t.drop_last() =~= pre);
        if stages[i].activity_id == activity_id {
            let e = parse_time_millis(stages[i].end_time.as_str());
            if !seen || e > best {
                best = e;
            }
            proof {
                assert(t[i as int].activity_id == activity_id);
                if seen {
                    let j = choose|j: int| 0 <= j < pre.len() && (#[trigger] pre[j]).activity_id == activity_id;
                    assert(t[j].activity_id == activity_id);
                }
            }
            seen = true;
        } else {
            proof {
                if has_stage(t, activity_id) {
                    let j = choose|j: int| 0 <= j < t.len() && (#[trigger] t[j]).activity_id == activity_id;
                    assert(pre[j].activity_id == activity_id);
                }
                if seen {
                    let j = choose|j: int| 0 <= j < pre.len() && (#[trigger] pre[j]).activity_id == activity_id;
                    assert(t[j].activity_id == activity_id);
                }
            }
        }
        i = i + 1;
    }
    assert(stages@.take(stages@.len() as int) =~= stages@);
    best
}

fn task_state(states: &[(i32, i32, i32)], id: i32) -> (res: (i32, i32))
    ensures
        res == task_state_of(states@, id),
{
    let ghost f = task_state_fn(id);
    let mut i: usize = 0;
    while i < states.len()
        invariant
            i <= states@.len(),
            f == task_state_fn(id),
            find_map(states@.take(i as int), f) is None,
        decreases states.len() - i,
    {
        assert(states@.take(i + 1).drop_last() =~= states@.take(i as int));
        if states[i].0 == id {
            proof {
                lemma_find_map_prefix(states@, f, i + 1);
            }
            return (states[i].1, states[i].2);
        }
        i = i + 1;
    }
    assert(states@.take(states@.len() as int) =~= states@);
    (0, 0)
}

/// The event as a player sees it at `now`: its stage, the milestone currency
/// held, its online tasks (by id, each with its stored progress, whether its
/// bonus was taken and when it expires), its likes (by type) and its mini
/// games (by id), each list sorted stably by its key.
pub fn act186_info(
    stages: &[Act186StageRow],
    tasks: &[Act186TaskRow],
    likes: &[Act186LikeRow],
    games: &[Act186GameRow],
    task_states: &[(i32, i32, i32)],
    activity_id: i32,
    milestone_progress: i32,
    now: i64,
) -> (r: GetAct186InfoReply)
    ensures
        r.activity_id == Some(activity_id),
        r.current_stage == Some(stage_scan(stages@, activity_id, now, 0, None)),
        r.get_milestone_progress == Some(milestone_progress as i64),
        r.get_daily_collection == Some(false),
        r.get_onece_bonus == Some(false),
        stably_sorted(
            r.task_infos@.map_values(|t: Act186TaskInfo| (t.task_id.unwrap_or(0), t)),
            task_infos_spec(tasks@, activity_id, task_states@, activity_end_spec(stages@, activity_id), now),
        ),
        stably_sorted(
            r.like_infos@.map_values(|t: Act186LikeInfo| (t.like_type.unwrap_or(0), t)),
            like_infos_spec(likes@, activity_id),
        ),
        stably_sorted(
            r.game_infos@.map_values(|t: Act186GameInfo| (t.game_id.unwrap_or(0), t)),
            game_infos_spec(games@, activity_id),
        ),
{
    let end = activity_end(stages, activity_id);
    let mut ts: Vec<(i32, Act186TaskInfo)> = Vec::new();
    let mut i: usize = 0;
    while i < tasks.len()
        invariant
            i <= tasks@.len(),
            ts@ == task_infos_spec(tasks@.take(i as int), activity_id, task_states@, end, now),
            forall|j: int| 0 <= j < ts@.len() ==> (#[trigger] ts@[j]).0 == ts@[j].1.task_id.unwrap_or(0),
        decreases tasks.len() - i,
    {
        assert(tasks@.take(i + 1).drop_last() =~= tasks@.take(i as int));
        let row = tasks[i];
        if row.activity_id == activity_id && row.is_online != 0 {
            let (state, progress) = task_state(task_states, row.id);
            ts.push(
                (
                    row.id,
                    Act186TaskInfo {
                        task_id: Some(row.id),
                        progress: Some(progress),
                        expire_time: Some(task_expire_time(row.loop_type, end, now)),
                        has_get_bonus: Some(state != 0),
                    },
                ),
            );
        }
        i = i + 1;
    }
    assert(tasks@.take(tasks@.len() as int) =~= tasks@);
    let ghost ts_in = ts@;
    let sorted_ts = sort_by_key_stable(ts);
    proof {
        lemma_sorted_keeps(ts_in, sorted_ts@, |q: (i32, Act186TaskInfo)| q.0 == q.1.task_id.unwrap_or(0));
    }
    let mut task_infos: Vec<Act186TaskInfo> = Vec::new();
    let mut k: usize = 0;
    while k < sorted_ts.len()
        invariant
            k <= sorted_ts@.len(),
            task_infos@.len() == k,
            forall|j: int| 0 <= j < k ==> #[trigger] task_infos@[j] == sorted_ts@[j].1,
        decreases sorted_ts.len() - k,
    {
        task_infos.push(sorted_ts[k].1);
        k = k + 1;
    }
    assert(task_infos@.map_values(|t: Act186TaskInfo| (t.task_id.unwrap_or(0), t)) =~= sorted_ts@);
    let mut ls: Vec<(i32, Act186LikeInfo)> = Vec::new();
    let mut i: usize = 0;
    while i < likes.len()
        invariant
            i <= likes@.len(),
            ls@ == like_infos_spec(likes@.take(i as int), activity_id),
            forall|j: int| 0 <= j < ls@.len() ==> (#[trigger] ls@[j]).0 == ls@[j].1.like_type.unwrap_or(0),
        decreases likes.len() - i,
    {
        assert(likes@.take(i + 1).drop_last() =~= likes@.take(i as int));
        let row = likes[i];
        if row.activity_id == activity_id {
            ls.push((row.like_type, Act186LikeInfo { like_type: Some(row.like_type), value: Some(0) }));
        }
        i = i + 1;
    }
    assert(likes@.take(likes@.len() as int) =~= likes@);
    let ghost ls_in = ls@;
    let sorted_ls = sort_by_key_stable(ls);
    proof {
        lemma_sorted_keeps(ls_in, sorted_ls@, |q: (i32, Act186LikeInfo)| q.0 == q.1.like_type.unwrap_or(0));
    }
    let mut like_infos: Vec<Act186LikeInfo> = Vec::new();
    let mut k: usize = 0;
    while k < sorted_ls.len()
        invariant
            k <= sorted_ls@.len(),
            like_infos@.len() == k,
            forall|j: int| 0 <= j < k ==> #[trigger] like_infos@[j] == sorted_ls@[j].1,
        decreases sorted_ls.len() - k,
    {
        like_infos.push(sorted_ls[k].1);
        k = k + 1;
    }
    assert(like_infos@.map_values(|t: Act186LikeInfo| (t.like_type.unwrap_or(0), t)) =~= sorted_ls@);
    let mut gs: Vec<(i32, Act186GameInfo)> = Vec::new();
    let mut i: usize = 0;
    while i < games.len()
        invariant
            i <= games@.len(),
            gs@ == game_infos_spec(games@.take(i as int), activity_id),
            forall|j: int| 0 <= j < gs@.len() ==> (#[trigger] gs@[j]).0 == gs@[j].1.game_id.unwrap_or(0),
        decreases games.len() - i,
    {
        assert(games@.take(i + 1).drop_last() =~= games@.take(i as int));
        let row = &games[i];
        if row.activity_id == activity_id {
            let game_type = match first_weighted_id(row.game_type2_prob.as_str()) {
                Some(v) => v,
                None => 0,
            };
            gs.push((row.id, Act186GameInfo { game_id: Some(row.id), game_type_id: Some(game_type), expire_time: Some(0) }));
        }
        i = i + 1;
    }
    assert(games@.take(games@.len() as int) =~= games@);
    let ghost gs_in = gs@;
    let sorted_gs = sort_by_key_stable(gs);
    proof {
        lemma_sorted_keeps(gs_in, sorted_gs@, |q: (i32, Act186GameInfo)| q.0 == q.1.game_id.unwrap_or(0));
    }
    let mut game_infos: Vec<Act186GameInfo> = Vec::new();
    let mut k: usize = 0;
    while k < sorted_gs.len()
        invariant
            k <= sorted_gs@.len(),
            game_infos@.len() == k,
            forall|j: int| 0 <= j < k ==> #[trigger] game_infos@[j] == sorted_gs@[j].1,
        decreases sorted_gs.len() - k,
    {
        game_infos.push(sorted_gs[k].1);
        k = k + 1;
    }
    assert(game_infos@.map_values(|t: Act186GameInfo| (t.game_id.unwrap_or(0), t)) =~= sorted_gs@);
    GetAct186InfoReply {
        activity_id: Some(activity_id),
        current_stage: Some(current_stage_at(stages, activity_id, now)),
        get_milestone_progress: Some(milestone_progress as i64),
        get_daily_collection: Some(false),
        get_onece_bonus: Some(false),
        task_infos,
        like_infos,
        game_infos,
    }
}

/// The currency whose holding is the event's milestone progress: the value
/// of the first row `1` of the event's constant table, read as a number;
/// refused when it is missing or not a number.
pub fn act186_milestone_currency_id(consts: &[(i32, String)]) -> (res: Result<i32, LogicError>)
    ensures
        res == match find_map(consts@, |c: (i32, String)| if c.0 == 1 { Some(c.1@) } else { None }) {
            Some(v) => match parse_i32_spec(v) {
                Some(x) => Ok::<i32, LogicError>(x),
                None => Err(LogicError::InvalidRequest),
            },
            None => Err(LogicError::InvalidRequest),
        },
{
    let ghost f = |c: (i32, String)| if c.0 == 1 { Some(c.1@) } else { None };
    let mut i: usize = 0;
    while i < consts.len()
        invariant
            i <= consts@.len(),
            f == (|c: (i32, String)| if c.0 == 1 { Some(c.1@) } else { None }),
            find_map(consts@.take(i as int), f) is None,
        decreases consts.len() - i,
    {
        assert(consts@.take(i + 1).drop_last() =~= consts@.take(i as int));
        if consts[i].0 == 1 {
            proof {
                lemma_find_map_prefix(consts@, f, i + 1);
            }
            let chars = chars_of(consts[i].1.as_str());
            return match parse_i32(chars.as_slice()) {
                Some(x) => Ok(x),
                None => Err(LogicError::InvalidRequest),
            };
        }
        i = i + 1;
    }
    assert(consts@.take(consts@.len() as int) =~= consts@);
    Err(LogicError::InvalidRequest)
}

/// The special bonus of one dice event within a sign-in event: refused
/// unless the request names both events; else the events and the bonus stage
/// stored for the dice event (`0` when none is).
pub fn get_act186_sp_bonus_info(activity_id: Option<i32>, act186_activity_id: Option<i32>, stored: Option<i32>) -> (res: Result<
    (i32, i32, i32),
    LogicError,
>)
    ensures
        res == match (activity_id, act186_activity_id) {
            (Some(a), Some(b)) => Ok::<(i32, i32, i32), LogicError>(
                (
                    a,
                    b,
                    match stored {
                        Some(s) => s,
                        None => 0,
                    },
                ),
            ),
            _ => Err(LogicError::InvalidRequest),
        },
{
    let a = match activity_id {
        Some(a) => a,
        None => {
            return Err(LogicError::InvalidRequest);
        },
    };
    let b = match act186_activity_id {
        Some(b) => b,
        None => {
            return Err(LogicError::InvalidRequest);
        },
    };
    let stage = match stored {
        Some(s) => s,
        None => 0,
    };
    Ok((a, b, stage))
}

/// Taking the special bonus: refused unless the request names both events;
/// else the events, for the caller to store the bonus taken (stage `2`).
pub fn accept_act186_sp_bonus(activity_id: Option<i32>, act186_activity_id: Option<i32>) -> (res: Result<(i32, i32), LogicError>)
    ensures
        res == match (activity_id, act186_activity_id) {
            (Some(a), Some(b)) => Ok::<(i32, i32), LogicError>((a, b)),
            _ => Err(LogicError::InvalidRequest),
        },
{
    match (activity_id, act186_activity_id) {
        (Some(a), Some(b)) => Ok((a, b)),
        _ => Err(LogicError::InvalidRequest),
    }
}

} // verus!
