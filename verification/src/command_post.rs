use crate::clock::now_ms;
use crate::text::{filter_map, find_map, lemma_find_map_prefix};
use vstd::prelude::*;

verus! {

/// The command post of one player.
#[derive(Clone, Copy, Debug)]
pub struct CommandPostManager {
    player_id: i64,
}

impl CommandPostManager {
    /// The command post of the player `player_id`.
    pub fn new(player_id: i64) -> (m: Self)
        ensures
            m.player_id() == player_id,
    {
        CommandPostManager { player_id }
    }

    /// The player this command post belongs to.
    pub closed spec fn player_id(self) -> i64 {
        self.player_id
    }
}

/// The entry of the command post's constant table that holds the current version.
pub const COMMAND_POST_CURRENT_VERSION_CONST_ID: i32 = 300;

/// One bonus of the command post: the version it belongs to and the points it needs.
#[derive(Clone, Copy, Debug)]
pub struct CopostBonusRow {
    pub id: i32,
    pub version_id: i32,
    pub point_num: i32,
}

/// The current version: the value of the constant entry, else `0`.
pub open spec fn current_version_spec(consts: Seq<(i32, i32)>) -> i32 {
    match find_map(consts, |c: (i32, i32)| if c.0 == COMMAND_POST_CURRENT_VERSION_CONST_ID { Some(c.1) } else { None }) {
        Some(v) => v,
        None => 0,
    }
}

/// The command post's current version, from its constant table.
pub fn command_post_current_version(consts: &[(i32, i32)]) -> (res: i32)
    ensures
        res == current_version_spec(consts@),
{
    let ghost f = |c: (i32, i32)| if c.0 == COMMAND_POST_CURRENT_VERSION_CONST_ID { Some(c.1) } else { None };
    let mut i: usize = 0;
    while i < consts.len()
        invariant
            i <= consts@.len(),
            f == (|c: (i32, i32)| if c.0 == COMMAND_POST_CURRENT_VERSION_CONST_ID { Some(c.1) } else { None }),
            find_map(consts@.take(i as int), f) is None,
        decreases consts.len() - i,
    {
        assert(consts@.take(i + 1).drop_last() =~= consts@.take(i as int));
        if consts[i].0 == COMMAND_POST_CURRENT_VERSION_CONST_ID {
            proof {
                lemma_find_map_prefix(consts@, f, i + 1);
            }
            return consts[i].1;
        }
        i = i + 1;
    }
    assert(consts@.take(consts@.len() as int) =~= consts@);
    0
}

/// A bonus can be claimed: it is released in the current version and the
/// points caught reach its need.
pub open spec fn bonus_open(b: CopostBonusRow, version: i32, catch_num: i32) -> bool {
    b.version_id <= version && b.point_num <= catch_num
}

/// Bonus `id`, when it exists (its first row) and can be claimed.
pub fn claimable_bonus_id(bonuses: &[CopostBonusRow], version: i32, id: i32, catch_num: i32) -> (res: Option<i32>)
    ensures
        res == match find_map(bonuses@, |b: CopostBonusRow| if b.id == id { Some(b) } else { None }) {
            Some(b) => if bonus_open(b, version, catch_num) { Some(id) } else { None },
            None => None,
        },
{
    let ghost f = |b: CopostBonusRow| if b.id == id { Some(b) } else { None };
    let mut i: usize = 0;
    while i < bonuses.len()
        invariant
            i <= bonuses@.len(),
            f == (|b: CopostBonusRow| if b.id == id { Some(b) } else { None }),
            find_map(bonuses@.take(i as int), f) is None,
        decreases bonuses.len() - i,
    {
        assert(bonuses@.take(i + 1).drop_last() =~= bonuses@.take(i as int));
        if bonuses[i].id == id {
            proof {
                lemma_find_map_prefix(bonuses@, f, i + 1);
            }
            let b = bonuses[i];
            return if b.version_id <= version && b.point_num <= catch_num { Some(id) } else { None };
        }
        i = i + 1;
    }
    assert(bonuses@.take(bonuses@.len() as int) =~= bonuses@);
    None
}

/// The bonuses that can be claimed and were not gained yet, in table order.
pub fn claimable_bonus_ids(bonuses: &[CopostBonusRow], version: i32, catch_num: i32, gained: &[i32]) -> (out: Vec<i32>)
    ensures
        out@ == filter_map(
            bonuses@,
            |b: CopostBonusRow| if bonus_open(b, version, catch_num) && !gained@.contains(b.id) { Some(b.id) } else { None },
        ),
{
    let ghost f = |b: CopostBonusRow| if bonus_open(b, version, catch_num) && !gained@.contains(b.id) { Some(b.id) } else { None };
    let mut out: Vec<i32> = Vec::new();
    let mut i: usize = 0;
    while i < bonuses.len()
        invariant
            i <= bonuses@.len(),
            f == (|b: CopostBonusRow| if bonus_open(b, version, catch_num) && !gained@.contains(b.id) { Some(b.id) } else { None }),
            out@ == filter_map(bonuses@.take(i as int), f),
        decreases bonuses.len() - i,
    {
        assert(bonuses@.take(i + 1).drop_last() =~= bonuses@.take(i as int));
        let b = bonuses[i];
        if b.version_id <= version && b.point_num <= catch_num {
            let mut seen = false;
            let mut k: usize = 0;
            while k < gained.len()
                invariant
                    k <= gained@.len(),
                    seen <==> exists|m: int| 0 <= m < k && gained@[m] == b.id,
                decreases gained.len() - k,
            {
                if gained[k] == b.id {
                    seen = true;
                }
                k = k + 1;
            }
            if !seen {
                out.push(b.id);
            } else {
                assert(gained@.contains(b.id));
            }
        }
        i = i + 1;
    }
    assert(bonuses@.take(bonuses@.len() as int) =~= bonuses@);
    out
}

/// The kind of command-post event that sends heroes out.
pub const COMMAND_POST_EVENT_TYPE_DISPATCH: i32 = 4;

/// The state an event is finished in: its reward taken.
pub const COMMAND_POST_EVENT_STATE_GET_REWARD: i32 = 1;

/// One event of the command post's event table; `all_time` is its length in seconds.
#[derive(Clone, Copy, Debug)]
pub struct CopostEventRow {
    pub id: i32,
    pub event_type: i32,
    pub all_time: i32,
}

/// The event row `id` (the first such).
pub open spec fn event_row(events: Seq<CopostEventRow>, id: i32) -> Option<CopostEventRow> {
    find_map(events, event_fn(id))
}

/// An event row, when its id is `id`.
pub open spec fn event_fn(id: i32) -> spec_fn(CopostEventRow) -> Option<CopostEventRow> {
    |e: CopostEventRow| if e.id == id { Some(e) } else { None }
}

/// The latest start that leaves room for the longest event before the end of `i64`.
pub open spec fn latest_start() -> int {
    i64::MAX - i32::MAX * 1000
}

/// Sending heroes on event `event_id` at `start_time` (milliseconds): only a
/// dispatch event of the table goes out, as `(event, start, end)`, ending its
/// length (never below zero) later; anything else sends nothing.
pub open spec fn dispatch_spec(event_id: Option<i32>, events: Seq<CopostEventRow>, start_time: i64) -> Option<(i32, i64, i64)> {
    match event_id {
        None => None,
        Some(id) => match event_row(events, id) {
            None => None,
            Some(e) => if e.event_type != COMMAND_POST_EVENT_TYPE_DISPATCH {
                None
            } else {
                let len = if e.all_time < 0 { 0 } else { e.all_time as int };
                Some((id, start_time, (start_time + len * 1000) as i64))
            },
        },
    }
}

/// The window of a dispatch started at `start_time`; see `dispatch_spec`.
pub fn dispatch_window(event_id: Option<i32>, events: &[CopostEventRow], start_time: i64) -> (res: Option<(i32, i64, i64)>)
    requires
        start_time <= latest_start(),
    ensures
        res == dispatch_spec(event_id, events@, start_time),
{
    let id = match event_id {
        Some(id) => id,
        None => {
            return None;
        },
    };
    let ghost f = event_fn(id);
    let mut i: usize = 0;
    while i < events.len()
        invariant
            i <= events@.len(),
            f == event_fn(id),
            event_id == Some(id),
            start_time <= latest_start(),
            find_map(events@.take(i as int), f) is None,
        decreases events.len() - i,
    {
        assert(events@.take(i + 1).drop_last() =~= events@.take(i as int));
        if events[i].id == id {
            proof {
                lemma_find_map_prefix(events@, f, i + 1);
            }
            let e = events[i];
            if e.event_type != COMMAND_POST_EVENT_TYPE_DISPATCH {
                return None;
            }
            let len: i64 = if e.all_time < 0 { 0 } else { e.all_time as i64 };
            assert(len * 1000 <= i32::MAX * 1000) by (nonlinear_arith)
                requires
                    len <= i32::MAX,
            ;
            return Some((id, start_time, start_time + len * 1000));
        }
        i = i + 1;
    }
    assert(events@.take(events@.len() as int) =~= events@);
    None
}

/// Sends heroes on event `event_id` now (the system clock, see `now_ms`):
/// only a dispatch event goes out, starting at the time read, with the window
/// `dispatch_window` gives; a clock so late that the end would not fit in
/// `i64` ends the window at `i64::MAX`.
pub fn command_post_dispatch(event_id: Option<i32>, events: &[CopostEventRow]) -> (res: Option<(i32, i64, i64)>)
    ensures
        res is Some <==> dispatch_spec(event_id, events@, 0) is Some,
        res matches Some(w) ==> (w.1 <= latest_start() ==> dispatch_spec(event_id, events@, w.1) == Some(w)),
        res matches Some(w) ==> (w.1 > latest_start() ==> (dispatch_spec(event_id, events@, 0) matches Some(v) && w.0
            == v.0 && w.2 == i64::MAX)),
{
    let now = now_ms();
    if now > i64::MAX - 2_147_483_647_000 {
        return match dispatch_window(event_id, events, 0) {
            Some((id, _, _)) => Some((id, now, i64::MAX)),
            None => None,
        };
    }
    dispatch_window(event_id, events, now)
}

} // verus!
