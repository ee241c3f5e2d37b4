use crate::activity::act123::{largest_or_zero, max_or_zero};
use crate::error::LogicError;
use crate::sorting::{sort_by_key_stable, stably_sorted};
use crate::text::{filter_map, find_map, lemma_find_map_prefix};
use crate::text::{as_u32, to_u32, chars_of, i32_list, i32_list_spec, join_text, law_joined_list_round_trip, push_joined};
use vstd::prelude::*;

verus! {

/// Where a puzzle of the daily puzzle event stands.
#[derive(Clone, Copy, PartialEq, Eq, Debug)]
pub enum PuzzleState {
    Lock,
    UnAnswer,
    Answering,
    Solved,
    RewardGet,
}

/// The stored number of a puzzle state.
pub open spec fn puzzle_state_id(s: PuzzleState) -> i32 {
    match s {
        PuzzleState::Lock => 0,
        PuzzleState::UnAnswer => 1,
        PuzzleState::Answering => 2,
        PuzzleState::Solved => 3,
        PuzzleState::RewardGet => 4,
    }
}

/// The puzzle state stored as `id`, if any.
pub open spec fn puzzle_state_of(id: i32) -> Option<PuzzleState> {
    if id == 0 {
        Some(PuzzleState::Lock)
    } else if id == 1 {
        Some(PuzzleState::UnAnswer)
    } else if id == 2 {
        Some(PuzzleState::Answering)
    } else if id == 3 {
        Some(PuzzleState::Solved)
    } else if id == 4 {
        Some(PuzzleState::RewardGet)
    } else {
        None
    }
}

impl PuzzleState {
    /// The stored number of this state.
    pub fn id(self) -> (res: i32)
        ensures
            res == puzzle_state_id(self),
    {
        match self {
            PuzzleState::Lock => 0,
            PuzzleState::UnAnswer => 1,
            PuzzleState::Answering => 2,
            PuzzleState::Solved => 3,
            PuzzleState::RewardGet => 4,
        }
    }

    /// The state stored as `id`; `None` for an unknown number.
    pub fn from_id(id: i32) -> (res: Option<Self>)
        ensures
            res == puzzle_state_of(id),
    {
        match id {
            0 => Some(PuzzleState::Lock),
            1 => Some(PuzzleState::UnAnswer),
            2 => Some(PuzzleState::Answering),
            3 => Some(PuzzleState::Solved),
            4 => Some(PuzzleState::RewardGet),
            _ => None,
        }
    }
}

/// Every state reads back from its number, and a number that names a state is
/// that state's number.
pub proof fn law_puzzle_state_round_trip(s: PuzzleState, id: i32)
    ensures
        puzzle_state_of(puzzle_state_id(s)) == Some(s),
        puzzle_state_of(id) matches Some(t) ==> puzzle_state_id(t) == id,
{
}

/// One puzzle of the event's table.
#[derive(Clone, Debug)]
pub struct Act154Row {
    pub activity_id: i32,
    pub puzzle_id: i32,
    pub day: i32,
    pub answer_id: i32,
    pub bonus: String,
}

/// The last day among the puzzles of `activity_id` in `rows`, if it has any.
pub open spec fn max_day(rows: Seq<Act154Row>, activity_id: i32) -> Option<i32>
    decreases rows.len(),
{
    if rows.len() == 0 {
        None
    } else {
        let front = max_day(rows.drop_last(), activity_id);
        let row = rows.last();
        if row.activity_id != activity_id {
            front
        } else {
            match front {
                Some(d) => if row.day > d { Some(row.day) } else { Some(d) },
                None => Some(row.day),
            }
        }
    }
}

/// How many days of the activity are open: the last day of its puzzles, or
/// `1` when it has none.
pub open spec fn login_count_spec(rows: Seq<Act154Row>, activity_id: i32) -> i32 {
    match max_day(rows, activity_id) {
        Some(d) => d,
        None => 1,
    }
}

/// The last day among the activity's puzzles, or `1` when it has none.
pub fn login_count(rows: &[Act154Row], activity_id: i32) -> (res: i32)
    ensures
        res == login_count_spec(rows@, activity_id),
{
    let mut best: Option<i32> = None;
    let mut i: usize = 0;
    while i < rows.len()
        invariant
            i <= rows@.len(),
            best == max_day(rows@.take(i as int), activity_id),
        decreases rows.len() - i,
    {
        assert(rows@.take(i + 1).drop_last() =~= rows@.take(i as int));
        if rows[i].activity_id == activity_id {
            let day = rows[i].day;
            best = match best {
                Some(d) => if day > d {
                    Some(day)
                } else {
                    Some(d)
                },
                None => Some(day),
            };
        }
        i = i + 1;
    }
    assert(rows@.take(rows@.len() as int) =~= rows@);
    match best {
        Some(d) => d,
        None => 1,
    }
}

/// The answers a player has tried, as stored: numbers separated by `#`,
/// pieces that are not numbers skipped.
pub fn answer_records(ext: &str) -> (out: Vec<i32>)
    ensures
        out@ == i32_list_spec(ext@, '#'),
{
    let chars = chars_of(ext);
    i32_list(chars.as_slice(), '#')
}

/// The stored state of a puzzle, or, when nothing is stored, unanswered once
/// its day has come and locked before, with no answers.
pub open spec fn current_state(stored: Option<(i32, i32, Seq<char>)>, day: i32, login_count: i32) -> (i32, i32, Seq<char>) {
    match stored {
        Some(s) => s,
        None => (if day <= login_count { 1i32 } else { 0i32 }, 0, Seq::empty()),
    }
}

/// The state of a puzzle as the player sees it; see `current_state`.
pub fn state_for_row(stored: Option<(i32, i32, String)>, day: i32, login_count: i32) -> (res: (i32, i32, String))
    ensures
        (res.0, res.1, res.2@) == current_state(
            match stored {
                Some(s) => Some((s.0, s.1, s.2@)),
                None => None,
            },
            day,
            login_count,
        ),
{
    match stored {
        Some(s) => s,
        None => {
            let state = if day <= login_count {
                PuzzleState::UnAnswer
            } else {
                PuzzleState::Lock
            };
            (state.id(), 0, String::new())
        },
    }
}

/// The answers tried after trying `option`: unchanged when it was tried before,
/// else with `option` added at the end.
pub open spec fn records_after(records: Seq<i32>, option: i32) -> Seq<i32> {
    if records.contains(option) {
        records
    } else {
        records.push(option)
    }
}

/// What an answer does to a puzzle.
#[derive(Clone, Debug)]
pub struct Act154Answer {
    pub next_state: i32,
    pub ext: String,
    pub rewarded: bool,
}

/// The player answers `option_id` to the puzzle `row`, whose stored state is
/// `stored`. A locked puzzle and one whose reward was taken are refused. Else
/// the answer is added to those tried; the right answer moves the puzzle to
/// reward taken and grants its bonus, a wrong one leaves it unanswered.
pub fn answer154_decide(row: &Act154Row, login_count: i32, stored: Option<(i32, i32, String)>, option_id: i32) -> (res: Result<Act154Answer, LogicError>)
    ensures
        ({
            let cur = current_state(
                match stored {
                    Some(s) => Some((s.0, s.1, s.2@)),
                    None => None,
                },
                row.day,
                login_count,
            );
            if cur.0 == 0 || cur.0 == 4 {
                res == Err::<Act154Answer, LogicError>(LogicError::InvalidRequest)
            } else {
                &&& res is Ok
                &&& res->Ok_0.next_state == if option_id == row.answer_id { 4i32 } else { 1i32 }
                &&& res->Ok_0.rewarded == (option_id == row.answer_id)
                &&& res->Ok_0.ext@ == join_text(records_after(i32_list_spec(cur.2, '#'), option_id), seq!['#'])
            }
        }),
{
    let (state, _, ext) = state_for_row(stored, row.day, login_count);
    match PuzzleState::from_id(state) {
        Some(PuzzleState::Lock) | Some(PuzzleState::RewardGet) => {
            return Err(LogicError::InvalidRequest);
        },
        _ => {},
    }
    let mut records = answer_records(ext.as_str());
    let mut seen = false;
    let mut i: usize = 0;
    while i < records.len()
        invariant
            i <= records@.len(),
            seen <==> exists|k: int| 0 <= k < i && records@[k] == option_id,
        decreases records.len() - i,
    {
        if records[i] == option_id {
            seen = true;
        }
        i = i + 1;
    }
    let ghost before = records@;
    if !seen {
        records.push(option_id);
    } else {
        assert(before.contains(option_id));
    }
    assert(records@ == records_after(before, option_id));
    let rewarded = option_id == row.answer_id;
    let next_state = if rewarded {
        PuzzleState::RewardGet
    } else {
        PuzzleState::UnAnswer
    };
    let mut text = String::new();
    push_joined(&mut text, records.as_slice());
    assert(text@ =~= join_text(records@, seq!['#']));
    Ok(Act154Answer { next_state: next_state.id(), ext: text, rewarded })
}

/// What answering `option` to the puzzle `row` does: refused (`None`) while
/// the puzzle is locked or its reward taken; else the next state (reward taken
/// for the right answer, unanswered otherwise), the answers tried as stored
/// text, and whether the bonus is granted (see `answer154_decide`).
pub open spec fn answer_outcome(row: Act154Row, login_count: i32, stored: Option<(i32, i32, Seq<char>)>, option: i32) -> Option<(i32, Seq<char>, bool)> {
    let cur = current_state(stored, row.day, login_count);
    if cur.0 == 0 || cur.0 == 4 {
        None
    } else {
        Some((
            if option == row.answer_id { 4i32 } else { 1i32 },
            join_text(records_after(i32_list_spec(cur.2, '#'), option), seq!['#']),
            option == row.answer_id,
        ))
    }
}

/// The puzzle `puzzle` of event `activity_id` (the first such row).
pub open spec fn puzzle_row(rows: Seq<Act154Row>, activity_id: i32, puzzle: i32) -> Option<Act154Row> {
    find_map(rows, puzzle_row_fn(activity_id, puzzle))
}

/// A row, when it is the puzzle `puzzle` of event `activity_id`.
pub open spec fn puzzle_row_fn(activity_id: i32, puzzle: i32) -> spec_fn(Act154Row) -> Option<Act154Row> {
    |r: Act154Row| if r.activity_id == activity_id && r.puzzle_id == puzzle { Some(r) } else { None }
}

fn find_puzzle_row(rows: &[Act154Row], activity_id: i32, puzzle: i32) -> (res: Option<usize>)
    ensures
        match res {
            Some(i) => i < rows@.len() && puzzle_row(rows@, activity_id, puzzle) == Some(rows@[i as int]),
            None => puzzle_row(rows@, activity_id, puzzle) is None,
        },
{
    let ghost f = puzzle_row_fn(activity_id, puzzle);
    let mut i: usize = 0;
    while i < rows.len()
        invariant
            i <= rows@.len(),
            f == puzzle_row_fn(activity_id, puzzle),
            find_map(rows@.take(i as int), f) is None,
        decreases rows.len() - i,
    {
        assert(rows@.take(i + 1).drop_last() =~= rows@.take(i as int));
        if rows[i].activity_id == activity_id && rows[i].puzzle_id == puzzle {
            proof {
                lemma_find_map_prefix(rows@, f, i + 1);
            }
            return Some(i);
        }
        i = i + 1;
    }
    assert(rows@.take(rows@.len() as int) =~= rows@);
    None
}

/// An answer to a daily puzzle, as it is stored and paid.
#[derive(Clone, Debug)]
pub struct Act154Claim {
    pub activity_id: i32,
    pub puzzle_id: i32,
    pub answer: Act154Answer,
    /// The puzzle's bonus, granted when `answer.rewarded`.
    pub bonus: String,
}

/// The player answers `option_id` to puzzle `puzzle_id` of the event (see
/// `event_id_spec`): refused without a puzzle or an option, when the event has
/// no such puzzle, or when the puzzle cannot be answered (see
/// `answer_outcome`); `states` holds the stored `(puzzle, state, progress,
/// text)` entries, and the days logged in are counted from the table (see
/// `login_count_spec`).
pub fn answer154_puzzle(
    rows: &[Act154Row],
    activity_id: Option<i32>,
    puzzle_id: Option<u32>,
    option_id: Option<u32>,
    states: &[(i32, i32, i32, String)],
) -> (res: Result<Act154Claim, LogicError>)
    ensures
        match (puzzle_id, option_id) {
            (Some(p), Some(o)) => {
                let a = event_id_spec(activity_id, rows@);
                match puzzle_row(rows@, a, p as i32) {
                    None => res == Err::<Act154Claim, LogicError>(LogicError::InvalidRequest),
                    Some(r) => match answer_outcome(r, login_count_spec(rows@, a), stored_puzzle(states@, p as i32), o as i32) {
                        None => res == Err::<Act154Claim, LogicError>(LogicError::InvalidRequest),
                        Some(out) => res matches Ok(c) && c.activity_id == a && c.puzzle_id == p as i32 && c.answer.next_state
                            == out.0 && c.answer.ext@ == out.1 && c.answer.rewarded == out.2 && c.bonus@ == r.bonus@,
                    },
                }
            },
            _ => res == Err::<Act154Claim, LogicError>(LogicError::InvalidRequest),
        },
{
    let a = event_id(activity_id, rows);
    let p = match puzzle_id {
        Some(p) => p as i32,
        None => {
            return Err(LogicError::InvalidRequest);
        },
    };
    let o = match option_id {
        Some(o) => o as i32,
        None => {
            return Err(LogicError::InvalidRequest);
        },
    };
    let i = match find_puzzle_row(rows, a, p) {
        Some(i) => i,
        None => {
            return Err(LogicError::InvalidRequest);
        },
    };
    let login = login_count(rows, a);
    let stored = lookup_puzzle(states, p);
    let answer = match answer154_decide(&rows[i], login, stored, o) {
        Ok(x) => x,
        Err(e) => {
            return Err(e);
        },
    };
    Ok(Act154Claim { activity_id: a, puzzle_id: p, answer, bonus: rows[i].bonus.clone() })
}

/// The answers stored after an answer read back as the answers tried: the
/// `ext` that `answer154_decide` writes gives `records_after` to
/// `answer_records` on the next request.
pub proof fn law_answers_read_back(records: Seq<i32>, option: i32)
    ensures
        i32_list_spec(join_text(records_after(records, option), seq!['#']), '#') == records_after(records, option),
{
    law_joined_list_round_trip(records_after(records, option));
}

/// One puzzle as the client sees it.
#[derive(Clone, Debug)]
pub struct PuzzleInfo {
    pub puzzle_id: u32,
    pub state: u32,
    pub answer_records: Vec<u32>,
}

/// The client's view of a puzzle in `state` (its state number, its stored answers).
pub fn puzzle_info(puzzle_id: i32, state: (i32, i32, String)) -> (info: PuzzleInfo)
    ensures
        info.puzzle_id == as_u32(puzzle_id),
        info.state == as_u32(state.0),
        info.answer_records@ == i32_list_spec(state.2@, '#').map_values(|v: i32| as_u32(v)),
{
    let records = answer_records(state.2.as_str());
    let mut out: Vec<u32> = Vec::new();
    let mut i: usize = 0;
    while i < records.len()
        invariant
            i <= records@.len(),
            out@ == records@.take(i as int).map_values(|v: i32| as_u32(v)),
        decreases records.len() - i,
    {
        out.push(to_u32(records[i]));
        assert(records@.take(i + 1).map_values(|v: i32| as_u32(v)) =~= records@.take(i as int).map_values(
            |v: i32| as_u32(v),
        ).push(as_u32(records@[i as int])));
        i = i + 1;
    }
    assert(records@.take(records@.len() as int) =~= records@);
    PuzzleInfo { puzzle_id: to_u32(puzzle_id), state: to_u32(state.0), answer_records: out }
}

/// The puzzles of event `activity_id` as `(day, puzzle)`, in table order.
pub open spec fn day_keyed(rows: Seq<Act154Row>, activity_id: i32) -> Seq<(i32, i32)> {
    filter_map(rows, day_key_fn(activity_id))
}

/// A row as `(day, puzzle)`, when it belongs to event `activity_id`.
pub open spec fn day_key_fn(activity_id: i32) -> spec_fn(Act154Row) -> Option<(i32, i32)> {
    |r: Act154Row| if r.activity_id == activity_id { Some((r.day, r.puzzle_id)) } else { None }
}

/// The puzzles of event `activity_id` by day (equal days in table order), as
/// `(day, puzzle)`.
pub fn config_rows(activity_id: i32, rows: &[Act154Row]) -> (out: Vec<(i32, i32)>)
    ensures
        stably_sorted(out@, day_keyed(rows@, activity_id)),
        out@.len() == day_keyed(rows@, activity_id).len(),
{
    let ghost f = day_key_fn(activity_id);
    let mut keyed: Vec<(i32, i32)> = Vec::new();
    let mut i: usize = 0;
    while i < rows.len()
        invariant
            i <= rows@.len(),
            f == day_key_fn(activity_id),
            keyed@ == filter_map(rows@.take(i as int), f),
        decreases rows.len() - i,
    {
        assert(rows@.take(i + 1).drop_last() =~= rows@.take(i as int));
        if rows[i].activity_id == activity_id {
            keyed.push((rows[i].day, rows[i].puzzle_id));
        }
        i = i + 1;
    }
    assert(rows@.take(rows@.len() as int) =~= rows@);
    sort_by_key_stable(keyed)
}

/// The stored state of puzzle `id` among the stored `(puzzle, state,
/// progress, text)` entries (the first for it).
pub open spec fn stored_puzzle(states: Seq<(i32, i32, i32, String)>, id: i32) -> Option<(i32, i32, Seq<char>)> {
    find_map(states, stored_fn(id))
}

/// A stored entry, when it is puzzle `id`'s.
pub open spec fn stored_fn(id: i32) -> spec_fn((i32, i32, i32, String)) -> Option<(i32, i32, Seq<char>)> {
    |t: (i32, i32, i32, String)| if t.0 == id { Some((t.1, t.2, t.3@)) } else { None }
}

fn lookup_puzzle(states: &[(i32, i32, i32, String)], id: i32) -> (res: Option<(i32, i32, String)>)
    ensures
        match res {
            Some(s) => stored_puzzle(states@, id) == Some((s.0, s.1, s.2@)),
            None => stored_puzzle(states@, id) is None,
        },
{
    let ghost f = stored_fn(id);
    let mut i: usize = 0;
    while i < states.len()
        invariant
            i <= states@.len(),
            f == stored_fn(id),
            find_map(states@.take(i as int), f) is None,
        decreases states.len() - i,
    {
        assert(states@.take(i + 1).drop_last() =~= states@.take(i as int));
        if states[i].0 == id {
            proof {
                lemma_find_map_prefix(states@, f, i + 1);
            }
            return Some((states[i].1, states[i].2, states[i].3.clone()));
        }
        i = i + 1;
    }
    assert(states@.take(states@.len() as int) =~= states@);
    None
}

/// The daily puzzle event as the client shows it.
#[derive(Clone, Debug)]
pub struct Act154Infos {
    pub activity_id: i32,
    pub login_count: u32,
    /// The event's puzzles by day, as `(day, puzzle)` (see `config_rows`).
    pub rows: Vec<(i32, i32)>,
    /// The view of each of those puzzles, in the same order.
    pub infos: Vec<PuzzleInfo>,
}

/// The event ids of the puzzle table, in table order.
pub open spec fn puzzle_event_ids(rows: Seq<Act154Row>) -> Seq<i32> {
    rows.map_values(|r: Act154Row| r.activity_id)
}

/// The event asked for, else the largest in the puzzle table (`0` when empty).
pub open spec fn event_id_spec(activity_id: Option<i32>, rows: Seq<Act154Row>) -> i32 {
    match activity_id {
        Some(a) => a,
        None => max_or_zero(puzzle_event_ids(rows)),
    }
}

fn event_id(activity_id: Option<i32>, rows: &[Act154Row]) -> (res: i32)
    ensures
        res == event_id_spec(activity_id, rows@),
{
    match activity_id {
        Some(a) => a,
        None => {
            let mut ids: Vec<i32> = Vec::new();
            let mut i: usize = 0;
            while i < rows.len()
                invariant
                    i <= rows@.len(),
                    ids@ == puzzle_event_ids(rows@.take(i as int)),
                decreases rows.len() - i,
            {
                ids.push(rows[i].activity_id);
                i = i + 1;
                assert(ids@ =~= puzzle_event_ids(rows@.take(i as int)));
            }
            assert(rows@.take(rows@.len() as int) =~= rows@);
            largest_or_zero(ids.as_slice())
        },
    }
}

/// The daily puzzle event's view: the event asked for, else the largest in
/// the table (`0` when empty); the days logged in (see `login_count_spec`);
/// and each puzzle by day with its state (see `current_state`). `states`
/// holds the stored `(puzzle, state, progress, text)` entries.
pub fn act154_infos(activity_id: Option<i32>, rows: &[Act154Row], states: &[(i32, i32, i32, String)]) -> (res: Act154Infos)
    ensures
        res.activity_id == match activity_id {
            Some(a) => a,
            None => max_or_zero(puzzle_event_ids(rows@)),
        },
        res.login_count == as_u32(login_count_spec(rows@, res.activity_id)),
        stably_sorted(res.rows@, day_keyed(rows@, res.activity_id)),
        res.infos@.len() == res.rows@.len(),
        forall|k: int| 0 <= k < res.infos@.len() ==> {
            let (day, puzzle) = #[trigger] res.rows@[k];
            let cur = current_state(stored_puzzle(states@, puzzle), day, login_count_spec(rows@, res.activity_id));
            &&& res.infos@[k].puzzle_id == as_u32(puzzle)
            &&& res.infos@[k].state == as_u32(cur.0)
            &&& res.infos@[k].answer_records@ == i32_list_spec(cur.2, '#').map_values(|v: i32| as_u32(v))
        },
{
    let id = event_id(activity_id, rows);
    let login = login_count(rows, id);
    let ordered = config_rows(id, rows);
    let mut infos: Vec<PuzzleInfo> = Vec::new();
    let mut k: usize = 0;
    while k < ordered.len()
        invariant
            k <= ordered@.len(),
            login == login_count_spec(rows@, id),
            infos@.len() == k,
            forall|j: int| 0 <= j < k ==> {
                let (day, puzzle) = #[trigger] ordered@[j];
                let cur = current_state(stored_puzzle(states@, puzzle), day, login);
                &&& infos@[j].puzzle_id == as_u32(puzzle)
                &&& infos@[j].state == as_u32(cur.0)
                &&& infos@[j].answer_records@ == i32_list_spec(cur.2, '#').map_values(|v: i32| as_u32(v))
            },
        decreases ordered.len() - k,
    {
        let (day, puzzle) = ordered[k];
        let stored = lookup_puzzle(states, puzzle);
        let state = state_for_row(stored, day, login);
        let info = puzzle_info(puzzle, state);
        infos.push(info);
        k = k + 1;
    }
    Act154Infos { activity_id: id, login_count: to_u32(login), rows: ordered, infos }
}

} // verus!
