use crate::clock::{next_day_text, next_day_text_of, now_ms, parse_utc_millis, utc_millis_of};
use crate::error::LogicError;
use crate::activity::act123::{largest_or_zero, max_or_zero};
use crate::text::{chars_of, filter_map, find_map, lemma_find_map_prefix};
use vstd::prelude::*;

verus! {

/// The format of the gifts' accept dates.
pub open spec fn accept_date_format() -> Seq<char> {
    "%Y-%m-%d %H:%M:%S"@
}

/// Where `c` first occurs in `s` at or after `k`.
pub open spec fn index_from(s: Seq<char>, c: char, k: int) -> Option<int>
    decreases s.len() - k,
{
    if k < 0 || k >= s.len() {
        None
    } else if s[k] == c {
        Some(k)
    } else {
        index_from(s, c, k + 1)
    }
}

/// The instant a gift unlocks, in UTC milliseconds. A date that does not parse
/// as it stands may be written with the hour `24`: `date 24:mm:ss` is read as
/// `00:mm:ss` of the following day.
pub open spec fn accept_date_spec(value: Seq<char>) -> Option<i64> {
    match utc_millis_of(value, accept_date_format()) {
        Some(ms) => Some(ms),
        None => match index_from(value, ' ', 0) {
            None => None,
            Some(p) => {
                let date = value.take(p);
                let time = value.skip(p + 1);
                if time.len() >= 3 && time.take(3) == seq!['2', '4', ':'] {
                    match next_day_text_of(date) {
                        Some(next) => utc_millis_of(next + seq![' ', '0', '0', ':'] + time.skip(3), accept_date_format()),
                        None => None,
                    }
                } else {
                    None
                }
            },
        },
    }
}

/// Reads a gift's accept date; see `accept_date_spec`.
pub fn parse_accept_date_ms(value: &str) -> (res: Option<i64>)
    ensures
        res == accept_date_spec(value@),
{
    let chars = chars_of(value);
    proof {
        reveal_strlit("%Y-%m-%d %H:%M:%S");
    }
    match parse_utc_millis(chars.as_slice(), "%Y-%m-%d %H:%M:%S") {
        Some(ms) => {
            return Some(ms);
        },
        None => {},
    }
    let mut p: usize = 0;
    while p < chars.len()
        invariant
            p <= chars@.len(),
            index_from(chars@, ' ', 0) == index_from(chars@, ' ', p as int),
        ensures
            p < chars@.len() ==> index_from(chars@, ' ', 0) == Some(p as int),
            p == chars@.len() ==> index_from(chars@, ' ', 0) is None,
        decreases chars.len() - p,
    {
        if chars[p] == ' ' {
            break;
        }
        p = p + 1;
    }
    if p == chars.len() {
        return None;
    }
    let ghost time = chars@.skip(p + 1);
    if !(chars.len() - p >= 4 && chars[p + 1] == '2' && chars[p + 2] == '4' && chars[p + 3] == ':') {
        proof {
            if time.len() >= 3 && time.take(3) == seq!['2', '4', ':'] {
                assert(time.take(3)[0] == chars@[p + 1]);
                assert(time.take(3)[1] == chars@[p + 2]);
                assert(time.take(3)[2] == chars@[p + 3]);
            }
        }
        return None;
    }
    assert(time.take(3) =~= seq!['2', '4', ':']);
    let mut date: Vec<char> = Vec::new();
    let mut k: usize = 0;
    while k < p
        invariant
            k <= p < chars@.len(),
            date@ == chars@.take(k as int),
        decreases p - k,
    {
        date.push(chars[k]);
        assert(chars@.take(k + 1) =~= chars@.take(k as int).push(chars@[k as int]));
        k = k + 1;
    }
    let next = match next_day_text(date.as_slice()) {
        Some(n) => n,
        None => {
            return None;
        },
    };
    let mut text = next;
    let ghost head = text@;
    text.push(' ');
    text.push('0');
    text.push('0');
    text.push(':');
    let mut j: usize = p + 4;
    while j < chars.len()
        invariant
            p + 4 <= j <= chars@.len(),
            text@ == head + seq![' ', '0', '0', ':'] + chars@.subrange(p + 4, j as int),
        decreases chars.len() - j,
    {
        text.push(chars[j]);
        assert(chars@.subrange(p + 4, j + 1) =~= chars@.subrange(p + 4, j as int).push(chars@[j as int]));
        j = j + 1;
    }
    assert(chars@.subrange(p + 4, chars@.len() as int) =~= time.skip(3));
    assert(date@ =~= chars@.take(p as int));
    parse_utc_millis(text.as_slice(), "%Y-%m-%d %H:%M:%S")
}

/// A gift with this accept date is open at `now`: no readable date, or the
/// date has come.
pub open spec fn unlocked_spec(accept_date: Seq<char>, now: i64) -> bool {
    match accept_date_spec(accept_date) {
        Some(ms) => now >= ms,
        None => true,
    }
}

/// Whether a gift with this accept date is open at `now`; see `unlocked_spec`.
pub fn unlocked_at(accept_date: &str, now: i64) -> (res: bool)
    ensures
        res == unlocked_spec(accept_date@, now),
{
    match parse_accept_date_ms(accept_date) {
        Some(ms) => now >= ms,
        None => true,
    }
}

/// Whether a gift with this accept date is open now, by the system clock:
/// `unlocked_at` for the instant read, which no contract can name.
pub fn is_unlocked(accept_date: &str) -> (res: bool)
    ensures
        exists|now: i64| res == #[trigger] unlocked_spec(accept_date@, now),
        accept_date_spec(accept_date@) is None ==> res,
{
    unlocked_at(accept_date, now_ms())
}

/// One gift of the gift event.
#[derive(Clone, Debug)]
pub struct Act152Row {
    pub activity_id: i32,
    pub present_id: i32,
    pub accept_date: String,
}

/// What accepting a gift does.
#[derive(Clone, Copy, Debug, PartialEq, Eq)]
pub enum Act152Accept {
    /// Accepted before: the answer carries no bonus.
    AlreadyAccepted,
    /// Accepted now: the gift's bonus is granted and the gift is marked taken.
    Granted,
}

/// The gift row of `present_id` in `activity_id` (the first such row).
pub open spec fn present_row(rows: Seq<Act152Row>, activity_id: i32, present_id: i32) -> Option<Act152Row> {
    find_map(rows, present_row_fn(activity_id, present_id))
}

/// A row, when it is the gift `present_id` of `activity_id`.
pub open spec fn present_row_fn(activity_id: i32, present_id: i32) -> spec_fn(Act152Row) -> Option<Act152Row> {
    |r: Act152Row| if r.activity_id == activity_id && r.present_id == present_id { Some(r) } else { None }
}

/// The player accepts gift `present_id` at `now`, with `stored` its stored
/// state. Refused for an unknown gift or one whose date has not come; answered
/// without a bonus when taken before; granted otherwise.
pub fn accept_act152_present(rows: &[Act152Row], activity_id: i32, present_id: i32, stored: Option<i32>, now: i64) -> (res: Result<Act152Accept, LogicError>)
    ensures
        res == match present_row(rows@, activity_id, present_id) {
            None => Err::<Act152Accept, LogicError>(LogicError::InvalidRequest),
            Some(r) => if !(match accept_date_spec(r.accept_date@) {
                Some(ms) => now >= ms,
                None => true,
            }) {
                Err(LogicError::InvalidRequest)
            } else if (match stored {
                Some(s) => s != 0,
                None => false,
            }) {
                Ok(Act152Accept::AlreadyAccepted)
            } else {
                Ok(Act152Accept::Granted)
            },
        },
{
    let ghost f = present_row_fn(activity_id, present_id);
    let mut i: usize = 0;
    while i < rows.len()
        invariant
            i <= rows@.len(),
            f == present_row_fn(activity_id, present_id),
            find_map(rows@.take(i as int), f) is None,
        decreases rows.len() - i,
    {
        assert(rows@.take(i + 1).drop_last() =~= rows@.take(i as int));
        if rows[i].activity_id == activity_id && rows[i].present_id == present_id {
            proof {
                lemma_find_map_prefix(rows@, f, i + 1);
            }
            if !unlocked_at(rows[i].accept_date.as_str(), now) {
                return Err(LogicError::InvalidRequest);
            }
            let taken = match stored {
                Some(s) => s != 0,
                None => false,
            };
            if taken {
                return Ok(Act152Accept::AlreadyAccepted);
            }
            return Ok(Act152Accept::Granted);
        }
        i = i + 1;
    }
    assert(rows@.take(rows@.len() as int) =~= rows@);
    Err(LogicError::InvalidRequest)
}

/// The event ids of the gift table, in table order.
pub open spec fn gift_event_ids(rows: Seq<Act152Row>) -> Seq<i32> {
    rows.map_values(|r: Act152Row| r.activity_id)
}

/// The event a request names: the one asked for, else the largest in the
/// gift table; refused for an empty table.
pub fn resolve_activity_id(activity_id: Option<i32>, rows: &[Act152Row]) -> (res: Result<i32, LogicError>)
    ensures
        res == match activity_id {
            Some(a) => Ok::<i32, LogicError>(a),
            None => if rows@.len() > 0 {
                Ok(max_or_zero(gift_event_ids(rows@)))
            } else {
                Err(LogicError::InvalidRequest)
            },
        },
{
    if let Some(a) = activity_id {
        return Ok(a);
    }
    if rows.len() == 0 {
        return Err(LogicError::InvalidRequest);
    }
    let mut ids: Vec<i32> = Vec::new();
    let mut i: usize = 0;
    while i < rows.len()
        invariant
            i <= rows@.len(),
            ids@ == gift_event_ids(rows@.take(i as int)),
        decreases rows.len() - i,
    {
        ids.push(rows[i].activity_id);
        i = i + 1;
        assert(ids@ =~= gift_event_ids(rows@.take(i as int)));
    }
    assert(rows@.take(rows@.len() as int) =~= rows@);
    Ok(largest_or_zero(ids.as_slice()))
}

/// The gifts taken: the entries whose stored state is set, in the order given.
pub open spec fn taken_presents(states: Seq<(i32, i32)>) -> Seq<i32> {
    filter_map(states, |p: (i32, i32)| if p.1 != 0 { Some(p.0) } else { None })
}

/// The gift event's view of event `activity_id`: the gifts taken (see
/// `taken_presents`); `states` holds the stored `(gift, state)` pairs.
pub fn act152_info(activity_id: i32, states: &[(i32, i32)]) -> (res: (i32, Vec<i32>))
    ensures
        res.0 == activity_id,
        res.1@ == taken_presents(states@),
{
    let ghost f = |p: (i32, i32)| if p.1 != 0 { Some(p.0) } else { None };
    let mut out: Vec<i32> = Vec::new();
    let mut i: usize = 0;
    while i < states.len()
        invariant
            i <= states@.len(),
            f == (|p: (i32, i32)| if p.1 != 0 { Some(p.0) } else { None }),
            out@ == filter_map(states@.take(i as int), f),
        decreases states.len() - i,
    {
        assert(states@.take(i + 1).drop_last() =~= states@.take(i as int));
        if states[i].1 != 0 {
            out.push(states[i].0);
        }
        i = i + 1;
    }
    assert(states@.take(states@.len() as int) =~= states@);
    (activity_id, out)
}

} // verus!
