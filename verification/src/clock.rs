use vstd::prelude::*;

verus! {

/// Names what `chrono` makes of `value` under the format `format`: the date and
/// time it reads (`NaiveDateTime::parse_from_str`), taken as UTC, in
/// milliseconds since the Unix epoch; `None` when the text does not parse.
pub uninterp spec fn utc_millis_of(value: Seq<char>, format: Seq<char>) -> Option<i64>;

/// Reads `value` as a date and time in `format` and gives its UTC instant in
/// milliseconds (`NaiveDateTime::parse_from_str`, then `and_utc().timestamp_millis()`).
/// The contract only ties the result to `utc_millis_of`; what chrono accepts is
/// not restated here.
#[verifier::external_body]
pub(crate) fn parse_utc_millis(value: &[char], format: &str) -> (r: Option<i64>)
    ensures
        r == utc_millis_of(value@, format@),
{
    let text: String = value.iter().collect();
    match chrono::NaiveDateTime::parse_from_str(&text, format) {
        Ok(dt) => Some(dt.and_utc().timestamp_millis()),
        Err(_) => None,
    }
}

/// Names the day after the date `date` (read with `%Y-%m-%d`), written again
/// with `%Y-%m-%d`; `None` when `date` does not parse or has no next day.
pub uninterp spec fn next_day_text_of(date: Seq<char>) -> Option<Seq<char>>;

/// The day after `date`: `NaiveDate::parse_from_str(date, "%Y-%m-%d")`, then
/// `checked_add_signed(Duration::days(1))`, then `format("%Y-%m-%d")`. The
/// contract only ties the result to `next_day_text_of`.
#[verifier::external_body]
pub(crate) fn next_day_text(date: &[char]) -> (r: Option<Vec<char>>)
    ensures
        match r {
            Some(v) => next_day_text_of(date@) == Some(v@),
            None => next_day_text_of(date@) is None,
        },
{
    let text: String = date.iter().collect();
    match chrono::NaiveDate::parse_from_str(&text, "%Y-%m-%d") {
        Ok(d) => match d.checked_add_signed(chrono::Duration::days(1)) {
            Some(next) => Some(next.format("%Y-%m-%d").to_string().chars().collect()),
            None => None,
        },
        Err(_) => None,
    }
}

/// The current time in milliseconds since the Unix epoch, from the system
/// clock (`UNIX_EPOCH.elapsed()`; a clock set before the epoch reads as `0`).
/// Nothing is stated of the value: it depends on the moment of the call.
#[verifier::external_body]
pub(crate) fn now_ms() -> (r: i64) {
    match std::time::UNIX_EPOCH.elapsed() {
        Ok(d) => d.as_millis() as i64,
        Err(_) => 0,
    }
}

/// Unicode white space, as `char::is_whitespace` defines it.
pub open spec fn is_space(c: char) -> bool {
    let v = c as u32;
    (0x9 <= v <= 0xd) || v == 0x20 || v == 0x85 || v == 0xa0 || v == 0x1680 || (0x2000 <= v
        <= 0x200a) || v == 0x2028 || v == 0x2029 || v == 0x202f || v == 0x205f || v == 0x3000
}

/// `char::is_whitespace`.
pub fn space(c: char) -> (res: bool)
    ensures
        res == is_space(c),
{
    let v = c as u32;
    (0x9 <= v && v <= 0xd) || v == 0x20 || v == 0x85 || v == 0xa0 || v == 0x1680 || (0x2000 <= v
        && v <= 0x200a) || v == 0x2028 || v == 0x2029 || v == 0x202f || v == 0x205f || v == 0x3000
}

/// `s.trim().is_empty()`: nothing but white space.
pub open spec fn blank(s: Seq<char>) -> bool {
    forall|i: int| 0 <= i < s.len() ==> is_space(#[trigger] s[i])
}

/// Whether `s` holds nothing but white space.
pub fn is_blank(s: &[char]) -> (res: bool)
    ensures
        res == blank(s@),
{
    let mut i: usize = 0;
    while i < s.len()
        invariant
            i <= s@.len(),
            forall|k: int| 0 <= k < i ==> is_space(#[trigger] s@[k]),
        decreases s.len() - i,
    {
        if !space(s[i]) {
            return false;
        }
        i = i + 1;
    }
    true
}

/// The words of `s` joined by single spaces
/// (`s.split_whitespace().collect::<Vec<_>>().join(" ")`).
pub open spec fn squeeze_spaces(s: Seq<char>) -> Seq<char>
    decreases s.len(),
{
    if s.len() == 0 {
        Seq::empty()
    } else {
        let front = squeeze_spaces(s.drop_last());
        if is_space(s.last()) {
            front
        } else if s.len() >= 2 && is_space(s[s.len() - 2]) && front.len() > 0 {
            front.push(' ').push(s.last())
        } else {
            front.push(s.last())
        }
    }
}

/// The words of `s` joined by single spaces.
pub fn squeeze(s: &[char]) -> (out: Vec<char>)
    ensures
        out@ == squeeze_spaces(s@),
{
    let mut out: Vec<char> = Vec::new();
    let mut i: usize = 0;
    while i < s.len()
        invariant
            i <= s@.len(),
            out@ == squeeze_spaces(s@.take(i as int)),
        decreases s.len() - i,
    {
        let ghost t = s@.take(i + 1);
        assert(t.drop_last() =~= s@.take(i as int));
        let c = s[i];
        if !space(c) {
            if i >= 1 && space(s[i - 1]) && out.len() > 0 {
                out.push(' ');
            }
            out.push(c);
        }
        i = i + 1;
    }
    assert(s@.take(s@.len() as int) =~= s@);
    out
}

} // verus!
