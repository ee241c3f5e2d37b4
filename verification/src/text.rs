use vstd::prelude::*;

verus! {

/// The characters of `s`, in order.
pub fn chars_of(s: &str) -> (out: Vec<char>)
    ensures
        out@ == s@,
{
    let mut out: Vec<char> = Vec::new();
    for c in it: s.chars()
        invariant
            it.seq() == s@,
            out@ == it.seq().take(it.index() as int),
    {
        out.push(c);
    }
    out
}


/// Whether `c` is one of the ASCII digits `0` to `9`.
pub open spec fn is_digit(c: char) -> bool {
    '0' <= c && c <= '9'
}

/// The numeric value of an ASCII digit.
pub open spec fn digit_value(c: char) -> int {
    c as int - '0' as int
}

/// Every character of `s` is an ASCII digit.
pub open spec fn all_digits(s: Seq<char>) -> bool {
    forall|i: int| 0 <= i < s.len() ==> is_digit(#[trigger] s[i])
}

/// The value of a string of decimal digits, most significant first.
pub open spec fn digits_value(s: Seq<char>) -> int
    decreases s.len(),
{
    if s.len() == 0 {
        0
    } else {
        digits_value(s.drop_last()) * 10 + digit_value(s.last())
    }
}

/// The integer that Rust's `str::parse` reads from `s` for a signed type,
/// before the range check: an optional `+` or `-`, then one or more digits.
pub open spec fn signed_value(s: Seq<char>) -> Option<int> {
    if s.len() > 0 && (s[0] == '-' || s[0] == '+') {
        let rest = s.skip(1);
        if rest.len() > 0 && all_digits(rest) {
            if s[0] == '-' {
                Some(-digits_value(rest))
            } else {
                Some(digits_value(rest))
            }
        } else {
            None
        }
    } else if s.len() > 0 && all_digits(s) {
        Some(digits_value(s))
    } else {
        None
    }
}

/// What `s.parse::<i32>().ok()` gives.
pub open spec fn parse_i32_spec(s: Seq<char>) -> Option<i32> {
    match signed_value(s) {
        Some(v) => if i32::MIN <= v <= i32::MAX {
            Some(v as i32)
        } else {
            None
        },
        None => None,
    }
}

/// The integer that Rust's `str::parse` reads from `s` for an unsigned type,
/// before the range check: an optional `+`, then one or more digits.
pub open spec fn unsigned_value(s: Seq<char>) -> Option<int> {
    if s.len() > 0 && s[0] == '+' {
        let rest = s.skip(1);
        if rest.len() > 0 && all_digits(rest) {
            Some(digits_value(rest))
        } else {
            None
        }
    } else if s.len() > 0 && all_digits(s) {
        Some(digits_value(s))
    } else {
        None
    }
}

/// What `s.parse::<u32>().ok()` gives.
pub open spec fn parse_u32_spec(s: Seq<char>) -> Option<u32> {
    match unsigned_value(s) {
        Some(v) => if v <= u32::MAX {
            Some(v as u32)
        } else {
            None
        },
        None => None,
    }
}

proof fn lemma_digits_value_nonneg(s: Seq<char>)
    requires
        all_digits(s),
    ensures
        digits_value(s) >= 0,
    decreases s.len(),
{
    if s.len() > 0 {
        lemma_digits_value_nonneg(s.drop_last());
    }
}

/// A digit string's value never shrinks as digits are appended.
proof fn lemma_digits_value_grows(s: Seq<char>, k: int)
    requires
        all_digits(s),
        0 <= k <= s.len(),
    ensures
        digits_value(s.take(k)) <= digits_value(s),
    decreases s.len() - k,
{
    if k < s.len() {
        let t = s.take(k + 1);
        assert(t.drop_last() =~= s.take(k));
        lemma_digits_value_nonneg(s.take(k));
        lemma_digits_value_grows(s, k + 1);
    } else {
        assert(s.take(k) =~= s);
    }
}

/// Reads a run of digits `s[start..]` as a number, giving up (`None`) as soon as
/// the value exceeds `bound`.
fn digits_up_to(s: &[char], start: usize, bound: u64) -> (res: Option<u64>)
    requires
        start <= s@.len(),
        bound <= 0x1_0000_0000,
    ensures
        match res {
            Some(v) => all_digits(s@.skip(start as int)) && v == digits_value(s@.skip(start as int))
                && v <= bound,
            None => !all_digits(s@.skip(start as int)) || digits_value(s@.skip(start as int))
                > bound,
        },
{
    let ghost t = s@.skip(start as int);
    let mut acc: u64 = 0;
    let mut i = start;
    while i < s.len()
        invariant
            start <= i <= s@.len(),
            t == s@.skip(start as int),
            all_digits(t.take(i - start)),
            acc == digits_value(t.take(i - start)),
            acc <= bound,
            bound <= 0x1_0000_0000,
        decreases s.len() - i,
    {
        let c = s[i];
        if !('0' <= c && c <= '9') {
            assert(t[i - start] == c);
            return None;
        }
        let d = (c as u64) - ('0' as u64);
        assert(t.take(i + 1 - start).drop_last() =~= t.take(i - start));
        let next = acc * 10 + d;
        if next > bound {
            proof {
                assert(digits_value(t.take(i + 1 - start)) == next);
                if all_digits(t) {
                    lemma_digits_value_grows(t, i + 1 - start);
                }
            }
            return None;
        }
        acc = next;
        i = i + 1;
    }
    assert(t.take(i - start) =~= t);
    Some(acc)
}

/// `s.parse::<i32>().ok()`: an optional sign, then decimal digits, within `i32`.
pub fn parse_i32(s: &[char]) -> (res: Option<i32>)
    ensures
        res == parse_i32_spec(s@),
{
    if s.len() == 0 {
        return None;
    }
    let negative = s[0] == '-';
    let signed = s[0] == '-' || s[0] == '+';
    let start: usize = if signed { 1 } else { 0 };
    if start == s.len() {
        return None;
    }
    let bound: u64 = if negative { 0x8000_0000 } else { 0x7fff_ffff };
    assert(s@.skip(0) =~= s@);
    match digits_up_to(s, start, bound) {
        Some(v) => {
            if negative {
                if v == 0x8000_0000 {
                    Some(i32::MIN)
                } else {
                    Some(-(v as i32))
                }
            } else {
                Some(v as i32)
            }
        },
        None => None,
    }
}

/// `s.parse::<u32>().ok()`: an optional `+`, then decimal digits, within `u32`.
pub fn parse_u32(s: &[char]) -> (res: Option<u32>)
    ensures
        res == parse_u32_spec(s@),
{
    if s.len() == 0 {
        return None;
    }
    let start: usize = if s[0] == '+' { 1 } else { 0 };
    if start == s.len() {
        return None;
    }
    assert(s@.skip(0) =~= s@);
    match digits_up_to(s, start, 0xffff_ffff) {
        Some(v) => Some(v as u32),
        None => None,
    }
}


/// What `s.split(sep)` yields, read character by character: every `sep` ends one
/// piece and starts the next, so there is always one piece more than separators.
pub open spec fn split_spec(s: Seq<char>, sep: char) -> Seq<Seq<char>>
    decreases s.len(),
{
    if s.len() == 0 {
        seq![Seq::empty()]
    } else {
        let parts = split_spec(s.drop_last(), sep);
        if s.last() == sep {
            parts.push(Seq::empty())
        } else {
            parts.update(parts.len() - 1, parts.last().push(s.last()))
        }
    }
}

pub proof fn lemma_split_nonempty(s: Seq<char>, sep: char)
    ensures
        split_spec(s, sep).len() >= 1,
    decreases s.len(),
{
    if s.len() > 0 {
        lemma_split_nonempty(s.drop_last(), sep);
    }
}

/// `s.split(sep)`, each piece as its characters.
pub fn split(s: &[char], sep: char) -> (parts: Vec<Vec<char>>)
    ensures
        parts.deep_view() == split_spec(s@, sep),
{
    let mut parts: Vec<Vec<char>> = Vec::new();
    let mut cur: Vec<char> = Vec::new();
    let mut i: usize = 0;
    assert(s@.take(0) =~= Seq::<char>::empty());
    assert(parts.deep_view().push(cur@) =~= split_spec(s@.take(0), sep));
    while i < s.len()
        invariant
            i <= s@.len(),
            parts.deep_view().push(cur@) =~= split_spec(s@.take(i as int), sep),
        decreases s.len() - i,
    {
        let c = s[i];
        let ghost prev = s@.take(i as int);
        assert(s@.take(i + 1).drop_last() =~= prev);
        proof {
            lemma_split_nonempty(prev, sep);
        }
        let ghost old_dv = parts.deep_view();
        let ghost old_cur = cur@;
        if c == sep {
            let done = cur;
            assert(done.deep_view() =~= old_cur);
            parts.push(done);
            assert(parts.deep_view() =~= old_dv.push(old_cur));
            cur = Vec::new();
        } else {
            cur.push(c);
            assert(parts.deep_view().push(cur@) =~= old_dv.push(old_cur).update(
                old_dv.len() as int,
                old_cur.push(c),
            ));
        }
        i = i + 1;
    }
    assert(s@.take(s@.len() as int) =~= s@);
    let ghost old_dv = parts.deep_view();
    let ghost last = cur@;
    assert(cur.deep_view() =~= last);
    parts.push(cur);
    assert(parts.deep_view() =~= old_dv.push(last));
    parts
}


/// The results of `f` on the items of `s` that it maps to `Some`, in order
/// (`Iterator::filter_map`).
pub open spec fn filter_map<A, B>(s: Seq<A>, f: spec_fn(A) -> Option<B>) -> Seq<B>
    decreases s.len(),
{
    if s.len() == 0 {
        Seq::empty()
    } else {
        let front = filter_map(s.drop_last(), f);
        match f(s.last()) {
            Some(b) => front.push(b),
            None => front,
        }
    }
}

/// The first `Some` that `f` gives on the items of `s` (`Iterator::find_map`).
pub open spec fn find_map<A, B>(s: Seq<A>, f: spec_fn(A) -> Option<B>) -> Option<B>
    decreases s.len(),
{
    if s.len() == 0 {
        None
    } else {
        match find_map(s.drop_last(), f) {
            Some(b) => Some(b),
            None => f(s.last()),
        }
    }
}

/// `s.parse::<i32>().ok()` as a spec function value.
pub open spec fn parse_i32_fn() -> spec_fn(Seq<char>) -> Option<i32> {
    |p: Seq<char>| parse_i32_spec(p)
}

/// The integers among the `sep`-separated pieces of `s`, unparsable pieces skipped:
/// `s.split(sep).filter_map(|p| p.parse::<i32>().ok())`.
pub open spec fn i32_list_spec(s: Seq<char>, sep: char) -> Seq<i32> {
    filter_map(split_spec(s, sep), parse_i32_fn())
}

/// `s.split(sep).filter_map(|p| p.parse::<i32>().ok()).collect()` on characters.
pub fn i32_list(s: &[char], sep: char) -> (out: Vec<i32>)
    ensures
        out@ == i32_list_spec(s@, sep),
{
    let parts = split(s, sep);
    let mut out: Vec<i32> = Vec::new();
    let mut i: usize = 0;
    while i < parts.len()
        invariant
            i <= parts@.len(),
            parts.deep_view() == split_spec(s@, sep),
            out@ == filter_map(parts.deep_view().take(i as int), parse_i32_fn()),
        decreases parts.len() - i,
    {
        let ghost pv = parts.deep_view();
        assert(pv.take(i + 1).drop_last() =~= pv.take(i as int));
        assert(pv[i as int] == parts[i as int]@);
        let v = parse_i32(parts[i].as_slice());
        if let Some(x) = v {
            out.push(x);
        }
        i = i + 1;
    }
    assert(parts.deep_view().take(parts@.len() as int) =~= parts.deep_view());
    out
}


/// Once a prefix of `s` has a `Some` under `f`, `find_map` of all of `s` is that one.
pub proof fn lemma_find_map_prefix<A, B>(s: Seq<A>, f: spec_fn(A) -> Option<B>, k: int)
    requires
        0 <= k <= s.len(),
        find_map(s.take(k), f) is Some,
    ensures
        find_map(s, f) == find_map(s.take(k), f),
    decreases s.len() - k,
{
    if k < s.len() {
        assert(s.take(k + 1).drop_last() =~= s.take(k));
        lemma_find_map_prefix(s, f, k + 1);
    } else {
        assert(s.take(k) =~= s);
    }
}


/// The ASCII digit for `d` (`0` to `9`).
pub open spec fn digit_char(d: int) -> char {
    (48 + d) as char
}

/// The decimal digits of `n`, most significant first, without leading zeros.
pub open spec fn nat_text(n: nat) -> Seq<char>
    decreases n,
{
    if n < 10 {
        seq![digit_char(n as int)]
    } else {
        nat_text(n / 10).push(digit_char((n % 10) as int))
    }
}

/// How `i32::to_string` writes `n`: a `-` for negative numbers, then the digits.
pub open spec fn int_text(n: int) -> Seq<char> {
    if n < 0 {
        seq!['-'] + nat_text((-n) as nat)
    } else {
        nat_text(n as nat)
    }
}

fn digit_str(d: u64) -> (s: &'static str)
    requires
        d < 10,
    ensures
        s@ == seq![digit_char(d as int)],
{
    proof {
        reveal_strlit("0");
        reveal_strlit("1");
        reveal_strlit("2");
        reveal_strlit("3");
        reveal_strlit("4");
        reveal_strlit("5");
        reveal_strlit("6");
        reveal_strlit("7");
        reveal_strlit("8");
        reveal_strlit("9");
    }
    match d {
        0 => "0",
        1 => "1",
        2 => "2",
        3 => "3",
        4 => "4",
        5 => "5",
        6 => "6",
        7 => "7",
        8 => "8",
        _ => "9",
    }
}

fn push_nat_text(out: &mut String, v: u64)
    ensures
        final(out)@ == old(out)@ + nat_text(v as nat),
    decreases v,
{
    if v >= 10 {
        push_nat_text(out, v / 10);
    }
    let d = digit_str(v % 10);
    out.append(d);
    proof {
        if v >= 10 {
            assert(nat_text(v as nat) == nat_text((v / 10) as nat).push(digit_char((v % 10) as int)));
        }
    }
    assert(final(out)@ =~= old(out)@ + nat_text(v as nat)) by {
        if v >= 10 {
            assert(nat_text(v as nat) =~= nat_text((v / 10) as nat) + seq![digit_char((v % 10) as int)]);
        }
    }
}

/// Appends `v` as `i32::to_string` writes it.
pub fn push_int_text(out: &mut String, v: i32)
    ensures
        final(out)@ == old(out)@ + int_text(v as int),
{
    if v < 0 {
        proof {
            reveal_strlit("-");
        }
        out.append("-");
        let m: i64 = -(v as i64);
        let ghost mid = out@;
        push_nat_text(out, m as u64);
        assert(final(out)@ =~= old(out)@ + int_text(v as int));
    } else {
        push_nat_text(out, v as u64);
    }
}

/// The numbers of `ids`, written out and separated by `sep`
/// (`ids.iter().map(i32::to_string).collect::<Vec<_>>().join(sep)`).
pub open spec fn join_text(ids: Seq<i32>, sep: Seq<char>) -> Seq<char>
    decreases ids.len(),
{
    if ids.len() == 0 {
        Seq::empty()
    } else if ids.len() == 1 {
        int_text(ids[0] as int)
    } else {
        join_text(ids.drop_last(), sep) + sep + int_text(ids.last() as int)
    }
}

/// Appends the numbers of `ids`, separated by `#`.
pub fn push_joined(out: &mut String, ids: &[i32])
    ensures
        final(out)@ == old(out)@ + join_text(ids@, seq!['#']),
{
    proof {
        reveal_strlit("#");
    }
    let ghost start = out@;
    let mut i: usize = 0;
    assert(ids@.take(0) =~= Seq::<i32>::empty());
    assert(out@ =~= start + join_text(ids@.take(0), seq!['#']));
    while i < ids.len()
        invariant
            i <= ids@.len(),
            out@ == start + join_text(ids@.take(i as int), seq!['#']),
            "#"@ == seq!['#'],
        decreases ids.len() - i,
    {
        let ghost prefix = ids@.take(i as int);
        assert(ids@.take(i + 1).drop_last() =~= prefix);
        if i > 0 {
            out.append("#");
        }
        push_int_text(out, ids[i]);
        assert(out@ =~= start + join_text(ids@.take(i + 1), seq!['#']));
        i = i + 1;
    }
    assert(ids@.take(ids@.len() as int) =~= ids@);
}


/// An `i32` as a `u32` (two's complement, as `as u32` does).
pub open spec fn as_u32(v: i32) -> u32 {
    if v >= 0 {
        v as u32
    } else {
        (v + 0x1_0000_0000) as u32
    }
}

/// `v as u32`.
pub fn to_u32(v: i32) -> (res: u32)
    ensures
        res == as_u32(v),
{
    if v >= 0 {
        v as u32
    } else {
        let w: i64 = v as i64 + 0x1_0000_0000;
        w as u32
    }
}


/// Whether the two character sequences are the same.
pub fn chars_eq(a: &[char], b: &[char]) -> (res: bool)
    ensures
        res == (a@ == b@),
{
    if a.len() != b.len() {
        return false;
    }
    let mut i: usize = 0;
    while i < a.len()
        invariant
            i <= a@.len(),
            a@.len() == b@.len(),
            forall|k: int| 0 <= k < i ==> a@[k] == b@[k],
        decreases a.len() - i,
    {
        if a[i] != b[i] {
            return false;
        }
        i = i + 1;
    }
    assert(a@ =~= b@);
    true
}

/// The characters of `s` from `start` to `end`.
pub fn slice_chars(s: &[char], start: usize, end: usize) -> (out: Vec<char>)
    requires
        start <= end <= s@.len(),
    ensures
        out@ == s@.subrange(start as int, end as int),
{
    let mut out: Vec<char> = Vec::new();
    let mut k: usize = start;
    while k < end
        invariant
            start <= k <= end <= s@.len(),
            out@ == s@.subrange(start as int, k as int),
        decreases end - k,
    {
        out.push(s[k]);
        assert(s@.subrange(start as int, k + 1) =~= s@.subrange(start as int, k as int).push(s@[k as int]));
        k = k + 1;
    }
    out
}


proof fn lemma_nat_text_digits(n: nat)
    ensures
        nat_text(n).len() > 0,
        all_digits(nat_text(n)),
        digits_value(nat_text(n)) == n,
    decreases n,
{
    if n < 10 {
        assert(digit_value(digit_char(n as int)) == n);
        assert(digits_value(nat_text(n).drop_last()) == 0);
    } else {
        lemma_nat_text_digits(n / 10);
        let t = nat_text(n);
        assert(t.drop_last() =~= nat_text(n / 10));
        assert(digit_value(digit_char((n % 10) as int)) == n % 10);
        assert(forall|i: int| 0 <= i < t.len() ==> is_digit(#[trigger] t[i])) by {
            assert forall|i: int| 0 <= i < t.len() implies is_digit(#[trigger] t[i]) by {
                if i < t.len() - 1 {
                    assert(t[i] == nat_text(n / 10)[i]);
                }
            }
        }
    }
}

/// What `i32::to_string` writes, `str::parse::<i32>` reads back.
pub proof fn law_int_text_round_trip(n: i32)
    ensures
        parse_i32_spec(int_text(n as int)) == Some(n),
{
    if n < 0 {
        let m = (-(n as int)) as nat;
        lemma_nat_text_digits(m);
        let t = int_text(n as int);
        assert(t.skip(1) =~= nat_text(m));
        assert(t[0] == '-');
    } else {
        lemma_nat_text_digits(n as nat);
        let t = nat_text(n as nat);
        assert(is_digit(t[0]));
    }
}

/// The pieces of `s` split at `sep`, with the last piece extended by `tail`,
/// when `tail` holds no `sep`.
proof fn lemma_split_append_plain(s: Seq<char>, sep: char, tail: Seq<char>)
    requires
        !tail.contains(sep),
    ensures
        split_spec(s + tail, sep) == ({
            let parts = split_spec(s, sep);
            parts.update(parts.len() - 1, parts.last() + tail)
        }),
    decreases tail.len(),
{
    lemma_split_nonempty(s, sep);
    if tail.len() == 0 {
        assert(s + tail =~= s);
        let parts = split_spec(s, sep);
        assert(parts.update(parts.len() - 1, parts.last() + tail) =~= parts);
    } else {
        let front = tail.drop_last();
        assert(!front.contains(sep)) by {
            if front.contains(sep) {
                let i = choose|i: int| 0 <= i < front.len() && front[i] == sep;
                assert(tail[i] == sep);
            }
        }
        lemma_split_append_plain(s, sep, front);
        assert((s + tail).drop_last() =~= s + front);
        assert((s + tail).last() == tail.last());
        assert(tail.last() != sep) by {
            assert(tail[tail.len() - 1] == tail.last());
        }
        let parts = split_spec(s, sep);
        lemma_split_nonempty(s + front, sep);
        assert((parts.last() + front).push(tail.last()) =~= parts.last() + tail);
        assert(split_spec(s + tail, sep) =~= parts.update(parts.len() - 1, parts.last() + tail));
    }
}

proof fn lemma_int_text_plain(n: int, sep: char)
    requires
        sep != '-',
        !is_digit(sep),
    ensures
        !int_text(n).contains(sep),
{
    let t = int_text(n);
    if n < 0 {
        lemma_nat_text_digits((-n) as nat);
        if t.contains(sep) {
            let i = choose|i: int| 0 <= i < t.len() && t[i] == sep;
            if i > 0 {
                assert(t[i] == nat_text((-n) as nat)[i - 1]);
            }
        }
    } else {
        lemma_nat_text_digits(n as nat);
    }
}

/// The pieces of a joined list are the numbers' texts.
proof fn lemma_split_join(ids: Seq<i32>)
    requires
        ids.len() > 0,
    ensures
        split_spec(join_text(ids, seq!['#']), '#') == ids.map_values(|v: i32| int_text(v as int)),
    decreases ids.len(),
{
    if ids.len() == 1 {
        lemma_int_text_plain(ids[0] as int, '#');
        lemma_split_append_plain(Seq::empty(), '#', int_text(ids[0] as int));
        assert(Seq::<char>::empty() + int_text(ids[0] as int) =~= int_text(ids[0] as int));
        assert(split_spec(Seq::<char>::empty(), '#') =~= seq![Seq::<char>::empty()]);
        assert(ids.map_values(|v: i32| int_text(v as int)) =~= seq![int_text(ids[0] as int)]);
        assert(seq![Seq::<char>::empty()].update(0, Seq::<char>::empty() + int_text(ids[0] as int)) =~= seq![
            int_text(ids[0] as int),
        ]);
    } else {
        let front = ids.drop_last();
        lemma_split_join(front);
        let head = join_text(front, seq!['#']) + seq!['#'];
        let last = int_text(ids.last() as int);
        lemma_int_text_plain(ids.last() as int, '#');
        lemma_split_append_plain(head, '#', last);
        assert(head.drop_last() =~= join_text(front, seq!['#']));
        let hp = split_spec(head, '#');
        assert(hp =~= split_spec(join_text(front, seq!['#']), '#').push(Seq::empty()));
        assert(join_text(ids, seq!['#']) =~= head + last);
        assert(ids.map_values(|v: i32| int_text(v as int)) =~= front.map_values(|v: i32| int_text(v as int)).push(
            last,
        ));
        assert(hp.update(hp.len() - 1, hp.last() + last) =~= front.map_values(|v: i32| int_text(v as int)).push(
            last,
        ));
    }
}

proof fn lemma_filter_map_parse(ids: Seq<i32>)
    ensures
        filter_map(ids.map_values(|v: i32| int_text(v as int)), parse_i32_fn()) == ids,
    decreases ids.len(),
{
    if ids.len() > 0 {
        let texts = ids.map_values(|v: i32| int_text(v as int));
        lemma_filter_map_parse(ids.drop_last());
        assert(texts.drop_last() =~= ids.drop_last().map_values(|v: i32| int_text(v as int)));
        law_int_text_round_trip(ids.last());
        assert(ids.drop_last().push(ids.last()) =~= ids);
    } else {
        assert(ids.map_values(|v: i32| int_text(v as int)) =~= Seq::<Seq<char>>::empty());
    }
}

/// A list of numbers written with `#` between them reads back as the same list.
pub proof fn law_joined_list_round_trip(ids: Seq<i32>)
    ensures
        i32_list_spec(join_text(ids, seq!['#']), '#') == ids,
{
    if ids.len() == 0 {
        assert(split_spec(Seq::<char>::empty(), '#') =~= seq![Seq::<char>::empty()]);
        assert(filter_map(seq![Seq::<char>::empty()], parse_i32_fn()) =~= Seq::<i32>::empty()) by {
            assert(seq![Seq::<char>::empty()].drop_last() =~= Seq::<Seq<char>>::empty());
            assert(parse_i32_spec(Seq::<char>::empty()) is None);
            assert(parse_i32_fn()(seq![Seq::<char>::empty()].last()) is None);
            reveal_with_fuel(filter_map, 2);
        }
    } else {
        lemma_split_join(ids);
        lemma_filter_map_parse(ids);
    }
}

/// Whether `x` occurs in `v`.
pub fn contains_i32(v: &[i32], x: i32) -> (res: bool)
    ensures
        res == v@.contains(x),
{
    let mut i: usize = 0;
    while i < v.len()
        invariant
            i <= v@.len(),
            forall|k: int| 0 <= k < i ==> v@[k] != x,
        decreases v.len() - i,
    {
        if v[i] == x {
            return true;
        }
        i = i + 1;
    }
    false
}

/// A copy of `values`.
pub fn copy_i32s(values: &[i32]) -> (out: Vec<i32>)
    ensures
        out@ == values@,
{
    let mut out: Vec<i32> = Vec::new();
    let mut k: usize = 0;
    while k < values.len()
        invariant
            k <= values@.len(),
            out@ == values@.take(k as int),
        decreases values.len() - k,
    {
        out.push(values[k]);
        assert(values@.take(k + 1) =~= values@.take(k as int).push(values@[k as int]));
        k = k + 1;
    }
    assert(values@.take(values@.len() as int) =~= values@);
    out
}

/// Names what `serde_json` reads from `text` as a JSON array of `i32`
/// (`serde_json::from_str::<Vec<i32>>`); `None` when it is not one.
pub uninterp spec fn json_i32_list_of(text: Seq<char>) -> Option<Seq<i32>>;

/// `serde_json::from_str::<Vec<i32>>(text).ok()`. The contract only ties the
/// result to `json_i32_list_of`; JSON's grammar is not restated here.
#[verifier::external_body]
pub(crate) fn json_i32_list(text: &str) -> (r: Option<Vec<i32>>)
    ensures
        match r {
            Some(v) => json_i32_list_of(text@) == Some(v@),
            None => json_i32_list_of(text@) is None,
        },
{
    match serde_json::from_str::<Vec<i32>>(text) {
        Ok(v) => Some(v),
        Err(_) => None,
    }
}

/// The ids stored as a JSON array of `i32`: its values, none when the text
/// is not such an array.
pub open spec fn stored_ids_spec(text: Seq<char>) -> Seq<i32> {
    match json_i32_list_of(text) {
        Some(v) => v,
        None => Seq::empty(),
    }
}

/// Reads a stored id list; see `stored_ids_spec`.
pub fn stored_id_list(text: &str) -> (out: Vec<i32>)
    ensures
        out@ == stored_ids_spec(text@),
{
    match json_i32_list(text) {
        Some(v) => v,
        None => Vec::new(),
    }
}

} // verus!
