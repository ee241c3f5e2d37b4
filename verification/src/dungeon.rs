use crate::text::{chars_eq, chars_of, find_map, lemma_find_map_prefix, lemma_split_nonempty, parse_i32, parse_i32_spec, slice_chars, split, split_spec};
use vstd::prelude::*;

verus! {

/// What finishing an episode grants besides its rewards: the player experience
/// and the material changes of the normal, first-clear and advanced bonuses.
#[derive(Clone, Debug)]
pub struct CompletionRewards {
    pub player_exp: i32,
    pub first_bonus: Vec<(u32, u32, i32)>,
    pub normal_bonus: Vec<(u32, u32, i32)>,
    pub advanced_bonus: Vec<(u32, u32, i32)>,
}

/// `v`, held to the range of `i32`.
pub open spec fn clamp_i32(v: int) -> i32 {
    if v > i32::MAX {
        i32::MAX
    } else if v < i32::MIN {
        i32::MIN
    } else {
        v as i32
    }
}

fn clamp_to_i32(v: i64) -> (res: i32)
    ensures
        res == clamp_i32(v as int),
{
    if v > i32::MAX as i64 {
        i32::MAX
    } else if v < i32::MIN as i64 {
        i32::MIN
    } else {
        v as i32
    }
}

fn wide_mul(a: i32, b: i32) -> (r: i64)
    ensures
        r == a * b,
{
    assert(-0x4000_0000_0000_0000 <= (a as int) * (b as int) <= 0x4000_0000_0000_0000) by (nonlinear_arith)
        requires
            -0x8000_0000 <= a <= 0x7fff_ffff,
            -0x8000_0000 <= b <= 0x7fff_ffff,
    ;
    a as i64 * b as i64
}

/// The suffix that makes an experience value scale with the episode's cost.
pub open spec fn cost_suffix() -> Seq<char> {
    "*cost"@
}

/// A bonus's player experience: a plain number; or `factor*cost`, the factor
/// times the episode's cost (saturating); else `0`.
pub open spec fn player_exp_spec(value: Seq<char>, cost: i32) -> i32 {
    match parse_i32_spec(value) {
        Some(v) => v,
        None => if value.len() >= 5 && value.skip(value.len() - 5) == cost_suffix() {
            match parse_i32_spec(value.take(value.len() - 5)) {
                Some(f) => clamp_i32(f * cost),
                None => 0,
            }
        } else {
            0
        },
    }
}

/// Reads a bonus's player experience; see `player_exp_spec`.
pub fn player_exp_value(value: &str, cost: i32) -> (res: i32)
    ensures
        res == player_exp_spec(value@, cost),
{
    let chars = chars_of(value);
    match parse_i32(chars.as_slice()) {
        Some(v) => {
            return v;
        },
        None => {},
    }
    proof {
        reveal_strlit("*cost");
    }
    let suffix = chars_of("*cost");
    if chars.len() < 5 {
        return 0;
    }
    let n = chars.len() - 5;
    let tail = slice_chars(chars.as_slice(), n, chars.len());
    assert(chars@.subrange(n as int, chars@.len() as int) =~= chars@.skip(n as int));
    if !chars_eq(tail.as_slice(), suffix.as_slice()) {
        return 0;
    }
    let head = slice_chars(chars.as_slice(), 0, n);
    assert(chars@.subrange(0, n as int) =~= chars@.take(n as int));
    match parse_i32(head.as_slice()) {
        Some(f) => clamp_to_i32(wide_mul(f, cost)),
        None => 0,
    }
}

/// The number after the last `#` of a `|`-separated cost piece.
pub open spec fn last_field_fn() -> spec_fn(Seq<char>) -> Option<i32> {
    |p: Seq<char>| parse_i32_spec(split_spec(p, '#').last())
}

/// An episode's cost: the amount of the first cost piece `type#id#amount`
/// whose last field is a number; `0` when none is.
pub open spec fn cost_value_spec(cost: Seq<char>) -> i32 {
    match find_map(split_spec(cost, '|'), last_field_fn()) {
        Some(v) => v,
        None => 0,
    }
}

/// Reads an episode's cost; see `cost_value_spec`.
pub fn episode_cost_value(cost: &str) -> (res: i32)
    ensures
        res == cost_value_spec(cost@),
{
    let chars = chars_of(cost);
    let parts = split(chars.as_slice(), '|');
    let mut i: usize = 0;
    while i < parts.len()
        invariant
            i <= parts@.len(),
            parts.deep_view() == split_spec(cost@, '|'),
            find_map(parts.deep_view().take(i as int), last_field_fn()) is None,
        decreases parts.len() - i,
    {
        let ghost pv = parts.deep_view();
        assert(pv.take(i + 1).drop_last() =~= pv.take(i as int));
        assert(pv[i as int] == parts[i as int]@);
        let fields = split(parts[i].as_slice(), '#');
        proof {
            lemma_split_nonempty(parts[i as int]@, '#');
        }
        let last = fields.len() - 1;
        assert(fields.deep_view()[last as int] == fields[last as int]@);
        let v = parse_i32(fields[last].as_slice());
        if let Some(x) = v {
            proof {
                lemma_find_map_prefix(pv, last_field_fn(), i + 1);
            }
            return x;
        }
        i = i + 1;
    }
    assert(parts.deep_view().take(parts@.len() as int) =~= parts.deep_view());
    0
}

/// The player experience of finishing an episode: the normal bonus's (`0`
/// without one) times `multiplier`, plus the first-clear bonus's on a first
/// clear, all saturating.
pub open spec fn episode_exp_spec(normal: Option<Seq<char>>, first: Option<Seq<char>>, cost: i32, first_pass: bool, multiplier: i32) -> i32 {
    let n = clamp_i32(
        (match normal {
            Some(v) => player_exp_spec(v, cost),
            None => 0,
        }) * multiplier,
    );
    let f = if first_pass {
        match first {
            Some(v) => player_exp_spec(v, cost),
            None => 0,
        }
    } else {
        0
    };
    clamp_i32(n + f)
}

/// The player experience of an episode, from the player-experience texts of
/// its normal and first-clear bonuses (`None` when the bonus is missing).
pub fn episode_player_exp(normal_exp: Option<&str>, first_exp: Option<&str>, cost: i32, first_pass: bool, multiplier: i32) -> (res: i32)
    ensures
        res == episode_exp_spec(
            match normal_exp {
                Some(v) => Some(v@),
                None => None,
            },
            match first_exp {
                Some(v) => Some(v@),
                None => None,
            },
            cost,
            first_pass,
            multiplier,
        ),
{
    let base = match normal_exp {
        Some(v) => player_exp_value(v, cost),
        None => 0,
    };
    let normal = clamp_to_i32(wide_mul(base, multiplier));
    let first = if first_pass {
        match first_exp {
            Some(v) => player_exp_value(v, cost),
            None => 0,
        }
    } else {
        0
    };
    clamp_to_i32(normal as i64 + first as i64)
}

/// What finishing an episode grants beyond its normal bonus, which is always
/// granted and scaled by the run's multiplier.
#[derive(Clone, Copy, Debug, PartialEq, Eq)]
pub struct CompletionPlan {
    /// The player experience earned (see `episode_exp_spec`).
    pub player_exp: i32,
    /// The first-clear bonus is granted: on a first clear only.
    pub first_bonus: bool,
    /// The advanced bonus is granted: when the run reaches two stars for the
    /// first time.
    pub advanced_bonus: bool,
}

/// The advanced bonus comes with the first run that reaches two stars.
pub open spec fn grants_advanced(previous_star: i32, star: i32) -> bool {
    previous_star < 2 && star >= 2
}

/// Decides what a finished episode grants; the experience texts are those of
/// the normal and first-clear bonuses, `cost_text` the episode's cost.
pub fn completion_plan(
    normal_exp: Option<&str>,
    first_exp: Option<&str>,
    cost_text: &str,
    first_pass: bool,
    previous_star: i32,
    star: i32,
    multiplier: i32,
) -> (res: CompletionPlan)
    ensures
        res.player_exp == episode_exp_spec(
            match normal_exp {
                Some(v) => Some(v@),
                None => None,
            },
            match first_exp {
                Some(v) => Some(v@),
                None => None,
            },
            cost_value_spec(cost_text@),
            first_pass,
            multiplier,
        ),
        res.first_bonus == first_pass,
        res.advanced_bonus == grants_advanced(previous_star, star),
{
    let cost = episode_cost_value(cost_text);
    let player_exp = episode_player_exp(normal_exp, first_exp, cost, first_pass, multiplier);
    CompletionPlan { player_exp, first_bonus: first_pass, advanced_bonus: previous_star < 2 && star >= 2 }
}

} // verus!
