use crate::text::{chars_of, filter_map, parse_i32, parse_i32_spec, parse_u32, parse_u32_spec, split, split_spec};
use rand::Rng;
use vstd::prelude::*;

verus! {

/// A `|`-separated piece `id#weight` read as a pair; `None` when it has no
/// second field or a field is not a number. Fields after the second are ignored.
pub open spec fn weight_entry_fn() -> spec_fn(Seq<char>) -> Option<(i32, u32)> {
    |part: Seq<char>|
        {
            let fields = split_spec(part, '#');
            match parse_i32_spec(fields[0]) {
                None => None,
                Some(id) => if fields.len() < 2 {
                    None
                } else {
                    match parse_u32_spec(fields[1]) {
                        Some(w) => Some((id, w)),
                        None => None,
                    }
                },
            }
        }
}

/// The `id#weight` pairs of a `|`-separated table; malformed pieces skipped.
pub open spec fn weights_spec(value: Seq<char>) -> Seq<(i32, u32)> {
    filter_map(split_spec(value, '|'), weight_entry_fn())
}

/// Reads `id#weight|id#weight|...`, skipping malformed pieces.
pub fn parse_weight_table(value: &str) -> (out: Vec<(i32, u32)>)
    ensures
        out@ == weights_spec(value@),
{
    let chars = chars_of(value);
    let parts = split(chars.as_slice(), '|');
    let mut out: Vec<(i32, u32)> = Vec::new();
    let mut i: usize = 0;
    while i < parts.len()
        invariant
            i <= parts@.len(),
            parts.deep_view() == split_spec(value@, '|'),
            out@ == filter_map(parts.deep_view().take(i as int), weight_entry_fn()),
        decreases parts.len() - i,
    {
        let ghost pv = parts.deep_view();
        assert(pv.take(i + 1).drop_last() =~= pv.take(i as int));
        assert(pv[i as int] == parts[i as int]@);
        let fields = split(parts[i].as_slice(), '#');
        proof {
            crate::text::lemma_split_nonempty(parts[i as int]@, '#');
        }
        let ghost fv = fields.deep_view();
        assert(fv[0] == fields[0]@);
        match parse_i32(fields[0].as_slice()) {
            None => {},
            Some(id) => {
                if fields.len() >= 2 {
                    assert(fv[1] == fields[1]@);
                    match parse_u32(fields[1].as_slice()) {
                        Some(w) => {
                            out.push((id, w));
                        },
                        None => {},
                    }
                }
            },
        }
        i = i + 1;
    }
    assert(parts.deep_view().take(parts@.len() as int) =~= parts.deep_view());
    out
}

/// The sum of the weights from the `k`-th entry on.
pub open spec fn total_from(ws: Seq<(i32, u32)>, k: int) -> int
    decreases ws.len() - k,
{
    if k < 0 || k >= ws.len() {
        0
    } else {
        ws[k].1 + total_from(ws, k + 1)
    }
}

/// The sum of all weights.
pub open spec fn total_weight(ws: Seq<(i32, u32)>) -> int {
    total_from(ws, 0)
}

/// The entry that a roll lands on, walking from the `k`-th entry: the first
/// whose weight exceeds what is left of the roll.
pub open spec fn pick_from(ws: Seq<(i32, u32)>, k: int, roll: int) -> Option<i32>
    decreases ws.len() - k,
{
    if k < 0 || k >= ws.len() {
        None
    } else if roll < ws[k].1 {
        Some(ws[k].0)
    } else {
        pick_from(ws, k + 1, roll - ws[k].1)
    }
}

/// The id that a roll lands on.
pub open spec fn pick_spec(ws: Seq<(i32, u32)>, roll: int) -> Option<i32> {
    pick_from(ws, 0, roll)
}

proof fn lemma_pick_from_hits(ws: Seq<(i32, u32)>, k: int, roll: int)
    requires
        0 <= k,
        0 <= roll < total_from(ws, k),
    ensures
        pick_from(ws, k, roll) is Some,
        exists|i: int| k <= i < ws.len() && (#[trigger] ws[i]).0 == pick_from(ws, k, roll)->0 && ws[i].1 > 0,
    decreases ws.len() - k,
{
    if roll < ws[k].1 {
        assert(ws[k].0 == pick_from(ws, k, roll)->0);
    } else {
        lemma_pick_from_hits(ws, k + 1, roll - ws[k].1);
    }
}

/// Every roll below the total weight lands on an entry, and on one whose
/// weight is positive.
pub proof fn law_weighted_roll_lands_on_an_entry(ws: Seq<(i32, u32)>, roll: int)
    requires
        0 <= roll < total_weight(ws),
    ensures
        pick_spec(ws, roll) is Some,
        exists|i: int| 0 <= i < ws.len() && (#[trigger] ws[i]).0 == pick_spec(ws, roll)->0 && ws[i].1 > 0,
{
    lemma_pick_from_hits(ws, 0, roll);
}

/// The sum of the weights, which must fit in a `u32`.
pub fn total_of(weights: &[(i32, u32)]) -> (total: u32)
    requires
        total_weight(weights@) <= u32::MAX,
    ensures
        total == total_weight(weights@),
{
    let mut acc: u64 = 0;
    let mut i: usize = weights.len();
    proof {
        lemma_total_from_bounds(weights@, 0);
    }
    while i > 0
        invariant
            i <= weights@.len(),
            acc == total_from(weights@, i as int),
            total_weight(weights@) <= u32::MAX,
            forall|k: int| 0 <= k <= weights@.len() ==> total_from(weights@, k) <= total_weight(weights@),
        decreases i,
    {
        i = i - 1;
        acc = acc + weights[i].1 as u64;
    }
    acc as u32
}

pub proof fn lemma_total_from_bounds(ws: Seq<(i32, u32)>, k: int)
    requires
        0 <= k,
    ensures
        forall|j: int| k <= j <= ws.len() ==> #[trigger] total_from(ws, j) <= total_from(ws, k),
        total_from(ws, k) >= 0,
    decreases ws.len() - k,
{
    if k < ws.len() {
        lemma_total_from_bounds(ws, k + 1);
    }
}

/// The id that `roll` lands on: walking the entries in order, the first whose
/// weight exceeds what is left of the roll.
pub fn pick_weighted(weights: &[(i32, u32)], roll: u32) -> (res: Option<i32>)
    ensures
        res == pick_spec(weights@, roll as int),
{
    let mut left = roll;
    let mut i: usize = 0;
    while i < weights.len()
        invariant
            i <= weights@.len(),
            pick_spec(weights@, roll as int) == pick_from(weights@, i as int, left as int),
        decreases weights.len() - i,
    {
        if left < weights[i].1 {
            return Some(weights[i].0);
        }
        left = left - weights[i].1;
        i = i + 1;
    }
    None
}

/// A number drawn from the thread's random generator, below `bound`
/// (`rand::rng().random_range(0..bound)`). The draw is random, so the contract
/// states only the range that rand documents.
#[verifier::external_body]
pub(crate) fn random_below(bound: u32) -> (r: u32)
    requires
        bound > 0,
    ensures
        r < bound,
{
    rand::rng().random_range(0..bound)
}

} // verus!
