use crate::activity::weights::random_below;
use crate::activity::act123::{largest_or_zero, max_or_zero};
use crate::error::LogicError;
use crate::sorting::{lemma_keys_stably_sorted, lemma_sorted_keeps, sort_by_key_stable, stably_sorted};
use crate::text::{filter_map, json_i32_list, json_i32_list_of};
use crate::text::{join_text, contains_i32, chars_of, i32_list, i32_list_spec, as_u32, to_u32};
use vstd::prelude::*;

verus! {

/// The gain id of a pool's big prize; taking it opens the next pool.
pub const ACT197_GAIN_BIG: i32 = 1;

/// A cost or a gain: a material of a type, by id, in a count.
#[derive(Clone, Copy, Debug, PartialEq, Eq)]
pub struct MaterialAmount {
    pub material_type: u32,
    pub id: u32,
    pub count: i32,
}

/// A material written `type#id#count`: exactly three numbers among the `#`
/// pieces (pieces that are not numbers skipped).
pub open spec fn material_spec(value: Seq<char>) -> Option<MaterialAmount> {
    let f = i32_list_spec(value, '#');
    if f.len() == 3 {
        Some(MaterialAmount { material_type: as_u32(f[0]), id: as_u32(f[1]), count: f[2] })
    } else {
        None
    }
}

/// Reads a material; see `material_spec`.
pub fn parse_material(value: &str) -> (res: Option<MaterialAmount>)
    ensures
        res == material_spec(value@),
{
    let chars = chars_of(value);
    let fields = i32_list(chars.as_slice(), '#');
    if fields.len() != 3 {
        return None;
    }
    Some(MaterialAmount { material_type: to_u32(fields[0]), id: to_u32(fields[1]), count: fields[2] })
}

/// Each item is smaller than the next.
pub open spec fn strictly_increasing(s: Seq<i32>) -> bool {
    forall|i: int, j: int| 0 <= i < j < s.len() ==> s[i] < s[j]
}

/// `out` holds the values of `items`, each once, in increasing order.
pub open spec fn sorted_set_of(out: Seq<i32>, items: Seq<i32>) -> bool {
    strictly_increasing(out) && forall|y: i32| out.contains(y) <==> items.contains(y)
}

/// Adds `x` to an increasing list of distinct values, keeping it so.
pub fn insert_sorted_unique(v: &mut Vec<i32>, x: i32)
    requires
        strictly_increasing(old(v)@),
    ensures
        strictly_increasing(final(v)@),
        forall|y: i32| final(v)@.contains(y) <==> (old(v)@.contains(y) || y == x),
{
    let mut p: usize = 0;
    while p < v.len() && v[p] < x
        invariant
            p <= v@.len(),
            forall|k: int| 0 <= k < p ==> v@[k] < x,
            v@ == old(v)@,
        decreases v.len() - p,
    {
        p = p + 1;
    }
    if p < v.len() && v[p] == x {
        return;
    }
    let ghost before = v@;
    assert(before == old(v)@);
    v.insert(p, x);
    assert forall|y: i32| v@.contains(y) <==> (before.contains(y) || y == x) by {
        if v@.contains(y) {
            let k = choose|k: int| 0 <= k < v@.len() && v@[k] == y;
            if k < p {
                assert(before[k] == y);
            } else if k > p {
                assert(before[k - 1] == y);
            }
        }
        if before.contains(y) {
            let k = choose|k: int| 0 <= k < before.len() && before[k] == y;
            if k < p {
                assert(v@[k] == y);
            } else {
                assert(v@[k + 1] == y);
            }
        }
        if y == x {
            assert(v@[p as int] == x);
        }
    }
    assert(strictly_increasing(v@)) by {
        assert forall|i: int, j: int| 0 <= i < j < v@.len() implies v@[i] < v@[j] by {
            if j < p {
                assert(v@[i] == before[i] && v@[j] == before[j]);
            } else if j == p {
                assert(v@[i] == before[i]);
            } else if i < p {
                assert(v@[i] == before[i] && v@[j] == before[j - 1]);
                if p < before.len() {
                    assert(before[p as int] > x);
                }
            } else if i == p {
                assert(v@[j] == before[j - 1]);
                assert(before[p as int] > x);
                assert(before[p as int] <= before[j - 1]);
            } else {
                assert(v@[i] == before[i - 1] && v@[j] == before[j - 1]);
            }
        }
    }
}

/// The gain ids stored for a pool: the JSON array's values (none when the
/// text is not such an array), each once, in increasing order.
pub fn parse_gain_ids(ext: &str) -> (out: Vec<i32>)
    ensures
        sorted_set_of(
            out@,
            match json_i32_list_of(ext@) {
                Some(s) => s,
                None => Seq::empty(),
            },
        ),
{
    let ids = match json_i32_list(ext) {
        Some(v) => v,
        None => Vec::new(),
    };
    let mut out: Vec<i32> = Vec::new();
    let mut i: usize = 0;
    while i < ids.len()
        invariant
            i <= ids@.len(),
            strictly_increasing(out@),
            forall|y: i32| out@.contains(y) <==> ids@.take(i as int).contains(y),
        decreases ids.len() - i,
    {
        insert_sorted_unique(&mut out, ids[i]);
        let ghost t0 = ids@.take(i as int);
        let ghost t1 = ids@.take(i + 1);
        assert(t1 =~= t0.push(ids@[i as int]));
        assert forall|y: i32| t1.contains(y) <==> (t0.contains(y) || y == ids@[i as int]) by {
            if t1.contains(y) {
                let k = choose|k: int| 0 <= k < t1.len() && t1[k] == y;
                if k < t0.len() {
                    assert(t0[k] == y);
                }
            }
            if t0.contains(y) {
                let k = choose|k: int| 0 <= k < t0.len() && t0[k] == y;
                assert(t1[k] == y);
            }
            if y == ids@[i as int] {
                assert(t1[t0.len() as int] == y);
            }
        }
        i = i + 1;
    }
    assert(ids@.take(ids@.len() as int) =~= ids@);
    out
}

/// A list of ids as `serde_json` writes it: the numbers between `[` and `]`,
/// separated by `,`, with no spaces.
pub open spec fn json_list_text(ids: Seq<i32>) -> Seq<char> {
    seq!['['] + join_text(ids, seq![',']) + seq![']']
}

/// `serde_json::to_string` of a list of `i32`: its compact JSON array. Writing
/// such a list cannot fail, so the error arm is never taken.
#[verifier::external_body]
fn json_i32_list_text(ids: &[i32]) -> (r: String)
    ensures
        r@ == json_list_text(ids@),
{
    match serde_json::to_string(ids) {
        Ok(t) => t,
        Err(_) => String::new(),
    }
}

/// A pool's gains as they are stored: their JSON array.
pub fn gain_ids_text(ids: &[i32]) -> (res: String)
    ensures
        res@ == json_list_text(ids@),
{
    json_i32_list_text(ids)
}

/// The gains a player took from a pool whose stored entry is `stored`
/// (`state`, progress, JSON text): none unless the state is set.
pub fn claimed_gain_ids(stored: Option<(i32, i32, String)>) -> (out: Vec<i32>)
    ensures
        match stored {
            Some(s) => if s.0 != 0 {
                sorted_set_of(
                    out@,
                    match json_i32_list_of(s.2@) {
                        Some(l) => l,
                        None => Seq::empty(),
                    },
                )
            } else {
                out@.len() == 0
            },
            None => out@.len() == 0,
        },
{
    match stored {
        Some(s) => if s.0 != 0 {
            parse_gain_ids(s.2.as_str())
        } else {
            Vec::new()
        },
        None => Vec::new(),
    }
}

/// A pool is open when it is the first one, or when the big prize of the pool
/// before it was taken (`previous` is that pool's stored entry).
pub fn pool_is_open(pool_id: i32, previous: Option<(i32, i32, String)>) -> (res: bool)
    ensures
        res == (pool_id == 1 || match previous {
            Some(s) => s.0 != 0 && match json_i32_list_of(s.2@) {
                Some(l) => l.contains(ACT197_GAIN_BIG),
                None => false,
            },
            None => false,
        }),
{
    if pool_id == 1 {
        return true;
    }
    let claimed = claimed_gain_ids(previous);
    contains_i32(claimed.as_slice(), ACT197_GAIN_BIG)
}

/// One prize of a pool.
#[derive(Clone, Copy, Debug)]
pub struct Act197PoolRow {
    pub activity_id: i32,
    pub pool_id: i32,
    pub index: i32,
}

/// The outcome of a rummage: the prize row drawn (its position in the pool
/// table), the cost paid, and the pool's gains after it.
#[derive(Clone, Debug)]
pub struct Act197Rummage {
    pub row: usize,
    pub cost: MaterialAmount,
    pub claimed: Vec<i32>,
}

/// A prize of the pool that was not taken yet.
pub open spec fn rummage_candidate(r: Act197PoolRow, activity_id: i32, pool_id: i32, claimed: Seq<i32>) -> bool {
    r.activity_id == activity_id && r.pool_id == pool_id && !claimed.contains(r.index)
}

/// The gains stored for a pool: the list of a set entry, none otherwise.
pub open spec fn stored_claims(current: Option<(i32, i32, String)>) -> Seq<i32> {
    match current {
        Some(c) => if c.0 != 0 {
            match json_i32_list_of(c.2@) {
                Some(l) => l,
                None => Seq::empty(),
            }
        } else {
            Seq::empty()
        },
        None => Seq::empty(),
    }
}

/// The pool is open: the first one, or the big prize of the pool before it
/// was taken (see `pool_is_open`).
pub open spec fn pool_open_spec(pool_id: i32, previous: Option<(i32, i32, String)>) -> bool {
    pool_id == 1 || match previous {
        Some(s) => s.0 != 0 && match json_i32_list_of(s.2@) {
            Some(l) => l.contains(ACT197_GAIN_BIG),
            None => false,
        },
        None => false,
    }
}

/// Some prize of the pool is left.
pub open spec fn prize_left(rows: Seq<Act197PoolRow>, activity_id: i32, pool_id: i32, claimed: Seq<i32>) -> bool {
    exists|j: int| 0 <= j < rows.len() && #[trigger] rummage_candidate(rows[j], activity_id, pool_id, claimed)
}

/// The player rummages in `pool_id`: refused when the cost is malformed, the
/// pool is not open (`previous` is the stored entry of the pool before it),
/// or no prize is left; otherwise a prize not yet taken is drawn at random and
/// added to the pool's gains (`current` is the pool's stored entry).
pub fn act197_rummage(
    rows: &[Act197PoolRow],
    activity_id: i32,
    pool_id: i32,
    rummage_consume: &str,
    previous: Option<(i32, i32, String)>,
    current: Option<(i32, i32, String)>,
) -> (res: Result<Act197Rummage, LogicError>)
    ensures
        material_spec(rummage_consume@) is None ==> res == Err::<Act197Rummage, LogicError>(LogicError::InvalidRequest),
        res is Ok <==> (material_spec(rummage_consume@) is Some && pool_open_spec(pool_id, previous) && prize_left(
            rows@,
            activity_id,
            pool_id,
            stored_claims(current),
        )),
        res is Err ==> res == Err::<Act197Rummage, LogicError>(LogicError::InvalidRequest),
        res matches Ok(r) ==> ({
            let claimed = match current {
                Some(c) => if c.0 != 0 {
                    match json_i32_list_of(c.2@) {
                        Some(l) => l,
                        None => Seq::empty(),
                    }
                } else {
                    Seq::empty()
                },
                None => Seq::empty(),
            };
            &&& Some(r.cost) == material_spec(rummage_consume@)
            &&& (pool_id == 1 || match previous {
                Some(s) => s.0 != 0 && match json_i32_list_of(s.2@) {
                    Some(l) => l.contains(ACT197_GAIN_BIG),
                    None => false,
                },
                None => false,
            })
            &&& r.row < rows@.len()
            &&& rummage_candidate(rows@[r.row as int], activity_id, pool_id, claimed)
            &&& sorted_set_of(r.claimed@, claimed.push(rows@[r.row as int].index))
        }),
{
    let cost = match parse_material(rummage_consume) {
        Some(c) => c,
        None => {
            return Err(LogicError::InvalidRequest);
        },
    };
    if !pool_is_open(pool_id, previous) {
        return Err(LogicError::InvalidRequest);
    }
    let ghost current_view = current;
    let mut claimed = claimed_gain_ids(current);
    let ghost cl = match current_view {
        Some(c) => if c.0 != 0 {
            match json_i32_list_of(c.2@) {
                Some(l) => l,
                None => Seq::empty(),
            }
        } else {
            Seq::empty()
        },
        None => Seq::empty(),
    };
    assert(forall|y: i32| claimed@.contains(y) <==> cl.contains(y));
    let mut candidates: Vec<usize> = Vec::new();
    let mut i: usize = 0;
    while i < rows.len()
        invariant
            i <= rows@.len(),
            forall|y: i32| claimed@.contains(y) <==> cl.contains(y),
            forall|j: int| 0 <= j < candidates@.len() ==> (#[trigger] candidates@[j]) < rows@.len()
                && rummage_candidate(rows@[candidates@[j] as int], activity_id, pool_id, cl),
            candidates@.len() == 0 ==> forall|j: int| 0 <= j < i ==> !#[trigger] rummage_candidate(rows@[j], activity_id, pool_id, cl),
        decreases rows.len() - i,
    {
        let r = rows[i];
        if r.activity_id == activity_id && r.pool_id == pool_id && !contains_i32(claimed.as_slice(), r.index) {
            candidates.push(i);
        }
        i = i + 1;
    }
    assert(cl == stored_claims(current_view));
    if candidates.len() == 0 {
        assert(!prize_left(rows@, activity_id, pool_id, cl));
        return Err(LogicError::InvalidRequest);
    }
    assert(rummage_candidate(rows@[candidates@[0] as int], activity_id, pool_id, cl));
    assert(prize_left(rows@, activity_id, pool_id, cl));
    let n = candidates.len();
    let pick = random_below(if n > 0xffff_ffff { 0xffff_ffff } else { n as u32 }) as usize;
    let row = candidates[pick];
    let index = rows[row].index;
    let ghost before = claimed@;
    insert_sorted_unique(&mut claimed, index);
    proof {
        assert forall|y: i32| claimed@.contains(y) <==> cl.push(index).contains(y) by {
            if cl.push(index).contains(y) {
                let w = choose|w: int| 0 <= w < cl.push(index).len() && cl.push(index)[w] == y;
                if w < cl.len() {
                    assert(cl[w] == y);
                    assert(cl.contains(y));
                }
            }
            if cl.contains(y) {
                let w = choose|w: int| 0 <= w < cl.len() && cl[w] == y;
                assert(cl.push(index)[w] == y);
            }
            if y == index {
                assert(cl.push(index)[cl.len() as int] == y);
            }
        }
    }
    Ok(Act197Rummage { row, cost, claimed })
}

/// The pools a player took gains from: the stored entries whose state is set,
/// keyed by pool, in the order given.
pub open spec fn gained_pools(states: Seq<(i32, i32, i32, String)>) -> Seq<(i32, ())> {
    filter_map(states, |t: (i32, i32, i32, String)| if t.1 != 0 { Some((t.0, ())) } else { None })
}

/// One stored entry `(pool, state, progress, text)` has its state set and its
/// text lists the gains `ids` (each once, increasing; see `parse_gain_ids`).
pub open spec fn gains_of_entry(states: Seq<(i32, i32, i32, String)>, pool: i32, ids: Seq<i32>) -> bool {
    exists|j: int|
        0 <= j < states.len() && (#[trigger] states[j]).0 == pool && states[j].1 != 0 && sorted_set_of(
            ids,
            match json_i32_list_of(states[j].3@) {
                Some(l) => l,
                None => Seq::empty(),
            },
        )
}

/// The gains a player took, per pool, ordered by pool (equal pools in the
/// order given): each stored entry whose state is set, with its gains.
pub fn gain_infos(states: &[(i32, i32, i32, String)]) -> (res: Vec<(i32, Vec<i32>)>)
    ensures
        stably_sorted(res@.map_values(|p: (i32, Vec<i32>)| (p.0, ())), gained_pools(states@)),
        forall|k: int| 0 <= k < res@.len() ==> gains_of_entry(states@, (#[trigger] res@[k]).0, res@[k].1@),
{
    let ghost f = |t: (i32, i32, i32, String)| if t.1 != 0 { Some((t.0, ())) } else { None };
    let mut listed: Vec<(i32, Vec<i32>)> = Vec::new();
    let mut i: usize = 0;
    while i < states.len()
        invariant
            i <= states@.len(),
            f == (|t: (i32, i32, i32, String)| if t.1 != 0 { Some((t.0, ())) } else { None }),
            listed@.map_values(|p: (i32, Vec<i32>)| (p.0, ())) == filter_map(states@.take(i as int), f),
            forall|k: int| 0 <= k < listed@.len() ==> gains_of_entry(states@, (#[trigger] listed@[k]).0, listed@[k].1@),
        decreases states.len() - i,
    {
        assert(states@.take(i + 1).drop_last() =~= states@.take(i as int));
        if states[i].1 != 0 {
            let ids = parse_gain_ids(states[i].3.as_str());
            let ghost before = listed@;
            listed.push((states[i].0, ids));
            assert(listed@.map_values(|p: (i32, Vec<i32>)| (p.0, ())) =~= before.map_values(
                |p: (i32, Vec<i32>)| (p.0, ()),
            ).push((states@[i as int].0, ())));
            assert(gains_of_entry(states@, states@[i as int].0, listed@[before.len() as int].1@));
        }
        i = i + 1;
    }
    assert(states@.take(states@.len() as int) =~= states@);
    let ghost before = listed@;
    let sorted = sort_by_key_stable(listed);
    proof {
        lemma_sorted_keeps(before, sorted@, |p: (i32, Vec<i32>)| gains_of_entry(states@, p.0, p.1@));
        lemma_keys_stably_sorted(before, sorted@);
    }
    sorted
}


/// `a / b` as Rust's `/` computes it on integers: rounded toward zero.
pub open spec fn div_toward_zero(a: int, b: int) -> int {
    let q = (if a >= 0 { a } else { -a }) / (if b >= 0 { b } else { -b });
    if (a >= 0) == (b > 0) || a == 0 { q } else { -q }
}

/// How many explorations one request makes: all the cost allows
/// (`quantity` held over the cost's count, rounded toward zero) when it asks
/// for all (find type `2`), else one; `None` when that comes to none, which is
/// refused as short of the cost.
pub fn explore_times(find_type: Option<i32>, quantity: i32, cost_count: i32) -> (res: Option<i32>)
    requires
        find_type == Some(2i32) ==> cost_count != 0 && !(quantity == i32::MIN && cost_count == -1),
    ensures
        ({
            let times: int = if find_type == Some(2i32) { div_toward_zero(quantity as int, cost_count as int) } else { 1 };
            res == if times > 0 { Some(times as i32) } else { None::<i32> }
        }),
{
    let times: i32 = if find_type == Some(2) {
        let qa: i64 = if quantity >= 0 { quantity as i64 } else { -(quantity as i64) };
        let qb: i64 = if cost_count >= 0 { cost_count as i64 } else { -(cost_count as i64) };
        let q: i64 = qa / qb;
        assert(q <= 0x8000_0000) by (nonlinear_arith)
            requires
                0 <= qa <= 0x8000_0000,
                1 <= qb,
                q == qa / qb,
        ;
        assert(q >= 0) by (nonlinear_arith)
            requires
                0 <= qa,
                1 <= qb,
                q == qa / qb,
        ;
        if (quantity >= 0) == (cost_count > 0) || quantity == 0 {
            assert(q < 0x8000_0000) by (nonlinear_arith)
                requires
                    q == qa / qb,
                    qb >= 1,
                    qa <= 0x8000_0000,
                    qa == 0x8000_0000 ==> qb >= 2,
            ;
            q as i32
        } else {
            (-q) as i32
        }
    } else {
        1
    };
    if times > 0 { Some(times) } else { None }
}

/// The event a request names: the one asked for, else the largest of the
/// event table's ids (`ids`); refused for an empty table.
pub fn resolve_activity_id(activity_id: Option<i32>, ids: &[i32]) -> (res: Result<i32, LogicError>)
    ensures
        res == match activity_id {
            Some(a) => Ok::<i32, LogicError>(a),
            None => if ids@.len() > 0 {
                Ok(max_or_zero(ids@))
            } else {
                Err(LogicError::InvalidRequest)
            },
        },
{
    match activity_id {
        Some(a) => Ok(a),
        None => if ids.len() > 0 {
            Ok(largest_or_zero(ids))
        } else {
            Err(LogicError::InvalidRequest)
        },
    }
}

} // verus!
