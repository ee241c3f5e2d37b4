use vstd::prelude::*;

verus! {

/// The keys never go down.
pub open spec fn sorted_by_key<T>(s: Seq<(i32, T)>) -> bool {
    forall|i: int, j: int| 0 <= i < j < s.len() ==> s[i].0 <= s[j].0
}

/// The items of `s` whose key is `k`, in their order in `s`.
pub open spec fn with_key<T>(s: Seq<(i32, T)>, k: i32) -> Seq<(i32, T)> {
    s.filter(key_is::<T>(k))
}

/// A pair has the key `k`.
pub open spec fn key_is<T>(k: i32) -> spec_fn((i32, T)) -> bool {
    |p: (i32, T)| p.0 == k
}

proof fn lemma_filter_none<T>(s: Seq<(i32, T)>, k: i32)
    requires
        forall|i: int| 0 <= i < s.len() ==> s[i].0 != k,
    ensures
        with_key(s, k) == Seq::<(i32, T)>::empty(),
    decreases s.len(),
{
    reveal(Seq::filter);
    if s.len() > 0 {
        lemma_filter_none(s.drop_last(), k);
        assert(s[s.len() - 1].0 != k);
        assert(!key_is::<T>(k)(s.last()));
    } else {
        assert(s =~= Seq::<(i32, T)>::empty());
    }
}

proof fn lemma_filter_one<T>(x: (i32, T), k: i32)
    ensures
        with_key(seq![x], k) == if x.0 == k {
            seq![x]
        } else {
            Seq::<(i32, T)>::empty()
        },
{
    reveal_with_fuel(Seq::filter, 2);
    assert(seq![x].drop_last() =~= Seq::<(i32, T)>::empty());
}

proof fn lemma_insert_keys<T>(a: Seq<(i32, T)>, b: Seq<(i32, T)>, x: (i32, T), prev: Seq<(i32, T)>, k: i32)
    requires
        forall|j: int| 0 <= j < b.len() ==> b[j].0 > x.0,
        with_key(a + b, k) == with_key(prev, k),
    ensures
        with_key(a + seq![x] + b, k) == with_key(prev + seq![x], k),
{
    Seq::filter_distributes_over_add(a, b, key_is::<T>(k));
    Seq::filter_distributes_over_add(a + seq![x], b, key_is::<T>(k));
    Seq::filter_distributes_over_add(a, seq![x], key_is::<T>(k));
    Seq::filter_distributes_over_add(prev, seq![x], key_is::<T>(k));
    lemma_filter_one(x, k);
    if k == x.0 {
        lemma_filter_none(b, k);
        assert(with_key(a + b, k) =~= with_key(a, k));
        assert(with_key(a + seq![x] + b, k) =~= with_key(a, k) + seq![x]);
    } else {
        assert(with_key(a + seq![x] + b, k) =~= with_key(a, k) + with_key(b, k));
    }
}

/// Sorts `(key, item)` pairs by key, keeping the order of pairs with equal keys
/// (`sort_by_key`, which is stable): the keys never go down, and the pairs of
/// each key come out in the order they came in.
pub fn sort_by_key_stable<T>(items: Vec<(i32, T)>) -> (out: Vec<(i32, T)>)
    ensures
        sorted_by_key(out@),
        forall|k: i32| #[trigger] with_key(out@, k) == with_key(items@, k),
        out@.len() == items@.len(),
        forall|j: int| 0 <= j < out@.len() ==> items@.contains(#[trigger] out@[j]),
{
    let ghost input = items@;
    let n = items.len();
    assert(input.len() == n);
    let mut rest = items;
    let mut out: Vec<(i32, T)> = Vec::new();
    let mut i: usize = 0;
    assert(input.skip(0) =~= input);
    while rest.len() > 0
        invariant
            i <= input.len(),
            input.len() <= usize::MAX,
            rest@ == input.skip(i as int),
            out@.len() == i,
            sorted_by_key(out@),
            forall|k: i32| #[trigger] with_key(out@, k) == with_key(input.take(i as int), k),
            forall|j: int| 0 <= j < out@.len() ==> input.take(i as int).contains(#[trigger] out@[j]),
        decreases rest.len(),
    {
        let x = rest.remove(0);
        assert(x == input[i as int]);
        assert(rest@ =~= input.skip(i + 1));
        let key = x.0;
        let mut p: usize = 0;
        while p < out.len() && out[p].0 <= key
            invariant
                p <= out@.len(),
                forall|j: int| 0 <= j < p ==> out@[j].0 <= key,
            decreases out.len() - p,
        {
            p = p + 1;
        }
        let ghost before = out@;
        proof {
            if p < before.len() {
                assert(before[p as int].0 > key);
                assert forall|j: int| p <= j < before.len() implies before[j].0 > key by {
                    if j > p {
                        assert(before[p as int].0 <= before[j].0);
                    }
                }
            }
        }
        out.insert(p, x);
        proof {
            let a = before.take(p as int);
            let b = before.skip(p as int);
            assert(before =~= a + b);
            assert(out@ =~= a + seq![x] + b);
            assert(input.take(i + 1) =~= input.take(i as int) + seq![x]);
            assert forall|k: i32| #[trigger] with_key(out@, k) == with_key(input.take(i + 1), k) by {
                lemma_insert_keys(a, b, x, input.take(i as int), k);
            }
            assert forall|j: int| 0 <= j < out@.len() implies input.take(i + 1).contains(#[trigger] out@[j]) by {
                let t0 = input.take(i as int);
                let t1 = input.take(i + 1);
                if j == p {
                    assert(t1[i as int] == x);
                } else {
                    let jj = if j < p { j } else { j - 1 };
                    assert(out@[j] == before[jj]);
                    assert(t0.contains(before[jj]));
                    let w = choose|w: int| 0 <= w < t0.len() && t0[w] == before[jj];
                    assert(t1[w] == t0[w]);
                }
            }
            assert(sorted_by_key(out@)) by {
                assert forall|m: int, n: int| 0 <= m < n < out@.len() implies out@[m].0 <= out@[n].0 by {
                    if n < p {
                        assert(out@[m] == before[m] && out@[n] == before[n]);
                    } else if n == p {
                        assert(out@[m] == before[m]);
                    } else if m < p {
                        assert(out@[m] == before[m] && out@[n] == before[n - 1]);
                    } else if m == p {
                        assert(out@[n] == before[n - 1]);
                    } else {
                        assert(out@[m] == before[m - 1] && out@[n] == before[n - 1]);
                    }
                }
            }
        }
        i = i + 1;
    }
    assert(input.take(input.len() as int) =~= input);
    out
}

/// When every pair of `items` satisfies `p`, so does every pair of `out`.
pub proof fn lemma_sorted_keeps<T>(items: Seq<(i32, T)>, out: Seq<(i32, T)>, p: spec_fn((i32, T)) -> bool)
    requires
        forall|j: int| 0 <= j < out.len() ==> items.contains(#[trigger] out[j]),
        forall|j: int| 0 <= j < items.len() ==> #[trigger] p(items[j]),
    ensures
        forall|j: int| 0 <= j < out.len() ==> #[trigger] p(out[j]),
{
    assert forall|j: int| 0 <= j < out.len() implies #[trigger] p(out[j]) by {
        assert(items.contains(out[j]));
        let w = choose|w: int| 0 <= w < items.len() && items[w] == out[j];
        assert(p(items[w]));
    }
}

/// `out` holds the pairs of `inp`, sorted by key, with equal keys in their
/// order in `inp` (what a stable `sort_by_key` makes of `inp`).
pub open spec fn stably_sorted<T>(out: Seq<(i32, T)>, inp: Seq<(i32, T)>) -> bool {
    sorted_by_key(out) && forall|k: i32| #[trigger] with_key(out, k) == with_key(inp, k)
}

/// Sorts numbers into increasing order.
pub fn sort_i32s(values: Vec<i32>) -> (out: Vec<i32>)
    ensures
        out@.len() == values@.len(),
        stably_sorted(out@.map_values(|d: i32| (d, ())), values@.map_values(|d: i32| (d, ()))),
{
    let mut keyed: Vec<(i32, ())> = Vec::new();
    let mut i: usize = 0;
    while i < values.len()
        invariant
            i <= values@.len(),
            keyed@ == values@.take(i as int).map_values(|d: i32| (d, ())),
        decreases values.len() - i,
    {
        keyed.push((values[i], ()));
        i = i + 1;
        assert(keyed@ =~= values@.take(i as int).map_values(|d: i32| (d, ())));
    }
    assert(values@.take(values@.len() as int) =~= values@);
    let sorted = sort_by_key_stable(keyed);
    let mut out: Vec<i32> = Vec::new();
    let mut k: usize = 0;
    while k < sorted.len()
        invariant
            k <= sorted@.len(),
            out@.len() == k,
            forall|j: int| 0 <= j < k ==> #[trigger] out@[j] == sorted@[j].0,
        decreases sorted.len() - k,
    {
        out.push(sorted[k].0);
        k = k + 1;
    }
    assert forall|j: int| 0 <= j < sorted@.len() implies #[trigger] sorted@[j] == (out@[j], ()) by {
        let (a, b) = sorted@[j];
        assert(b == ());
    }
    assert(out@.map_values(|d: i32| (d, ())) =~= sorted@);
    out
}

/// `(a, b)` comes no later than `(c, d)`: by the first number, then the second.
pub open spec fn pair_le(x: (i32, i32), y: (i32, i32)) -> bool {
    x.0 < y.0 || (x.0 == y.0 && x.1 <= y.1)
}

/// The pairs are ordered by their `(i32, i32)` keys.
pub open spec fn sorted_by_pair<T>(s: Seq<((i32, i32), T)>) -> bool {
    forall|i: int, j: int| 0 <= i < j < s.len() ==> pair_le(s[i].0, s[j].0)
}

/// Sorts pairs by their `(i32, i32)` keys, first number first (as
/// `sort_by_key` with a tuple key does); the result holds the same pairs.
pub fn sort_by_pair_key<T>(items: Vec<((i32, i32), T)>) -> (out: Vec<((i32, i32), T)>)
    ensures
        sorted_by_pair(out@),
        out@.to_multiset() == items@.to_multiset(),
        out@.len() == items@.len(),
{
    let ghost input = items@;
    let n = items.len();
    assert(input.len() == n);
    let mut rest = items;
    let mut out: Vec<((i32, i32), T)> = Vec::new();
    let mut i: usize = 0;
    assert(input.skip(0) =~= input);
    assert(input.take(0) =~= Seq::<((i32, i32), T)>::empty());
    while rest.len() > 0
        invariant
            i <= input.len(),
            input.len() <= usize::MAX,
            rest@ == input.skip(i as int),
            out@.len() == i,
            sorted_by_pair(out@),
            out@.to_multiset() == input.take(i as int).to_multiset(),
        decreases rest.len(),
    {
        let x = rest.remove(0);
        assert(x == input[i as int]);
        assert(rest@ =~= input.skip(i + 1));
        let key = x.0;
        let mut p: usize = 0;
        while p < out.len() && (out[p].0.0 < key.0 || (out[p].0.0 == key.0 && out[p].0.1 <= key.1))
            invariant
                p <= out@.len(),
                forall|j: int| 0 <= j < p ==> pair_le(out@[j].0, key),
            decreases out.len() - p,
        {
            p = p + 1;
        }
        let ghost before = out@;
        proof {
            if p < before.len() {
                assert(!pair_le(before[p as int].0, key));
                assert forall|j: int| p <= j < before.len() implies !pair_le(before[j].0, key) by {
                    if j > p {
                        assert(pair_le(before[p as int].0, before[j].0));
                    }
                }
            }
        }
        out.insert(p, x);
        proof {
            assert(input.take(i + 1) =~= input.take(i as int).push(x));
            assert(out@ == before.insert(p as int, x));
            vstd::seq_lib::to_multiset_insert(before, p as int, x);
            vstd::seq_lib::to_multiset_build(input.take(i as int), x);
            assert forall|m: int, n: int| 0 <= m < n < out@.len() implies pair_le(out@[m].0, out@[n].0) by {
                if n < p {
                    assert(out@[m] == before[m] && out@[n] == before[n]);
                } else if n == p {
                    assert(out@[m] == before[m]);
                } else if m < p {
                    assert(out@[m] == before[m] && out@[n] == before[n - 1]);
                } else if m == p {
                    assert(out@[n] == before[n - 1]);
                } else {
                    assert(out@[m] == before[m - 1] && out@[n] == before[n - 1]);
                }
            }
        }
        i = i + 1;
    }
    assert(input.take(input.len() as int) =~= input);
    out
}

/// Keeping only the keys of the pairs commutes with picking the pairs of one key.
proof fn lemma_with_key_keys<T>(s: Seq<(i32, T)>, k: i32)
    ensures
        with_key(s.map_values(|p: (i32, T)| (p.0, ())), k) == with_key(s, k).map_values(|p: (i32, T)| (p.0, ())),
    decreases s.len(),
{
    reveal(Seq::filter);
    let f = |p: (i32, T)| (p.0, ());
    if s.len() == 0 {
        assert(s.map_values(f) =~= Seq::<(i32, ())>::empty());
        assert(with_key(s, k) =~= Seq::<(i32, T)>::empty());
        assert(with_key(s.map_values(f), k) =~= Seq::<(i32, ())>::empty());
    } else {
        let front = s.drop_last();
        lemma_with_key_keys(front, k);
        assert(s.map_values(f).drop_last() =~= front.map_values(f));
        assert(s.map_values(f).last() == f(s.last()));
        if s.last().0 == k {
            assert(with_key(s, k) == with_key(front, k).push(s.last()));
            assert(with_key(s.map_values(f), k) == with_key(front.map_values(f), k).push(f(s.last())));
            assert(with_key(s, k).map_values(f) =~= with_key(front, k).map_values(f).push(f(s.last())));
        } else {
            assert(with_key(s, k) == with_key(front, k));
            assert(with_key(s.map_values(f), k) == with_key(front.map_values(f), k));
        }
    }
}

/// A stable sort of pairs is a stable sort of their keys.
pub proof fn lemma_keys_stably_sorted<T>(before: Seq<(i32, T)>, after: Seq<(i32, T)>)
    requires
        stably_sorted(after, before),
    ensures
        stably_sorted(after.map_values(|p: (i32, T)| (p.0, ())), before.map_values(|p: (i32, T)| (p.0, ()))),
{
    let f = |p: (i32, T)| (p.0, ());
    assert forall|k: i32| #[trigger] with_key(after.map_values(f), k) == with_key(before.map_values(f), k) by {
        lemma_with_key_keys(after, k);
        lemma_with_key_keys(before, k);
        assert(with_key(after, k) == with_key(before, k));
    }
}

} // verus!
