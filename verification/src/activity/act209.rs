use crate::activity::act123::{largest_or_zero, max_or_zero};
use crate::text::{find_map, lemma_find_map_prefix};
use vstd::prelude::*;

verus! {

/// The progress stored for entry `0` among the stored `(entry, state,
/// progress)` triples (the first such), `0` when none is stored.
pub open spec fn layer_progress(states: Seq<(i32, i32, i32)>) -> i32 {
    match find_map(states, progress_fn()) {
        Some(p) => p,
        None => 0,
    }
}

/// A stored triple read as its progress, when it is entry `0`'s.
pub open spec fn progress_fn() -> spec_fn((i32, i32, i32)) -> Option<i32> {
    |t: (i32, i32, i32)| if t.0 == 0 { Some(t.2) } else { None }
}

/// The tower event's view: the event asked for, else the largest event id of
/// its task table (`ids`; `0` when empty), and the highest layer reached (see
/// `layer_progress`).
pub fn act209_info(activity_id: Option<i32>, ids: &[i32], states: &[(i32, i32, i32)]) -> (res: (i32, i32))
    ensures
        res == (
            match activity_id {
                Some(a) => a,
                None => max_or_zero(ids@),
            },
            layer_progress(states@),
        ),
{
    let id = match activity_id {
        Some(a) => a,
        None => largest_or_zero(ids),
    };
    let ghost f = progress_fn();
    let mut i: usize = 0;
    while i < states.len()
        invariant
            i <= states@.len(),
            f == progress_fn(),
            id == match activity_id {
                Some(a) => a,
                None => max_or_zero(ids@),
            },
            find_map(states@.take(i as int), f) is None,
        decreases states.len() - i,
    {
        assert(states@.take(i + 1).drop_last() =~= states@.take(i as int));
        if states[i].0 == 0 {
            proof {
                lemma_find_map_prefix(states@, f, i + 1);
            }
            return (id, states[i].2);
        }
        i = i + 1;
    }
    assert(states@.take(states@.len() as int) =~= states@);
    (id, 0)
}

} // verus!
