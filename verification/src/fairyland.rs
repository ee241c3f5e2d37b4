use crate::sorting::{sort_by_key_stable, stably_sorted};
use crate::error::LogicError;
use crate::text::{chars_eq, chars_of, contains_i32, filter_map};
use vstd::prelude::*;

verus! {

/// The fairyland progress of one player.
#[derive(Clone, Copy, Debug)]
pub struct FairylandManager {
    player_id: i64,
}

impl FairylandManager {
    /// The fairyland of the player `player_id`.
    pub fn new(player_id: i64) -> (m: Self)
        ensures
            m.player_id() == player_id,
    {
        FairylandManager { player_id }
    }

    /// The player this fairyland belongs to.
    pub closed spec fn player_id(self) -> i64 {
        self.player_id
    }

    /// Recording a dialog: only one of the puzzle talk table (`talk_ids`);
    /// the caller then stores it.
    pub fn record_dialog(&self, talk_ids: &[i32], dialog_id: i32) -> (res: Result<i32, LogicError>)
        ensures
            res == if talk_ids@.contains(dialog_id) {
                Ok::<i32, LogicError>(dialog_id)
            } else {
                Err(LogicError::InvalidRequest)
            },
    {
        if contains_i32(talk_ids, dialog_id) {
            Ok(dialog_id)
        } else {
            Err(LogicError::InvalidRequest)
        }
    }

    /// Recording an element: only one of the element table (`element_ids`);
    /// the caller then stores it.
    pub fn record_element(&self, element_ids: &[i32], element_id: i32) -> (res: Result<i32, LogicError>)
        ensures
            res == if element_ids@.contains(element_id) {
                Ok::<i32, LogicError>(element_id)
            } else {
                Err(LogicError::InvalidRequest)
            },
    {
        if contains_i32(element_ids, element_id) {
            Ok(element_id)
        } else {
            Err(LogicError::InvalidRequest)
        }
    }

    /// Solving a puzzle: refused for a puzzle the table lacks (`puzzle_answer`
    /// is its answer, if it has one) or a wrong answer; the caller then stores it.
    pub fn resolve_puzzle(&self, puzzle_id: i32, puzzle_answer: Option<&str>, answer: &str) -> (res: Result<i32, LogicError>)
        ensures
            res == match puzzle_answer {
                Some(a) => if a@ == answer@ {
                    Ok::<i32, LogicError>(puzzle_id)
                } else {
                    Err(LogicError::InvalidRequest)
                },
                None => Err(LogicError::InvalidRequest),
            },
    {
        let expected = match puzzle_answer {
            Some(a) => a,
            None => {
                return Err(LogicError::InvalidRequest);
            },
        };
        let want = chars_of(expected);
        let got = chars_of(answer);
        if chars_eq(want.as_slice(), got.as_slice()) {
            Ok(puzzle_id)
        } else {
            Err(LogicError::InvalidRequest)
        }
    }
}

/// The fairyland entries a player completed (stored state set), ids in
/// increasing order; `states` holds the stored `(entry, state)` pairs.
pub fn completed_ids(states: &[(i32, i32)]) -> (out: Vec<i32>)
    ensures
        stably_sorted(
            out@.map_values(|d: i32| (d, ())),
            filter_map(states@, |p: (i32, i32)| if p.1 != 0 { Some((p.0, ())) } else { None }),
        ),
{
    let ghost f = |p: (i32, i32)| if p.1 != 0 { Some((p.0, ())) } else { None };
    let mut keyed: Vec<(i32, ())> = Vec::new();
    let mut i: usize = 0;
    while i < states.len()
        invariant
            i <= states@.len(),
            f == (|p: (i32, i32)| if p.1 != 0 { Some((p.0, ())) } else { None }),
            keyed@ == filter_map(states@.take(i as int), f),
        decreases states.len() - i,
    {
        assert(states@.take(i + 1).drop_last() =~= states@.take(i as int));
        if states[i].1 != 0 {
            keyed.push((states[i].0, ()));
        }
        i = i + 1;
    }
    assert(states@.take(states@.len() as int) =~= states@);
    let sorted = sort_by_key_stable(keyed);
    let mut out: Vec<i32> = Vec::new();
    let mut k: usize = 0;
    while k < sorted.len()
        invariant
            k <= sorted@.len(),
            out@.len() == k,
            forall|j: int| 0 <= j < k ==> #[trigger] out@[j] == sorted@[j].0,
        decreases sorted.len() - k,
    {
        out.push(sorted[k].0);
        k = k + 1;
    }
    assert forall|j: int| 0 <= j < sorted@.len() implies #[trigger] sorted@[j] == (out@[j], ()) by {
        let (a, b) = sorted@[j];
        assert(b == ());
    }
    assert(out@.map_values(|d: i32| (d, ())) =~= sorted@);
    out
}

} // verus!
