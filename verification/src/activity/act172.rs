use crate::activity::act123::{largest_or_zero, max_or_zero};
use crate::error::LogicError;
use crate::fairyland::completed_ids;
use crate::sorting::stably_sorted;
use crate::text::filter_map;
use vstd::prelude::*;

verus! {

/// The item-use event's view: the event asked for, else the largest event id
/// of its task table (`ids`, refused when empty), and the tasks done (stored
/// state set) in increasing order; `states` holds the stored `(task, state)`
/// pairs.
pub fn act172_info(activity_id: Option<i32>, ids: &[i32], states: &[(i32, i32)]) -> (res: Result<(i32, Vec<i32>), LogicError>)
    ensures
        match activity_id {
            Some(a) => res is Ok && res->Ok_0.0 == a,
            None => if ids@.len() > 0 {
                res is Ok && res->Ok_0.0 == max_or_zero(ids@)
            } else {
                res == Err::<(i32, Vec<i32>), LogicError>(LogicError::InvalidRequest)
            },
        },
        res is Ok ==> stably_sorted(
            res->Ok_0.1@.map_values(|d: i32| (d, ())),
            filter_map(states@, |p: (i32, i32)| if p.1 != 0 { Some((p.0, ())) } else { None }),
        ),
{
    let id = match activity_id {
        Some(a) => a,
        None => {
            if ids.len() == 0 {
                return Err(LogicError::InvalidRequest);
            }
            largest_or_zero(ids)
        },
    };
    Ok((id, completed_ids(states)))
}

} // verus!
