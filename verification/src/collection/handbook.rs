use crate::error::LogicError;
use vstd::prelude::*;

verus! {

/// A handbook entry can be marked read: its type is one of `1` to `4` and its
/// id is positive; anything else is refused. The caller then stores the read.
pub fn read_handbook(entry_type: i32, id: i32) -> (res: Result<(i32, i32), LogicError>)
    ensures
        res == if 1 <= entry_type <= 4 && id > 0 {
            Ok::<(i32, i32), LogicError>((entry_type, id))
        } else {
            Err(LogicError::InvalidRequest)
        },
{
    if !(1 <= entry_type && entry_type <= 4) || id <= 0 {
        return Err(LogicError::InvalidRequest);
    }
    Ok((entry_type, id))
}

/// A dialog can be recorded only when the request names one.
pub fn record_dialog(dialog_id: Option<i32>) -> (res: Result<i32, LogicError>)
    ensures
        res == match dialog_id {
            Some(d) => Ok::<i32, LogicError>(d),
            None => Err(LogicError::InvalidRequest),
        },
{
    match dialog_id {
        Some(d) => Ok(d),
        None => Err(LogicError::InvalidRequest),
    }
}

} // verus!
