use crate::text::contains_i32;
use crate::text::{chars_eq, chars_of};
use crate::error::LogicError;
use vstd::prelude::*;

verus! {

/// A critter's book entry from its stored `(state, progress, text)`: read when
/// the state is set, the background in the progress, the special skin used
/// when the text is `1`; all unset when nothing is stored.
pub fn book_state(stored: Option<(i32, i32, String)>) -> (res: (bool, i32, bool))
    ensures
        res == match stored {
            Some(s) => (s.0 != 0, s.1, s.2@ == "1"@),
            None => (false, 0i32, false),
        },
{
    match stored {
        Some(s) => {
            let text = chars_of(s.2.as_str());
            let one = chars_of("1");
            (s.0 != 0, s.1, chars_eq(text.as_slice(), one.as_slice()))
        },
        None => (false, 0, false),
    }
}

/// The sub type of the items that serve as book backgrounds.
pub const CRITTER_BOOK_BACKGROUND_SUB_TYPE: i32 = 33;

/// What is stored for a book entry: the read flag as `1` or `0`, the
/// background, and `1` when the special skin is used (else nothing).
pub fn book_stored(read: bool, background: i32, use_special_skin: bool) -> (res: (i32, i32, String))
    ensures
        res.0 == if read { 1i32 } else { 0i32 },
        res.1 == background,
        res.2@ == if use_special_skin { "1"@ } else { ""@ },
{
    proof {
        reveal_strlit("1");
        reveal_strlit("");
    }
    let ext = if use_special_skin { String::from_str("1") } else { String::from_str("") };
    (if read { 1 } else { 0 }, background, ext)
}

/// What is stored for a book entry reads back as it was written.
pub proof fn law_book_state_reads_back(read: bool, background: i32, use_special_skin: bool, stored: (i32, i32, Seq<char>))
    requires
        stored.0 == if read { 1i32 } else { 0i32 },
        stored.1 == background,
        stored.2 == if use_special_skin { "1"@ } else { ""@ },
    ensures
        (stored.0 != 0, stored.1, stored.2 == "1"@) == (read, background, use_special_skin),
{
    reveal_strlit("1");
    reveal_strlit("");
    if !use_special_skin {
        assert(stored.2.len() == 0);
    }
}

/// A book entry as the client shows it.
#[derive(Clone, Copy, Debug, PartialEq, Eq)]
pub struct CritterBookInfo {
    pub id: i32,
    pub unlock_special_skin: bool,
    pub use_special_skin: bool,
    pub background: i32,
    pub unlock_normal_skin: bool,
    pub is_new: bool,
}

/// A book entry from whether its special skin is owned and its stored state
/// (see `book_state`): the special skin shows only when owned and chosen; the
/// entry is new until read.
pub fn book_info(id: i32, unlock_special_skin: bool, stored: Option<(i32, i32, String)>) -> (res: CritterBookInfo)
    ensures
        ({
            let (read, background, use_special) = match stored {
                Some(s) => (s.0 != 0, s.1, s.2@ == "1"@),
                None => (false, 0i32, false),
            };
            res == CritterBookInfo {
                id,
                unlock_special_skin,
                use_special_skin: unlock_special_skin && use_special,
                background,
                unlock_normal_skin: true,
                is_new: !read,
            }
        }),
{
    let (read, background, use_special) = book_state(stored);
    CritterBookInfo {
        id,
        unlock_special_skin,
        use_special_skin: unlock_special_skin && use_special,
        background,
        unlock_normal_skin: true,
        is_new: !read,
    }
}

/// A book entry can be changed: the critter is in the table (`critter_ids`
/// are its ids) and the player owns one (`owned_skin` answers whether the
/// owned critter's special skin is unlocked, `None` when the player owns none).
pub open spec fn owned_entry_spec(critter_ids: Seq<i32>, id: i32, owned_skin: Option<bool>) -> Option<bool> {
    if critter_ids.contains(id) { owned_skin } else { None }
}

/// Checks that the player may change the book entry of critter `id`; the
/// answer is whether its special skin is unlocked (see `owned_entry_spec`).
pub fn owned_book_entry(critter_ids: &[i32], id: i32, owned_skin: Option<bool>) -> (res: Result<bool, LogicError>)
    ensures
        res == match owned_entry_spec(critter_ids@, id, owned_skin) {
            Some(u) => Ok::<bool, LogicError>(u),
            None => Err(LogicError::InvalidRequest),
        },
{
    if !contains_i32(critter_ids, id) {
        return Err(LogicError::InvalidRequest);
    }
    match owned_skin {
        Some(u) => Ok(u),
        None => Err(LogicError::InvalidRequest),
    }
}

/// Marks the book entry of critter `id` read: refused unless the player may
/// change it (see `owned_entry_spec`).
pub fn mark_book_read(critter_ids: &[i32], id: i32, owned_skin: Option<bool>) -> (res: Result<(), LogicError>)
    ensures
        res == if owned_entry_spec(critter_ids@, id, owned_skin) is Some {
            Ok::<(), LogicError>(())
        } else {
            Err(LogicError::InvalidRequest)
        },
{
    match owned_book_entry(critter_ids, id, owned_skin) {
        Ok(_) => Ok(()),
        Err(e) => Err(e),
    }
}

/// A background may be set on the book entry of critter `id` only when the
/// player may change it (see `owned_entry_spec`); then `0` (none) always,
/// another only when it is a configured background item (`configured_sub_type`
/// is its item's sub type, if the item table has it) that the player owns.
pub fn set_book_background(
    critter_ids: &[i32],
    id: i32,
    owned_skin: Option<bool>,
    background: i32,
    configured_sub_type: Option<i32>,
    owned: bool,
) -> (res: Result<i32, LogicError>)
    ensures
        res == if owned_entry_spec(critter_ids@, id, owned_skin) is Some && (background == 0 || (configured_sub_type == Some(
            CRITTER_BOOK_BACKGROUND_SUB_TYPE,
        ) && owned)) {
            Ok::<i32, LogicError>(background)
        } else {
            Err(LogicError::InvalidRequest)
        },
{
    if owned_book_entry(critter_ids, id, owned_skin).is_err() {
        return Err(LogicError::InvalidRequest);
    }
    if background != 0 {
        let configured = match configured_sub_type {
            Some(t) => t == CRITTER_BOOK_BACKGROUND_SUB_TYPE,
            None => false,
        };
        if !configured || !owned {
            return Err(LogicError::InvalidRequest);
        }
    }
    Ok(background)
}

/// The special skin of critter `id`'s book entry: refused unless the player
/// may change the entry (see `owned_entry_spec`); choosing the skin needs it
/// unlocked; turning it off is always allowed.
pub fn set_book_special_skin(critter_ids: &[i32], id: i32, owned_skin: Option<bool>, use_special_skin: bool) -> (res: Result<
    bool,
    LogicError,
>)
    ensures
        res == match owned_entry_spec(critter_ids@, id, owned_skin) {
            None => Err::<bool, LogicError>(LogicError::InvalidRequest),
            Some(unlocked) => if use_special_skin && !unlocked {
                Err::<bool, LogicError>(LogicError::InvalidRequest)
            } else {
                Ok(use_special_skin)
            },
        },
{
    let unlocked = match owned_book_entry(critter_ids, id, owned_skin) {
        Ok(u) => u,
        Err(e) => {
            return Err(e);
        },
    };
    if use_special_skin && !unlocked {
        return Err(LogicError::InvalidRequest);
    }
    Ok(use_special_skin)
}

} // verus!
