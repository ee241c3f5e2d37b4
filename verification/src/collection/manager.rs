use crate::text::{join_text, push_joined};
use vstd::prelude::*;

verus! {

/// How the achievements a player shows are stored: nothing when none is shown;
/// else `1:` for single achievements (no group, or group `0`) or `2:` for a
/// group, then the ids separated by `#`.
pub open spec fn show_achievement_text(ids: Seq<i32>, group_id: Option<i32>) -> Seq<char> {
    if ids.len() == 0 {
        Seq::empty()
    } else {
        let tag = match group_id {
            Some(g) if g != 0 => seq!['2'],
            _ => seq!['1'],
        };
        tag + seq![':'] + join_text(ids, seq!['#'])
    }
}

/// Encodes the achievements a player shows; see `show_achievement_text`.
pub fn encode_show_achievement(ids: &[i32], group_id: Option<i32>) -> (out: String)
    ensures
        out@ == show_achievement_text(ids@, group_id),
{
    let mut out = String::new();
    if ids.len() == 0 {
        return out;
    }
    let grouped = match group_id {
        Some(g) => g != 0,
        None => false,
    };
    proof {
        reveal_strlit("1:");
        reveal_strlit("2:");
    }
    if grouped {
        out.append("2:");
    } else {
        out.append("1:");
    }
    push_joined(&mut out, ids);
    assert(out@ =~= show_achievement_text(ids@, group_id));
    out
}

} // verus!
