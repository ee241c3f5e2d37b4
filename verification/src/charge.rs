use vstd::prelude::*;

verus! {

/// The id a month-card bonus claim is answered with: the requested card, else the id of
/// the first card the player holds (none counts as 0), else 0.
pub open spec fn month_card_claim_id_spec(id: Option<i32>, card_ids: Seq<Option<i32>>) -> i32 {
    match id {
        Some(i) => i,
        None => if card_ids.len() > 0 {
            match card_ids[0] {
                Some(c) => c,
                None => 0,
            }
        } else {
            0
        },
    }
}

/// Picks the month card a bonus claim is for; `card_ids` are the ids of the player's
/// month cards in the order they are listed to the client.
pub fn month_card_claim_id(id: Option<i32>, card_ids: &[Option<i32>]) -> (res: i32)
    ensures
        res == month_card_claim_id_spec(id, card_ids@),
{
    match id {
        Some(i) => i,
        None => if card_ids.len() > 0 {
            match card_ids[0] {
                Some(c) => c,
                None => 0,
            }
        } else {
            0
        },
    }
}

} // verus!
