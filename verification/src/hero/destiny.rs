use crate::error::LogicError;
use crate::text::{chars_of, find_map, i32_list, i32_list_spec, lemma_find_map_prefix};
use vstd::prelude::*;

verus! {

/// A hero's destiny: its stones (`#`-separated ids) and its slot table.
#[derive(Clone, Debug)]
pub struct CharacterDestinyRow {
    pub hero_id: i32,
    pub facets_id: String,
    pub slots_id: i32,
}

/// One slot of a destiny slot table, with what reaching it costs.
#[derive(Clone, Debug, PartialEq, Eq)]
pub struct DestinySlotRow {
    pub slots_id: i32,
    pub stage: i32,
    pub node: i32,
    pub consume: String,
}

/// The destiny row of `hero_id` (the first such).
pub open spec fn destiny_row(rows: Seq<CharacterDestinyRow>, hero_id: i32) -> Option<CharacterDestinyRow> {
    find_map(rows, destiny_fn(hero_id))
}

/// A row, when it is the destiny of `hero_id`.
pub open spec fn destiny_fn(hero_id: i32) -> spec_fn(CharacterDestinyRow) -> Option<CharacterDestinyRow> {
    |r: CharacterDestinyRow| if r.hero_id == hero_id { Some(r) } else { None }
}

fn find_destiny(rows: &[CharacterDestinyRow], hero_id: i32) -> (res: Option<usize>)
    ensures
        match res {
            Some(i) => i < rows@.len() && destiny_row(rows@, hero_id) == Some(rows@[i as int]),
            None => destiny_row(rows@, hero_id) is None,
        },
{
    let ghost f = destiny_fn(hero_id);
    let mut i: usize = 0;
    while i < rows.len()
        invariant
            i <= rows@.len(),
            f == destiny_fn(hero_id),
            find_map(rows@.take(i as int), f) is None,
        decreases rows.len() - i,
    {
        assert(rows@.take(i + 1).drop_last() =~= rows@.take(i as int));
        if rows[i].hero_id == hero_id {
            proof {
                lemma_find_map_prefix(rows@, f, i + 1);
            }
            return Some(i);
        }
        i = i + 1;
    }
    assert(rows@.take(rows@.len() as int) =~= rows@);
    None
}

/// The destiny stones of a hero, in the order its row lists them (none
/// without a row).
pub fn destiny_stones(rows: &[CharacterDestinyRow], hero_id: i32) -> (out: Vec<i32>)
    ensures
        out@ == match destiny_row(rows@, hero_id) {
            Some(r) => i32_list_spec(r.facets_id@, '#'),
            None => Seq::empty(),
        },
{
    match find_destiny(rows, hero_id) {
        Some(i) => {
            let chars = chars_of(rows[i].facets_id.as_str());
            i32_list(chars.as_slice(), '#')
        },
        None => Vec::new(),
    }
}

/// The slot `(stage, node)` of the table `slots_id` (the first such).
pub open spec fn slot_at(slots: Seq<DestinySlotRow>, slots_id: i32, stage: i32, node: i32) -> Option<DestinySlotRow> {
    find_map(slots, |s: DestinySlotRow| if s.slots_id == slots_id && s.stage == stage && s.node == node { Some(s) } else { None })
}

fn find_slot(slots: &[DestinySlotRow], slots_id: i32, stage: i32, node: i32) -> (res: Option<usize>)
    ensures
        match res {
            Some(i) => i < slots@.len() && slot_at(slots@, slots_id, stage, node) == Some(slots@[i as int]),
            None => slot_at(slots@, slots_id, stage, node) is None,
        },
{
    let ghost f = |s: DestinySlotRow| if s.slots_id == slots_id && s.stage == stage && s.node == node { Some(s) } else { None };
    let mut i: usize = 0;
    while i < slots.len()
        invariant
            i <= slots@.len(),
            f == (|s: DestinySlotRow| if s.slots_id == slots_id && s.stage == stage && s.node == node { Some(s) } else { None }),
            find_map(slots@.take(i as int), f) is None,
        decreases slots.len() - i,
    {
        assert(slots@.take(i + 1).drop_last() =~= slots@.take(i as int));
        if slots[i].slots_id == slots_id && slots[i].stage == stage && slots[i].node == node {
            proof {
                lemma_find_map_prefix(slots@, f, i + 1);
            }
            return Some(i);
        }
        i = i + 1;
    }
    assert(slots@.take(slots@.len() as int) =~= slots@);
    None
}

fn copy_slot(s: &DestinySlotRow) -> (res: DestinySlotRow)
    ensures
        res == *s,
{
    DestinySlotRow { slots_id: s.slots_id, stage: s.stage, node: s.node, consume: s.consume.clone() }
}

fn slot_copy_at(slots: &[DestinySlotRow], slots_id: i32, stage: i32, node: i32) -> (res: Option<DestinySlotRow>)
    ensures
        res == slot_at(slots@, slots_id, stage, node),
{
    match find_slot(slots, slots_id, stage, node) {
        Some(i) => Some(copy_slot(&slots[i])),
        None => None,
    }
}

/// The slot a hero's destiny moves to next: the first slot of the first stage
/// before any rank; else the next node of its stage, or the first node of the
/// next stage. Nothing for a hero without a destiny.
pub fn next_destiny_slot(rows: &[CharacterDestinyRow], slots: &[DestinySlotRow], hero_id: i32, rank: i32, level: i32) -> (res: Option<DestinySlotRow>)
    requires
        level < i32::MAX,
        rank < i32::MAX,
    ensures
        res == match destiny_row(rows@, hero_id) {
            None => None,
            Some(r) => if rank == 0 {
                slot_at(slots@, r.slots_id, 1, 1)
            } else {
                match slot_at(slots@, r.slots_id, rank, (level + 1) as i32) {
                    Some(s) => Some(s),
                    None => slot_at(slots@, r.slots_id, (rank + 1) as i32, 1),
                }
            },
        },
{
    let i = match find_destiny(rows, hero_id) {
        Some(i) => i,
        None => {
            return None;
        },
    };
    let slots_id = rows[i].slots_id;
    if rank == 0 {
        slot_copy_at(slots, slots_id, 1, 1)
    } else {
        match slot_copy_at(slots, slots_id, rank, level + 1) {
            Some(s) => Some(s),
            None => slot_copy_at(slots, slots_id, rank + 1, 1),
        }
    }
}

/// Every node of the stage `rank` after `from` up to `to` has a slot.
pub open spec fn level_slots_found(slots: Seq<DestinySlotRow>, slots_id: i32, rank: i32, from: int, to: int) -> bool {
    forall|n: int| from < n <= to ==> (#[trigger] slot_at(slots, slots_id, rank, n as i32)) is Some
}

/// The costs of the nodes of stage `rank` after `from` up to `to`, in node
/// order, leaving out the empty ones.
pub open spec fn level_costs(slots: Seq<DestinySlotRow>, slots_id: i32, rank: i32, from: int, to: int) -> Seq<Seq<char>>
    decreases to - from,
{
    if to <= from {
        Seq::empty()
    } else {
        let before = level_costs(slots, slots_id, rank, from, to - 1);
        match slot_at(slots, slots_id, rank, to as i32) {
            Some(s) => if s.consume@.len() > 0 {
                before.push(s.consume@)
            } else {
                before
            },
            None => before,
        }
    }
}

/// Texts joined with `|` between them.
pub open spec fn join_costs(parts: Seq<Seq<char>>) -> Seq<char>
    decreases parts.len(),
{
    if parts.len() == 0 {
        Seq::empty()
    } else if parts.len() == 1 {
        parts[0]
    } else {
        join_costs(parts.drop_last()) + seq!['|'] + parts.last()
    }
}

/// What raising a hero's destiny from node `current` to node `level` of its
/// stage `rank` costs: refused (`None`) before any rank, when the level does not
/// rise, without a destiny row, or when a node on the way has no slot; else the
/// nodes' non-empty costs joined with `|`, in node order.
pub open spec fn level_up_cost_spec(
    rows: Seq<CharacterDestinyRow>,
    slots: Seq<DestinySlotRow>,
    hero_id: i32,
    rank: i32,
    current: i32,
    level: i32,
) -> Option<Seq<char>> {
    if rank <= 0 || level <= current {
        None
    } else {
        match destiny_row(rows, hero_id) {
            None => None,
            Some(r) => if level_slots_found(slots, r.slots_id, rank, current as int, level as int) {
                Some(join_costs(level_costs(slots, r.slots_id, rank, current as int, level as int)))
            } else {
                None
            },
        }
    }
}

/// The cost of raising a hero's destiny level; see `level_up_cost_spec`.
pub fn destiny_level_up_cost(
    rows: &[CharacterDestinyRow],
    slots: &[DestinySlotRow],
    hero_id: i32,
    rank: i32,
    current_level: i32,
    level: i32,
) -> (res: Result<String, LogicError>)
    ensures
        match level_up_cost_spec(rows@, slots@, hero_id, rank, current_level, level) {
            Some(t) => res matches Ok(c) && c@ == t,
            None => res == Err::<String, LogicError>(LogicError::InvalidRequest),
        },
{
    if rank <= 0 || level <= current_level {
        return Err(LogicError::InvalidRequest);
    }
    let i = match find_destiny(rows, hero_id) {
        Some(i) => i,
        None => {
            return Err(LogicError::InvalidRequest);
        },
    };
    let slots_id = rows[i].slots_id;
    let mut out = String::new();
    let mut node: i64 = current_level as i64 + 1;
    let mut any = false;
    proof {
        reveal_strlit("|");
    }
    while node <= level as i64
        invariant
            current_level < level,
            rank > 0,
            i < rows@.len(),
            destiny_row(rows@, hero_id) == Some(rows@[i as int]),
            slots_id == rows@[i as int].slots_id,
            current_level + 1 <= node <= level + 1,
            "|"@ == seq!['|'],
            level_slots_found(slots@, slots_id, rank, current_level as int, node - 1),
            out@ == join_costs(level_costs(slots@, slots_id, rank, current_level as int, node - 1)),
            any == (level_costs(slots@, slots_id, rank, current_level as int, node - 1).len() > 0),
        decreases level - node + 1,
    {
        let ghost before = level_costs(slots@, slots_id, rank, current_level as int, node - 1);
        match find_slot(slots, slots_id, rank, node as i32) {
            None => {
                assert(!level_slots_found(slots@, slots_id, rank, current_level as int, level as int)) by {
                    let n: int = node as int;
                    assert(n as i32 == node as i32);
                    assert(slot_at(slots@, slots_id, rank, n as i32) is None);
                }
                assert(destiny_row(rows@, hero_id) == Some(rows@[i as int]));
                return Err(LogicError::InvalidRequest);
            },
            Some(k) => {
                let c = slots[k].consume.as_str();
                if !c.is_empty() {
                    if any {
                        out.append("|");
                    }
                    out.append(c);
                    any = true;
                    assert(before.push(c@).drop_last() =~= before);
                    assert(out@ =~= join_costs(before.push(c@)));
                }
            },
        }
        node = node + 1;
    }
    Ok(out)
}

} // verus!
