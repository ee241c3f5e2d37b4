use crate::error::LogicError;
use crate::text::copy_i32s;
use crate::types::hero_group_snapshot_type::{all_descending_ids, snapshot_type_id, snapshot_type_of, HeroGroupSnapshotType};
use vstd::prelude::*;

verus! {

/// Where `id` last occurs in `ids`.
pub open spec fn last_index_of(ids: Seq<i32>, id: i32) -> Option<int>
    decreases ids.len(),
{
    if ids.len() == 0 {
        None
    } else if ids.last() == id {
        Some(ids.len() - 1)
    } else {
        last_index_of(ids.drop_last(), id)
    }
}

fn find_last(ids: &[i32], id: i32) -> (res: Option<usize>)
    ensures
        match res {
            Some(i) => last_index_of(ids@, id) == Some(i as int),
            None => last_index_of(ids@, id) is None,
        },
{
    let mut n: usize = ids.len();
    assert(ids@.take(n as int) =~= ids@);
    while n > 0
        invariant
            n <= ids@.len(),
            last_index_of(ids@, id) == last_index_of(ids@.take(n as int), id),
        decreases n,
    {
        let ghost t = ids@.take(n as int);
        assert(t.drop_last() =~= ids@.take(n - 1));
        if ids[n - 1] == id {
            return Some(n - 1);
        }
        n = n - 1;
    }
    None
}

/// The snapshot catalog as the client lists it: every snapshot type, highest
/// id first, each with the saved snapshot of that type (the last one saved,
/// by position in `saved_ids`) or none, to be shown empty.
pub fn snapshot_catalog_slots(saved_ids: &[i32]) -> (out: Vec<(i32, Option<usize>)>)
    ensures
        out@.len() == all_descending_ids().len(),
        forall|k: int| 0 <= k < out@.len() ==> (#[trigger] out@[k]).0 == all_descending_ids()[k] && match out@[k].1 {
            Some(i) => last_index_of(saved_ids@, out@[k].0) == Some(i as int),
            None => last_index_of(saved_ids@, out@[k].0) is None,
        },
{
    let types = HeroGroupSnapshotType::all_descending();
    let mut out: Vec<(i32, Option<usize>)> = Vec::new();
    let mut k: usize = 0;
    while k < types.len()
        invariant
            k <= types@.len(),
            types@.len() == 17,
            forall|i: int| 0 <= i < 17 ==> snapshot_type_id(#[trigger] types@[i]) == all_descending_ids()[i],
            out@.len() == k,
            forall|j: int| 0 <= j < k ==> (#[trigger] out@[j]).0 == all_descending_ids()[j] && match out@[j].1 {
                Some(i) => last_index_of(saved_ids@, out@[j].0) == Some(i as int),
                None => last_index_of(saved_ids@, out@[j].0) is None,
            },
        decreases types.len() - k,
    {
        let id = types[k].id();
        assert(snapshot_type_id(types@[k as int]) == all_descending_ids()[k as int]);
        out.push((id, find_last(saved_ids, id)));
        k = k + 1;
    }
    out
}

/// What a request for snapshots asks for.
#[derive(Clone, Copy, Debug, PartialEq, Eq)]
pub enum SnapshotQuery {
    /// The whole catalog.
    All,
    /// The snapshot of one type, by id.
    One(i32),
}

/// Reads a request for snapshots: no id or `0` asks for the whole catalog, a
/// positive id for the snapshot of that type (refused when no type has it), a
/// negative id is refused.
pub fn snapshot_query(snapshot_id: Option<i32>) -> (res: Result<SnapshotQuery, LogicError>)
    ensures
        res == ({
            let id = match snapshot_id {
                Some(i) => i,
                None => 0,
            };
            if id > 0 {
                if snapshot_type_of(id) is Some {
                    Ok::<SnapshotQuery, LogicError>(SnapshotQuery::One(id))
                } else {
                    Err(LogicError::InvalidRequest)
                }
            } else if id == 0 {
                Ok(SnapshotQuery::All)
            } else {
                Err(LogicError::InvalidRequest)
            }
        }),
{
    let id = match snapshot_id {
        Some(i) => i,
        None => 0,
    };
    if id > 0 {
        match HeroGroupSnapshotType::from_id(id) {
            Some(_) => Ok(SnapshotQuery::One(id)),
            None => Err(LogicError::InvalidRequest),
        }
    } else if id == 0 {
        Ok(SnapshotQuery::All)
    } else {
        Err(LogicError::InvalidRequest)
    }
}

/// A snapshot can be saved under a known type and a positive sub id.
pub fn snapshot_target_valid(snapshot_id: i32, snapshot_sub_id: i32) -> (res: bool)
    ensures
        res == (snapshot_type_of(snapshot_id) is Some && snapshot_sub_id > 0),
{
    HeroGroupSnapshotType::from_id(snapshot_id).is_some() && snapshot_sub_id > 0
}

/// The order of the common snapshot's groups: the stored order when one was
/// saved and is not empty, else the groups' own order.
pub fn common_sort_sub_ids(stored: Option<&[i32]>, group_ids: &[i32]) -> (out: Vec<i32>)
    ensures
        out@ == match stored {
            Some(ids) => if ids@.len() > 0 { ids@ } else { group_ids@ },
            None => group_ids@,
        },
{
    match stored {
        Some(ids) => if ids.len() > 0 {
            copy_i32s(ids)
        } else {
            copy_i32s(group_ids)
        },
        None => copy_i32s(group_ids),
    }
}

/// A fight group as the client sends it to be saved in a snapshot.
#[derive(Clone, Debug)]
pub struct FightGroup {
    pub hero_list: Vec<i64>,
    pub sub_hero_list: Vec<i64>,
    pub cloth_id: Option<i32>,
    pub equips: Vec<Vec<i64>>,
    pub activity104_equips: Vec<Vec<i64>>,
    pub assist_boss_id: Option<i32>,
    pub params: Option<String>,
}

/// The equipment of one slot of a hero group.
#[derive(Clone, Debug)]
pub struct HeroGroupEquip {
    pub index: i32,
    pub equip_uids: Vec<i64>,
}

/// A hero group as a snapshot stores it.
#[derive(Clone, Debug)]
pub struct HeroGroupInfo {
    pub group_id: i32,
    pub hero_list: Vec<i64>,
    pub name: String,
    pub cloth_id: i32,
    pub equips: Vec<HeroGroupEquip>,
    pub activity104_equips: Vec<HeroGroupEquip>,
    pub assist_boss_id: i32,
    pub params: String,
}

/// The slots `equips` numbered in order from `0`.
pub open spec fn numbered(out: Seq<HeroGroupEquip>, equips: Seq<Vec<i64>>) -> bool {
    &&& out.len() == equips.len()
    &&& forall|k: int| 0 <= k < out.len() ==> (#[trigger] out[k]).index == k && out[k].equip_uids@ == equips[k]@
}

fn number_slots(equips: &Vec<Vec<i64>>) -> (out: Vec<HeroGroupEquip>)
    requires
        equips@.len() <= i32::MAX,
    ensures
        numbered(out@, equips@),
{
    let mut out: Vec<HeroGroupEquip> = Vec::new();
    let mut i: usize = 0;
    while i < equips.len()
        invariant
            i <= equips@.len() <= i32::MAX,
            numbered(out@, equips@.take(i as int)),
        decreases equips.len() - i,
    {
        let uids = copy_uids(&equips[i]);
        out.push(HeroGroupEquip { index: i as i32, equip_uids: uids });
        i = i + 1;
    }
    assert(equips@.take(equips@.len() as int) =~= equips@);
    out
}

fn copy_uids(uids: &Vec<i64>) -> (out: Vec<i64>)
    ensures
        out@ == uids@,
{
    let mut out: Vec<i64> = Vec::new();
    let mut i: usize = 0;
    while i < uids.len()
        invariant
            i <= uids@.len(),
            out@ == uids@.take(i as int),
        decreases uids.len() - i,
    {
        out.push(uids[i]);
        i = i + 1;
    }
    assert(uids@.take(uids@.len() as int) =~= uids@);
    out
}

/// The hero group saved for `fight_group` under sub id `snapshot_sub_id`: its
/// main heroes then its substitutes, no name, cloth `1` when none is chosen, the
/// equipment slots numbered from `0`, and no assist boss (`0`) or parameters
/// (empty) unless given.
pub fn snapshot_group(snapshot_sub_id: i32, fight_group: FightGroup) -> (res: HeroGroupInfo)
    requires
        fight_group.equips@.len() <= i32::MAX,
        fight_group.activity104_equips@.len() <= i32::MAX,
    ensures
        res.group_id == snapshot_sub_id,
        res.hero_list@ == fight_group.hero_list@ + fight_group.sub_hero_list@,
        res.name@ == Seq::<char>::empty(),
        res.cloth_id == match fight_group.cloth_id {
            Some(c) => c,
            None => 1i32,
        },
        numbered(res.equips@, fight_group.equips@),
        numbered(res.activity104_equips@, fight_group.activity104_equips@),
        res.assist_boss_id == match fight_group.assist_boss_id {
            Some(b) => b,
            None => 0i32,
        },
        res.params@ == match fight_group.params {
            Some(p) => p@,
            None => Seq::<char>::empty(),
        },
{
    let mut hero_list = copy_uids(&fight_group.hero_list);
    let mut i: usize = 0;
    while i < fight_group.sub_hero_list.len()
        invariant
            i <= fight_group.sub_hero_list@.len(),
            hero_list@ == fight_group.hero_list@ + fight_group.sub_hero_list@.take(i as int),
        decreases fight_group.sub_hero_list.len() - i,
    {
        hero_list.push(fight_group.sub_hero_list[i]);
        i = i + 1;
    }
    assert(fight_group.sub_hero_list@.take(fight_group.sub_hero_list@.len() as int) =~= fight_group.sub_hero_list@);
    let equips = number_slots(&fight_group.equips);
    let activity104_equips = number_slots(&fight_group.activity104_equips);
    let cloth_id = match fight_group.cloth_id {
        Some(c) => c,
        None => 1,
    };
    let assist_boss_id = match fight_group.assist_boss_id {
        Some(b) => b,
        None => 0,
    };
    let params = match fight_group.params {
        Some(p) => p,
        None => String::new(),
    };
    HeroGroupInfo {
        group_id: snapshot_sub_id,
        hero_list,
        name: String::new(),
        cloth_id,
        equips,
        activity104_equips,
        assist_boss_id,
        params,
    }
}

} // verus!
