use crate::activity::act197::{insert_sorted_unique, strictly_increasing};
use crate::text::filter_map;
use vstd::prelude::*;

verus! {

/// How a reward reached the player, which decides the order of its pushes.
#[derive(Clone, Copy, Debug, PartialEq, Eq)]
pub enum RewardFlow {
    Claim,
    DungeonCompletion,
    ItemFirst,
}

/// One push sent after a reward.
#[derive(Clone, Copy, Debug, PartialEq, Eq)]
pub enum RewardPush {
    Room,
    Currency,
    Equip,
    Item,
    TradeOrderRedDot,
    Hero,
    Antique,
    SkinGain,
    Cloth,
    BpScore,
    PlayerInfo,
    Material,
}

/// The pushes that follow a reward, in order: rooms first; then currencies and
/// equipment (equipment first after a dungeon), with items ahead of them when
/// items come first, else after them; the trade-order red dot right after the
/// items when items changed; then heroes, antiques, skins, clothes and battle
/// pass scores; the player's info when it changed; the material changes last.
pub open spec fn push_plan(flow: RewardFlow, item_changed: bool, player_info_changed: bool) -> Seq<RewardPush> {
    let items = if item_changed {
        seq![RewardPush::Item, RewardPush::TradeOrderRedDot]
    } else {
        seq![RewardPush::Item]
    };
    let middle = match flow {
        RewardFlow::Claim => seq![RewardPush::Currency, RewardPush::Equip] + items,
        RewardFlow::DungeonCompletion => seq![RewardPush::Equip, RewardPush::Currency] + items,
        RewardFlow::ItemFirst => items + seq![RewardPush::Currency, RewardPush::Equip],
    };
    let tail = seq![RewardPush::Hero, RewardPush::Antique, RewardPush::SkinGain, RewardPush::Cloth, RewardPush::BpScore];
    let info = if player_info_changed {
        seq![RewardPush::PlayerInfo]
    } else {
        Seq::empty()
    };
    seq![RewardPush::Room] + middle + tail + info + seq![RewardPush::Material]
}

/// The pushes to send after a reward; see `push_plan`.
pub fn reward_push_plan(flow: RewardFlow, item_changed: bool, player_info_changed: bool) -> (out: Vec<RewardPush>)
    ensures
        out@ == push_plan(flow, item_changed, player_info_changed),
{
    let mut out: Vec<RewardPush> = Vec::new();
    out.push(RewardPush::Room);
    match flow {
        RewardFlow::Claim => {
            out.push(RewardPush::Currency);
            out.push(RewardPush::Equip);
        },
        RewardFlow::DungeonCompletion => {
            out.push(RewardPush::Equip);
            out.push(RewardPush::Currency);
        },
        RewardFlow::ItemFirst => {
            out.push(RewardPush::Item);
            if item_changed {
                out.push(RewardPush::TradeOrderRedDot);
            }
            out.push(RewardPush::Currency);
            out.push(RewardPush::Equip);
        },
    }
    match flow {
        RewardFlow::ItemFirst => {},
        _ => {
            out.push(RewardPush::Item);
            if item_changed {
                out.push(RewardPush::TradeOrderRedDot);
            }
        },
    }
    out.push(RewardPush::Hero);
    out.push(RewardPush::Antique);
    out.push(RewardPush::SkinGain);
    out.push(RewardPush::Cloth);
    out.push(RewardPush::BpScore);
    if player_info_changed {
        out.push(RewardPush::PlayerInfo);
    }
    out.push(RewardPush::Material);
    assert(out@ =~= push_plan(flow, item_changed, player_info_changed));
    out
}

/// The net change of each currency, in the order the currencies first appear.
pub open spec fn totals_spec(changes: Seq<(i32, i32)>) -> Seq<(i32, int)>
    decreases changes.len(),
{
    if changes.len() == 0 {
        Seq::empty()
    } else {
        add_change(totals_spec(changes.drop_last()), changes.last())
    }
}

/// `totals` after one more change: added to its currency's entry, or a new
/// entry at the end.
pub open spec fn add_change(totals: Seq<(i32, int)>, change: (i32, i32)) -> Seq<(i32, int)> {
    if exists|i: int| 0 <= i < totals.len() && (#[trigger] totals[i]).0 == change.0 {
        let i = choose|i: int| 0 <= i < totals.len() && (#[trigger] totals[i]).0 == change.0;
        totals.update(i, (change.0, totals[i].1 + change.1))
    } else {
        totals.push((change.0, change.1 as int))
    }
}

/// Each currency appears once among the totals.
pub open spec fn distinct_currencies(totals: Seq<(i32, int)>) -> bool {
    forall|i: int, j: int| 0 <= i < j < totals.len() ==> totals[i].0 != totals[j].0
}

/// Every running total of every currency stays within `i32`, as the totals are
/// kept in `i32`.
pub open spec fn totals_fit(changes: Seq<(i32, i32)>) -> bool {
    forall|k: int, i: int| 0 <= k <= changes.len() && 0 <= i < totals_spec(changes.take(k)).len() ==> i32::MIN
        <= (#[trigger] totals_spec(changes.take(k))[i]).1 <= i32::MAX
}

proof fn lemma_totals_distinct(changes: Seq<(i32, i32)>)
    ensures
        distinct_currencies(totals_spec(changes)),
    decreases changes.len(),
{
    if changes.len() > 0 {
        lemma_totals_distinct(changes.drop_last());
    }
}

/// The net change of each currency, in the order the currencies first appear.
pub fn currency_totals(changes: &[(i32, i32)]) -> (out: Vec<(i32, i32)>)
    requires
        totals_fit(changes@),
    ensures
        out@.len() == totals_spec(changes@).len(),
        forall|i: int| 0 <= i < out@.len() ==> (#[trigger] out@[i]).0 == totals_spec(changes@)[i].0 && out@[i].1
            == totals_spec(changes@)[i].1,
        forall|i: int, j: int| 0 <= i < j < out@.len() ==> out@[i].0 != out@[j].0,
{
    let mut out: Vec<(i32, i32)> = Vec::new();
    let mut k: usize = 0;
    while k < changes.len()
        invariant
            k <= changes@.len(),
            totals_fit(changes@),
            out@.len() == totals_spec(changes@.take(k as int)).len(),
            forall|i: int| 0 <= i < out@.len() ==> (#[trigger] out@[i]).0 == totals_spec(changes@.take(k as int))[i].0
                && out@[i].1 == totals_spec(changes@.take(k as int))[i].1,
        decreases changes.len() - k,
    {
        let ghost prev = totals_spec(changes@.take(k as int));
        let ghost next = totals_spec(changes@.take(k + 1));
        assert(changes@.take(k + 1).drop_last() =~= changes@.take(k as int));
        assert(changes@.take(k + 1).last() == changes@[k as int]);
        proof {
            lemma_totals_distinct(changes@.take(k as int));
        }
        let (id, amount) = changes[k];
        let mut p: usize = 0;
        while p < out.len() && out[p].0 != id
            invariant
                p <= out@.len(),
                forall|j: int| 0 <= j < p ==> out@[j].0 != id,
            decreases out.len() - p,
        {
            p = p + 1;
        }
        if p < out.len() {
            proof {
                assert(prev[p as int].0 == id);
                let c = choose|i: int| 0 <= i < prev.len() && (#[trigger] prev[i]).0 == id;
                assert(c == p);
                assert(next == prev.update(p as int, (id, prev[p as int].1 + amount)));
                assert(i32::MIN <= next[p as int].1 <= i32::MAX);
            }
            let total = out[p].1 + amount;
            out.set(p, (id, total));
        } else {
            proof {
                assert forall|i: int| 0 <= i < prev.len() implies (#[trigger] prev[i]).0 != id by {
                    assert(out@[i].0 == prev[i].0);
                }
                assert(next == prev.push((id, amount as int)));
            }
            out.push((id, amount));
        }
        k = k + 1;
    }
    assert(changes@.take(changes@.len() as int) =~= changes@);
    proof {
        lemma_totals_distinct(changes@);
        assert forall|i: int, j: int| 0 <= i < j < out@.len() implies out@[i].0 != out@[j].0 by {
            assert(out@[i].0 == totals_spec(changes@)[i].0);
            assert(out@[j].0 == totals_spec(changes@)[j].0);
        }
    }
    out
}

/// The currencies that went down, with how much, in order
/// (each total below zero, negated).
pub fn currency_decrements(totals: &[(i32, i32)]) -> (out: Vec<(i32, i32)>)
    requires
        forall|i: int| 0 <= i < totals@.len() ==> (#[trigger] totals@[i]).1 > i32::MIN,
    ensures
        out@ == filter_map(totals@, |t: (i32, i32)| if t.1 < 0 { Some((t.0, -t.1 as i32)) } else { None }),
{
    let ghost f = |t: (i32, i32)| if t.1 < 0 { Some((t.0, -t.1 as i32)) } else { None };
    let mut out: Vec<(i32, i32)> = Vec::new();
    let mut i: usize = 0;
    while i < totals.len()
        invariant
            i <= totals@.len(),
            forall|j: int| 0 <= j < totals@.len() ==> (#[trigger] totals@[j]).1 > i32::MIN,
            f == (|t: (i32, i32)| if t.1 < 0 { Some((t.0, -t.1 as i32)) } else { None }),
            out@ == filter_map(totals@.take(i as int), f),
        decreases totals.len() - i,
    {
        assert(totals@.take(i + 1).drop_last() =~= totals@.take(i as int));
        let (id, amount) = totals[i];
        if amount < 0 {
            out.push((id, -amount));
        }
        i = i + 1;
    }
    assert(totals@.take(totals@.len() as int) =~= totals@);
    out
}

/// One red dot of a group.
#[derive(Clone, Copy, Debug, PartialEq, Eq)]
pub struct RedDotInfo {
    pub id: i64,
    pub value: i32,
    pub time: Option<i32>,
}

/// The red dots of one kind, and whether they replace those the client has.
#[derive(Clone, Debug, PartialEq, Eq)]
pub struct RedDotGroup {
    pub define_id: i32,
    pub infos: Vec<RedDotInfo>,
    pub replace_all: Option<bool>,
}

/// The red dots of kind `define_id` for the ids given, each with the same
/// value and time; nothing to send without ids.
pub fn red_dot_value_group(define_id: i32, info_ids: &[i32], replace_all: bool, value: i32, time: i32) -> (res: Option<
    RedDotGroup,
>)
    ensures
        info_ids@.len() == 0 ==> res is None,
        info_ids@.len() > 0 ==> (res matches Some(g) && g.define_id == define_id && g.replace_all == Some(replace_all)
            && g.infos@ == info_ids@.map_values(|id: i32| RedDotInfo { id: id as i64, value, time: Some(time) })),
{
    if info_ids.len() == 0 {
        return None;
    }
    let mut infos: Vec<RedDotInfo> = Vec::new();
    let mut i: usize = 0;
    while i < info_ids.len()
        invariant
            i <= info_ids@.len(),
            infos@ == info_ids@.take(i as int).map_values(|id: i32| RedDotInfo { id: id as i64, value, time: Some(time) }),
        decreases info_ids.len() - i,
    {
        infos.push(RedDotInfo { id: info_ids[i] as i64, value, time: Some(time) });
        i = i + 1;
        assert(infos@ =~= info_ids@.take(i as int).map_values(
            |id: i32| RedDotInfo { id: id as i64, value, time: Some(time) },
        ));
    }
    assert(info_ids@.take(info_ids@.len() as int) =~= info_ids@);
    Some(RedDotGroup { define_id, infos, replace_all: Some(replace_all) })
}

/// Clears the red dots of kind `define_id`: an empty group that replaces all.
pub fn clear_red_dot_infos(define_id: i32) -> (res: RedDotGroup)
    ensures
        res.define_id == define_id,
        res.infos@.len() == 0,
        res.replace_all == Some(true),
{
    RedDotGroup { define_id, infos: Vec::new(), replace_all: Some(true) }
}

/// Clears the red dots of each kind given: per kind a group that replaces all
/// with the one dot `0` at value and time `0`.
pub fn clear_red_dots(define_ids: &[i32]) -> (res: Vec<RedDotGroup>)
    ensures
        res@.len() == define_ids@.len(),
        forall|k: int| 0 <= k < res@.len() ==> (#[trigger] res@[k]).define_id == define_ids@[k] && res@[k].replace_all
            == Some(true) && res@[k].infos@ == seq![RedDotInfo { id: 0, value: 0, time: Some(0) }],
{
    let mut out: Vec<RedDotGroup> = Vec::new();
    let mut i: usize = 0;
    while i < define_ids.len()
        invariant
            i <= define_ids@.len(),
            out@.len() == i,
            forall|k: int| 0 <= k < i ==> (#[trigger] out@[k]).define_id == define_ids@[k] && out@[k].replace_all == Some(
                true,
            ) && out@[k].infos@ == seq![RedDotInfo { id: 0, value: 0, time: Some(0) }],
        decreases define_ids.len() - i,
    {
        let infos = vec![RedDotInfo { id: 0, value: 0, time: Some(0) }];
        out.push(RedDotGroup { define_id: define_ids[i], infos, replace_all: Some(true) });
        i = i + 1;
    }
    out
}

/// A task state asks for its type's red dot: the task is finished or has been
/// completed before, and its type is one with a red dot of its own (the daily
/// and weekly task types).
pub open spec fn asks_red_dot(task: (i32, bool, i32), daily_type_id: i32, weekly_type_id: i32) -> bool {
    (task.1 || task.2 > 0) && (task.0 == daily_type_id || task.0 == weekly_type_id)
}

/// The task types whose red dots to refresh after `tasks` changed (each a
/// type id, whether the task is finished, and how often it was completed):
/// each type that some task asks for (see `asks_red_dot`), once, in
/// increasing order.
pub fn recurring_red_dot_types(tasks: &[(i32, bool, i32)], daily_type_id: i32, weekly_type_id: i32) -> (out: Vec<i32>)
    ensures
        strictly_increasing(out@),
        forall|t: i32|
            out@.contains(t) <==> exists|k: int|
                0 <= k < tasks@.len() && (#[trigger] tasks@[k]).0 == t && asks_red_dot(tasks@[k], daily_type_id, weekly_type_id),
{
    let mut out: Vec<i32> = Vec::new();
    let mut i: usize = 0;
    while i < tasks.len()
        invariant
            i <= tasks@.len(),
            strictly_increasing(out@),
            forall|t: i32|
                out@.contains(t) <==> exists|k: int|
                    0 <= k < i && (#[trigger] tasks@[k]).0 == t && asks_red_dot(tasks@[k], daily_type_id, weekly_type_id),
        decreases tasks.len() - i,
    {
        let (type_id, has_finished, finish_count) = tasks[i];
        if (has_finished || finish_count > 0) && (type_id == daily_type_id || type_id == weekly_type_id) {
            insert_sorted_unique(&mut out, type_id);
        }
        assert forall|t: i32|
            out@.contains(t) <==> exists|k: int|
                0 <= k < i + 1 && (#[trigger] tasks@[k]).0 == t && asks_red_dot(tasks@[k], daily_type_id, weekly_type_id) by {
            if t == type_id && asks_red_dot(tasks@[i as int], daily_type_id, weekly_type_id) {
                assert(tasks@[i as int].0 == t);
            }
        }
        i = i + 1;
    }
    out
}

} // verus!
