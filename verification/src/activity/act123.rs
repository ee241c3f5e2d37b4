use crate::activity::act217::min_or_zero;
use crate::sorting::{sort_i32s, stably_sorted};
use crate::text::filter_map;
use vstd::prelude::*;

verus! {

/// The answer to a request for the dice event's counters.
#[derive(Clone, Copy, Debug)]
pub struct Get153InfosReply {
    pub activity_id: Option<i32>,
    pub total_count: Option<i32>,
    pub daily_count: Option<i32>,
}

/// The largest of `ids`, or `0` when there is none.
pub open spec fn max_or_zero(ids: Seq<i32>) -> i32
    decreases ids.len(),
{
    if ids.len() == 0 {
        0
    } else if ids.len() == 1 {
        ids[0]
    } else {
        let m = max_or_zero(ids.drop_last());
        if ids.last() > m {
            ids.last()
        } else {
            m
        }
    }
}

/// The largest of `ids`, `0` when there is none (`max().unwrap_or_default()`).
pub fn largest_or_zero(ids: &[i32]) -> (res: i32)
    ensures
        res == max_or_zero(ids@),
{
    if ids.len() == 0 {
        return 0;
    }
    let mut best = ids[0];
    let mut i: usize = 1;
    assert(ids@.take(1) =~= seq![ids@[0]]);
    while i < ids.len()
        invariant
            1 <= i <= ids@.len(),
            best == max_or_zero(ids@.take(i as int)),
        decreases ids.len() - i,
    {
        assert(ids@.take(i + 1).drop_last() =~= ids@.take(i as int));
        if ids[i] > best {
            best = ids[i];
        }
        i = i + 1;
    }
    assert(ids@.take(ids@.len() as int) =~= ids@);
    best
}

/// The latest dice event in the table (the largest id listed, or `0`).
pub fn latest_act153_activity_id(ids: &[i32]) -> (res: i32)
    ensures
        res == max_or_zero(ids@),
{
    largest_or_zero(ids)
}

/// The latest season event in the stage table (the largest id listed, or `0`).
pub fn latest_act123_activity_id(stages: &[Activity123StageRow]) -> (res: i32)
    ensures
        res == max_or_zero(stages@.map_values(|s: Activity123StageRow| s.activity_id)),
{
    let mut ids: Vec<i32> = Vec::new();
    let mut i: usize = 0;
    while i < stages.len()
        invariant
            i <= stages@.len(),
            ids@ == stages@.take(i as int).map_values(|s: Activity123StageRow| s.activity_id),
        decreases stages.len() - i,
    {
        ids.push(stages[i].activity_id);
        i = i + 1;
        assert(ids@ =~= stages@.take(i as int).map_values(|s: Activity123StageRow| s.activity_id));
    }
    assert(stages@.take(stages@.len() as int) =~= stages@);
    largest_or_zero(ids.as_slice())
}

/// The dice event's counters: the asked event (else the latest of `ids`), with
/// nothing counted yet.
pub fn act153_infos(activity_id: Option<i32>, ids: &[i32]) -> (reply: Get153InfosReply)
    ensures
        reply.activity_id == Some(
            match activity_id {
                Some(a) => a,
                None => max_or_zero(ids@),
            },
        ),
        reply.total_count == Some(0i32),
        reply.daily_count == Some(0i32),
{
    let id = match activity_id {
        Some(a) => a,
        None => latest_act153_activity_id(ids),
    };
    Get153InfosReply { activity_id: Some(id), total_count: Some(0), daily_count: Some(0) }
}

/// One stage of the season event table.
#[derive(Clone, Copy, Debug)]
pub struct Activity123StageRow {
    pub activity_id: i32,
    pub stage: i32,
}

/// One episode of the season event table: its stage and layer.
#[derive(Clone, Copy, Debug)]
pub struct Activity123EpisodeRow {
    pub activity_id: i32,
    pub stage: i32,
    pub layer: i32,
}

/// One retail episode of the season event table.
#[derive(Clone, Copy, Debug)]
pub struct Activity123RetailRow {
    pub activity_id: i32,
    pub id: i32,
}

/// The layers of the episodes of `stage` of event `activity_id`, in table order.
pub open spec fn episode_layers(episodes: Seq<Activity123EpisodeRow>, activity_id: i32, stage: i32) -> Seq<i32> {
    filter_map(episodes, layer_fn(activity_id, stage))
}

/// An episode row read as its layer, when it belongs to `stage` of event `activity_id`.
pub open spec fn layer_fn(activity_id: i32, stage: i32) -> spec_fn(Activity123EpisodeRow) -> Option<i32> {
    |e: Activity123EpisodeRow| if e.activity_id == activity_id && e.stage == stage { Some(e.layer) } else { None }
}

/// The layers of a stage's episodes in increasing order (see `episode_layers`).
pub fn act123_episodes(episodes: &[Activity123EpisodeRow], activity_id: i32, stage: i32) -> (out: Vec<i32>)
    ensures
        stably_sorted(
            out@.map_values(|d: i32| (d, ())),
            episode_layers(episodes@, activity_id, stage).map_values(|d: i32| (d, ())),
        ),
{
    let ghost f = layer_fn(activity_id, stage);
    let mut layers: Vec<i32> = Vec::new();
    let mut i: usize = 0;
    while i < episodes.len()
        invariant
            i <= episodes@.len(),
            f == layer_fn(activity_id, stage),
            layers@ == filter_map(episodes@.take(i as int), f),
        decreases episodes.len() - i,
    {
        assert(episodes@.take(i + 1).drop_last() =~= episodes@.take(i as int));
        let e = episodes[i];
        if e.activity_id == activity_id && e.stage == stage {
            layers.push(e.layer);
        }
        i = i + 1;
    }
    assert(episodes@.take(episodes@.len() as int) =~= episodes@);
    sort_i32s(layers)
}

/// The stages of event `activity_id`, in table order.
pub open spec fn stages_of(stages: Seq<Activity123StageRow>, activity_id: i32) -> Seq<i32> {
    filter_map(stages, |s: Activity123StageRow| if s.activity_id == activity_id { Some(s.stage) } else { None })
}

/// The retail episode with the lowest id among those of event `activity_id`
/// (the first such in table order), if any.
pub open spec fn first_retail(retails: Seq<Activity123RetailRow>, activity_id: i32) -> Option<i32>
    decreases retails.len(),
{
    if retails.len() == 0 {
        None
    } else {
        let front = first_retail(retails.drop_last(), activity_id);
        let r = retails.last();
        if r.activity_id == activity_id {
            match front {
                Some(f) => if r.id < f { Some(r.id) } else { front },
                None => Some(r.id),
            }
        } else {
            front
        }
    }
}

/// The season event's opening view.
#[derive(Clone, Debug, PartialEq, Eq)]
pub struct Act123Infos {
    pub activity_id: i32,
    /// The lowest stage of the event, `0` when it has none.
    pub stage: i32,
    /// Each stage with the layers of its episodes.
    pub stages: Vec<(i32, Vec<i32>)>,
    /// The first retail episode.
    pub retail: Option<i32>,
}

/// The season event's opening view: the event asked for, else the largest in
/// the stage table; its lowest stage; its stages ordered by stage (equal
/// stages in table order), each with its episodes' layers in increasing order
/// (see `act123_episodes`); and its retail episode of lowest id.
pub fn act123_infos(
    activity_id: Option<i32>,
    stages: &[Activity123StageRow],
    episodes: &[Activity123EpisodeRow],
    retails: &[Activity123RetailRow],
) -> (res: Act123Infos)
    ensures
        res.activity_id == match activity_id {
            Some(a) => a,
            None => max_or_zero(stages@.map_values(|s: Activity123StageRow| s.activity_id)),
        },
        res.stage == min_or_zero(stages_of(stages@, res.activity_id)),
        res.stages@.len() == stages_of(stages@, res.activity_id).len(),
        forall|k: int| 0 <= k < res.stages@.len() ==> stably_sorted(
            (#[trigger] res.stages@[k]).1@.map_values(|d: i32| (d, ())),
            episode_layers(episodes@, res.activity_id, res.stages@[k].0).map_values(|d: i32| (d, ())),
        ),
        stably_sorted(
            res.stages@.map_values(|p: (i32, Vec<i32>)| (p.0, ())),
            stages_of(stages@, res.activity_id).map_values(|d: i32| (d, ())),
        ),
        res.retail == first_retail(retails@, res.activity_id),
{
    let id = match activity_id {
        Some(a) => a,
        None => latest_act123_activity_id(stages),
    };
    let ghost f = |s: Activity123StageRow| if s.activity_id == id { Some(s.stage) } else { None };
    let mut own: Vec<i32> = Vec::new();
    let mut i: usize = 0;
    while i < stages.len()
        invariant
            i <= stages@.len(),
            f == (|s: Activity123StageRow| if s.activity_id == id { Some(s.stage) } else { None }),
            own@ == filter_map(stages@.take(i as int), f),
        decreases stages.len() - i,
    {
        assert(stages@.take(i + 1).drop_last() =~= stages@.take(i as int));
        if stages[i].activity_id == id {
            own.push(stages[i].stage);
        }
        i = i + 1;
    }
    assert(stages@.take(stages@.len() as int) =~= stages@);
    assert(own@ == stages_of(stages@, id));
    let mut lowest: i32 = 0;
    if own.len() > 0 {
        lowest = own[0];
        let mut k: usize = 1;
        assert(own@.take(1) =~= seq![own@[0]]);
        while k < own.len()
            invariant
                1 <= k <= own@.len(),
                lowest == min_or_zero(own@.take(k as int)),
            decreases own.len() - k,
        {
            assert(own@.take(k + 1).drop_last() =~= own@.take(k as int));
            if own[k] < lowest {
                lowest = own[k];
            }
            k = k + 1;
        }
        assert(own@.take(own@.len() as int) =~= own@);
    }
    let order = sort_i32s(own);
    let mut sorted: Vec<(i32, Vec<i32>)> = Vec::new();
    let mut j: usize = 0;
    while j < order.len()
        invariant
            j <= order@.len(),
            sorted@.len() == j,
            forall|k: int| 0 <= k < j ==> (#[trigger] sorted@[k]).0 == order@[k] && stably_sorted(
                sorted@[k].1@.map_values(|d: i32| (d, ())),
                episode_layers(episodes@, id, order@[k]).map_values(|d: i32| (d, ())),
            ),
        decreases order.len() - j,
    {
        let layers = act123_episodes(episodes, id, order[j]);
        sorted.push((order[j], layers));
        j = j + 1;
    }
    assert(sorted@.map_values(|p: (i32, Vec<i32>)| (p.0, ())) =~= order@.map_values(|d: i32| (d, ())));
    let mut retail: Option<i32> = None;
    let mut r: usize = 0;
    while r < retails.len()
        invariant
            r <= retails@.len(),
            retail == first_retail(retails@.take(r as int), id),
        decreases retails.len() - r,
    {
        assert(retails@.take(r + 1).drop_last() =~= retails@.take(r as int));
        let row = retails[r];
        if row.activity_id == id {
            retail = match retail {
                Some(f) => if row.id < f { Some(row.id) } else { Some(f) },
                None => Some(row.id),
            };
        }
        r = r + 1;
    }
    assert(retails@.take(retails@.len() as int) =~= retails@);
    Act123Infos { activity_id: id, stage: lowest, stages: sorted, retail }
}

} // verus!
