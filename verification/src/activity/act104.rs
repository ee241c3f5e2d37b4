use crate::activity::{lookup_state, state_of};
use crate::error::LogicError;
use crate::sorting::{key_is, lemma_sorted_keeps, sort_by_key_stable, stably_sorted, with_key};
use crate::text::{chars_of, find_map, lemma_find_map_prefix, parse_i32, parse_i32_spec, split, split_spec};
use vstd::prelude::*;

verus! {

/// The first non-empty piece of a `#`-separated pool, if any.
pub open spec fn first_nonempty_fn() -> spec_fn(Seq<char>) -> Option<Seq<char>> {
    |p: Seq<char>| if p.len() > 0 { Some(p) } else { None }
}

/// The number that opens a `#`-separated episode pool such as
/// `1102101#1102102#1102103`: the first non-empty piece, read as an `i32`.
pub open spec fn first_number_spec(value: Seq<char>) -> Option<i32> {
    match find_map(split_spec(value, '#'), first_nonempty_fn()) {
        Some(p) => parse_i32_spec(p),
        None => None,
    }
}

/// The first number of a retail episode pool; `None` for an empty pool or when
/// its first non-empty piece is not a number.
pub fn first_number(value: &str) -> (res: Option<i32>)
    ensures
        res == first_number_spec(value@),
{
    let chars = chars_of(value);
    let parts = split(chars.as_slice(), '#');
    let mut i: usize = 0;
    while i < parts.len()
        invariant
            i <= parts@.len(),
            parts.deep_view() == split_spec(value@, '#'),
            find_map(parts.deep_view().take(i as int), first_nonempty_fn()) is None,
        decreases parts.len() - i,
    {
        let ghost pv = parts.deep_view();
        assert(pv.take(i + 1).drop_last() =~= pv.take(i as int));
        assert(pv[i as int] == parts[i as int]@);
        if parts[i].len() > 0 {
            proof {
                lemma_find_map_prefix(pv, first_nonempty_fn(), i + 1);
            }
            return parse_i32(parts[i].as_slice());
        }
        i = i + 1;
    }
    assert(parts.deep_view().take(parts@.len() as int) =~= parts.deep_view());
    None
}

/// A floor of the tower event.
#[derive(Clone, Copy, Debug)]
pub struct Act104EpisodeRow {
    pub activity_id: i32,
    pub layer: i32,
}

/// A retail stage of the tower event, with its pool of episodes.
#[derive(Clone, Debug)]
pub struct Act104RetailRow {
    pub activity_id: i32,
    pub stage: i32,
    pub retail_episode_id_pool: String,
}

/// A floor as the client sees it.
#[derive(Clone, Copy, Debug, PartialEq, Eq)]
pub struct Act104EpisodeNo {
    pub layer: Option<i32>,
    pub state: Option<i32>,
    pub read_after_story: Option<bool>,
}

/// A special floor as the client sees it.
#[derive(Clone, Copy, Debug, PartialEq, Eq)]
pub struct Act104SpecialNo {
    pub layer: Option<i32>,
    pub state: Option<i32>,
}

/// A retail stage as the client sees it.
#[derive(Clone, Debug)]
pub struct Act104RetailNo {
    pub id: Option<i32>,
    pub state: Option<i32>,
    pub advanced_id: Option<i32>,
    pub star: Option<i32>,
    pub show_activity104_equip_ids: Vec<i32>,
    pub position: Option<i32>,
    pub advanced_rare: Option<i32>,
    pub tag: Option<i32>,
}

/// The tower event as the client sees it.
#[derive(Clone, Debug)]
pub struct Get104InfosReply {
    pub activity_id: Option<i32>,
    pub episodes: Vec<Act104EpisodeNo>,
    pub retails: Vec<Act104RetailNo>,
    pub specials: Vec<Act104SpecialNo>,
    pub optional_equip_count: Option<i32>,
    pub hero_group_snapshot_sub_id: Option<i32>,
    pub retail_stage: Option<i32>,
    pub read_activity104_story: Option<bool>,
    pub trial_id: Option<i32>,
    pub is_pop_summary: Option<bool>,
    pub max_layer: Option<i32>,
}

/// The stored states of the event's entries, as `(entry, state)` pairs.
pub struct Act104States {
    pub episode: Vec<(i32, i32)>,
    pub special: Vec<(i32, i32)>,
    pub after_story: Vec<(i32, i32)>,
    pub story: Vec<(i32, i32)>,
    pub summary: Vec<(i32, i32)>,
}

/// A flag entry (entry `0`) is set.
pub open spec fn flag_spec(states: Seq<(i32, i32)>) -> bool {
    match state_of(states, 0) {
        Some(s) => s != 0,
        None => false,
    }
}

/// The floors of the event in table order, each keyed by its layer.
pub open spec fn episode_nos(rows: Seq<Act104EpisodeRow>, activity_id: i32, states: Seq<(i32, i32)>, after: Seq<(i32, i32)>) -> Seq<(i32, Act104EpisodeNo)>
    decreases rows.len(),
{
    if rows.len() == 0 {
        Seq::empty()
    } else {
        let front = episode_nos(rows.drop_last(), activity_id, states, after);
        let r = rows.last();
        if r.activity_id == activity_id {
            front.push(
                (
                    r.layer,
                    Act104EpisodeNo {
                        layer: Some(r.layer),
                        state: Some(
                            match state_of(states, r.layer) {
                                Some(s) => s,
                                None => 0,
                            },
                        ),
                        read_after_story: Some(
                            match state_of(after, r.layer) {
                                Some(s) => s != 0,
                                None => false,
                            },
                        ),
                    },
                ),
            )
        } else {
            front
        }
    }
}

/// The special floors of the event in table order, each keyed by its layer.
pub open spec fn special_nos(rows: Seq<Act104EpisodeRow>, activity_id: i32, states: Seq<(i32, i32)>) -> Seq<(i32, Act104SpecialNo)>
    decreases rows.len(),
{
    if rows.len() == 0 {
        Seq::empty()
    } else {
        let front = special_nos(rows.drop_last(), activity_id, states);
        let r = rows.last();
        if r.activity_id == activity_id {
            front.push(
                (
                    r.layer,
                    Act104SpecialNo {
                        layer: Some(r.layer),
                        state: Some(
                            match state_of(states, r.layer) {
                                Some(s) => s,
                                None => 0,
                            },
                        ),
                    },
                ),
            )
        } else {
            front
        }
    }
}

/// The retail id of a stage: the first number of its pool, else the stage.
pub open spec fn retail_id(r: Act104RetailRow) -> i32 {
    match first_number_spec(r.retail_episode_id_pool@) {
        Some(v) => v,
        None => r.stage,
    }
}

/// The retail stages of the event in table order, as `(id, position)` pairs.
pub open spec fn retail_ids(rows: Seq<Act104RetailRow>, activity_id: i32) -> Seq<(i32, i32)>
    decreases rows.len(),
{
    if rows.len() == 0 {
        Seq::empty()
    } else {
        let front = retail_ids(rows.drop_last(), activity_id);
        let r = rows.last();
        if r.activity_id == activity_id {
            front.push((retail_id(r), r.stage))
        } else {
            front
        }
    }
}

/// The floors with the layer each is sorted by.
pub open spec fn keyed_episodes(s: Seq<Act104EpisodeNo>) -> Seq<(i32, Act104EpisodeNo)> {
    s.map_values(|e: Act104EpisodeNo| (e.layer.unwrap_or(0), e))
}

/// The special floors with the layer each is sorted by.
pub open spec fn keyed_specials(s: Seq<Act104SpecialNo>) -> Seq<(i32, Act104SpecialNo)> {
    s.map_values(|e: Act104SpecialNo| (e.layer.unwrap_or(0), e))
}

/// A retail stage as a player who has not played it sees it: no state,
/// advance, star, rarity, tag or equipment shown.
pub open spec fn fresh_retail(e: Act104RetailNo) -> bool {
    &&& e.state == Some(0i32)
    &&& e.advanced_id == Some(0i32)
    &&& e.star == Some(0i32)
    &&& e.advanced_rare == Some(0i32)
    &&& e.tag == Some(0i32)
    &&& e.show_activity104_equip_ids@.len() == 0
}

/// The retail stages as `(id, position)`.
pub open spec fn retail_pairs(s: Seq<Act104RetailNo>) -> Seq<(i32, i32)> {
    s.map_values(|e: Act104RetailNo| (e.id.unwrap_or(0), e.position.unwrap_or(0)))
}

/// The largest floor cleared (state `1`), or `0`.
pub open spec fn max_cleared(states: Seq<(i32, i32)>) -> i32
    decreases states.len(),
{
    if states.len() == 0 {
        0
    } else {
        let m = max_cleared(states.drop_last());
        let p = states.last();
        if p.1 == 1 && (p.0 > m || !has_cleared(states.drop_last())) {
            p.0
        } else {
            m
        }
    }
}

/// Some floor was cleared.
pub open spec fn has_cleared(states: Seq<(i32, i32)>) -> bool {
    exists|i: int| 0 <= i < states.len() && (#[trigger] states[i]).1 == 1
}

/// The largest of the event ids, if any.
pub open spec fn max_activity(rows: Seq<Act104EpisodeRow>) -> Option<i32>
    decreases rows.len(),
{
    if rows.len() == 0 {
        None
    } else {
        match max_activity(rows.drop_last()) {
            Some(m) => if rows.last().activity_id > m {
                Some(rows.last().activity_id)
            } else {
                Some(m)
            },
            None => Some(rows.last().activity_id),
        }
    }
}

fn flag(states: &[(i32, i32)]) -> (res: bool)
    ensures
        res == flag_spec(states@),
{
    match lookup_state(states, 0) {
        Some(s) => s != 0,
        None => false,
    }
}

fn largest_cleared(states: &[(i32, i32)]) -> (res: i32)
    ensures
        res == max_cleared(states@),
{
    let mut best: i32 = 0;
    let mut seen = false;
    let mut i: usize = 0;
    while i < states.len()
        invariant
            i <= states@.len(),
            best == max_cleared(states@.take(i as int)),
            seen == has_cleared(states@.take(i as int)),
        decreases states.len() - i,
    {
        let ghost pre = states@.take(i as int);
        assert(states@.take(i + 1).drop_last() =~= pre);
        let (layer, state) = states[i];
        if state == 1 && (layer > best || !seen) {
            best = layer;
        }
        proof {
            let t = states@.take(i + 1);
            if state == 1 {
                assert(t[i as int].1 == 1);
            } else {
                if has_cleared(t) {
                    let j = choose|j: int| 0 <= j < t.len() && (#[trigger] t[j]).1 == 1;
                    assert(pre[j].1 == 1);
                }
            }
            if seen {
                let j = choose|j: int| 0 <= j < pre.len() && (#[trigger] pre[j]).1 == 1;
                assert(t[j].1 == 1);
            }
        }
        if state == 1 {
            seen = true;
        }
        i = i + 1;
    }
    assert(states@.take(states@.len() as int) =~= states@);
    best
}

/// The tower event for a player: the asked event, else the latest in the
/// floor table (refused when there is none); its floors, special floors and
/// retail stages, each sorted as the client expects (floors by layer, retail
/// stages by id, equal keys in table order); the story and summary flags; the
/// trial floor (first trial row of the event, else `0`); and the highest
/// cleared floor.
pub fn act104_infos(
    episodes_cfg: &[Act104EpisodeRow],
    specials_cfg: &[Act104EpisodeRow],
    retails_cfg: &[Act104RetailRow],
    trials_cfg: &[Act104EpisodeRow],
    states: &Act104States,
    activity_id: Option<i32>,
) -> (res: Result<Get104InfosReply, LogicError>)
    ensures
        ({
            let id = match activity_id {
                Some(a) => Some(a),
                None => max_activity(episodes_cfg@),
            };
            match id {
                None => res == Err::<Get104InfosReply, LogicError>(LogicError::InvalidRequest),
                Some(a) => res is Ok && ({
                    let r = res->Ok_0;
                    &&& r.activity_id == Some(a)
                    &&& stably_sorted(
                        keyed_episodes(r.episodes@),
                        episode_nos(episodes_cfg@, a, states.episode@, states.after_story@),
                    )
                    &&& stably_sorted(keyed_specials(r.specials@), special_nos(specials_cfg@, a, states.special@))
                    &&& stably_sorted(retail_pairs(r.retails@), retail_ids(retails_cfg@, a))
                    &&& forall|j: int| 0 <= j < r.retails@.len() ==> fresh_retail(#[trigger] r.retails@[j])
                    &&& r.read_activity104_story == Some(flag_spec(states.story@))
                    &&& r.is_pop_summary == Some(flag_spec(states.summary@))
                    &&& r.max_layer == Some(max_cleared(states.episode@))
                    &&& r.trial_id == Some(
                        match find_map(trials_cfg@, |t: Act104EpisodeRow| if t.activity_id == a { Some(t.layer) } else { None }) {
                            Some(l) => l,
                            None => 0,
                        },
                    )
                    &&& r.optional_equip_count == Some(0i32)
                    &&& r.hero_group_snapshot_sub_id == Some(1i32)
                    &&& r.retail_stage == Some(1i32)
                }),
            }
        }),
{
    let id = match activity_id {
        Some(a) => a,
        None => {
            let mut best: Option<i32> = None;
            let mut i: usize = 0;
            while i < episodes_cfg.len()
                invariant
                    i <= episodes_cfg@.len(),
                    best == max_activity(episodes_cfg@.take(i as int)),
                decreases episodes_cfg.len() - i,
            {
                assert(episodes_cfg@.take(i + 1).drop_last() =~= episodes_cfg@.take(i as int));
                let a = episodes_cfg[i].activity_id;
                best = match best {
                    Some(m) => if a > m { Some(a) } else { Some(m) },
                    None => Some(a),
                };
                i = i + 1;
            }
            assert(episodes_cfg@.take(episodes_cfg@.len() as int) =~= episodes_cfg@);
            match best {
                Some(m) => m,
                None => {
                    return Err(LogicError::InvalidRequest);
                },
            }
        },
    };
    let mut eps: Vec<(i32, Act104EpisodeNo)> = Vec::new();
    let mut i: usize = 0;
    while i < episodes_cfg.len()
        invariant
            i <= episodes_cfg@.len(),
            eps@ == episode_nos(episodes_cfg@.take(i as int), id, states.episode@, states.after_story@),
            forall|j: int| 0 <= j < eps@.len() ==> (#[trigger] eps@[j]).0 == eps@[j].1.layer.unwrap_or(0),
        decreases episodes_cfg.len() - i,
    {
        assert(episodes_cfg@.take(i + 1).drop_last() =~= episodes_cfg@.take(i as int));
        let r = episodes_cfg[i];
        if r.activity_id == id {
            let state = match lookup_state(states.episode.as_slice(), r.layer) {
                Some(s) => s,
                None => 0,
            };
            let read = match lookup_state(states.after_story.as_slice(), r.layer) {
                Some(s) => s != 0,
                None => false,
            };
            eps.push((r.layer, Act104EpisodeNo { layer: Some(r.layer), state: Some(state), read_after_story: Some(read) }));
        }
        i = i + 1;
    }
    assert(episodes_cfg@.take(episodes_cfg@.len() as int) =~= episodes_cfg@);
    let ghost eps_in = eps@;
    let sorted_eps = sort_by_key_stable(eps);
    proof {
        lemma_sorted_keeps(eps_in, sorted_eps@, |q: (i32, Act104EpisodeNo)| q.0 == q.1.layer.unwrap_or(0));
    }
    let mut episodes: Vec<Act104EpisodeNo> = Vec::new();
    let mut k: usize = 0;
    while k < sorted_eps.len()
        invariant
            k <= sorted_eps@.len(),
            episodes@.len() == k,
            forall|j: int| 0 <= j < k ==> #[trigger] episodes@[j] == sorted_eps@[j].1,
            forall|j: int| 0 <= j < sorted_eps@.len() ==> (#[trigger] sorted_eps@[j]).0 == sorted_eps@[j].1.layer.unwrap_or(0),
        decreases sorted_eps.len() - k,
    {
        episodes.push(sorted_eps[k].1);
        k = k + 1;
    }
    assert(keyed_episodes(episodes@) =~= sorted_eps@);
    let mut sps: Vec<(i32, Act104SpecialNo)> = Vec::new();
    let mut i: usize = 0;
    while i < specials_cfg.len()
        invariant
            i <= specials_cfg@.len(),
            sps@ == special_nos(specials_cfg@.take(i as int), id, states.special@),
            forall|j: int| 0 <= j < sps@.len() ==> (#[trigger] sps@[j]).0 == sps@[j].1.layer.unwrap_or(0),
        decreases specials_cfg.len() - i,
    {
        assert(specials_cfg@.take(i + 1).drop_last() =~= specials_cfg@.take(i as int));
        let r = specials_cfg[i];
        if r.activity_id == id {
            let state = match lookup_state(states.special.as_slice(), r.layer) {
                Some(s) => s,
                None => 0,
            };
            sps.push((r.layer, Act104SpecialNo { layer: Some(r.layer), state: Some(state) }));
        }
        i = i + 1;
    }
    assert(specials_cfg@.take(specials_cfg@.len() as int) =~= specials_cfg@);
    let ghost sps_in = sps@;
    let sorted_sps = sort_by_key_stable(sps);
    proof {
        lemma_sorted_keeps(sps_in, sorted_sps@, |q: (i32, Act104SpecialNo)| q.0 == q.1.layer.unwrap_or(0));
    }
    let mut specials: Vec<Act104SpecialNo> = Vec::new();
    let mut k: usize = 0;
    while k < sorted_sps.len()
        invariant
            k <= sorted_sps@.len(),
            specials@.len() == k,
            forall|j: int| 0 <= j < k ==> #[trigger] specials@[j] == sorted_sps@[j].1,
            forall|j: int| 0 <= j < sorted_sps@.len() ==> (#[trigger] sorted_sps@[j]).0 == sorted_sps@[j].1.layer.unwrap_or(0),
        decreases sorted_sps.len() - k,
    {
        specials.push(sorted_sps[k].1);
        k = k + 1;
    }
    assert(keyed_specials(specials@) =~= sorted_sps@);
    let mut rts: Vec<(i32, i32)> = Vec::new();
    let mut i: usize = 0;
    while i < retails_cfg.len()
        invariant
            i <= retails_cfg@.len(),
            rts@ == retail_ids(retails_cfg@.take(i as int), id),
        decreases retails_cfg.len() - i,
    {
        assert(retails_cfg@.take(i + 1).drop_last() =~= retails_cfg@.take(i as int));
        let r = &retails_cfg[i];
        if r.activity_id == id {
            let rid = match first_number(r.retail_episode_id_pool.as_str()) {
                Some(v) => v,
                None => r.stage,
            };
            rts.push((rid, r.stage));
        }
        i = i + 1;
    }
    assert(retails_cfg@.take(retails_cfg@.len() as int) =~= retails_cfg@);
    let sorted_rts = sort_by_key_stable(rts);
    let mut retails: Vec<Act104RetailNo> = Vec::new();
    let mut k: usize = 0;
    while k < sorted_rts.len()
        invariant
            k <= sorted_rts@.len(),
            retails@.len() == k,
            forall|j: int| 0 <= j < k ==> (#[trigger] retails@[j]).id == Some(sorted_rts@[j].0) && retails@[j].position == Some(sorted_rts@[j].1)
                && fresh_retail(retails@[j]),
        decreases sorted_rts.len() - k,
    {
        let (rid, stage) = sorted_rts[k];
        retails.push(
            Act104RetailNo {
                id: Some(rid),
                state: Some(0),
                advanced_id: Some(0),
                star: Some(0),
                show_activity104_equip_ids: Vec::new(),
                position: Some(stage),
                advanced_rare: Some(0),
                tag: Some(0),
            },
        );
        k = k + 1;
    }
    assert(retail_pairs(retails@) =~= sorted_rts@);
    let ghost tf = |t: Act104EpisodeRow| if t.activity_id == id { Some(t.layer) } else { None };
    let mut trial: i32 = 0;
    let mut t: usize = 0;
    while t < trials_cfg.len()
        invariant_except_break
            trial == 0,
        invariant
            t <= trials_cfg@.len(),
            tf == (|t: Act104EpisodeRow| if t.activity_id == id { Some(t.layer) } else { None }),
            find_map(trials_cfg@.take(t as int), tf) is None,
        ensures
            (t == trials_cfg@.len() && trial == 0 && find_map(trials_cfg@.take(t as int), tf) is None)
                || (find_map(trials_cfg@, tf) == Some(trial)),
        decreases trials_cfg.len() - t,
    {
        assert(trials_cfg@.take(t + 1).drop_last() =~= trials_cfg@.take(t as int));
        if trials_cfg[t].activity_id == id {
            proof {
                lemma_find_map_prefix(trials_cfg@, tf, t + 1);
            }
            trial = trials_cfg[t].layer;
            break;
        }
        t = t + 1;
    }
    proof {
        if t == trials_cfg@.len() {
            assert(trials_cfg@.take(trials_cfg@.len() as int) =~= trials_cfg@);
        }
    }
    Ok(
        Get104InfosReply {
            activity_id: Some(id),
            episodes,
            retails,
            specials,
            optional_equip_count: Some(0),
            hero_group_snapshot_sub_id: Some(1),
            retail_stage: Some(1),
            read_activity104_story: Some(flag(states.story.as_slice())),
            trial_id: Some(trial),
            is_pop_summary: Some(flag(states.summary.as_slice())),
            max_layer: Some(largest_cleared(states.episode.as_slice())),
        },
    )
}

/// Marking one of the event's flags (its story read, its summary shown):
/// refused unless the episode table lists the event; the caller then sets
/// the flag.
pub fn mark_activity104_flag(activity_id: i32, rows: &[Act104EpisodeRow]) -> (res: Result<(), LogicError>)
    ensures
        res is Ok <==> exists|i: int| 0 <= i < rows@.len() && (#[trigger] rows@[i]).activity_id == activity_id,
        res is Err ==> res == Err::<(), LogicError>(LogicError::InvalidRequest),
{
    let mut i: usize = 0;
    while i < rows.len()
        invariant
            i <= rows@.len(),
            forall|k: int| 0 <= k < i ==> (#[trigger] rows@[k]).activity_id != activity_id,
        decreases rows.len() - i,
    {
        if rows[i].activity_id == activity_id {
            assert(rows@[i as int].activity_id == activity_id);
            return Ok(());
        }
        i = i + 1;
    }
    Err(LogicError::InvalidRequest)
}

/// Marking the story after an episode read: refused unless the episode table
/// lists floor `layer` of the event; the caller then sets the floor's flag.
pub fn mark_episode_after_story(activity_id: i32, layer: i32, rows: &[Act104EpisodeRow]) -> (res: Result<(i32, i32), LogicError>)
    ensures
        (exists|i: int| 0 <= i < rows@.len() && (#[trigger] rows@[i]).activity_id == activity_id && rows@[i].layer == layer)
            ==> res == Ok::<(i32, i32), LogicError>((activity_id, layer)),
        !(exists|i: int| 0 <= i < rows@.len() && (#[trigger] rows@[i]).activity_id == activity_id && rows@[i].layer == layer)
            ==> res == Err::<(i32, i32), LogicError>(LogicError::InvalidRequest),
{
    let mut i: usize = 0;
    while i < rows.len()
        invariant
            i <= rows@.len(),
            forall|k: int| 0 <= k < i ==> !((#[trigger] rows@[k]).activity_id == activity_id && rows@[k].layer == layer),
        decreases rows.len() - i,
    {
        if rows[i].activity_id == activity_id && rows[i].layer == layer {
            assert(rows@[i as int].activity_id == activity_id && rows@[i as int].layer == layer);
            return Ok((activity_id, layer));
        }
        i = i + 1;
    }
    Err(LogicError::InvalidRequest)
}

/// Each floor listed shows its after-story flag as the stored states hold it.
proof fn lemma_episode_flags(rows: Seq<Act104EpisodeRow>, activity_id: i32, states: Seq<(i32, i32)>, after: Seq<(i32, i32)>)
    ensures
        forall|k: int|
            0 <= k < episode_nos(rows, activity_id, states, after).len() ==> (#[trigger] episode_nos(
                rows,
                activity_id,
                states,
                after,
            )[k]).1.read_after_story == Some(
                match state_of(after, episode_nos(rows, activity_id, states, after)[k].0) {
                    Some(s) => s != 0,
                    None => false,
                },
            ),
    decreases rows.len(),
{
    if rows.len() > 0 {
        lemma_episode_flags(rows.drop_last(), activity_id, states, after);
    }
}

/// The marks read back: once floor `layer`'s after-story entry holds a set
/// state (what marking the story after it stores), every floor of that layer in
/// a tower view built from those states (`episodes`, as `act104_infos` lists
/// them) shows its story read; once entry `0` of the story (or summary) states
/// holds a set state, the view's flag built from them reads set.
pub proof fn law_marks_read_back(
    episodes: Seq<Act104EpisodeNo>,
    rows: Seq<Act104EpisodeRow>,
    activity_id: i32,
    states: Seq<(i32, i32)>,
    after: Seq<(i32, i32)>,
    layer: i32,
    flags: Seq<(i32, i32)>,
)
    requires
        stably_sorted(keyed_episodes(episodes), episode_nos(rows, activity_id, states, after)),
    ensures
        (state_of(after, layer) matches Some(s) && s != 0) ==> forall|j: int|
            0 <= j < episodes.len() && (#[trigger] episodes[j]).layer == Some(layer) ==> episodes[j].read_after_story == Some(
                true,
            ),
        (state_of(flags, 0) matches Some(s) && s != 0) ==> flag_spec(flags),
{
    let out = keyed_episodes(episodes);
    let inp = episode_nos(rows, activity_id, states, after);
    lemma_episode_flags(rows, activity_id, states, after);
    if state_of(after, layer) matches Some(s) && s != 0 {
        assert forall|j: int| 0 <= j < episodes.len() && (#[trigger] episodes[j]).layer == Some(layer) implies episodes[j].read_after_story
            == Some(true) by {
            let pred = key_is::<Act104EpisodeNo>(layer);
            assert(out[j] == (layer, episodes[j]));
            out.filter_lemma(pred);
            inp.filter_lemma(pred);
            assert(pred(out[j]));
            assert(with_key(out, layer).contains(out[j]));
            assert(with_key(out, layer) == with_key(inp, layer));
            inp.lemma_filter_contains_rev(pred, out[j]);
            let v = choose|v: int| 0 <= v < inp.len() && inp[v] == out[j];
            assert(inp[v].1.read_after_story == Some(true));
        }
    }
}

} // verus!
