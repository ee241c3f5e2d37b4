use crate::text::{chars_of, filter_map, find_map, lemma_find_map_prefix, parse_i32, parse_i32_fn, split, split_spec};
use vstd::prelude::*;

verus! {

/// A modifier of the tower, with whether it is unlocked from the start.
#[derive(Clone, Copy, Debug)]
pub struct TowerComposeModRow {
    pub id: i32,
    pub theme_id: i32,
    pub is_unlock: i32,
    pub level: i32,
}

/// A layer of the tower and the modifiers passing it unlocks (`id|id|...`).
#[derive(Clone, Debug)]
pub struct TowerComposeEpisodeRow {
    pub theme_id: i32,
    pub layer_id: i32,
    /// The boss plane the episode belongs to (`0` for a layer episode).
    pub plane: i32,
    pub episode_id: i32,
    pub unlock_mod_ids: String,
}

/// The modifiers unlocked from the start, in table order.
pub open spec fn starting_mods(mods: Seq<TowerComposeModRow>, theme_id: i32) -> Seq<i32> {
    filter_map(mods, |m: TowerComposeModRow| if m.theme_id == theme_id && m.is_unlock == 1 { Some(m.id) } else { None })
}

/// The modifiers unlocked by the layers passed, layer rows in table order.
pub open spec fn layer_mods(episodes: Seq<TowerComposeEpisodeRow>, theme_id: i32, pass_max_layer_id: i32) -> Seq<i32>
    decreases episodes.len(),
{
    if episodes.len() == 0 {
        Seq::empty()
    } else {
        let front = layer_mods(episodes.drop_last(), theme_id, pass_max_layer_id);
        let e = episodes.last();
        if e.theme_id == theme_id && e.layer_id <= pass_max_layer_id {
            front + filter_map(split_spec(e.unlock_mod_ids@, '|'), parse_i32_fn())
        } else {
            front
        }
    }
}

/// The modifiers a theme offers: those unlocked from the start, then those the
/// layers passed unlock (duplicates kept, as listed).
pub fn unlock_mods(mods: &[TowerComposeModRow], episodes: &[TowerComposeEpisodeRow], theme_id: i32, pass_max_layer_id: i32) -> (out: Vec<i32>)
    ensures
        out@ == starting_mods(mods@, theme_id) + layer_mods(episodes@, theme_id, pass_max_layer_id),
{
    let ghost f = |m: TowerComposeModRow| if m.theme_id == theme_id && m.is_unlock == 1 { Some(m.id) } else { None };
    let mut out: Vec<i32> = Vec::new();
    let mut i: usize = 0;
    while i < mods.len()
        invariant
            i <= mods@.len(),
            f == (|m: TowerComposeModRow| if m.theme_id == theme_id && m.is_unlock == 1 { Some(m.id) } else { None }),
            out@ == filter_map(mods@.take(i as int), f),
        decreases mods.len() - i,
    {
        assert(mods@.take(i + 1).drop_last() =~= mods@.take(i as int));
        if mods[i].theme_id == theme_id && mods[i].is_unlock == 1 {
            out.push(mods[i].id);
        }
        i = i + 1;
    }
    assert(mods@.take(mods@.len() as int) =~= mods@);
    let ghost start = out@;
    let mut k: usize = 0;
    while k < episodes.len()
        invariant
            k <= episodes@.len(),
            out@ == start + layer_mods(episodes@.take(k as int), theme_id, pass_max_layer_id),
        decreases episodes.len() - k,
    {
        assert(episodes@.take(k + 1).drop_last() =~= episodes@.take(k as int));
        let e = &episodes[k];
        if e.theme_id == theme_id && e.layer_id <= pass_max_layer_id {
            let chars = chars_of(e.unlock_mod_ids.as_str());
            let parts = split(chars.as_slice(), '|');
            let ghost before = out@;
            let mut j: usize = 0;
            while j < parts.len()
                invariant
                    j <= parts@.len(),
                    parts.deep_view() == split_spec(e.unlock_mod_ids@, '|'),
                    out@ == before + filter_map(parts.deep_view().take(j as int), parse_i32_fn()),
                decreases parts.len() - j,
            {
                let ghost pv = parts.deep_view();
                assert(pv.take(j + 1).drop_last() =~= pv.take(j as int));
                assert(pv[j as int] == parts[j as int]@);
                if let Some(v) = parse_i32(parts[j].as_slice()) {
                    out.push(v);
                }
                j = j + 1;
            }
            assert(parts.deep_view().take(parts@.len() as int) =~= parts.deep_view());
            assert(out@ =~= start + layer_mods(episodes@.take(k + 1), theme_id, pass_max_layer_id));
        }
        k = k + 1;
    }
    assert(episodes@.take(episodes@.len() as int) =~= episodes@);
    out
}

/// The level of modifier `id` (its first row), if the table has it.
pub open spec fn mod_level(mods: Seq<TowerComposeModRow>, id: i32) -> Option<i32> {
    find_map(mods, |m: TowerComposeModRow| if m.id == id { Some(m.level) } else { None })
}

fn find_mod_level(mods: &[TowerComposeModRow], id: i32) -> (res: Option<i32>)
    ensures
        res == mod_level(mods@, id),
{
    let ghost f = |m: TowerComposeModRow| if m.id == id { Some(m.level) } else { None };
    let mut i: usize = 0;
    while i < mods.len()
        invariant
            i <= mods@.len(),
            f == (|m: TowerComposeModRow| if m.id == id { Some(m.level) } else { None }),
            find_map(mods@.take(i as int), f) is None,
        decreases mods.len() - i,
    {
        assert(mods@.take(i + 1).drop_last() =~= mods@.take(i as int));
        if mods[i].id == id {
            proof {
                lemma_find_map_prefix(mods@, f, i + 1);
            }
            return Some(mods[i].level);
        }
        i = i + 1;
    }
    assert(mods@.take(mods@.len() as int) =~= mods@);
    None
}

/// The highest level among the selected modifiers that the table knows
/// (selections without an id, or unknown ids, skipped); `0` when none.
pub open spec fn max_level_spec(mods: Seq<TowerComposeModRow>, selected: Seq<Option<i32>>) -> i32
    decreases selected.len(),
{
    if selected.len() == 0 {
        0
    } else {
        let front = max_level_spec(mods, selected.drop_last());
        let lv = match selected.last() {
            Some(id) => mod_level(mods, id),
            None => None,
        };
        match lv {
            Some(l) => if !known_any(mods, selected.drop_last()) || l > front { l } else { front },
            None => front,
        }
    }
}

/// A selection names a modifier the table knows.
pub open spec fn sel_known(mods: Seq<TowerComposeModRow>, sel: Option<i32>) -> bool {
    match sel {
        Some(id) => mod_level(mods, id) is Some,
        None => false,
    }
}

/// Some selection names a modifier the table knows.
pub open spec fn known_any(mods: Seq<TowerComposeModRow>, selected: Seq<Option<i32>>) -> bool {
    exists|i: int| 0 <= i < selected.len() && sel_known(mods, #[trigger] selected[i])
}

/// The table level of a selection, when it names a modifier the table knows.
pub open spec fn sel_level(mods: Seq<TowerComposeModRow>, sel: Option<i32>) -> Option<i32> {
    match sel {
        Some(id) => mod_level(mods, id),
        None => None,
    }
}

/// The level of the selected modifiers is their highest: at least the table
/// level of every selected modifier the table knows, and the level of one of
/// them when any is known; `0` when none is.
pub proof fn law_max_level_is_highest(mods: Seq<TowerComposeModRow>, selected: Seq<Option<i32>>)
    ensures
        forall|i: int|
            0 <= i < selected.len() && (#[trigger] sel_level(mods, selected[i])) is Some ==> sel_level(mods, selected[i])->0
                <= max_level_spec(mods, selected),
        (exists|i: int| 0 <= i < selected.len() && #[trigger] sel_level(mods, selected[i]) is Some) ==> exists|i: int|
            0 <= i < selected.len() && #[trigger] sel_level(mods, selected[i]) == Some(max_level_spec(mods, selected)),
        (forall|i: int| 0 <= i < selected.len() ==> #[trigger] sel_level(mods, selected[i]) is None) ==> max_level_spec(
            mods,
            selected,
        ) == 0,
    decreases selected.len(),
{
    if selected.len() > 0 {
        let front = selected.drop_last();
        law_max_level_is_highest(mods, front);
        let n = selected.len() - 1;
        assert forall|i: int| 0 <= i < front.len() implies #[trigger] selected[i] == front[i] by {}
        assert forall|i: int| 0 <= i < front.len() && #[trigger] sel_level(mods, front[i]) is Some implies sel_known(
            mods,
            front[i],
        ) by {}
        assert(known_any(mods, front) ==> exists|i: int| 0 <= i < front.len() && #[trigger] sel_level(mods, front[i]) is Some) by {
            if known_any(mods, front) {
                let i = choose|i: int| 0 <= i < front.len() && sel_known(mods, #[trigger] front[i]);
                assert(sel_level(mods, front[i]) is Some);
            }
        }
        assert((exists|i: int| 0 <= i < front.len() && #[trigger] sel_level(mods, front[i]) is Some) ==> known_any(mods, front)) by {
            if exists|i: int| 0 <= i < front.len() && #[trigger] sel_level(mods, front[i]) is Some {
                let i = choose|i: int| 0 <= i < front.len() && #[trigger] sel_level(mods, front[i]) is Some;
                assert(sel_known(mods, front[i]));
            }
        }
        assert(sel_level(mods, selected[n]) == match selected.last() {
            Some(id) => mod_level(mods, id),
            None => None,
        });
        if exists|i: int| 0 <= i < front.len() && #[trigger] sel_level(mods, front[i]) is Some {
            let w = choose|w: int| 0 <= w < front.len() && #[trigger] sel_level(mods, front[w]) == Some(max_level_spec(mods, front));
            assert(sel_level(mods, selected[w]) == Some(max_level_spec(mods, front)));
        }
    }
}

/// The highest level among the selected modifiers; see `max_level_spec`.
/// `selected` lists the selections of every plane, planes in order.
pub fn max_selected_mod_level(mods: &[TowerComposeModRow], selected: &[Option<i32>]) -> (res: i32)
    ensures
        res == max_level_spec(mods@, selected@),
        forall|i: int|
            0 <= i < selected@.len() && (#[trigger] sel_level(mods@, selected@[i])) is Some ==> sel_level(mods@, selected@[i])->0
                <= res,
        (exists|i: int| 0 <= i < selected@.len() && #[trigger] sel_level(mods@, selected@[i]) is Some) ==> exists|i: int|
            0 <= i < selected@.len() && #[trigger] sel_level(mods@, selected@[i]) == Some(res),
        (forall|i: int| 0 <= i < selected@.len() ==> #[trigger] sel_level(mods@, selected@[i]) is None) ==> res == 0,
{
    let mut best: i32 = 0;
    let mut seen = false;
    let mut i: usize = 0;
    while i < selected.len()
        invariant
            i <= selected@.len(),
            best == max_level_spec(mods@, selected@.take(i as int)),
            seen == known_any(mods@, selected@.take(i as int)),
        decreases selected.len() - i,
    {
        let ghost pre = selected@.take(i as int);
        let ghost t = selected@.take(i + 1);
        assert(t.drop_last() =~= pre);
        let lv = match selected[i] {
            Some(id) => find_mod_level(mods, id),
            None => None,
        };
        proof {
            if seen {
                let j = choose|j: int| 0 <= j < pre.len() && sel_known(mods@, #[trigger] pre[j]);
                assert(t[j] == pre[j]);
            }
            if lv is Some {
                assert(t[i as int] == selected@[i as int]);
            } else if known_any(mods@, t) {
                let j = choose|j: int| 0 <= j < t.len() && sel_known(mods@, #[trigger] t[j]);
                if j < i {
                    assert(pre[j] == t[j]);
                }
            }
        }
        match lv {
            Some(l) => {
                if !seen || l > best {
                    best = l;
                }
                seen = true;
            },
            None => {},
        }
        i = i + 1;
    }
    assert(selected@.take(selected@.len() as int) =~= selected@);
    proof {
        law_max_level_is_highest(mods@, selected@);
    }
    best
}

/// A player's stored progress in one theme of the tower.
#[derive(Clone, Debug)]
pub struct TowerComposeThemeState {
    pub theme_id: i32,
    pub pass_max_layer_id: i32,
    pub research_progress: i32,
    pub high_score: i32,
    pub curr_score: i32,
    pub boss_level: i32,
    pub boss_lock: bool,
    pub saved_record: i32,
    pub params: String,
}

/// A theme as the client shows it.
#[derive(Clone, Debug)]
pub struct TowerComposeTheme {
    pub theme_id: i32,
    pub research_progress: i32,
    pub unlock_mod_ids: Vec<i32>,
    pub high_score: i32,
    pub curr_score: i32,
    pub boss_level: i32,
    pub boss_lock: bool,
    pub saved_record: i32,
    pub pass_max_layer_id: i32,
    /// The stored parameters, when there are any.
    pub params: Option<String>,
}

/// A theme's fields as a tuple: theme, research progress, modifiers offered,
/// high and current score, boss level and lock, saved record, highest layer
/// passed, and parameters.
pub open spec fn theme_view(t: TowerComposeTheme) -> (i32, i32, Seq<i32>, i32, i32, i32, bool, i32, i32, Option<Seq<char>>) {
    (
        t.theme_id,
        t.research_progress,
        t.unlock_mod_ids@,
        t.high_score,
        t.curr_score,
        t.boss_level,
        t.boss_lock,
        t.saved_record,
        t.pass_max_layer_id,
        match t.params {
            Some(p) => Some(p@),
            None => None,
        },
    )
}

/// A theme as the client shows it from the player's progress (`None` for a
/// theme never played, which shows zeros): the modifiers it offers (see
/// `unlock_mods`) for the layers passed; the parameters only when stored
/// non-empty.
pub open spec fn theme_spec(
    theme_id: i32,
    state: Option<TowerComposeThemeState>,
    mods: Seq<TowerComposeModRow>,
    episodes: Seq<TowerComposeEpisodeRow>,
) -> (i32, i32, Seq<i32>, i32, i32, i32, bool, i32, i32, Option<Seq<char>>) {
    match state {
        Some(s) => (
            theme_id,
            s.research_progress,
            starting_mods(mods, theme_id) + layer_mods(episodes, theme_id, s.pass_max_layer_id),
            s.high_score,
            s.curr_score,
            s.boss_level,
            s.boss_lock,
            s.saved_record,
            s.pass_max_layer_id,
            if s.params@.len() > 0 { Some(s.params@) } else { None },
        ),
        None => (theme_id, 0, starting_mods(mods, theme_id) + layer_mods(episodes, theme_id, 0), 0, 0, 0, false, 0, 0, None),
    }
}

/// A theme as the client shows it; see `theme_spec`.
pub fn theme_info(
    theme_id: i32,
    state: Option<&TowerComposeThemeState>,
    mods: &[TowerComposeModRow],
    episodes: &[TowerComposeEpisodeRow],
) -> (res: TowerComposeTheme)
    ensures
        theme_view(res) == theme_spec(
            theme_id,
            match state {
                Some(s) => Some(*s),
                None => None,
            },
            mods@,
            episodes@,
        ),
{
    match state {
        Some(s) => {
            let params = if s.params.as_str().unicode_len() > 0 { Some(s.params.clone()) } else { None };
            TowerComposeTheme {
                theme_id,
                research_progress: s.research_progress,
                unlock_mod_ids: unlock_mods(mods, episodes, theme_id, s.pass_max_layer_id),
                high_score: s.high_score,
                curr_score: s.curr_score,
                boss_level: s.boss_level,
                boss_lock: s.boss_lock,
                saved_record: s.saved_record,
                pass_max_layer_id: s.pass_max_layer_id,
                params,
            }
        },
        None => TowerComposeTheme {
            theme_id,
            research_progress: 0,
            unlock_mod_ids: unlock_mods(mods, episodes, theme_id, 0),
            high_score: 0,
            curr_score: 0,
            boss_level: 0,
            boss_lock: false,
            saved_record: 0,
            pass_max_layer_id: 0,
            params: None,
        },
    }
}

/// The fight a tower battle names: its theme, layer and plane.
#[derive(Clone, Copy, Debug, PartialEq, Eq)]
pub struct ComposeBattle {
    pub theme_id: i32,
    pub layer_id: i32,
    pub plane_id: i32,
}

/// The episode table has the episode of a battle: the battle's theme, layer
/// and plane, with the episode being fought.
pub open spec fn battle_known(episodes: Seq<TowerComposeEpisodeRow>, battle: ComposeBattle, episode_id: i32) -> bool {
    exists|i: int|
        0 <= i < episodes.len() && (#[trigger] episodes[i]).theme_id == battle.theme_id && episodes[i].layer_id
            == battle.layer_id && episodes[i].plane == battle.plane_id && episodes[i].episode_id == episode_id
}

/// The battle a fight's parameters name (`parsed`, `None` when they name
/// none), when the episode table has it for the episode fought; else none.
pub fn compose_battle(parsed: Option<ComposeBattle>, episode_id: i32, episodes: &[TowerComposeEpisodeRow]) -> (res: Option<ComposeBattle>)
    ensures
        res == match parsed {
            Some(b) => if battle_known(episodes@, b, episode_id) { Some(b) } else { None },
            None => None,
        },
{
    let b = match parsed {
        Some(b) => b,
        None => {
            return None;
        },
    };
    let mut i: usize = 0;
    while i < episodes.len()
        invariant
            i <= episodes@.len(),
            parsed == Some(b),
            forall|k: int| 0 <= k < i ==> !((#[trigger] episodes@[k]).theme_id == b.theme_id && episodes@[k].layer_id
                == b.layer_id && episodes@[k].plane == b.plane_id && episodes@[k].episode_id == episode_id),
        decreases episodes.len() - i,
    {
        let e = &episodes[i];
        if e.theme_id == b.theme_id && e.layer_id == b.layer_id && e.plane == b.plane_id && e.episode_id == episode_id {
            assert(episodes@[i as int].theme_id == b.theme_id);
            return Some(b);
        }
        i = i + 1;
    }
    None
}

/// The progress stored for theme `theme_id`: the last entry for it.
pub open spec fn last_state(states: Seq<TowerComposeThemeState>, theme_id: i32) -> Option<TowerComposeThemeState>
    decreases states.len(),
{
    if states.len() == 0 {
        None
    } else if states.last().theme_id == theme_id {
        Some(states.last())
    } else {
        last_state(states.drop_last(), theme_id)
    }
}

/// The themes that are online (`(theme, is_online)` rows with `is_online`
/// `1`), in table order.
pub open spec fn online_themes(themes: Seq<(i32, i32)>) -> Seq<i32> {
    filter_map(themes, |t: (i32, i32)| if t.1 == 1 { Some(t.0) } else { None })
}

/// The tower as the client shows it: each online theme (see
/// `online_themes`) with the player's progress in it (see `last_state`).
pub fn get_info(
    themes: &[(i32, i32)],
    states: &[TowerComposeThemeState],
    mods: &[TowerComposeModRow],
    episodes: &[TowerComposeEpisodeRow],
) -> (res: Vec<TowerComposeTheme>)
    ensures
        res@.len() == online_themes(themes@).len(),
        forall|k: int| 0 <= k < res@.len() ==> theme_view(#[trigger] res@[k]) == theme_spec(
            online_themes(themes@)[k],
            last_state(states@, online_themes(themes@)[k]),
            mods@,
            episodes@,
        ),
{
    let ghost f = |t: (i32, i32)| if t.1 == 1 { Some(t.0) } else { None };
    let mut out: Vec<TowerComposeTheme> = Vec::new();
    let mut i: usize = 0;
    while i < themes.len()
        invariant
            i <= themes@.len(),
            f == (|t: (i32, i32)| if t.1 == 1 { Some(t.0) } else { None }),
            out@.len() == filter_map(themes@.take(i as int), f).len(),
            forall|k: int| 0 <= k < out@.len() ==> theme_view(#[trigger] out@[k]) == theme_spec(
                filter_map(themes@.take(i as int), f)[k],
                last_state(states@, filter_map(themes@.take(i as int), f)[k]),
                mods@,
                episodes@,
            ),
        decreases themes.len() - i,
    {
        let ghost before = filter_map(themes@.take(i as int), f);
        assert(themes@.take(i + 1).drop_last() =~= themes@.take(i as int));
        if themes[i].1 == 1 {
            let id = themes[i].0;
            let mut found: Option<usize> = None;
            let mut j: usize = states.len();
            assert(states@.take(states@.len() as int) =~= states@);
            while j > 0 && found.is_none()
                invariant
                    j <= states@.len(),
                    found is None ==> last_state(states@, id) == last_state(states@.take(j as int), id),
                    found matches Some(x) ==> x < states@.len() && last_state(states@, id) == Some(states@[x as int]),
                decreases j,
            {
                let ghost t = states@.take(j as int);
                assert(t.drop_last() =~= states@.take(j - 1));
                if states[j - 1].theme_id == id {
                    found = Some(j - 1);
                }
                j = j - 1;
            }
            proof {
                if found is None {
                    assert(states@.take(0) =~= Seq::<TowerComposeThemeState>::empty());
                }
            }
            let theme = match found {
                Some(x) => theme_info(id, Some(&states[x]), mods, episodes),
                None => theme_info(id, None, mods, episodes),
            };
            out.push(theme);
            proof {
                assert(filter_map(themes@.take(i + 1), f) == before.push(id));
                assert forall|k: int| 0 <= k < out@.len() implies theme_view(#[trigger] out@[k]) == theme_spec(
                    filter_map(themes@.take(i + 1), f)[k],
                    last_state(states@, filter_map(themes@.take(i + 1), f)[k]),
                    mods@,
                    episodes@,
                ) by {
                    if k < before.len() {
                        assert(filter_map(themes@.take(i + 1), f)[k] == before[k]);
                    }
                }
            }
        }
        i = i + 1;
    }
    assert(themes@.take(themes@.len() as int) =~= themes@);
    out
}

/// What settling a finished tower fight does.
#[derive(Clone, Copy, Debug, PartialEq, Eq)]
pub struct SettlePlan {
    pub theme_id: i32,
    pub layer_id: i32,
    /// The layer is marked passed (a victory).
    pub complete_layer: bool,
    /// The result the client is told: `1` for a victory, `2` otherwise.
    pub result: i32,
}

/// Settling a finished fight: only a layer fight of the tower (a known battle,
/// see `compose_battle`, on plane `0` or below) settles; a victory passes the
/// layer. Boss-plane fights are not settled here.
pub fn settle_plan(battle: Option<ComposeBattle>, victory: bool) -> (res: Option<SettlePlan>)
    ensures
        res == match battle {
            Some(b) => if b.plane_id > 0 {
                None
            } else {
                Some(
                    SettlePlan {
                        theme_id: b.theme_id,
                        layer_id: b.layer_id,
                        complete_layer: victory,
                        result: if victory { 1i32 } else { 2i32 },
                    },
                )
            },
            None => None,
        },
{
    let b = match battle {
        Some(b) => b,
        None => {
            return None;
        },
    };
    if b.plane_id > 0 {
        return None;
    }
    Some(SettlePlan { theme_id: b.theme_id, layer_id: b.layer_id, complete_layer: victory, result: if victory { 1 } else { 2 } })
}

} // verus!
