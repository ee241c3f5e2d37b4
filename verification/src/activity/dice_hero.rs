use crate::text::{
    chars_eq, chars_of, contains_i32, find_map, i32_list, i32_list_spec, lemma_find_map_prefix, stored_id_list, stored_ids_spec,
};
use vstd::prelude::*;

verus! {

/// The reward row that a seed picks among `len` rows: none when there are no
/// rows, else the seed (as an unsigned index) modulo the row count.
pub fn nth_reward_row(seed: i32, len: usize) -> (res: Option<usize>)
    ensures
        len == 0 ==> res is None,
        len != 0 ==> res == Some(((seed as usize) % len) as usize),
{
    if len == 0 {
        None
    } else {
        Some((seed as usize) % len)
    }
}

/// `ids` with each of `new_ids` added at the end unless already present.
pub open spec fn add_unique_spec(ids: Seq<i32>, new_ids: Seq<i32>) -> Seq<i32>
    decreases new_ids.len(),
{
    if new_ids.len() == 0 {
        ids
    } else {
        let s = add_unique_spec(ids, new_ids.drop_last());
        if s.contains(new_ids.last()) {
            s
        } else {
            s.push(new_ids.last())
        }
    }
}

/// Adds each of `new_ids` to `ids` unless it is there already.
pub fn add_unique(ids: &mut Vec<i32>, new_ids: &[i32])
    ensures
        final(ids)@ == add_unique_spec(old(ids)@, new_ids@),
{
    let mut i: usize = 0;
    while i < new_ids.len()
        invariant
            i <= new_ids@.len(),
            ids@ == add_unique_spec(old(ids)@, new_ids@.take(i as int)),
        decreases new_ids.len() - i,
    {
        assert(new_ids@.take(i + 1).drop_last() =~= new_ids@.take(i as int));
        let id = new_ids[i];
        let mut j: usize = 0;
        let mut found = false;
        while j < ids.len()
            invariant
                j <= ids@.len(),
                found <==> exists|k: int| 0 <= k < j && ids@[k] == id,
            decreases ids.len() - j,
        {
            if ids[j] == id {
                found = true;
            }
            j = j + 1;
        }
        if !found {
            ids.push(id);
        }
        i = i + 1;
    }
    assert(new_ids@.take(new_ids@.len() as int) =~= new_ids@);
}

/// The numbers of a `#`-separated list, pieces that are not numbers skipped.
pub fn split_i32_list(value: &str) -> (out: Vec<i32>)
    ensures
        out@ == i32_list_spec(value@, '#'),
{
    let chars = chars_of(value);
    i32_list(chars.as_slice(), '#')
}

/// How a level's reward is chosen, as far as the rules tell the kinds apart.
#[derive(Clone, Copy, Debug, PartialEq, Eq, Structural)]
pub enum RewardSelect {
    /// The table names a kind the server does not know.
    Unknown,
    /// The level gives nothing to choose.
    NoReward,
    /// The level offers a choice of rewards.
    Offered,
}

/// The kinds of reward a dice-hero panel offers.
#[derive(Clone, Copy, Debug, PartialEq, Eq, Structural)]
pub enum DiceHeroRewardType {
    Hero,
    Relic,
    SkillCard,
}

/// One reward of a dice-hero panel; a kind the server does not know is `None`.
#[derive(Clone, Copy, Debug, PartialEq, Eq)]
pub struct DiceHeroRewardItem {
    pub kind: Option<DiceHeroRewardType>,
    pub id: Option<i32>,
}

/// One level of the dice-hero table.
#[derive(Clone, Copy, Debug)]
pub struct DiceLevelRow {
    pub id: i32,
    pub chapter: i32,
    pub room: i32,
    pub mode: i32,
    /// The level is a story level.
    pub story: bool,
    pub reward_select: RewardSelect,
}

/// One hero of the dice-hero table, with its relics and skill cards (`#`-separated ids).
#[derive(Clone, Debug)]
pub struct DiceCharacterRow {
    pub id: i32,
    pub hp: i32,
    pub power: i32,
    pub relic_ids: String,
    pub skilllist: String,
}

/// The chapters of the dice-hero game: those of the newer entry table when it
/// has any, else those of the older one.
pub fn chapter_ids(enter_new: &[i32], enter_old: &[i32]) -> (out: Vec<i32>)
    ensures
        out@ == if enter_new@.len() > 0 { enter_new@ } else { enter_old@ },
{
    let src = if enter_new.len() > 0 { enter_new } else { enter_old };
    let mut out: Vec<i32> = Vec::new();
    let mut i: usize = 0;
    while i < src.len()
        invariant
            i <= src@.len(),
            out@ == src@.take(i as int),
        decreases src.len() - i,
    {
        out.push(src[i]);
        i = i + 1;
        assert(out@ =~= src@.take(i as int));
    }
    assert(src@.take(src@.len() as int) =~= src@);
    out
}

/// Levels are played by room, then by id.
pub open spec fn level_before(a: DiceLevelRow, b: DiceLevelRow) -> bool {
    a.room < b.room || (a.room == b.room && a.id < b.id)
}

/// A level of `chapter` that was not passed yet.
pub open spec fn level_open(l: DiceLevelRow, chapter: i32, passed: Seq<i32>) -> bool {
    l.chapter == chapter && !passed.contains(l.id)
}

/// The next level of a chapter: the first by room and id among its levels not
/// passed (of levels with the same room and id, the first in table order).
pub open spec fn next_level_spec(levels: Seq<DiceLevelRow>, chapter: i32, passed: Seq<i32>) -> Option<DiceLevelRow>
    decreases levels.len(),
{
    if levels.len() == 0 {
        None
    } else {
        let front = next_level_spec(levels.drop_last(), chapter, passed);
        let l = levels.last();
        if level_open(l, chapter, passed) {
            match front {
                Some(f) => if level_before(l, f) { Some(l) } else { front },
                None => Some(l),
            }
        } else {
            front
        }
    }
}

/// The next level is the first open level by room, then id: it is a level of
/// the table, of the chapter and not passed, and no open level of the chapter
/// has a lower room, or the same room and a lower id; there is none exactly
/// when every level of the chapter was passed.
pub proof fn law_next_level_is_first_open(levels: Seq<DiceLevelRow>, chapter: i32, passed: Seq<i32>)
    ensures
        match next_level_spec(levels, chapter, passed) {
            None => forall|j: int| 0 <= j < levels.len() ==> !(#[trigger] levels[j].chapter == chapter && !passed.contains(levels[j].id)),
            Some(l) => {
                &&& levels.contains(l)
                &&& l.chapter == chapter
                &&& !passed.contains(l.id)
                &&& forall|j: int|
                    0 <= j < levels.len() && (#[trigger] levels[j]).chapter == chapter && !passed.contains(levels[j].id) ==> !(
                    levels[j].room < l.room || (levels[j].room == l.room && levels[j].id < l.id))
            },
        },
    decreases levels.len(),
{
    if levels.len() > 0 {
        let front = levels.drop_last();
        law_next_level_is_first_open(front, chapter, passed);
        let last = levels.last();
        assert forall|j: int| 0 <= j < front.len() implies #[trigger] levels[j] == front[j] by {}
        match next_level_spec(front, chapter, passed) {
            Some(f) => {
                let w = choose|w: int| 0 <= w < front.len() && front[w] == f;
                assert(levels[w] == f);
            },
            None => {},
        }
        if level_open(last, chapter, passed) {
            assert(levels[levels.len() - 1] == last);
        }
    }
}

/// The next level of a chapter; see `next_level_spec`.
pub fn next_dice_hero_level(levels: &[DiceLevelRow], chapter: i32, pass_level_ids: &[i32]) -> (res: Option<DiceLevelRow>)
    ensures
        res == next_level_spec(levels@, chapter, pass_level_ids@),
        match res {
            None => forall|j: int|
                0 <= j < levels@.len() ==> !(#[trigger] levels@[j].chapter == chapter && !pass_level_ids@.contains(levels@[j].id)),
            Some(l) => {
                &&& levels@.contains(l)
                &&& l.chapter == chapter
                &&& !pass_level_ids@.contains(l.id)
                &&& forall|j: int|
                    0 <= j < levels@.len() && (#[trigger] levels@[j]).chapter == chapter && !pass_level_ids@.contains(levels@[j].id)
                        ==> !(levels@[j].room < l.room || (levels@[j].room == l.room && levels@[j].id < l.id))
            },
        },
{
    let mut best: Option<DiceLevelRow> = None;
    let mut i: usize = 0;
    while i < levels.len()
        invariant
            i <= levels@.len(),
            best == next_level_spec(levels@.take(i as int), chapter, pass_level_ids@),
        decreases levels.len() - i,
    {
        assert(levels@.take(i + 1).drop_last() =~= levels@.take(i as int));
        let l = levels[i];
        if l.chapter == chapter && !contains_i32(pass_level_ids, l.id) {
            best = match best {
                Some(f) => if l.room < f.room || (l.room == f.room && l.id < f.id) { Some(l) } else { Some(f) },
                None => Some(l),
            };
        }
        i = i + 1;
    }
    assert(levels@.take(levels@.len() as int) =~= levels@);
    proof {
        law_next_level_is_first_open(levels@, chapter, pass_level_ids@);
    }
    best
}

/// The hero row with id `id` (the first such).
pub open spec fn character_row(characters: Seq<DiceCharacterRow>, id: i32) -> Option<DiceCharacterRow> {
    find_map(characters, character_fn(id))
}

/// A hero row, when its id is `id`.
pub open spec fn character_fn(id: i32) -> spec_fn(DiceCharacterRow) -> Option<DiceCharacterRow> {
    |c: DiceCharacterRow| if c.id == id { Some(c) } else { None }
}

fn find_character(characters: &[DiceCharacterRow], id: i32) -> (res: Option<usize>)
    ensures
        match res {
            Some(i) => i < characters@.len() && character_row(characters@, id) == Some(characters@[i as int]),
            None => character_row(characters@, id) is None,
        },
{
    let ghost f = character_fn(id);
    let mut i: usize = 0;
    while i < characters.len()
        invariant
            i <= characters@.len(),
            f == character_fn(id),
            find_map(characters@.take(i as int), f) is None,
        decreases characters.len() - i,
    {
        assert(characters@.take(i + 1).drop_last() =~= characters@.take(i as int));
        if characters[i].id == id {
            proof {
                lemma_find_map_prefix(characters@, f, i + 1);
            }
            return Some(i);
        }
        i = i + 1;
    }
    assert(characters@.take(characters@.len() as int) =~= characters@);
    None
}

/// The level hands a chapter hero to a story level: its reward is offered, it
/// is not a pick-any-hero level and it is a story level.
pub open spec fn gives_chapter_hero(level: DiceLevelRow) -> bool {
    level.reward_select == RewardSelect::Offered && level.mode != 2 && level.story
}

/// A reward of the given kind.
pub open spec fn reward_item(kind: DiceHeroRewardType, id: i32) -> DiceHeroRewardItem {
    DiceHeroRewardItem { kind: Some(kind), id: Some(id) }
}

/// The rewards a level offers: nothing unless its reward is offered; every
/// hero on a pick-any-hero level (mode `2`); on a story level the hero whose
/// id is the chapter, held between `1` and the number of heroes; else the
/// relic and the skill card that the level id picks (see `nth_reward_row`).
pub open spec fn reward_items_spec(
    level: DiceLevelRow,
    characters: Seq<DiceCharacterRow>,
    relics: Seq<i32>,
    cards: Seq<i32>,
) -> Seq<DiceHeroRewardItem> {
    if level.reward_select != RewardSelect::Offered {
        Seq::empty()
    } else if level.mode == 2 {
        characters.map_values(|c: DiceCharacterRow| reward_item(DiceHeroRewardType::Hero, c.id))
    } else if level.story {
        let n = characters.len() as int;
        let id = if level.chapter < 1 { 1 } else if level.chapter > n { n } else { level.chapter as int };
        seq![reward_item(DiceHeroRewardType::Hero, id as i32)]
    } else {
        let relic = if relics.len() == 0 {
            Seq::empty()
        } else {
            seq![reward_item(DiceHeroRewardType::Relic, relics[((level.id as usize) % (relics.len() as usize)) as int])]
        };
        let card = if cards.len() == 0 {
            Seq::empty()
        } else {
            seq![reward_item(DiceHeroRewardType::SkillCard, cards[((level.id as usize) % (cards.len() as usize)) as int])]
        };
        relic + card
    }
}

/// The rewards a level offers; see `reward_items_spec`. `relics` and `cards`
/// list the ids of the relic and skill-card tables in table order.
pub fn dice_hero_reward_items(
    level: &DiceLevelRow,
    characters: &[DiceCharacterRow],
    relics: &[i32],
    cards: &[i32],
) -> (out: Vec<DiceHeroRewardItem>)
    requires
        gives_chapter_hero(*level) ==> 1 <= characters@.len() <= i32::MAX,
    ensures
        out@ == reward_items_spec(*level, characters@, relics@, cards@),
{
    if level.reward_select != RewardSelect::Offered {
        return Vec::new();
    }
    if level.mode == 2 {
        let mut out: Vec<DiceHeroRewardItem> = Vec::new();
        let mut i: usize = 0;
        while i < characters.len()
            invariant
                i <= characters@.len(),
                out@ == characters@.take(i as int).map_values(|c: DiceCharacterRow| reward_item(DiceHeroRewardType::Hero, c.id)),
            decreases characters.len() - i,
        {
            out.push(DiceHeroRewardItem { kind: Some(DiceHeroRewardType::Hero), id: Some(characters[i].id) });
            i = i + 1;
            assert(out@ =~= characters@.take(i as int).map_values(|c: DiceCharacterRow| reward_item(DiceHeroRewardType::Hero, c.id)));
        }
        assert(characters@.take(characters@.len() as int) =~= characters@);
        assert(out@ =~= reward_items_spec(*level, characters@, relics@, cards@));
        return out;
    }
    if level.story {
        let n = characters.len() as i32;
        let id = if level.chapter < 1 { 1 } else if level.chapter > n { n } else { level.chapter };
        let out = vec![DiceHeroRewardItem { kind: Some(DiceHeroRewardType::Hero), id: Some(id) }];
        assert(out@ =~= reward_items_spec(*level, characters@, relics@, cards@));
        return out;
    }
    let mut out: Vec<DiceHeroRewardItem> = Vec::new();
    if let Some(idx) = nth_reward_row(level.id, relics.len()) {
        out.push(DiceHeroRewardItem { kind: Some(DiceHeroRewardType::Relic), id: Some(relics[idx]) });
    }
    assert(out@ =~= (if relics@.len() == 0 {
        Seq::empty()
    } else {
        seq![reward_item(DiceHeroRewardType::Relic, relics@[((level.id as usize) % (relics@.len() as usize)) as int])]
    }));
    if let Some(idx) = nth_reward_row(level.id, cards.len()) {
        out.push(DiceHeroRewardItem { kind: Some(DiceHeroRewardType::SkillCard), id: Some(cards[idx]) });
    }
    assert(out@ =~= reward_items_spec(*level, characters@, relics@, cards@));
    out
}

/// What one picked reward does to the run `(hero, relics, skill cards)`: a
/// hero becomes the current hero and brings its relics and skill cards (when
/// the table has it); a relic or a skill card joins its list; each list keeps
/// one copy of an id. A reward without an id, or of an unknown kind, does nothing.
pub open spec fn apply_item_spec(
    item: DiceHeroRewardItem,
    run: (i32, Seq<i32>, Seq<i32>),
    characters: Seq<DiceCharacterRow>,
) -> (i32, Seq<i32>, Seq<i32>) {
    match item.id {
        None => run,
        Some(id) => match item.kind {
            Some(DiceHeroRewardType::Hero) => match character_row(characters, id) {
                Some(c) => (
                    id,
                    add_unique_spec(run.1, i32_list_spec(c.relic_ids@, '#')),
                    add_unique_spec(run.2, i32_list_spec(c.skilllist@, '#')),
                ),
                None => (id, run.1, run.2),
            },
            Some(DiceHeroRewardType::Relic) => (run.0, add_unique_spec(run.1, seq![id]), run.2),
            Some(DiceHeroRewardType::SkillCard) => (run.0, run.1, add_unique_spec(run.2, seq![id])),
            None => run,
        },
    }
}

/// Applies one picked reward to the run; see `apply_item_spec`.
pub fn apply_dice_hero_reward_item(
    item: &DiceHeroRewardItem,
    current_hero_id: &mut i32,
    relic_ids: &mut Vec<i32>,
    skill_card_ids: &mut Vec<i32>,
    characters: &[DiceCharacterRow],
)
    ensures
        (*final(current_hero_id), final(relic_ids)@, final(skill_card_ids)@) == apply_item_spec(
            *item,
            (*old(current_hero_id), old(relic_ids)@, old(skill_card_ids)@),
            characters@,
        ),
{
    let id = match item.id {
        Some(id) => id,
        None => {
            return;
        },
    };
    match item.kind {
        Some(DiceHeroRewardType::Hero) => {
            *current_hero_id = id;
            match find_character(characters, id) {
                Some(i) => {
                    let relics = split_i32_list(characters[i].relic_ids.as_str());
                    add_unique(relic_ids, relics.as_slice());
                    let cards = split_i32_list(characters[i].skilllist.as_str());
                    add_unique(skill_card_ids, cards.as_slice());
                },
                None => {},
            }
        },
        Some(DiceHeroRewardType::Relic) => {
            let one = [id];
            assert(one@ =~= seq![id]);
            add_unique(relic_ids, &one);
        },
        Some(DiceHeroRewardType::SkillCard) => {
            let one = [id];
            assert(one@ =~= seq![id]);
            add_unique(skill_card_ids, &one);
        },
        None => {},
    }
}

/// The run after the picks `indexes` of the panel `items`, in order; an index
/// outside the panel is skipped.
pub open spec fn apply_picks_spec(
    items: Seq<DiceHeroRewardItem>,
    indexes: Seq<i32>,
    run: (i32, Seq<i32>, Seq<i32>),
    characters: Seq<DiceCharacterRow>,
) -> (i32, Seq<i32>, Seq<i32>)
    decreases indexes.len(),
{
    if indexes.len() == 0 {
        run
    } else {
        let r = apply_picks_spec(items, indexes.drop_last(), run, characters);
        let ix = indexes.last();
        if 0 <= ix < items.len() {
            apply_item_spec(items[ix as int], r, characters)
        } else {
            r
        }
    }
}

/// A dice-hero run: the current hero and the relics and skill cards gathered.
#[derive(Clone, Debug)]
pub struct DiceHeroRun {
    pub current_hero_id: i32,
    pub relic_ids: Vec<i32>,
    pub skill_card_ids: Vec<i32>,
}

/// The run as a triple.
pub open spec fn run_view(run: DiceHeroRun) -> (i32, Seq<i32>, Seq<i32>) {
    (run.current_hero_id, run.relic_ids@, run.skill_card_ids@)
}

impl DiceHeroRun {
    /// The run as a chapter stores it: the current hero, and the relics and
    /// skill cards as JSON arrays (an unreadable array holds none).
    pub fn from_stored(current_hero_id: i32, relic_ids: &str, skill_card_ids: &str) -> (run: Self)
        ensures
            run_view(run) == (current_hero_id, stored_ids_spec(relic_ids@), stored_ids_spec(skill_card_ids@)),
    {
        DiceHeroRun {
            current_hero_id,
            relic_ids: stored_id_list(relic_ids),
            skill_card_ids: stored_id_list(skill_card_ids),
        }
    }
}

/// Taking rewards from a chapter's panel: with an empty panel nothing happens
/// (`None`); else the picks are applied in order (see `apply_picks_spec`) and
/// the result holds the new run and the level to mark passed, the chapter's
/// next level (see `next_level_spec`) if any.
pub fn dice_hero_get_reward(
    run: DiceHeroRun,
    reward_items: &[DiceHeroRewardItem],
    indexes: &[i32],
    chapter: i32,
    pass_level_ids: &str,
    levels: &[DiceLevelRow],
    characters: &[DiceCharacterRow],
) -> (res: Option<(DiceHeroRun, Option<i32>)>)
    ensures
        reward_items@.len() == 0 ==> res is None,
        reward_items@.len() > 0 ==> (res matches Some((r, done)) && run_view(r) == apply_picks_spec(
            reward_items@,
            indexes@,
            run_view(run),
            characters@,
        ) && done == match next_level_spec(levels@, chapter, stored_ids_spec(pass_level_ids@)) {
            Some(l) => Some(l.id),
            None => None,
        }),
{
    if reward_items.len() == 0 {
        return None;
    }
    let mut run = run;
    let ghost start = run_view(run);
    let mut k: usize = 0;
    while k < indexes.len()
        invariant
            k <= indexes@.len(),
            run_view(run) == apply_picks_spec(reward_items@, indexes@.take(k as int), start, characters@),
        decreases indexes.len() - k,
    {
        assert(indexes@.take(k + 1).drop_last() =~= indexes@.take(k as int));
        let ix = indexes[k];
        if ix >= 0 && (ix as usize) < reward_items.len() {
            let item = reward_items[ix as usize];
            apply_dice_hero_reward_item(
                &item,
                &mut run.current_hero_id,
                &mut run.relic_ids,
                &mut run.skill_card_ids,
                characters,
            );
        }
        k = k + 1;
    }
    assert(indexes@.take(indexes@.len() as int) =~= indexes@);
    let passed = stored_id_list(pass_level_ids);
    let done = match next_dice_hero_level(levels, chapter, passed.as_slice()) {
        Some(l) => Some(l.id),
        None => None,
    };
    Some((run, done))
}

/// The level with id `id` (the first such).
pub open spec fn level_row(levels: Seq<DiceLevelRow>, id: i32) -> Option<DiceLevelRow> {
    find_map(levels, level_fn(id))
}

/// A level row, when its id is `id`.
pub open spec fn level_fn(id: i32) -> spec_fn(DiceLevelRow) -> Option<DiceLevelRow> {
    |l: DiceLevelRow| if l.id == id { Some(l) } else { None }
}

fn find_level(levels: &[DiceLevelRow], id: i32) -> (res: Option<DiceLevelRow>)
    ensures
        res == level_row(levels@, id),
{
    let ghost f = level_fn(id);
    let mut i: usize = 0;
    while i < levels.len()
        invariant
            i <= levels@.len(),
            f == level_fn(id),
            find_map(levels@.take(i as int), f) is None,
        decreases levels.len() - i,
    {
        assert(levels@.take(i + 1).drop_last() =~= levels@.take(i as int));
        if levels[i].id == id {
            proof {
                lemma_find_map_prefix(levels@, f, i + 1);
            }
            return Some(levels[i]);
        }
        i = i + 1;
    }
    assert(levels@.take(levels@.len() as int) =~= levels@);
    None
}

/// The level entered by `level_id`, when it is a story level of `chapter`.
pub open spec fn entered_level(levels: Seq<DiceLevelRow>, chapter: i32, level_id: i32) -> Option<DiceLevelRow> {
    match level_row(levels, level_id) {
        Some(l) => if l.chapter == chapter && l.story { Some(l) } else { None },
        None => None,
    }
}

/// What entering a story level does to its chapter.
#[derive(Clone, Debug, PartialEq, Eq)]
pub enum EnterStoryAction {
    /// Nothing changes.
    Nothing,
    /// The level is passed at once and the chapter's panel emptied.
    CompleteLevel,
    /// The chapter's panel is filled with these rewards.
    SaveItems(Vec<DiceHeroRewardItem>),
}

/// Entering level `level_id` of `chapter`: only a story level of that chapter
/// counts; one without a reward is passed at once, one with rewards puts them
/// on the panel (see `reward_items_spec`) when there are any.
pub fn dice_hero_enter_story(
    levels: &[DiceLevelRow],
    chapter: i32,
    level_id: i32,
    characters: &[DiceCharacterRow],
    relics: &[i32],
    cards: &[i32],
) -> (res: EnterStoryAction)
    requires
        level_row(levels@, level_id) matches Some(l) ==> (l.chapter == chapter && gives_chapter_hero(l) ==> 1
            <= characters@.len() <= i32::MAX),
    ensures
        match entered_level(levels@, chapter, level_id) {
            None => res == EnterStoryAction::Nothing,
            Some(l) => if l.reward_select == RewardSelect::NoReward {
                res == EnterStoryAction::CompleteLevel
            } else {
                let items = reward_items_spec(l, characters@, relics@, cards@);
                if items.len() > 0 {
                    (res matches EnterStoryAction::SaveItems(v) && v@ == items)
                } else {
                    res == EnterStoryAction::Nothing
                }
            },
        },
{
    let level = match find_level(levels, level_id) {
        Some(l) => l,
        None => {
            return EnterStoryAction::Nothing;
        },
    };
    if level.chapter != chapter || !level.story {
        return EnterStoryAction::Nothing;
    }
    if level.reward_select == RewardSelect::NoReward {
        return EnterStoryAction::CompleteLevel;
    }
    let items = dice_hero_reward_items(&level, characters, relics, cards);
    if items.len() > 0 {
        EnterStoryAction::SaveItems(items)
    } else {
        EnterStoryAction::Nothing
    }
}

/// The rewards to put on a chapter's panel: only while the stored panel is the
/// empty list `[]`, and only when the chapter's next level (see
/// `next_level_spec`) is a story level whose reward is offered and has rewards.
pub open spec fn panel_refill_spec(
    panel_text: Seq<char>,
    chapter: i32,
    passed: Seq<i32>,
    levels: Seq<DiceLevelRow>,
    characters: Seq<DiceCharacterRow>,
    relics: Seq<i32>,
    cards: Seq<i32>,
) -> Option<Seq<DiceHeroRewardItem>> {
    if panel_text != "[]"@ {
        None
    } else {
        match next_level_spec(levels, chapter, passed) {
            None => None,
            Some(l) => if l.story && l.reward_select == RewardSelect::Offered {
                let items = reward_items_spec(l, characters, relics, cards);
                if items.len() > 0 { Some(items) } else { None }
            } else {
                None
            },
        }
    }
}

/// The rewards to put on a chapter's panel, if any; see `panel_refill_spec`.
/// `reward_items_json` is the panel as stored.
pub fn ensure_dice_hero_reward_panel(
    reward_items_json: &str,
    chapter: i32,
    pass_level_ids: &[i32],
    levels: &[DiceLevelRow],
    characters: &[DiceCharacterRow],
    relics: &[i32],
    cards: &[i32],
) -> (res: Option<Vec<DiceHeroRewardItem>>)
    requires
        reward_items_json@ == "[]"@ ==> (next_level_spec(levels@, chapter, pass_level_ids@) matches Some(l) ==> (
        gives_chapter_hero(l) ==> 1 <= characters@.len() <= i32::MAX)),
    ensures
        match res {
            Some(v) => panel_refill_spec(reward_items_json@, chapter, pass_level_ids@, levels@, characters@, relics@, cards@)
                == Some(v@),
            None => panel_refill_spec(reward_items_json@, chapter, pass_level_ids@, levels@, characters@, relics@, cards@)
                is None,
        },
{
    let text = chars_of(reward_items_json);
    let empty = chars_of("[]");
    if !chars_eq(text.as_slice(), empty.as_slice()) {
        return None;
    }
    let level = match next_dice_hero_level(levels, chapter, pass_level_ids) {
        Some(l) => l,
        None => {
            return None;
        },
    };
    if !level.story || level.reward_select != RewardSelect::Offered {
        return None;
    }
    let items = dice_hero_reward_items(&level, characters, relics, cards);
    if items.len() > 0 {
        Some(items)
    } else {
        None
    }
}


/// The panel can be refilled without a chapter hero to hand out from an empty
/// hero table (see `ensure_dice_hero_reward_panel`).
pub open spec fn panel_refill_defined(panel_text: Seq<char>, chapter: i32, passed: Seq<i32>, levels: Seq<DiceLevelRow>, characters: Seq<DiceCharacterRow>) -> bool {
    panel_text == "[]"@ ==> (next_level_spec(levels, chapter, passed) matches Some(l) ==> (gives_chapter_hero(l) ==> 1
        <= characters.len() <= i32::MAX))
}

/// The rewards to put on a chapter's panel, from the chapter as stored: the
/// panel's text and the passed levels as a JSON array (see `stored_ids_spec`).
/// Where the next level would hand out a chapter hero from an empty hero table
/// nothing is refilled (`None`); otherwise see `panel_refill_spec`.
pub fn refill_stored_reward_panel(
    reward_items_json: &str,
    chapter: i32,
    pass_level_ids: &str,
    levels: &[DiceLevelRow],
    characters: &[DiceCharacterRow],
    relics: &[i32],
    cards: &[i32],
) -> (res: Option<Vec<DiceHeroRewardItem>>)
    ensures
        ({
            let passed = stored_ids_spec(pass_level_ids@);
            if panel_refill_defined(reward_items_json@, chapter, passed, levels@, characters@) {
                match res {
                    Some(v) => panel_refill_spec(reward_items_json@, chapter, passed, levels@, characters@, relics@, cards@)
                        == Some(v@),
                    None => panel_refill_spec(reward_items_json@, chapter, passed, levels@, characters@, relics@, cards@) is None,
                }
            } else {
                res is None
            }
        }),
{
    let passed = stored_id_list(pass_level_ids);
    let text = chars_of(reward_items_json);
    let empty = chars_of("[]");
    if chars_eq(text.as_slice(), empty.as_slice()) {
        match next_dice_hero_level(levels, chapter, passed.as_slice()) {
            Some(l) => {
                if l.reward_select == RewardSelect::Offered && l.mode != 2 && l.story && (characters.len() < 1
                    || characters.len() > 0x7fff_ffff) {
                    return None;
                }
            },
            None => {},
        }
    }
    ensure_dice_hero_reward_panel(reward_items_json, chapter, passed.as_slice(), levels, characters, relics, cards)
}

/// A dice hero as the game shows it: its id, health and power, and relics.
#[derive(Clone, Debug, PartialEq, Eq)]
pub struct DiceHeroBaseInfo {
    pub id: i32,
    pub hp: i64,
    pub power: i64,
    pub relic_ids: Vec<i32>,
}

/// The hero shown for a run: the current hero's row, else the first row of the
/// table; none when the table is empty.
pub open spec fn shown_hero(characters: Seq<DiceCharacterRow>, current_hero_id: i32) -> Option<DiceCharacterRow> {
    match character_row(characters, current_hero_id) {
        Some(c) => Some(c),
        None => if characters.len() > 0 { Some(characters[0]) } else { None },
    }
}

/// The hero shown for a run (see `shown_hero`), with the run's relics, or the
/// hero's own when the run has none; `None` (an empty view) without a hero.
pub fn dice_hero_base_info(current_hero_id: i32, relic_ids: Vec<i32>, characters: &[DiceCharacterRow]) -> (res: Option<DiceHeroBaseInfo>)
    ensures
        match shown_hero(characters@, current_hero_id) {
            None => res is None,
            Some(c) => (res matches Some(b) && b.id == c.id && b.hp == c.hp && b.power == c.power && b.relic_ids@ == if relic_ids@.len()
                == 0 {
                i32_list_spec(c.relic_ids@, '#')
            } else {
                relic_ids@
            }),
        },
{
    let i = match find_character(characters, current_hero_id) {
        Some(i) => i,
        None => {
            if characters.len() == 0 {
                return None;
            }
            0
        },
    };
    let hero = &characters[i];
    let relics = if relic_ids.len() == 0 {
        split_i32_list(hero.relic_ids.as_str())
    } else {
        relic_ids
    };
    Some(DiceHeroBaseInfo { id: hero.id, hp: hero.hp as i64, power: hero.power as i64, relic_ids: relics })
}

/// One chapter of the dice-hero game as the game shows it.
#[derive(Clone, Debug, PartialEq, Eq)]
pub struct DiceHeroGameInfo {
    pub chapter: i32,
    /// The hero shown; `None` shows an empty hero.
    pub hero_base_info: Option<DiceHeroBaseInfo>,
    pub reward_items: Vec<DiceHeroRewardItem>,
    pub pass_level_ids: Vec<i32>,
}

/// One chapter as the game shows it, from the chapter as stored: the levels
/// passed and the run's relics are JSON arrays (see `stored_ids_spec`); the
/// panel, and the hero of the run (see `dice_hero_base_info`).
pub fn dice_hero_game_info(
    chapter: i32,
    pass_level_ids: &str,
    current_hero_id: i32,
    relic_ids: &str,
    reward_items: Vec<DiceHeroRewardItem>,
    characters: &[DiceCharacterRow],
) -> (res: DiceHeroGameInfo)
    ensures
        res.chapter == chapter,
        res.pass_level_ids@ == stored_ids_spec(pass_level_ids@),
        res.reward_items@ == reward_items@,
        match shown_hero(characters@, current_hero_id) {
            None => res.hero_base_info is None,
            Some(c) => (res.hero_base_info matches Some(b) && b.id == c.id && b.hp == c.hp && b.power == c.power
                && b.relic_ids@ == if stored_ids_spec(relic_ids@).len() == 0 {
                i32_list_spec(c.relic_ids@, '#')
            } else {
                stored_ids_spec(relic_ids@)
            }),
        },
{
    DiceHeroGameInfo {
        chapter,
        hero_base_info: dice_hero_base_info(current_hero_id, stored_id_list(relic_ids), characters),
        reward_items,
        pass_level_ids: stored_id_list(pass_level_ids),
    }
}

/// No id occurs twice.
pub open spec fn no_duplicates(ids: Seq<i32>) -> bool {
    forall|i: int, j: int| 0 <= i < j < ids.len() ==> ids[i] != ids[j]
}

/// Adding ids one copy at a time keeps a list free of duplicates, keeps what
/// it held and adds each new id.
pub proof fn law_add_unique_keeps_one_copy(ids: Seq<i32>, new_ids: Seq<i32>)
    requires
        no_duplicates(ids),
    ensures
        no_duplicates(add_unique_spec(ids, new_ids)),
        forall|x: i32| #[trigger] add_unique_spec(ids, new_ids).contains(x) <==> (ids.contains(x) || new_ids.contains(x)),
    decreases new_ids.len(),
{
    if new_ids.len() > 0 {
        let front = new_ids.drop_last();
        law_add_unique_keeps_one_copy(ids, front);
        let s = add_unique_spec(ids, front);
        let x = new_ids.last();
        assert forall|y: i32| new_ids.contains(y) <==> (front.contains(y) || y == x) by {
            if new_ids.contains(y) {
                let k = choose|k: int| 0 <= k < new_ids.len() && new_ids[k] == y;
                if k < front.len() {
                    assert(front[k] == y);
                }
            }
            if front.contains(y) {
                let k = choose|k: int| 0 <= k < front.len() && front[k] == y;
                assert(new_ids[k] == y);
            }
            if y == x {
                assert(new_ids[new_ids.len() - 1] == y);
            }
        }
        if !s.contains(x) {
            let t = s.push(x);
            assert forall|i: int, j: int| 0 <= i < j < t.len() implies t[i] != t[j] by {
                if j == s.len() {
                    assert(t[i] == s[i]);
                    assert(s.contains(s[i]));
                }
            }
            assert forall|y: i32| #[trigger] t.contains(y) <==> (s.contains(y) || y == x) by {
                if t.contains(y) {
                    let k = choose|k: int| 0 <= k < t.len() && t[k] == y;
                    if k < s.len() {
                        assert(s[k] == y);
                    }
                }
                if s.contains(y) {
                    let k = choose|k: int| 0 <= k < s.len() && s[k] == y;
                    assert(t[k] == y);
                }
                if y == x {
                    assert(t[s.len() as int] == y);
                }
            }
        }
    }
}

/// A picked reward keeps the run's relic and skill-card lists free of duplicates.
pub proof fn law_picks_keep_lists_unique(item: DiceHeroRewardItem, run: (i32, Seq<i32>, Seq<i32>), characters: Seq<DiceCharacterRow>)
    requires
        no_duplicates(run.1),
        no_duplicates(run.2),
    ensures
        no_duplicates(apply_item_spec(item, run, characters).1),
        no_duplicates(apply_item_spec(item, run, characters).2),
{
    match item.id {
        None => {},
        Some(id) => match item.kind {
            Some(DiceHeroRewardType::Hero) => match character_row(characters, id) {
                Some(c) => {
                    law_add_unique_keeps_one_copy(run.1, i32_list_spec(c.relic_ids@, '#'));
                    law_add_unique_keeps_one_copy(run.2, i32_list_spec(c.skilllist@, '#'));
                },
                None => {},
            },
            Some(DiceHeroRewardType::Relic) => {
                law_add_unique_keeps_one_copy(run.1, seq![id]);
            },
            Some(DiceHeroRewardType::SkillCard) => {
                law_add_unique_keeps_one_copy(run.2, seq![id]);
            },
            None => {},
        },
    }
}

/// Taking rewards from a panel, any number of picks in any order, keeps the
/// run's relic and skill-card lists free of duplicates.
pub proof fn law_panel_keeps_lists_unique(
    items: Seq<DiceHeroRewardItem>,
    indexes: Seq<i32>,
    run: (i32, Seq<i32>, Seq<i32>),
    characters: Seq<DiceCharacterRow>,
)
    requires
        no_duplicates(run.1),
        no_duplicates(run.2),
    ensures
        no_duplicates(apply_picks_spec(items, indexes, run, characters).1),
        no_duplicates(apply_picks_spec(items, indexes, run, characters).2),
    decreases indexes.len(),
{
    if indexes.len() > 0 {
        law_panel_keeps_lists_unique(items, indexes.drop_last(), run, characters);
        let r = apply_picks_spec(items, indexes.drop_last(), run, characters);
        let ix = indexes.last();
        if 0 <= ix < items.len() {
            law_picks_keep_lists_unique(items[ix as int], r, characters);
        }
    }
}

} // verus!
