use crate::error::LogicError;
use crate::text::{chars_eq, chars_of, contains_i32, filter_map, find_map, lemma_find_map_prefix, lemma_split_nonempty, parse_i32, parse_i32_spec, split, split_spec};
use vstd::prelude::*;

verus! {

/// The kinds of guide actions the server reads.
#[derive(Clone, Copy, PartialEq, Eq, Debug)]
pub enum GuideActionKind {
    PlayStory,
    EnterEpisode,
    OpenView,
    WaitForStory,
}

/// The tag that opens an action of each kind.
pub open spec fn tag_text(kind: GuideActionKind) -> Seq<char> {
    match kind {
        GuideActionKind::PlayStory => "101"@,
        GuideActionKind::EnterEpisode => "102"@,
        GuideActionKind::OpenView => "105"@,
        GuideActionKind::WaitForStory => "204"@,
    }
}

impl GuideActionKind {
    /// The tag of this kind of action.
    pub fn tag(self) -> (res: &'static str)
        ensures
            res@ == tag_text(self),
    {
        match self {
            GuideActionKind::PlayStory => "101",
            GuideActionKind::EnterEpisode => "102",
            GuideActionKind::OpenView => "105",
            GuideActionKind::WaitForStory => "204",
        }
    }
}

/// A `|`-separated action `tag#id...` read as its id when its tag is `tag`.
pub open spec fn tagged_id_fn(tag: Seq<char>) -> spec_fn(Seq<char>) -> Option<i32> {
    |a: Seq<char>|
        {
            let f = split_spec(a, '#');
            if f[0] == tag && f.len() >= 2 {
                parse_i32_spec(f[1])
            } else {
                None
            }
        }
}

fn tagged_id(action: &[char], tag: &[char]) -> (res: Option<i32>)
    ensures
        res == tagged_id_fn(tag@)(action@),
{
    let fields = split(action, '#');
    proof {
        lemma_split_nonempty(action@, '#');
    }
    assert(fields.deep_view()[0] == fields[0]@);
    if chars_eq(fields[0].as_slice(), tag) && fields.len() >= 2 {
        assert(fields.deep_view()[1] == fields[1]@);
        parse_i32(fields[1].as_slice())
    } else {
        None
    }
}

/// The story a guide step waits for: the id of its first wait-for-story action
/// that names one.
pub fn story_requirement(action: &str) -> (res: Option<i32>)
    ensures
        res == find_map(split_spec(action@, '|'), tagged_id_fn(tag_text(GuideActionKind::WaitForStory))),
{
    let chars = chars_of(action);
    let tag = chars_of(GuideActionKind::WaitForStory.tag());
    let parts = split(chars.as_slice(), '|');
    let ghost f = tagged_id_fn(tag_text(GuideActionKind::WaitForStory));
    let mut i: usize = 0;
    while i < parts.len()
        invariant
            i <= parts@.len(),
            parts.deep_view() == split_spec(action@, '|'),
            tag@ == tag_text(GuideActionKind::WaitForStory),
            f == tagged_id_fn(tag_text(GuideActionKind::WaitForStory)),
            find_map(parts.deep_view().take(i as int), f) is None,
        decreases parts.len() - i,
    {
        let ghost pv = parts.deep_view();
        assert(pv.take(i + 1).drop_last() =~= pv.take(i as int));
        assert(pv[i as int] == parts[i as int]@);
        let id = tagged_id(parts[i].as_slice(), tag.as_slice());
        if id.is_some() {
            proof {
                lemma_find_map_prefix(pv, f, i + 1);
            }
            return id;
        }
        i = i + 1;
    }
    assert(parts.deep_view().take(parts@.len() as int) =~= parts.deep_view());
    None
}

/// The ids of a guide step's actions of the given kind, in order.
pub fn action_ids(action: &str, kind: GuideActionKind) -> (out: Vec<i32>)
    ensures
        out@ == filter_map(split_spec(action@, '|'), tagged_id_fn(tag_text(kind))),
{
    let chars = chars_of(action);
    let tag = chars_of(kind.tag());
    let parts = split(chars.as_slice(), '|');
    let ghost f = tagged_id_fn(tag_text(kind));
    let mut out: Vec<i32> = Vec::new();
    let mut i: usize = 0;
    while i < parts.len()
        invariant
            i <= parts@.len(),
            parts.deep_view() == split_spec(action@, '|'),
            tag@ == tag_text(kind),
            f == tagged_id_fn(tag_text(kind)),
            out@ == filter_map(parts.deep_view().take(i as int), f),
        decreases parts.len() - i,
    {
        let ghost pv = parts.deep_view();
        assert(pv.take(i + 1).drop_last() =~= pv.take(i as int));
        assert(pv[i as int] == parts[i as int]@);
        if let Some(id) = tagged_id(parts[i].as_slice(), tag.as_slice()) {
            out.push(id);
        }
        i = i + 1;
    }
    assert(parts.deep_view().take(parts@.len() as int) =~= parts.deep_view());
    out
}

/// The prefix of an episode condition.
pub open spec fn episode_prefix() -> Seq<char> {
    "EpisodeFinish#"@
}

/// The episode of a condition `EpisodeFinish#id`; none for any other text.
pub open spec fn episode_condition_spec(value: Seq<char>) -> Option<i32> {
    let n = episode_prefix().len();
    if value.len() >= n && value.take(n as int) == episode_prefix() {
        parse_i32_spec(value.skip(n as int))
    } else {
        None
    }
}

/// Reads a guide condition; see `episode_condition_spec`.
pub fn episode_condition(value: &str) -> (res: Option<i32>)
    ensures
        res == episode_condition_spec(value@),
{
    let chars = chars_of(value);
    let prefix = chars_of("EpisodeFinish#");
    if chars.len() < prefix.len() {
        return None;
    }
    let head = crate::text::slice_chars(chars.as_slice(), 0, prefix.len());
    assert(chars@.subrange(0, prefix@.len() as int) =~= chars@.take(prefix@.len() as int));
    if !chars_eq(head.as_slice(), prefix.as_slice()) {
        return None;
    }
    let rest = crate::text::slice_chars(chars.as_slice(), prefix.len(), chars.len());
    assert(chars@.subrange(prefix@.len() as int, chars@.len() as int) =~= chars@.skip(prefix@.len() as int));
    parse_i32(rest.as_slice())
}

/// One step of the guide table.
#[derive(Clone, Debug)]
pub struct GuideStepRow {
    pub id: i32,
    pub step_id: i32,
    pub key_step: i32,
    pub action: String,
}

/// A later step of `guide_id` than `step_id` is a key step.
pub open spec fn key_step_after(steps: Seq<GuideStepRow>, guide_id: i32, step_id: i32) -> bool {
    exists|i: int| 0 <= i < steps.len() && (#[trigger] steps[i]).id == guide_id && steps[i].step_id > step_id && steps[i].key_step != 0
}

/// The progress to store after finishing `step_id`: the step itself while a
/// key step of the guide still follows, else `-1` (the guide is done).
pub fn stored_step_after(steps: &[GuideStepRow], guide_id: i32, step_id: i32) -> (res: i32)
    ensures
        res == if key_step_after(steps@, guide_id, step_id) { step_id } else { -1i32 },
{
    let mut i: usize = 0;
    while i < steps.len()
        invariant
            i <= steps@.len(),
            forall|k: int| 0 <= k < i ==> !((#[trigger] steps@[k]).id == guide_id && steps@[k].step_id > step_id && steps@[k].key_step != 0),
        decreases steps.len() - i,
    {
        if steps[i].id == guide_id && steps[i].step_id > step_id && steps[i].key_step != 0 {
            return step_id;
        }
        i = i + 1;
    }
    -1
}

/// One row of the teaching-summon table: a reward granted when a guide step
/// completes.
#[derive(Clone, Debug)]
pub struct TeachingSummonRow {
    /// The teaching guide this row drives.
    pub id: i32,
    pub grant_guide_id: i32,
    pub grant_step_id: i32,
    pub grant_reward: String,
    /// The step the teaching guide starts from.
    pub previous_step_id: i32,
    /// The summon pool of the teaching draw, and the step it belongs to.
    pub pool_id: i32,
    pub step_id: i32,
}

/// The reward text of a row granted at step `step_id` of guide `guide_id`.
pub open spec fn teaching_reward_fn(guide_id: i32, step_id: i32) -> spec_fn(TeachingSummonRow) -> Option<Seq<char>> {
    |r: TeachingSummonRow|
        if r.grant_guide_id == guide_id && r.grant_step_id == step_id {
            Some(r.grant_reward@)
        } else {
            None
        }
}

/// The reward texts granted when step `step_id` of guide `guide_id` completes,
/// in table order; together they make the step's teaching reward.
pub fn teaching_rewards(rows: &[TeachingSummonRow], guide_id: i32, step_id: i32) -> (out: Vec<String>)
    ensures
        out@.map_values(|t: String| t@) == filter_map(rows@, teaching_reward_fn(guide_id, step_id)),
{
    let ghost f = teaching_reward_fn(guide_id, step_id);
    let mut out: Vec<String> = Vec::new();
    let mut i: usize = 0;
    while i < rows.len()
        invariant
            i <= rows@.len(),
            f == teaching_reward_fn(guide_id, step_id),
            out@.map_values(|t: String| t@) == filter_map(rows@.take(i as int), f),
        decreases rows.len() - i,
    {
        assert(rows@.take(i + 1).drop_last() =~= rows@.take(i as int));
        if rows[i].grant_guide_id == guide_id && rows[i].grant_step_id == step_id {
            let text = rows[i].grant_reward.clone();
            let ghost before = out@;
            out.push(text);
            assert(out@.map_values(|t: String| t@) =~= before.map_values(|t: String| t@).push(rows@[i as int].grant_reward@));
        }
        i = i + 1;
    }
    assert(rows@.take(rows@.len() as int) =~= rows@);
    out
}

/// The step a hero reward is read from: among the steps of `guide_id` after
/// `step_id`, the one with the lowest step id (the first such in table order).
pub open spec fn reward_step(steps: Seq<GuideStepRow>, guide_id: i32, step_id: i32) -> Option<GuideStepRow>
    decreases steps.len(),
{
    if steps.len() == 0 {
        None
    } else {
        let front = reward_step(steps.drop_last(), guide_id, step_id);
        let s = steps.last();
        if s.id == guide_id && s.step_id > step_id {
            match front {
                Some(f) => if s.step_id < f.step_id { Some(s) } else { front },
                None => Some(s),
            }
        } else {
            front
        }
    }
}

/// An action `105#CharacterGetView#hero` read as the hero it shows.
pub open spec fn hero_view_fn() -> spec_fn(Seq<char>) -> Option<i32> {
    |a: Seq<char>|
        {
            let f = split_spec(a, '#');
            if f[0] == tag_text(GuideActionKind::OpenView) && f.len() >= 3 && f[1] == "CharacterGetView"@ {
                parse_i32_spec(f[2])
            } else {
                None
            }
        }
}

fn hero_view(action: &[char], tag: &[char], view: &[char]) -> (res: Option<i32>)
    requires
        tag@ == tag_text(GuideActionKind::OpenView),
        view@ == "CharacterGetView"@,
    ensures
        res == hero_view_fn()(action@),
{
    let fields = split(action, '#');
    proof {
        lemma_split_nonempty(action@, '#');
    }
    assert(fields.deep_view()[0] == fields[0]@);
    if fields.len() >= 3 && chars_eq(fields[0].as_slice(), tag) {
        assert(fields.deep_view()[1] == fields[1]@);
        assert(fields.deep_view()[2] == fields[2]@);
        if chars_eq(fields[1].as_slice(), view) {
            return parse_i32(fields[2].as_slice());
        }
    }
    None
}

/// The hero a guide grants after `step_id`: the first hero shown by an
/// open-view action of the following step (see `reward_step`).
pub fn hero_reward_after_step(steps: &[GuideStepRow], guide_id: i32, step_id: i32) -> (res: Option<i32>)
    ensures
        res == match reward_step(steps@, guide_id, step_id) {
            Some(s) => find_map(split_spec(s.action@, '|'), hero_view_fn()),
            None => None,
        },
{
    let mut best: Option<usize> = None;
    let mut i: usize = 0;
    while i < steps.len()
        invariant
            i <= steps@.len(),
            match best {
                Some(b) => b < i && reward_step(steps@.take(i as int), guide_id, step_id) == Some(steps@[b as int]),
                None => reward_step(steps@.take(i as int), guide_id, step_id) is None,
            },
        decreases steps.len() - i,
    {
        assert(steps@.take(i + 1).drop_last() =~= steps@.take(i as int));
        if steps[i].id == guide_id && steps[i].step_id > step_id {
            match best {
                Some(b) => {
                    if steps[i].step_id < steps[b].step_id {
                        best = Some(i);
                    }
                },
                None => {
                    best = Some(i);
                },
            }
        }
        i = i + 1;
    }
    assert(steps@.take(steps@.len() as int) =~= steps@);
    let b = match best {
        Some(b) => b,
        None => {
            return None;
        },
    };
    let chars = chars_of(steps[b].action.as_str());
    let tag = chars_of(GuideActionKind::OpenView.tag());
    let view = chars_of("CharacterGetView");
    let parts = split(chars.as_slice(), '|');
    let ghost f = hero_view_fn();
    let mut k: usize = 0;
    while k < parts.len()
        invariant
            k <= parts@.len(),
            b < steps@.len(),
            reward_step(steps@, guide_id, step_id) == Some(steps@[b as int]),
            parts.deep_view() == split_spec(steps@[b as int].action@, '|'),
            tag@ == tag_text(GuideActionKind::OpenView),
            view@ == "CharacterGetView"@,
            f == hero_view_fn(),
            find_map(parts.deep_view().take(k as int), f) is None,
        decreases parts.len() - k,
    {
        let ghost pv = parts.deep_view();
        assert(pv.take(k + 1).drop_last() =~= pv.take(k as int));
        assert(pv[k as int] == parts[k as int]@);
        let id = hero_view(parts[k].as_slice(), tag.as_slice(), view.as_slice());
        if id.is_some() {
            proof {
                lemma_find_map_prefix(pv, f, k + 1);
            }
            return id;
        }
        k = k + 1;
    }
    assert(parts.deep_view().take(parts@.len() as int) =~= parts.deep_view());
    None
}

/// One guide of the guide table.
#[derive(Clone, Debug)]
pub struct GuideRow {
    pub id: i32,
    pub is_online: i32,
    pub trigger: String,
    pub invalid: String,
}

/// The guide `guide_id` of the table (the first such).
pub open spec fn guide_row(guides: Seq<GuideRow>, guide_id: i32) -> Option<GuideRow> {
    find_map(guides, guide_fn(guide_id))
}

/// A guide row, when its id is `guide_id`.
pub open spec fn guide_fn(guide_id: i32) -> spec_fn(GuideRow) -> Option<GuideRow> {
    |g: GuideRow| if g.id == guide_id { Some(g) } else { None }
}

/// Step `step_id` of guide `guide_id` (the first such).
pub open spec fn guide_step(steps: Seq<GuideStepRow>, guide_id: i32, step_id: i32) -> Option<GuideStepRow> {
    find_map(steps, guide_step_fn(guide_id, step_id))
}

/// A step row, when it is step `step_id` of guide `guide_id`.
pub open spec fn guide_step_fn(guide_id: i32, step_id: i32) -> spec_fn(GuideStepRow) -> Option<GuideStepRow> {
    |s: GuideStepRow| if s.id == guide_id && s.step_id == step_id { Some(s) } else { None }
}

fn guide_is_online(guides: &[GuideRow], guide_id: i32) -> (res: bool)
    ensures
        res == (guide_row(guides@, guide_id) matches Some(g) && g.is_online != 0),
{
    let ghost f = guide_fn(guide_id);
    let mut i: usize = 0;
    while i < guides.len()
        invariant
            i <= guides@.len(),
            f == guide_fn(guide_id),
            find_map(guides@.take(i as int), f) is None,
        decreases guides.len() - i,
    {
        assert(guides@.take(i + 1).drop_last() =~= guides@.take(i as int));
        if guides[i].id == guide_id {
            proof {
                lemma_find_map_prefix(guides@, f, i + 1);
            }
            return guides[i].is_online != 0;
        }
        i = i + 1;
    }
    assert(guides@.take(guides@.len() as int) =~= guides@);
    false
}

fn find_guide_step(steps: &[GuideStepRow], guide_id: i32, step_id: i32) -> (res: Option<usize>)
    ensures
        match res {
            Some(i) => i < steps@.len() && guide_step(steps@, guide_id, step_id) == Some(steps@[i as int]),
            None => guide_step(steps@, guide_id, step_id) is None,
        },
{
    let ghost f = guide_step_fn(guide_id, step_id);
    let mut i: usize = 0;
    while i < steps.len()
        invariant
            i <= steps@.len(),
            f == guide_step_fn(guide_id, step_id),
            find_map(steps@.take(i as int), f) is None,
        decreases steps.len() - i,
    {
        assert(steps@.take(i + 1).drop_last() =~= steps@.take(i as int));
        if steps[i].id == guide_id && steps[i].step_id == step_id {
            proof {
                lemma_find_map_prefix(steps@, f, i + 1);
            }
            return Some(i);
        }
        i = i + 1;
    }
    assert(steps@.take(steps@.len() as int) =~= steps@);
    None
}

/// The story a step's completion waits for: none for step `0`, else the
/// step's wait-for-story action (see `story_requirement`).
pub open spec fn required_story_spec(step: GuideStepRow) -> Option<i32> {
    find_map(split_spec(step.action@, '|'), tagged_id_fn(tag_text(GuideActionKind::WaitForStory)))
}

/// Whether step `step_id` of guide `guide_id` may be finished, and the story it
/// waited for: refused unless the guide is listed and online; past step `0`,
/// unless the guide has that step and the player has finished the story the
/// step waits for (if any).
pub open spec fn finish_check_spec(
    guides: Seq<GuideRow>,
    steps: Seq<GuideStepRow>,
    guide_id: i32,
    step_id: i32,
    finished_stories: Seq<i32>,
) -> Result<Option<i32>, LogicError> {
    if !(guide_row(guides, guide_id) matches Some(g) && g.is_online != 0) {
        Err(LogicError::InvalidRequest)
    } else if step_id == 0 {
        Ok(None)
    } else {
        match guide_step(steps, guide_id, step_id) {
            None => Err(LogicError::InvalidRequest),
            Some(s) => match required_story_spec(s) {
                Some(story) => if finished_stories.contains(story) {
                    Ok(Some(story))
                } else {
                    Err(LogicError::InvalidRequest)
                },
                None => Ok(None),
            },
        }
    }
}

/// Checks a request to finish step `step_id` of guide `guide_id`, given the
/// stories the player has finished; see `finish_check_spec`. The answer is the
/// story the step waited for, if any.
pub fn guide_finish_check(
    guides: &[GuideRow],
    steps: &[GuideStepRow],
    guide_id: i32,
    step_id: i32,
    finished_stories: &[i32],
) -> (res: Result<Option<i32>, LogicError>)
    ensures
        res == finish_check_spec(guides@, steps@, guide_id, step_id, finished_stories@),
{
    if !guide_is_online(guides, guide_id) {
        return Err(LogicError::InvalidRequest);
    }
    if step_id == 0 {
        return Ok(None);
    }
    match find_guide_step(steps, guide_id, step_id) {
        Some(i) => match story_requirement(steps[i].action.as_str()) {
            Some(story) => if contains_i32(finished_stories, story) {
                Ok(Some(story))
            } else {
                Err(LogicError::InvalidRequest)
            },
            None => Ok(None),
        },
        None => Err(LogicError::InvalidRequest),
    }
}

/// What finishing a guide step stores and grants.
#[derive(Clone, Copy, Debug, PartialEq, Eq)]
pub struct GuideFinishPlan {
    /// The player had not finished this step before: its teaching rewards (and
    /// its hero) are granted.
    pub first_completion: bool,
    /// The progress stored for the guide (see `stored_step_after`).
    pub stored_step_id: i32,
    /// The hero a story step hands out, to put in the common team; it is
    /// granted on a first completion unless the player has it already.
    pub reward_hero: Option<i32>,
}

/// A step is finished for the first time: the guide has no progress yet, or
/// its progress is neither done (`-1`) nor at or past the step.
pub open spec fn first_completion_spec(previous: Option<i32>, step_id: i32) -> bool {
    match previous {
        None => true,
        Some(p) => p != -1 && p < step_id,
    }
}

/// Plans finishing step `step_id` of guide `guide_id` once `guide_finish_check`
/// let it through: `required_story` is its answer, `previous` the guide's
/// stored progress. The hero is handed out only by a step that waited for a
/// story (see `hero_reward_after_step`).
pub fn guide_finish_plan(
    steps: &[GuideStepRow],
    guide_id: i32,
    step_id: i32,
    required_story: Option<i32>,
    previous: Option<i32>,
) -> (res: GuideFinishPlan)
    ensures
        res.first_completion == first_completion_spec(previous, step_id),
        res.stored_step_id == if key_step_after(steps@, guide_id, step_id) { step_id } else { -1i32 },
        res.reward_hero == match required_story {
            None => None,
            Some(_) => match reward_step(steps@, guide_id, step_id) {
                Some(s) => find_map(split_spec(s.action@, '|'), hero_view_fn()),
                None => None,
            },
        },
{
    let first_completion = match previous {
        None => true,
        Some(p) => p != -1 && p < step_id,
    };
    let stored_step_id = stored_step_after(steps, guide_id, step_id);
    let reward_hero = match required_story {
        None => None,
        Some(_) => hero_reward_after_step(steps, guide_id, step_id),
    };
    GuideFinishPlan { first_completion, stored_step_id, reward_hero }
}

/// The hero of a finished step is granted: on a first completion, when the
/// step hands one out and the player does not own it (`owned`).
pub fn grants_guide_hero(plan: &GuideFinishPlan, owned: bool) -> (res: bool)
    ensures
        res == (plan.first_completion && plan.reward_hero is Some && !owned),
{
    plan.first_completion && plan.reward_hero.is_some() && !owned
}

/// The progress stored after finishing step `step_id` of guide `guide_id`
/// (see `stored_step_after`).
pub open spec fn stored_after_spec(steps: Seq<GuideStepRow>, guide_id: i32, step_id: i32) -> i32 {
    if key_step_after(steps, guide_id, step_id) { step_id } else { -1i32 }
}

/// A guide step grants its rewards once: once the progress that
/// `guide_finish_plan` gives is stored, planning the same step again is no first
/// completion, so neither its teaching rewards nor its hero are granted again.
pub proof fn law_guide_step_granted_once(steps: Seq<GuideStepRow>, guide_id: i32, step_id: i32)
    ensures
        !first_completion_spec(Some(stored_after_spec(steps, guide_id, step_id)), step_id),
{
}

/// The trigger of the opening tutorial's guide.
pub open spec fn opening_trigger() -> Seq<char> {
    "PlayerLv#1"@
}

/// The opening tutorial's guide: the first online guide that the first player
/// level triggers.
pub open spec fn opening_guide(guides: Seq<GuideRow>) -> Option<GuideRow> {
    find_map(guides, opening_fn())
}

/// A guide row, when it is online and triggered by the first player level.
pub open spec fn opening_fn() -> spec_fn(GuideRow) -> Option<GuideRow> {
    |g: GuideRow| if g.is_online != 0 && g.trigger@ == opening_trigger() { Some(g) } else { None }
}

/// The episodes that the steps of guide `guide_id` enter, step by step in
/// table order.
pub open spec fn tutorial_episodes(steps: Seq<GuideStepRow>, guide_id: i32) -> Seq<i32>
    decreases steps.len(),
{
    if steps.len() == 0 {
        Seq::empty()
    } else {
        let front = tutorial_episodes(steps.drop_last(), guide_id);
        if steps.last().id == guide_id {
            front + filter_map(split_spec(steps.last().action@, '|'), tagged_id_fn(tag_text(GuideActionKind::EnterEpisode)))
        } else {
            front
        }
    }
}

/// The teaching rows that guide `guide_id` grants, in table order.
pub open spec fn teaching_rows_of(teachings: Seq<TeachingSummonRow>, guide_id: i32) -> Seq<TeachingSummonRow> {
    filter_map(teachings, teaching_fn(guide_id))
}

/// A teaching row, when guide `guide_id` grants it.
pub open spec fn teaching_fn(guide_id: i32) -> spec_fn(TeachingSummonRow) -> Option<TeachingSummonRow> {
    |t: TeachingSummonRow| if t.grant_guide_id == guide_id { Some(t) } else { None }
}

/// A guide the tutorial skip completes on the way, with the episode to clear
/// for it: a guide other than the teaching ones whose trigger is clearing an
/// episode of the tutorial and that an episode's clearing ends.
pub open spec fn prerequisite_fn(episodes: Seq<i32>, teaching_ids: Seq<i32>) -> spec_fn(GuideRow) -> Option<(i32, i32)> {
    |g: GuideRow|
        if !teaching_ids.contains(g.id) && (episode_condition_spec(g.trigger@) matches Some(e) && episodes.contains(e))
            && episode_condition_spec(g.invalid@) is Some {
            Some((g.id, episode_condition_spec(g.invalid@)->0))
        } else {
            None
        }
}

/// What skipping the opening tutorial goes through.
#[derive(Clone, Debug)]
pub struct TutorialSkipPlan {
    /// The opening tutorial's guide.
    pub guide_id: i32,
    /// The guides completed on the way, each with the episode it clears, in
    /// table order.
    pub prerequisites: Vec<(i32, i32)>,
    /// The teaching guides the opening tutorial grants, in table order.
    pub teachings: Vec<TeachingSummonRow>,
}

fn tutorial_episode_ids(steps: &[GuideStepRow], guide_id: i32) -> (out: Vec<i32>)
    ensures
        out@ == tutorial_episodes(steps@, guide_id),
{
    let mut out: Vec<i32> = Vec::new();
    let mut i: usize = 0;
    while i < steps.len()
        invariant
            i <= steps@.len(),
            out@ == tutorial_episodes(steps@.take(i as int), guide_id),
        decreases steps.len() - i,
    {
        assert(steps@.take(i + 1).drop_last() =~= steps@.take(i as int));
        if steps[i].id == guide_id {
            let ids = action_ids(steps[i].action.as_str(), GuideActionKind::EnterEpisode);
            let ghost before = out@;
            let mut k: usize = 0;
            while k < ids.len()
                invariant
                    k <= ids@.len(),
                    out@ == before + ids@.take(k as int),
                decreases ids.len() - k,
            {
                out.push(ids[k]);
                assert(ids@.take(k + 1) =~= ids@.take(k as int).push(ids@[k as int]));
                assert(out@ =~= before + ids@.take(k + 1));
                k = k + 1;
            }
            assert(ids@.take(ids@.len() as int) =~= ids@);
        }
        i = i + 1;
    }
    assert(steps@.take(steps@.len() as int) =~= steps@);
    out
}

fn copy_teaching(t: &TeachingSummonRow) -> (res: TeachingSummonRow)
    ensures
        res == *t,
{
    TeachingSummonRow {
        id: t.id,
        grant_guide_id: t.grant_guide_id,
        grant_step_id: t.grant_step_id,
        grant_reward: t.grant_reward.clone(),
        previous_step_id: t.previous_step_id,
        pool_id: t.pool_id,
        step_id: t.step_id,
    }
}

fn find_opening(guides: &[GuideRow]) -> (res: Option<usize>)
    ensures
        match res {
            Some(i) => i < guides@.len() && opening_guide(guides@) == Some(guides@[i as int]),
            None => opening_guide(guides@) is None,
        },
{
    proof {
        reveal_strlit("PlayerLv#1");
    }
    let trigger = chars_of("PlayerLv#1");
    let ghost fo = opening_fn();
    let mut i: usize = 0;
    while i < guides.len()
        invariant
            i <= guides@.len(),
            fo == opening_fn(),
            trigger@ == opening_trigger(),
            find_map(guides@.take(i as int), fo) is None,
        decreases guides.len() - i,
    {
        assert(guides@.take(i + 1).drop_last() =~= guides@.take(i as int));
        let t = chars_of(guides[i].trigger.as_str());
        if guides[i].is_online != 0 && chars_eq(t.as_slice(), trigger.as_slice()) {
            proof {
                lemma_find_map_prefix(guides@, fo, i + 1);
            }
            return Some(i);
        }
        i = i + 1;
    }
    assert(guides@.take(guides@.len() as int) =~= guides@);
    None
}

/// Plans skipping the opening tutorial: refused without an opening guide
/// (see `opening_guide`); else that guide, the guides completed on the way
/// (see `prerequisite_fn`) and the teaching guides it grants.
pub fn tutorial_skip_plan(guides: &[GuideRow], steps: &[GuideStepRow], teachings: &[TeachingSummonRow]) -> (res: Result<
    TutorialSkipPlan,
    LogicError,
>)
    ensures
        match opening_guide(guides@) {
            None => res == Err::<TutorialSkipPlan, LogicError>(LogicError::InvalidRequest),
            Some(g) => res matches Ok(p) && ({
                let teach = teaching_rows_of(teachings@, g.id);
                &&& p.guide_id == g.id
                &&& p.teachings@ == teach
                &&& p.prerequisites@ == filter_map(
                    guides@,
                    prerequisite_fn(tutorial_episodes(steps@, g.id), teach.map_values(|t: TeachingSummonRow| t.id)),
                )
            }),
        },
{
    let gi = match find_opening(guides) {
        Some(gi) => gi,
        None => {
            return Err(LogicError::InvalidRequest);
        },
    };
    let gid = guides[gi].id;
    assert(opening_guide(guides@) == Some(guides@[gi as int]));
    let episodes = tutorial_episode_ids(steps, gid);
    let ghost ft = teaching_fn(gid);
    let mut teach: Vec<TeachingSummonRow> = Vec::new();
    let mut teach_ids: Vec<i32> = Vec::new();
    let mut k: usize = 0;
    while k < teachings.len()
        invariant
            k <= teachings@.len(),
            ft == teaching_fn(gid),
            teach@ == filter_map(teachings@.take(k as int), ft),
            teach_ids@ == teach@.map_values(|t: TeachingSummonRow| t.id),
        decreases teachings.len() - k,
    {
        assert(teachings@.take(k + 1).drop_last() =~= teachings@.take(k as int));
        if teachings[k].grant_guide_id == gid {
            let row = copy_teaching(&teachings[k]);
            teach_ids.push(row.id);
            teach.push(row);
            assert(teach_ids@ =~= teach@.map_values(|t: TeachingSummonRow| t.id));
        }
        k = k + 1;
    }
    assert(teachings@.take(teachings@.len() as int) =~= teachings@);
    let ghost fp = prerequisite_fn(episodes@, teach_ids@);
    let mut pre: Vec<(i32, i32)> = Vec::new();
    let mut j: usize = 0;
    while j < guides.len()
        invariant
            j <= guides@.len(),
            fp == prerequisite_fn(episodes@, teach_ids@),
            pre@ == filter_map(guides@.take(j as int), fp),
        decreases guides.len() - j,
    {
        assert(guides@.take(j + 1).drop_last() =~= guides@.take(j as int));
        let g = &guides[j];
        if !contains_i32(teach_ids.as_slice(), g.id) {
            match episode_condition(g.trigger.as_str()) {
                Some(e) => if contains_i32(episodes.as_slice(), e) {
                    match episode_condition(g.invalid.as_str()) {
                        Some(cleared) => {
                            pre.push((g.id, cleared));
                        },
                        None => {},
                    }
                },
                None => {},
            }
        }
        j = j + 1;
    }
    assert(guides@.take(guides@.len() as int) =~= guides@);
    Ok(TutorialSkipPlan { guide_id: gid, prerequisites: pre, teachings: teach })
}

/// A guide is done: its stored progress is `-1`.
pub open spec fn guide_done_spec(progress: Option<i32>) -> bool {
    progress == Some(-1i32)
}

/// Whether a guide is done; see `guide_done_spec`. Skipping the tutorial
/// finishes only guides that are not.
pub fn guide_done(progress: Option<i32>) -> (res: bool)
    ensures
        res == guide_done_spec(progress),
{
    match progress {
        Some(p) => p == -1,
        None => false,
    }
}

/// What skipping does with one teaching guide, given its stored progress.
#[derive(Clone, Copy, Debug, PartialEq, Eq)]
pub enum TeachingSkip {
    /// The teaching guide is done: nothing happens.
    Done,
    /// It is finished: `start` stores its starting step first (it has no
    /// progress yet); `summon` makes its teaching draw first (it is still at its
    /// starting step).
    Finish { start: bool, summon: bool },
}

/// What the skip does with a teaching guide whose stored progress is `progress`.
pub open spec fn teaching_skip_spec(row: TeachingSummonRow, progress: Option<i32>) -> TeachingSkip {
    match progress {
        Some(p) => if p == -1 {
            TeachingSkip::Done
        } else {
            TeachingSkip::Finish { start: false, summon: p == row.previous_step_id }
        },
        None => TeachingSkip::Finish { start: true, summon: true },
    }
}

/// Decides one teaching guide of the tutorial skip from its stored progress;
/// see `teaching_skip_spec`.
pub fn teaching_skip(row: &TeachingSummonRow, progress: Option<i32>) -> (res: TeachingSkip)
    ensures
        res == teaching_skip_spec(*row, progress),
{
    match progress {
        Some(p) => if p == -1 {
            TeachingSkip::Done
        } else {
            TeachingSkip::Finish { start: false, summon: p == row.previous_step_id }
        },
        None => TeachingSkip::Finish { start: true, summon: true },
    }
}

/// A second skip grants a teaching guide nothing again: once the skip has
/// finished it at `step_id` and stored the progress that finishing gives, the
/// next skip either finds it done or finishes it again without a first
/// completion; it draws again only when that stored progress is the guide's
/// own starting step, which is then left out here.
pub proof fn law_second_skip_grants_no_teaching_again(row: TeachingSummonRow, steps: Seq<GuideStepRow>, step_id: i32)
    requires
        stored_after_spec(steps, row.id, step_id) != row.previous_step_id,
    ensures
        ({
            let stored = stored_after_spec(steps, row.id, step_id);
            &&& match teaching_skip_spec(row, Some(stored)) {
                TeachingSkip::Done => true,
                TeachingSkip::Finish { start, summon } => !start && !summon,
            }
            &&& !first_completion_spec(Some(stored), step_id)
        }),
{
}

/// Keeps the ids of the guide's players apart from the guide's work.
#[derive(Clone, Copy, Debug)]
pub struct GuideManager {
    player_id: i64,
}

impl GuideManager {
    /// The guide of the player `player_id`.
    pub fn new(player_id: i64) -> (m: Self)
        ensures
            m.player_id() == player_id,
    {
        GuideManager { player_id }
    }

    /// The player this guide belongs to.
    pub closed spec fn player_id(self) -> i64 {
        self.player_id
    }
}

/// The material changes gathered while skipping the opening tutorial.
#[derive(Clone, Debug)]
pub struct TutorialSkip {
    pub material_changes: Vec<(u32, u32, i32)>,
}

impl Default for TutorialSkip {
    fn default() -> (s: Self)
        ensures
            s.material_changes@.len() == 0,
    {
        TutorialSkip { material_changes: Vec::new() }
    }
}

impl TutorialSkip {
    /// Adds the changes of one finished guide, after those gathered so far.
    pub fn extend(&mut self, changes: Vec<(u32, u32, i32)>)
        ensures
            final(self).material_changes@ == old(self).material_changes@ + changes@,
    {
        let mut changes = changes;
        self.material_changes.append(&mut changes);
    }
}

} // verus!
