use crate::error::LogicError;
use crate::sorting::{lemma_sorted_keeps, sort_by_key_stable, stably_sorted};
use crate::text::{chars_of, copy_i32s, filter_map, find_map, i32_list, i32_list_spec, lemma_find_map_prefix, split, split_spec};
use vstd::prelude::*;

verus! {

// ---------------------------------------------------------------------------
// Number lists of the story tables
// ---------------------------------------------------------------------------

/// A `|`-separated piece read as a row: `None` for an empty piece or one that
/// holds no number.
pub open spec fn row_of_piece_fn() -> spec_fn(Seq<char>) -> Option<Seq<i32>> {
    |p: Seq<char>|
        if p.len() == 0 {
            None
        } else if i32_list_spec(p, '#').len() == 0 {
            None
        } else {
            Some(i32_list_spec(p, '#'))
        }
}

/// Rows of `#`-separated numbers, rows separated by `|`; empty rows dropped.
pub open spec fn i32_rows_spec(value: Seq<char>) -> Seq<Seq<i32>> {
    filter_map(split_spec(value, '|'), row_of_piece_fn())
}

/// `value.split(separator)` with every piece that is not an `i32` skipped.
pub fn parse_i32_list(value: &str, separator: char) -> (out: Vec<i32>)
    ensures
        out@ == i32_list_spec(value@, separator),
{
    let chars = chars_of(value);
    i32_list(chars.as_slice(), separator)
}

/// Parses `a#b#c|d#e` into rows of numbers, dropping empty rows.
pub fn parse_i32_rows(value: &str) -> (rows: Vec<Vec<i32>>)
    ensures
        rows.deep_view() == i32_rows_spec(value@),
{
    let chars = chars_of(value);
    let parts = split(chars.as_slice(), '|');
    let mut rows: Vec<Vec<i32>> = Vec::new();
    let mut i: usize = 0;
    while i < parts.len()
        invariant
            i <= parts@.len(),
            parts.deep_view() == split_spec(value@, '|'),
            rows.deep_view() == filter_map(parts.deep_view().take(i as int), row_of_piece_fn()),
        decreases parts.len() - i,
    {
        let ghost pv = parts.deep_view();
        assert(pv.take(i + 1).drop_last() =~= pv.take(i as int));
        assert(pv[i as int] == parts[i as int]@);
        if parts[i].len() > 0 {
            let row = i32_list(parts[i].as_slice(), '#');
            if row.len() > 0 {
                let ghost before = rows.deep_view();
                let ghost rv = row@;
                assert(row.deep_view() =~= rv);
                rows.push(row);
                assert(rows.deep_view() =~= before.push(rv));
            }
        }
        i = i + 1;
    }
    assert(parts.deep_view().take(parts@.len() as int) =~= parts.deep_view());
    rows
}

/// The same values on both sides, counted by length: every item on the left
/// occurs on the right and the lengths agree.
pub open spec fn same_set_spec(left: Seq<i32>, right: Seq<i32>) -> bool {
    left.len() == right.len() && forall|i: int| 0 <= i < left.len() ==> right.contains(
        #[trigger] left[i],
    )
}

/// Whether `left` and `right` have the same length and every item of `left`
/// occurs in `right`.
pub fn same_set(left: &[i32], right: &[i32]) -> (res: bool)
    ensures
        res == same_set_spec(left@, right@),
{
    if left.len() != right.len() {
        return false;
    }
    let mut i: usize = 0;
    while i < left.len()
        invariant
            i <= left@.len(),
            forall|k: int| 0 <= k < i ==> right@.contains(#[trigger] left@[k]),
        decreases left.len() - i,
    {
        let v = left[i];
        let mut j: usize = 0;
        let mut found = false;
        while j < right.len()
            invariant
                j <= right@.len(),
                found <==> exists|m: int| 0 <= m < j && right@[m] == v,
            decreases right.len() - j,
        {
            if right[j] == v {
                found = true;
            }
            j = j + 1;
        }
        if !found {
            assert(!right@.contains(left@[i as int]));
            return false;
        }
        i = i + 1;
    }
    true
}

/// `steps` is where `branch` starts.
pub open spec fn prefix_spec(branch: Seq<i32>, steps: Seq<i32>) -> bool {
    steps.len() <= branch.len() && branch.take(steps.len() as int) == steps
}

/// Whether `branch` begins with all of `steps`.
pub fn same_prefix(branch: &[i32], steps: &[i32]) -> (res: bool)
    ensures
        res == prefix_spec(branch@, steps@),
{
    if branch.len() < steps.len() {
        return false;
    }
    let mut i: usize = 0;
    while i < steps.len()
        invariant
            i <= steps@.len(),
            steps@.len() <= branch@.len(),
            forall|k: int| 0 <= k < i ==> branch@[k] == steps@[k],
        decreases steps.len() - i,
    {
        if branch[i] != steps[i] {
            assert(branch@.take(steps@.len() as int)[i as int] != steps@[i as int]);
            return false;
        }
        i = i + 1;
    }
    assert(branch@.take(steps@.len() as int) =~= steps@);
    true
}

// ---------------------------------------------------------------------------
// The step table of one story
// ---------------------------------------------------------------------------

/// One row of a story's step table, with its number lists already read.
#[derive(Clone, Debug)]
pub struct Act165StepConfig {
    pub step_id: i32,
    /// The step ends the story (its answer list is `-1`).
    pub is_ending: bool,
    /// Answer rows: the step that an answer leads to, then the keywords it takes.
    pub answers: Vec<Vec<i32>>,
    /// Rows of an ending step, then the steps that lead to it.
    pub next_conditions: Vec<Vec<i32>>,
    /// The keywords a player may choose at this step.
    pub optional_keywords: Vec<i32>,
}

/// The answer column `-1`, which marks an ending step.
pub open spec fn is_ending_text(s: Seq<char>) -> bool {
    s == seq!['-', '1']
}

impl Act165StepConfig {
    /// Reads one step row from its text columns.
    pub fn from_row(
        step_id: i32,
        answers_keyword_ids: &str,
        next_step_condition_ids: &str,
        optional_keyword_ids: &str,
    ) -> (row: Self)
        ensures
            row.step_id == step_id,
            row.is_ending == is_ending_text(answers_keyword_ids@),
            row.answers.deep_view() == i32_rows_spec(answers_keyword_ids@),
            row.next_conditions.deep_view() == i32_rows_spec(next_step_condition_ids@),
            row.optional_keywords@ == i32_list_spec(optional_keyword_ids@, '#'),
    {
        let text = chars_of(answers_keyword_ids);
        let is_ending = text.len() == 2 && text[0] == '-' && text[1] == '1';
        proof {
            if text@.len() == 2 && text@[0] == '-' && text@[1] == '1' {
                assert(text@ =~= seq!['-', '1']);
            }
        }
        Act165StepConfig {
            step_id,
            is_ending,
            answers: parse_i32_rows(answers_keyword_ids),
            next_conditions: parse_i32_rows(next_step_condition_ids),
            optional_keywords: parse_i32_list(optional_keyword_ids, '#'),
        }
    }
}

/// The row of `step_id`, if the table has one (the first such row).
pub open spec fn find_step(steps: Seq<Act165StepConfig>, step_id: i32) -> Option<Act165StepConfig> {
    find_map(steps, step_row_fn(step_id))
}

/// A row, when it is the row of `step_id`.
pub open spec fn step_row_fn(step_id: i32) -> spec_fn(Act165StepConfig) -> Option<Act165StepConfig> {
    |row: Act165StepConfig| if row.step_id == step_id { Some(row) } else { None }
}

/// Some row marks `step_id` as an ending.
pub open spec fn is_ending_step_spec(steps: Seq<Act165StepConfig>, step_id: i32) -> bool {
    exists|i: int| 0 <= i < steps.len() && (#[trigger] steps[i]).step_id == step_id && steps[i].is_ending
}

/// The first row of `step_id` in the table.
fn find_step_index(steps: &[Act165StepConfig], step_id: i32) -> (res: Option<usize>)
    ensures
        match res {
            Some(i) => i < steps@.len() && find_step(steps@, step_id) == Some(steps@[i as int]),
            None => find_step(steps@, step_id) is None,
        },
{
    let ghost f = step_row_fn(step_id);
    let mut i: usize = 0;
    while i < steps.len()
        invariant
            i <= steps@.len(),
            f == step_row_fn(step_id),
            find_map(steps@.take(i as int), f) is None,
        decreases steps.len() - i,
    {
        assert(steps@.take(i + 1).drop_last() =~= steps@.take(i as int));
        if steps[i].step_id == step_id {
            proof {
                lemma_find_map_prefix(steps@, f, i + 1);
            }
            return Some(i);
        }
        i = i + 1;
    }
    assert(steps@.take(steps@.len() as int) =~= steps@);
    None
}

/// Whether some row marks `step_id` as an ending step.
pub fn is_ending_step(steps: &[Act165StepConfig], step_id: i32) -> (res: bool)
    ensures
        res == is_ending_step_spec(steps@, step_id),
{
    let mut i: usize = 0;
    while i < steps.len()
        invariant
            i <= steps@.len(),
            forall|k: int| 0 <= k < i ==> !((#[trigger] steps@[k]).step_id == step_id && steps@[k].is_ending),
        decreases steps.len() - i,
    {
        if steps[i].step_id == step_id && steps[i].is_ending {
            return true;
        }
        i = i + 1;
    }
    false
}

/// A condition row `ending#step#step...` of the row `step_id`, read as a branch:
/// the listed steps, then `step_id`, then the ending. Only rows whose first
/// number is an ending step give a branch.
pub open spec fn branch_of_fn(steps: Seq<Act165StepConfig>, step_id: i32) -> spec_fn(Seq<i32>) -> Option<Seq<i32>> {
    |values: Seq<i32>|
        if values.len() > 0 && is_ending_step_spec(steps, values[0]) {
            Some(values.skip(1).push(step_id).push(values[0]))
        } else {
            None
        }
}

/// The branches that the rows `rows` of the table `steps` give, in table order.
pub open spec fn branches_from(steps: Seq<Act165StepConfig>, rows: Seq<Act165StepConfig>) -> Seq<Seq<i32>>
    decreases rows.len(),
{
    if rows.len() == 0 {
        Seq::empty()
    } else {
        branches_from(steps, rows.drop_last()) + filter_map(
            rows.last().next_conditions.deep_view(),
            branch_of_fn(steps, rows.last().step_id),
        )
    }
}

/// Every path of the story that reaches an ending, in table order.
pub open spec fn branches_spec(steps: Seq<Act165StepConfig>) -> Seq<Seq<i32>> {
    branches_from(steps, steps)
}

fn branch_for(values: &[i32], step_id: i32) -> (out: Vec<i32>)
    requires
        values@.len() > 0,
    ensures
        out@ == values@.skip(1).push(step_id).push(values@[0]),
{
    let mut out = skip_first(values);
    out.push(step_id);
    out.push(values[0]);
    out
}

/// All branches of the story: for each step row, each condition row whose
/// first number is an ending step gives the listed steps, the row's step and
/// that ending.
pub fn act165_branches(steps: &[Act165StepConfig]) -> (out: Vec<Vec<i32>>)
    ensures
        out.deep_view() == branches_spec(steps@),
{
    let mut out: Vec<Vec<i32>> = Vec::new();
    let mut i: usize = 0;
    while i < steps.len()
        invariant
            i <= steps@.len(),
            out.deep_view() == branches_from(steps@, steps@.take(i as int)),
        decreases steps.len() - i,
    {
        let ghost rows = steps@.take(i + 1);
        assert(rows.drop_last() =~= steps@.take(i as int));
        let ghost f = branch_of_fn(steps@, steps@[i as int].step_id);
        let ghost conds = steps@[i as int].next_conditions.deep_view();
        let ghost base = out.deep_view();
        let mut j: usize = 0;
        assert(conds.take(0) =~= Seq::<Seq<i32>>::empty());
        assert(base + filter_map(conds.take(0), f) =~= base);
        while j < steps[i].next_conditions.len()
            invariant
                i < steps@.len(),
                j <= conds.len(),
                conds == steps@[i as int].next_conditions.deep_view(),
                f == branch_of_fn(steps@, steps@[i as int].step_id),
                out.deep_view() == base + filter_map(conds.take(j as int), f),
            decreases conds.len() - j,
        {
            assert(conds.take(j + 1).drop_last() =~= conds.take(j as int));
            let values = &steps[i].next_conditions[j];
            assert(values@ == conds[j as int]);
            if values.len() > 0 && is_ending_step(steps, values[0]) {
                let b = branch_for(values.as_slice(), steps[i].step_id);
                let ghost before = out.deep_view();
                let ghost bv = b@;
                assert(b.deep_view() =~= bv);
                out.push(b);
                assert(out.deep_view() =~= before.push(bv));
                assert(base + filter_map(conds.take(j + 1), f) =~= (base + filter_map(
                    conds.take(j as int),
                    f,
                )).push(bv));
            }
            j = j + 1;
        }
        assert(conds.take(conds.len() as int) =~= conds);
        assert(rows.last() == steps@[i as int]);
        i = i + 1;
    }
    assert(steps@.take(steps@.len() as int) =~= steps@);
    out
}

// ---------------------------------------------------------------------------
// A player's progress through one story
// ---------------------------------------------------------------------------

/// A step the player has reached, with the keywords chosen there.
#[derive(Clone, Debug)]
pub struct Act165StepState {
    pub step_id: i32,
    pub keywords: Vec<i32>,
}

/// An ending the player has reached, with the path that led to it.
#[derive(Clone, Debug)]
pub struct Act165EndingState {
    pub ending_id: i32,
    pub steps: Vec<Act165StepState>,
}

/// The stored progress of one story.
#[derive(Clone, Debug)]
pub struct Act165State {
    pub infer_state: i32,
    pub gained_ending_count: i32,
    pub steps: Vec<Act165StepState>,
    pub endings: Vec<Act165EndingState>,
}

impl Default for Act165State {
    fn default() -> (s: Self)
        ensures
            s.infer_state == 0,
            s.gained_ending_count == 0,
            s.steps@.len() == 0,
            s.endings@.len() == 0,
    {
        Act165State { infer_state: 0, gained_ending_count: 0, steps: Vec::new(), endings: Vec::new() }
    }
}

/// The step ids of a path.
pub open spec fn step_ids_spec(steps: Seq<Act165StepState>) -> Seq<i32> {
    steps.map_values(|s: Act165StepState| s.step_id)
}

/// The ids of the steps reached so far, in order.
pub fn act165_step_ids(state: &Act165State) -> (ids: Vec<i32>)
    ensures
        ids@ == step_ids_spec(state.steps@),
{
    let mut ids: Vec<i32> = Vec::new();
    let mut i: usize = 0;
    while i < state.steps.len()
        invariant
            i <= state.steps@.len(),
            ids@ == step_ids_spec(state.steps@.take(i as int)),
        decreases state.steps.len() - i,
    {
        ids.push(state.steps[i].step_id);
        assert(step_ids_spec(state.steps@.take(i + 1)) =~= step_ids_spec(state.steps@.take(i as int)).push(
            state.steps@[i as int].step_id,
        ));
        i = i + 1;
    }
    assert(state.steps@.take(state.steps@.len() as int) =~= state.steps@);
    ids
}

/// The path `ids` followed by `next` starts some branch of the story.
pub open spec fn can_append_spec(cfg: Seq<Act165StepConfig>, ids: Seq<i32>, next: i32) -> bool {
    exists|k: int| 0 <= k < branches_spec(cfg).len() && prefix_spec(#[trigger] branches_spec(cfg)[k], ids.push(next))
}

fn any_branch_starts_with(br: &Vec<Vec<i32>>, path: &[i32]) -> (res: bool)
    ensures
        res == exists|k: int| 0 <= k < br.deep_view().len() && prefix_spec(#[trigger] br.deep_view()[k], path@),
{
    let mut k: usize = 0;
    while k < br.len()
        invariant
            k <= br@.len(),
            forall|m: int| 0 <= m < k ==> !prefix_spec(#[trigger] br.deep_view()[m], path@),
        decreases br.len() - k,
    {
        assert(br.deep_view()[k as int] == br@[k as int]@);
        if same_prefix(br[k].as_slice(), path) {
            return true;
        }
        k = k + 1;
    }
    false
}

/// Whether the steps reached so far, followed by `next_step_id`, start some
/// branch of the story.
pub fn act165_can_append_step(cfg: &[Act165StepConfig], state: &Act165State, next_step_id: i32) -> (res: bool)
    ensures
        res == can_append_spec(cfg@, step_ids_spec(state.steps@), next_step_id),
{
    let mut steps = act165_step_ids(state);
    steps.push(next_step_id);
    let br = act165_branches(cfg);
    any_branch_starts_with(&br, steps.as_slice())
}

/// The row of `step_id` has an answer that leads to `next` with no keyword.
pub open spec fn allows_empty_spec(cfg: Seq<Act165StepConfig>, step_id: i32, next: i32) -> bool {
    match find_step(cfg, step_id) {
        Some(row) => exists|r: int|
            0 <= r < row.answers.deep_view().len() && (#[trigger] row.answers.deep_view()[r]).len() == 1
                && row.answers.deep_view()[r][0] == next,
        None => false,
    }
}

/// Whether the row of `step_id` lets the player move on to `next_step_id`
/// without choosing any keyword.
pub fn act165_answer_allows_empty(cfg: &[Act165StepConfig], step_id: i32, next_step_id: i32) -> (res: bool)
    ensures
        res == allows_empty_spec(cfg@, step_id, next_step_id),
{
    match find_step_index(cfg, step_id) {
        None => false,
        Some(i) => {
            let answers = &cfg[i].answers;
            let ghost av = answers.deep_view();
            let mut r: usize = 0;
            while r < answers.len()
                invariant
                    r <= av.len(),
                    av == answers.deep_view(),
                    i < cfg@.len(),
                    av == cfg@[i as int].answers.deep_view(),
                    find_step(cfg@, step_id) == Some(cfg@[i as int]),
                    forall|m: int| 0 <= m < r ==> !((#[trigger] av[m]).len() == 1 && av[m][0] == next_step_id),
                decreases answers.len() - r,
            {
                assert(av[r as int] == answers@[r as int]@);
                if answers[r].len() == 1 && answers[r][0] == next_step_id {
                    assert(av[r as int].len() == 1 && av[r as int][0] == next_step_id);
                    let ghost row = find_step(cfg@, step_id)->0;
                    assert(row.answers.deep_view()[r as int].len() == 1);
                    return true;
                }
                r = r + 1;
            }
            false
        },
    }
}

/// The step that follows `ids` on its own, looking at the branches from the
/// `k`-th on: the first branch that `ids` starts decides; when it has a next
/// step that is an ending, or that the current step reaches without keywords,
/// that step follows; when it has no next step, nothing follows.
pub open spec fn fixed_scan(cfg: Seq<Act165StepConfig>, br: Seq<Seq<i32>>, ids: Seq<i32>, k: int) -> Option<i32>
    decreases br.len() - k,
{
    if k < 0 || k >= br.len() {
        None
    } else if !prefix_spec(br[k], ids) {
        fixed_scan(cfg, br, ids, k + 1)
    } else if br[k].len() <= ids.len() {
        None
    } else {
        let next = br[k][ids.len() as int];
        if is_ending_step_spec(cfg, next) || allows_empty_spec(cfg, ids.last(), next) {
            Some(next)
        } else {
            fixed_scan(cfg, br, ids, k + 1)
        }
    }
}

/// The step that follows the path `ids` without any choice, if one does.
pub open spec fn fixed_next_spec(cfg: Seq<Act165StepConfig>, ids: Seq<i32>) -> Option<i32> {
    if ids.len() == 0 {
        None
    } else {
        fixed_scan(cfg, branches_spec(cfg), ids, 0)
    }
}

fn fixed_next_in(cfg: &[Act165StepConfig], br: &Vec<Vec<i32>>, ids: &[i32]) -> (res: Option<i32>)
    requires
        ids@.len() > 0,
    ensures
        res == fixed_scan(cfg@, br.deep_view(), ids@, 0),
{
    let current_step_id = ids[ids.len() - 1];
    let ghost bv = br.deep_view();
    let mut k: usize = 0;
    while k < br.len()
        invariant
            k <= bv.len(),
            bv == br.deep_view(),
            ids@.len() > 0,
            current_step_id == ids@.last(),
            fixed_scan(cfg@, bv, ids@, 0) == fixed_scan(cfg@, bv, ids@, k as int),
        decreases br.len() - k,
    {
        assert(bv[k as int] == br@[k as int]@);
        if same_prefix(br[k].as_slice(), ids) {
            if br[k].len() <= ids.len() {
                return None;
            }
            let next_step_id = br[k][ids.len()];
            if is_ending_step(cfg, next_step_id) || act165_answer_allows_empty(cfg, current_step_id, next_step_id) {
                return Some(next_step_id);
            }
        }
        k = k + 1;
    }
    None
}

/// The step that follows the steps reached so far without any choice: see
/// `fixed_next_spec`.
pub fn act165_fixed_next_step(cfg: &[Act165StepConfig], state: &Act165State) -> (res: Option<i32>)
    ensures
        res == fixed_next_spec(cfg@, step_ids_spec(state.steps@)),
{
    if state.steps.len() == 0 {
        return None;
    }
    let ids = act165_step_ids(state);
    let br = act165_branches(cfg);
    fixed_next_in(cfg, &br, ids.as_slice())
}

/// The longest branch length.
pub open spec fn max_len(br: Seq<Seq<i32>>) -> nat
    decreases br.len(),
{
    if br.len() == 0 {
        0
    } else {
        let m = max_len(br.drop_last());
        if br.last().len() > m {
            br.last().len()
        } else {
            m
        }
    }
}

proof fn lemma_max_len(br: Seq<Seq<i32>>, m: int)
    requires
        0 <= m < br.len(),
    ensures
        br[m].len() <= max_len(br),
    decreases br.len(),
{
    if m < br.len() - 1 {
        lemma_max_len(br.drop_last(), m);
    }
}

proof fn lemma_fixed_scan_bound(cfg: Seq<Act165StepConfig>, br: Seq<Seq<i32>>, ids: Seq<i32>, k: int)
    requires
        0 <= k,
        fixed_scan(cfg, br, ids, k) is Some,
    ensures
        ids.len() < max_len(br),
    decreases br.len() - k,
{
    if k < br.len() {
        if !prefix_spec(br[k], ids) || br[k].len() <= ids.len() || !(is_ending_step_spec(
            cfg,
            br[k][ids.len() as int],
        ) || allows_empty_spec(cfg, ids.last(), br[k][ids.len() as int])) {
            lemma_fixed_scan_bound(cfg, br, ids, k + 1);
        } else {
            lemma_max_len(br, k);
        }
    }
}

/// The path `ids`, extended step by step while the next step follows on its
/// own (see `fixed_next_spec`), stopping at an ending, at a step that is
/// already on the path, or when nothing follows.
pub open spec fn extend_ids(cfg: Seq<Act165StepConfig>, ids: Seq<i32>) -> Seq<i32>
    decreases max_len(branches_spec(cfg)) - ids.len(),
{
    if ids.len() == 0 || ids.len() >= max_len(branches_spec(cfg)) {
        ids
    } else if is_ending_step_spec(cfg, ids.last()) {
        ids
    } else {
        match fixed_next_spec(cfg, ids) {
            None => ids,
            Some(n) => if ids.contains(n) {
                ids
            } else {
                extend_ids(cfg, ids.push(n))
            },
        }
    }
}

/// The path after the player is led to `next`: nothing changes unless the path
/// followed by `next` starts a branch and `next` is not on it yet; then `next`
/// and the steps that follow on their own are added.
pub open spec fn unlock_ids(cfg: Seq<Act165StepConfig>, ids: Seq<i32>, next: i32) -> Seq<i32> {
    if !can_append_spec(cfg, ids, next) || ids.contains(next) {
        ids
    } else {
        extend_ids(cfg, ids.push(next))
    }
}

fn has_step(state: &Act165State, step_id: i32) -> (res: bool)
    ensures
        res == step_ids_spec(state.steps@).contains(step_id),
{
    let mut i: usize = 0;
    while i < state.steps.len()
        invariant
            i <= state.steps@.len(),
            forall|k: int| 0 <= k < i ==> (#[trigger] state.steps@[k]).step_id != step_id,
        decreases state.steps.len() - i,
    {
        if state.steps[i].step_id == step_id {
            assert(step_ids_spec(state.steps@)[i as int] == step_id);
            return true;
        }
        i = i + 1;
    }
    proof {
        if step_ids_spec(state.steps@).contains(step_id) {
            let k = choose|k: int| 0 <= k < step_ids_spec(state.steps@).len() && step_ids_spec(state.steps@)[k] == step_id;
            assert(state.steps@[k].step_id == step_id);
        }
    }
    false
}

/// The new path keeps the old steps as they were; the added steps have no keywords.
pub open spec fn keeps_path(before: Seq<Act165StepState>, after: Seq<Act165StepState>) -> bool {
    &&& before.len() <= after.len()
    &&& forall|i: int| 0 <= i < before.len() ==> after[i] == before[i]
    &&& forall|i: int| before.len() <= i < after.len() ==> (#[trigger] after[i]).keywords@.len() == 0
}

/// Leads the player to `next_step_id`: see `unlock_ids`.
pub fn act165_unlock_next_steps(cfg: &[Act165StepConfig], state: &mut Act165State, next_step_id: i32)
    ensures
        step_ids_spec(final(state).steps@) == unlock_ids(cfg@, step_ids_spec(old(state).steps@), next_step_id),
        keeps_path(old(state).steps@, final(state).steps@),
        final(state).infer_state == old(state).infer_state,
        final(state).gained_ending_count == old(state).gained_ending_count,
        final(state).endings == old(state).endings,
{
    if !act165_can_append_step(cfg, state, next_step_id) {
        return;
    }
    if has_step(state, next_step_id) {
        return;
    }
    let br = act165_branches(cfg);
    let ghost bv = br.deep_view();
    let ghost old_steps = state.steps@;
    let ghost start = step_ids_spec(old_steps).push(next_step_id);
    proof {
        let k = choose|k: int| 0 <= k < bv.len() && prefix_spec(#[trigger] bv[k], start);
        lemma_max_len(bv, k);
    }
    state.steps.push(Act165StepState { step_id: next_step_id, keywords: Vec::new() });
    assert(step_ids_spec(state.steps@) =~= start);
    loop
        invariant
            bv == br.deep_view(),
            bv == branches_spec(cfg@),
            state.steps@.len() >= 1,
            state.steps@.len() <= max_len(bv),
            extend_ids(cfg@, step_ids_spec(state.steps@)) == extend_ids(cfg@, start),
            keeps_path(old_steps, state.steps@),
            state.infer_state == old(state).infer_state,
            state.gained_ending_count == old(state).gained_ending_count,
            state.endings == old(state).endings,
            old_steps == old(state).steps@,
            start == step_ids_spec(old_steps).push(next_step_id),
        ensures
            step_ids_spec(state.steps@) == extend_ids(cfg@, start),
            keeps_path(old_steps, state.steps@),
            state.infer_state == old(state).infer_state,
            state.gained_ending_count == old(state).gained_ending_count,
            state.endings == old(state).endings,
        decreases max_len(bv) - state.steps@.len(),
    {
        let ids = act165_step_ids(state);
        let current_step_id = ids[ids.len() - 1];
        if is_ending_step(cfg, current_step_id) {
            break;
        }
        let next = fixed_next_in(cfg, &br, ids.as_slice());
        match next {
            None => {
                break;
            },
            Some(n) => {
                proof {
                    lemma_fixed_scan_bound(cfg@, bv, ids@, 0);
                }
                if has_step(state, n) {
                    break;
                }
                let ghost before = state.steps@;
                state.steps.push(Act165StepState { step_id: n, keywords: Vec::new() });
                assert(step_ids_spec(state.steps@) =~= ids@.push(n));
                assert(forall|i: int| 0 <= i < before.len() ==> state.steps@[i] == before[i]);
            },
        }
    }
}

/// The answer row that the chosen keywords match: a row `next#keyword...`
/// whose keywords are the chosen ones leads to `next`.
pub open spec fn answer_row_fn(keywords: Seq<i32>) -> spec_fn(Seq<i32>) -> Option<i32> {
    |row: Seq<i32>| if row.len() > 0 && same_set_spec(row.skip(1), keywords) { Some(row[0]) } else { None }
}

/// Where the keywords chosen at `step_id` lead: nowhere from an unknown or an
/// ending step, else to the first answer row they match.
pub open spec fn next_step_spec(cfg: Seq<Act165StepConfig>, step_id: i32, keywords: Seq<i32>) -> Option<i32> {
    match find_step(cfg, step_id) {
        None => None,
        Some(row) => if row.is_ending {
            None
        } else {
            find_map(row.answers.deep_view(), answer_row_fn(keywords))
        },
    }
}

fn skip_first(values: &[i32]) -> (out: Vec<i32>)
    requires
        values@.len() > 0,
    ensures
        out@ == values@.skip(1),
{
    let mut out: Vec<i32> = Vec::new();
    let mut k: usize = 1;
    while k < values.len()
        invariant
            1 <= k <= values@.len(),
            out@ == values@.subrange(1, k as int),
        decreases values.len() - k,
    {
        out.push(values[k]);
        assert(values@.subrange(1, k + 1) =~= values@.subrange(1, k as int).push(values@[k as int]));
        k = k + 1;
    }
    assert(values@.subrange(1, values@.len() as int) =~= values@.skip(1));
    out
}

/// The step that `keyword_ids`, chosen at `step_id`, lead to.
pub fn act165_next_step(cfg: &[Act165StepConfig], step_id: i32, keyword_ids: &[i32]) -> (res: Option<i32>)
    ensures
        res == next_step_spec(cfg@, step_id, keyword_ids@),
{
    let i = match find_step_index(cfg, step_id) {
        None => {
            return None;
        },
        Some(i) => i,
    };
    if cfg[i].is_ending {
        return None;
    }
    let answers = &cfg[i].answers;
    let ghost av = answers.deep_view();
    let ghost f = answer_row_fn(keyword_ids@);
    let mut r: usize = 0;
    while r < answers.len()
        invariant
            r <= av.len(),
            av == answers.deep_view(),
            i < cfg@.len(),
            av == cfg@[i as int].answers.deep_view(),
            !cfg@[i as int].is_ending,
            find_step(cfg@, step_id) == Some(cfg@[i as int]),
            f == answer_row_fn(keyword_ids@),
            find_map(av.take(r as int), f) is None,
        decreases answers.len() - r,
    {
        assert(av.take(r + 1).drop_last() =~= av.take(r as int));
        assert(av[r as int] == answers@[r as int]@);
        let row = &answers[r];
        if row.len() > 0 {
            let rest = skip_first(row.as_slice());
            if same_set(rest.as_slice(), keyword_ids) {
                proof {
                    lemma_find_map_prefix(av, f, r + 1);
                }
                return Some(row[0]);
            }
        }
        r = r + 1;
    }
    assert(av.take(av.len() as int) =~= av);
    None
}

// ---------------------------------------------------------------------------
// What a player's requests do to the stored progress
// ---------------------------------------------------------------------------

/// A step as a plain value: its id and chosen keywords.
pub open spec fn step_view(s: Act165StepState) -> (i32, Seq<i32>) {
    (s.step_id, s.keywords@)
}

/// A path as plain values.
pub open spec fn path_view(steps: Seq<Act165StepState>) -> Seq<(i32, Seq<i32>)> {
    steps.map_values(|s: Act165StepState| step_view(s))
}

/// An ending as plain values.
pub open spec fn ending_view(e: Act165EndingState) -> (i32, Seq<(i32, Seq<i32>)>) {
    (e.ending_id, path_view(e.steps@))
}

/// The endings as plain values.
pub open spec fn endings_view(es: Seq<Act165EndingState>) -> Seq<(i32, Seq<(i32, Seq<i32>)>)> {
    es.map_values(|e: Act165EndingState| ending_view(e))
}

/// The stored progress, or a fresh one, with the story's first step on the
/// path when the path is empty.
pub open spec fn normalized_state(parsed: Option<Act165State>, first_step_id: i32) -> (i32, i32, Seq<(i32, Seq<i32>)>, Seq<(i32, Seq<(i32, Seq<i32>)>)>) {
    match parsed {
        Some(st) => (
            st.infer_state,
            st.gained_ending_count,
            if st.steps@.len() == 0 { seq![(first_step_id, Seq::<i32>::empty())] } else { path_view(st.steps@) },
            endings_view(st.endings@),
        ),
        None => (0, 0, seq![(first_step_id, Seq::<i32>::empty())], Seq::empty()),
    }
}

/// The progress of a story as read from storage (`None` when nothing usable
/// was stored), with the first step put on an empty path.
pub fn act165_state(parsed: Option<Act165State>, first_step_id: i32) -> (state: Act165State)
    ensures
        (state.infer_state, state.gained_ending_count, path_view(state.steps@), endings_view(state.endings@))
            == normalized_state(parsed, first_step_id),
        state.steps@.len() > 0,
{
    let mut state = match parsed {
        Some(st) => st,
        None => Act165State::default(),
    };
    if state.steps.len() == 0 {
        state.steps.push(Act165StepState { step_id: first_step_id, keywords: Vec::new() });
    }
    proof {
        assert(path_view(state.steps@) =~= normalized_state(parsed, first_step_id).2);
        assert(endings_view(state.endings@) =~= normalized_state(parsed, first_step_id).3);
    }
    state
}

/// Every keyword is offered at `step_id`; an unknown step offers none.
pub open spec fn keywords_allowed(cfg: Seq<Act165StepConfig>, step_id: i32, keywords: Seq<i32>) -> bool {
    match find_step(cfg, step_id) {
        None => false,
        Some(row) => forall|i: int| 0 <= i < keywords.len() ==> row.optional_keywords@.contains(#[trigger] keywords[i]),
    }
}

/// Refuses keywords that the step does not offer, and unknown steps.
pub fn act165_validate_keywords(cfg: &[Act165StepConfig], step_id: i32, keyword_ids: &[i32]) -> (res: Result<(), LogicError>)
    ensures
        res == if keywords_allowed(cfg@, step_id, keyword_ids@) {
            Ok::<(), LogicError>(())
        } else {
            Err(LogicError::InvalidRequest)
        },
{
    let i = match find_step_index(cfg, step_id) {
        None => {
            return Err(LogicError::InvalidRequest);
        },
        Some(i) => i,
    };
    let allowed = &cfg[i].optional_keywords;
    let mut k: usize = 0;
    while k < keyword_ids.len()
        invariant
            k <= keyword_ids@.len(),
            i < cfg@.len(),
            find_step(cfg@, step_id) == Some(cfg@[i as int]),
            allowed@ == cfg@[i as int].optional_keywords@,
            forall|m: int| 0 <= m < k ==> allowed@.contains(#[trigger] keyword_ids@[m]),
        decreases keyword_ids.len() - k,
    {
        let v = keyword_ids[k];
        let mut j: usize = 0;
        let mut found = false;
        while j < allowed.len()
            invariant
                j <= allowed@.len(),
                found <==> exists|m: int| 0 <= m < j && allowed@[m] == v,
            decreases allowed.len() - j,
        {
            if allowed[j] == v {
                found = true;
            }
            j = j + 1;
        }
        if !found {
            assert(!allowed@.contains(keyword_ids@[k as int]));
            return Err(LogicError::InvalidRequest);
        }
        k = k + 1;
    }
    Ok(())
}

/// The player chooses `keyword_ids` at the last step of the path.
///
/// A locked story (`story_state == 0`) and keywords that the step does not
/// offer are refused, and the progress stays as it was. Otherwise the keywords
/// are stored on the last step, the player is led to where they point (see
/// `unlock_ids`), and the story counts as inferred once the path ends at an
/// ending step.
pub fn act165_modify_keyword(
    cfg: &[Act165StepConfig],
    state: &mut Act165State,
    story_state: i32,
    keyword_ids: &[i32],
) -> (res: Result<(), LogicError>)
    requires
        old(state).steps@.len() > 0,
    ensures
        ({
            let last = old(state).steps@.len() - 1;
            let step_id = old(state).steps@[last].step_id;
            let ids = step_ids_spec(old(state).steps@);
            if story_state == 0 || !keywords_allowed(cfg@, step_id, keyword_ids@) {
                &&& res == Err::<(), LogicError>(LogicError::InvalidRequest)
                &&& path_view(final(state).steps@) == path_view(old(state).steps@)
                &&& final(state).infer_state == old(state).infer_state
            } else {
                let new_ids = match next_step_spec(cfg@, step_id, keyword_ids@) {
                    Some(n) => unlock_ids(cfg@, ids, n),
                    None => ids,
                };
                &&& res == Ok::<(), LogicError>(())
                &&& step_ids_spec(final(state).steps@) == new_ids
                &&& path_view(final(state).steps@).take(old(state).steps@.len() as int)
                    == path_view(old(state).steps@).update(last, (step_id, keyword_ids@))
                &&& forall|i: int| old(state).steps@.len() <= i < final(state).steps@.len()
                    ==> (#[trigger] final(state).steps@[i]).keywords@.len() == 0
                &&& final(state).infer_state == if is_ending_step_spec(cfg@, new_ids.last()) {
                    1
                } else {
                    old(state).infer_state
                }
            }
        }),
        final(state).gained_ending_count == old(state).gained_ending_count,
        final(state).endings == old(state).endings,
{
    if story_state == 0 {
        return Err(LogicError::InvalidRequest);
    }
    let index = state.steps.len() - 1;
    let step_id = state.steps[index].step_id;
    match act165_validate_keywords(cfg, step_id, keyword_ids) {
        Err(e) => {
            return Err(e);
        },
        Ok(()) => {},
    }
    let ghost before = state.steps@;
    let kw = copy_i32s(keyword_ids);
    state.steps[index].keywords = kw;
    let ghost mid = state.steps@;
    assert(step_ids_spec(mid) =~= step_ids_spec(before));
    assert(path_view(mid) =~= path_view(before).update(index as int, (step_id, keyword_ids@)));
    match act165_next_step(cfg, step_id, keyword_ids) {
        Some(n) => {
            act165_unlock_next_steps(cfg, state, n);
            assert(path_view(state.steps@).take(before.len() as int) =~= path_view(mid));
        },
        None => {
            assert(path_view(state.steps@).take(before.len() as int) =~= path_view(mid));
        },
    }
    let last_id = state.steps[state.steps.len() - 1].step_id;
    assert(step_ids_spec(state.steps@).last() == last_id);
    if is_ending_step(cfg, last_id) {
        state.infer_state = 1;
    }
    Ok(())
}

/// `p` is where `v` first occurs in `ids`.
pub open spec fn first_at(ids: Seq<i32>, v: i32, p: int) -> bool {
    0 <= p < ids.len() && ids[p] == v && forall|j: int| 0 <= j < p ==> ids[j] != v
}

/// How many steps a restart at `keep_id` keeps: up to and including the first
/// occurrence of `keep_id`, or just the first step when it does not occur.
pub open spec fn restart_keep(ids: Seq<i32>, keep_id: i32) -> int {
    if exists|p: int| first_at(ids, keep_id, p) {
        (choose|p: int| first_at(ids, keep_id, p)) + 1
    } else {
        1
    }
}

/// The player goes back to `step_id` (the story's first step when `None`):
/// later steps are dropped, the keywords chosen at that step are cleared, and
/// the story is no longer inferred. A locked story is refused.
pub fn act165_restart(state: &mut Act165State, story_state: i32, first_step_id: i32, step_id: Option<i32>) -> (res: Result<(), LogicError>)
    ensures
        story_state == 0 ==> res == Err::<(), LogicError>(LogicError::InvalidRequest) && *final(state) == *old(state),
        story_state != 0 ==> ({
            let keep_id = match step_id {
                Some(s) => s,
                None => first_step_id,
            };
            let keep = restart_keep(step_ids_spec(old(state).steps@), keep_id);
            &&& res == Ok::<(), LogicError>(())
            &&& final(state).steps@.len() == if keep < old(state).steps@.len() {
                keep
            } else {
                old(state).steps@.len() as int
            }
            &&& forall|i: int| 0 <= i < final(state).steps@.len() ==> (#[trigger] final(state).steps@[i]).step_id
                == old(state).steps@[i].step_id && final(state).steps@[i].keywords@ == if old(
                state,
            ).steps@[i].step_id == keep_id {
                Seq::<i32>::empty()
            } else {
                old(state).steps@[i].keywords@
            }
            &&& final(state).infer_state == 0
            &&& final(state).gained_ending_count == old(state).gained_ending_count
            &&& final(state).endings == old(state).endings
        }),
{
    if story_state == 0 {
        return Err(LogicError::InvalidRequest);
    }
    let keep_step_id = match step_id {
        Some(s) => s,
        None => first_step_id,
    };
    let ghost ids = step_ids_spec(state.steps@);
    let mut keep: usize = 1;
    let mut p: usize = 0;
    while p < state.steps.len()
        invariant_except_break
            keep == 1,
        invariant
            p <= state.steps@.len(),
            ids == step_ids_spec(state.steps@),
            forall|j: int| 0 <= j < p ==> ids[j] != keep_step_id,
        ensures
            (p < state.steps@.len() && ids[p as int] == keep_step_id && keep == p + 1) || (p
                == state.steps@.len() && keep == 1),
        decreases state.steps.len() - p,
    {
        if state.steps[p].step_id == keep_step_id {
            keep = p + 1;
            break;
        }
        p = p + 1;
    }
    proof {
        if p < state.steps@.len() {
            assert(first_at(ids, keep_step_id, p as int));
            let q = choose|q: int| first_at(ids, keep_step_id, q);
            assert(q == p);
        } else {
            assert(!exists|q: int| first_at(ids, keep_step_id, q));
        }
        assert(keep == restart_keep(ids, keep_step_id));
    }
    let ghost before = state.steps@;
    state.steps.truncate(keep);
    let mut i: usize = 0;
    while i < state.steps.len()
        invariant
            i <= state.steps@.len(),
            state.steps@.len() <= before.len(),
            state.steps@.len() == if keep < before.len() { keep as int } else { before.len() as int },
            forall|k: int| 0 <= k < state.steps@.len() ==> (#[trigger] state.steps@[k]).step_id == before[k].step_id,
            forall|k: int| 0 <= k < i ==> (#[trigger] state.steps@[k]).keywords@ == if before[k].step_id == keep_step_id {
                Seq::<i32>::empty()
            } else {
                before[k].keywords@
            },
            forall|k: int| i <= k < state.steps@.len() ==> (#[trigger] state.steps@[k]).keywords@ == before[k].keywords@,
            state.infer_state == old(state).infer_state,
            state.gained_ending_count == old(state).gained_ending_count,
            state.endings == old(state).endings,
        decreases state.steps.len() - i,
    {
        if state.steps[i].step_id == keep_step_id {
            state.steps[i].keywords = Vec::new();
        }
        i = i + 1;
    }
    state.infer_state = 0;
    Ok(())
}

/// One row of a story's ending table.
#[derive(Clone, Copy, Debug)]
pub struct Act165EndingRow {
    pub ending_id: i32,
    pub final_step_id: i32,
}

/// The first ending row reached from `final_step_id`.
pub open spec fn find_ending(rows: Seq<Act165EndingRow>, final_step_id: i32) -> Option<Act165EndingRow> {
    find_map(rows, ending_row_fn(final_step_id))
}

/// A row, when it is reached from `final_step_id`.
pub open spec fn ending_row_fn(final_step_id: i32) -> spec_fn(Act165EndingRow) -> Option<Act165EndingRow> {
    |row: Act165EndingRow| if row.final_step_id == final_step_id { Some(row) } else { None }
}

fn copy_steps(steps: &Vec<Act165StepState>) -> (out: Vec<Act165StepState>)
    ensures
        path_view(out@) == path_view(steps@),
{
    let mut out: Vec<Act165StepState> = Vec::new();
    let mut k: usize = 0;
    while k < steps.len()
        invariant
            k <= steps@.len(),
            out@.len() == k,
            forall|m: int| 0 <= m < k ==> step_view(#[trigger] out@[m]) == step_view(steps@[m]),
        decreases steps.len() - k,
    {
        let kw = copy_i32s(steps[k].keywords.as_slice());
        out.push(Act165StepState { step_id: steps[k].step_id, keywords: kw });
        k = k + 1;
    }
    assert(path_view(out@) =~= path_view(steps@));
    out
}

fn find_ending_index(rows: &[Act165EndingRow], final_step_id: i32) -> (res: Option<usize>)
    ensures
        match res {
            Some(i) => i < rows@.len() && find_ending(rows@, final_step_id) == Some(rows@[i as int]),
            None => find_ending(rows@, final_step_id) is None,
        },
{
    let ghost f = ending_row_fn(final_step_id);
    let mut i: usize = 0;
    while i < rows.len()
        invariant
            i <= rows@.len(),
            f == ending_row_fn(final_step_id),
            find_map(rows@.take(i as int), f) is None,
        decreases rows.len() - i,
    {
        assert(rows@.take(i + 1).drop_last() =~= rows@.take(i as int));
        if rows[i].final_step_id == final_step_id {
            proof {
                lemma_find_map_prefix(rows@, f, i + 1);
            }
            return Some(i);
        }
        i = i + 1;
    }
    assert(rows@.take(rows@.len() as int) =~= rows@);
    None
}

/// The player closes the story at its current last step. A locked story, an
/// empty path and a last step that no ending is reached from are refused.
/// Otherwise the reached ending is answered, recorded with its path unless it
/// was recorded before, and the story counts as concluded.
pub fn act165_generate_ending(endings: &[Act165EndingRow], state: &mut Act165State, story_state: i32) -> (res: Result<i32, LogicError>)
    ensures
        path_view(final(state).steps@) == path_view(old(state).steps@),
        final(state).gained_ending_count == old(state).gained_ending_count,
        ({
            let reached = if old(state).steps@.len() == 0 {
                None
            } else {
                find_ending(endings@, old(state).steps@.last().step_id)
            };
            if story_state == 0 || reached is None {
                &&& res == Err::<i32, LogicError>(LogicError::InvalidRequest)
                &&& final(state).infer_state == old(state).infer_state
                &&& endings_view(final(state).endings@) == endings_view(old(state).endings@)
            } else {
                let id = reached->0.ending_id;
                &&& res == Ok::<i32, LogicError>(id)
                &&& final(state).infer_state == 2
                &&& endings_view(final(state).endings@) == if exists|e: int|
                    0 <= e < old(state).endings@.len() && (#[trigger] old(state).endings@[e]).ending_id == id {
                    endings_view(old(state).endings@)
                } else {
                    endings_view(old(state).endings@).push((id, path_view(old(state).steps@)))
                }
            }
        }),
{
    if story_state == 0 {
        return Err(LogicError::InvalidRequest);
    }
    if state.steps.len() == 0 {
        return Err(LogicError::InvalidRequest);
    }
    let final_step_id = state.steps[state.steps.len() - 1].step_id;
    let r = match find_ending_index(endings, final_step_id) {
        None => {
            return Err(LogicError::InvalidRequest);
        },
        Some(r) => r,
    };
    let ending_id = endings[r].ending_id;
    let mut e: usize = 0;
    let mut seen = false;
    while e < state.endings.len()
        invariant
            e <= state.endings@.len(),
            seen <==> exists|m: int| 0 <= m < e && (#[trigger] state.endings@[m]).ending_id == ending_id,
        decreases state.endings.len() - e,
    {
        if state.endings[e].ending_id == ending_id {
            seen = true;
        }
        e = e + 1;
    }
    if !seen {
        let ghost before = state.endings@;
        let steps = copy_steps(&state.steps);
        state.endings.push(Act165EndingState { ending_id, steps });
        assert(endings_view(state.endings@) =~= endings_view(before).push((ending_id, path_view(old(state).steps@))));
    }
    state.infer_state = 2;
    Ok(ending_id)
}

/// One row of a story's milestone table.
#[derive(Clone, Copy, Debug)]
pub struct Act165RewardRow {
    pub ending_count: i32,
    pub bonus: i32,
}

/// The first milestone row for `count` endings.
pub open spec fn find_reward(rows: Seq<Act165RewardRow>, count: i32) -> Option<Act165RewardRow> {
    find_map(rows, reward_row_fn(count))
}

/// A row, when it is the milestone of `count` endings.
pub open spec fn reward_row_fn(count: i32) -> spec_fn(Act165RewardRow) -> Option<Act165RewardRow> {
    |row: Act165RewardRow| if row.ending_count == count { Some(row) } else { None }
}

fn find_reward_index(rows: &[Act165RewardRow], count: i32) -> (res: Option<usize>)
    ensures
        match res {
            Some(i) => i < rows@.len() && find_reward(rows@, count) == Some(rows@[i as int]),
            None => find_reward(rows@, count) is None,
        },
{
    let ghost f = reward_row_fn(count);
    let mut i: usize = 0;
    while i < rows.len()
        invariant
            i <= rows@.len(),
            f == reward_row_fn(count),
            find_map(rows@.take(i as int), f) is None,
        decreases rows.len() - i,
    {
        assert(rows@.take(i + 1).drop_last() =~= rows@.take(i as int));
        if rows[i].ending_count == count {
            proof {
                lemma_find_map_prefix(rows@, f, i + 1);
            }
            return Some(i);
        }
        i = i + 1;
    }
    assert(rows@.take(rows@.len() as int) =~= rows@);
    None
}

/// The player claims the next milestone: granted, with its bonus answered,
/// when the endings reached cover it and the table has it; refused otherwise.
pub fn act165_gain_milestone_reward(rewards: &[Act165RewardRow], state: &mut Act165State) -> (res: Result<i32, LogicError>)
    requires
        old(state).gained_ending_count < i32::MAX,
        old(state).endings@.len() <= i32::MAX,
    ensures
        final(state).steps == old(state).steps,
        final(state).endings == old(state).endings,
        final(state).infer_state == old(state).infer_state,
        ({
            let next = old(state).gained_ending_count + 1;
            if next > old(state).endings@.len() || find_reward(rewards@, next as i32) is None {
                &&& res == Err::<i32, LogicError>(LogicError::InvalidRequest)
                &&& final(state).gained_ending_count == old(state).gained_ending_count
            } else {
                &&& res == Ok::<i32, LogicError>(find_reward(rewards@, next as i32)->0.bonus)
                &&& final(state).gained_ending_count == next
            }
        }),
{
    let unlock_count = state.endings.len() as i32;
    let next_count = state.gained_ending_count + 1;
    if next_count > unlock_count {
        return Err(LogicError::InvalidRequest);
    }
    match find_reward_index(rewards, next_count) {
        Some(r) => {
            state.gained_ending_count = next_count;
            Ok(rewards[r].bonus)
        },
        None => Err(LogicError::InvalidRequest),
    }
}

proof fn lemma_fixed_scan_witness(cfg: Seq<Act165StepConfig>, br: Seq<Seq<i32>>, ids: Seq<i32>, k: int)
    requires
        0 <= k,
        fixed_scan(cfg, br, ids, k) is Some,
    ensures
        exists|m: int|
            k <= m < br.len() && prefix_spec(#[trigger] br[m], ids) && br[m].len() > ids.len() && br[m][ids.len() as int]
                == fixed_scan(cfg, br, ids, k)->0,
    decreases br.len() - k,
{
    if k < br.len() {
        if !prefix_spec(br[k], ids) || br[k].len() <= ids.len() || !(is_ending_step_spec(
            cfg,
            br[k][ids.len() as int],
        ) || allows_empty_spec(cfg, ids.last(), br[k][ids.len() as int])) {
            lemma_fixed_scan_witness(cfg, br, ids, k + 1);
            let m = choose|m: int|
                k + 1 <= m < br.len() && prefix_spec(#[trigger] br[m], ids) && br[m].len() > ids.len()
                    && br[m][ids.len() as int] == fixed_scan(cfg, br, ids, k + 1)->0;
            assert(prefix_spec(br[m], ids));
        } else {
            assert(prefix_spec(br[k], ids));
        }
    }
}

proof fn lemma_extend_on_branch(cfg: Seq<Act165StepConfig>, ids: Seq<i32>)
    requires
        exists|k: int| 0 <= k < branches_spec(cfg).len() && prefix_spec(#[trigger] branches_spec(cfg)[k], ids),
    ensures
        exists|k: int|
            0 <= k < branches_spec(cfg).len() && prefix_spec(#[trigger] branches_spec(cfg)[k], extend_ids(cfg, ids)),
    decreases max_len(branches_spec(cfg)) - ids.len(),
{
    let br = branches_spec(cfg);
    if ids.len() == 0 || ids.len() >= max_len(br) || is_ending_step_spec(cfg, ids.last()) {
    } else {
        match fixed_next_spec(cfg, ids) {
            None => {},
            Some(n) => {
                if !ids.contains(n) {
                    lemma_fixed_scan_witness(cfg, br, ids, 0);
                    let m = choose|m: int|
                        0 <= m < br.len() && prefix_spec(#[trigger] br[m], ids) && br[m].len() > ids.len()
                            && br[m][ids.len() as int] == n;
                    assert(br[m].take(ids.len() + 1 as int) =~= ids.push(n));
                    assert(prefix_spec(br[m], ids.push(n)));
                    lemma_extend_on_branch(cfg, ids.push(n));
                }
            },
        }
    }
}

/// Leading the player to a step keeps the path on the story: when the path
/// followed by the new step starts a branch, the path after unlocking is still
/// the start of some branch, however far the steps that need no choice run.
pub proof fn law_unlock_stays_on_a_branch(cfg: Seq<Act165StepConfig>, ids: Seq<i32>, next: i32)
    requires
        can_append_spec(cfg, ids, next),
    ensures
        exists|k: int|
            0 <= k < branches_spec(cfg).len() && prefix_spec(#[trigger] branches_spec(cfg)[k], unlock_ids(cfg, ids, next)),
{
    let br = branches_spec(cfg);
    let k = choose|k: int| 0 <= k < br.len() && prefix_spec(#[trigger] br[k], ids.push(next));
    if ids.contains(next) {
        assert(br[k].take(ids.len() as int) =~= ids.push(next).take(ids.len() as int));
        assert(ids.push(next).take(ids.len() as int) =~= ids);
        assert(prefix_spec(br[k], ids));
    } else {
        lemma_extend_on_branch(cfg, ids.push(next));
    }
}

/// Following the steps that need no choice only adds steps after the path,
/// each one not met on the path before it.
proof fn lemma_extend_adds_new(cfg: Seq<Act165StepConfig>, ids: Seq<i32>)
    ensures
        extend_ids(cfg, ids).len() >= ids.len(),
        extend_ids(cfg, ids).subrange(0, ids.len() as int) == ids,
        forall|k: int|
            ids.len() <= k < extend_ids(cfg, ids).len() ==> !extend_ids(cfg, ids).take(k).contains(
                #[trigger] extend_ids(cfg, ids)[k],
            ),
    decreases max_len(branches_spec(cfg)) - ids.len(),
{
    let r = extend_ids(cfg, ids);
    if ids.len() == 0 || ids.len() >= max_len(branches_spec(cfg)) || is_ending_step_spec(cfg, ids.last()) {
        assert(r.subrange(0, ids.len() as int) =~= ids);
    } else {
        match fixed_next_spec(cfg, ids) {
            None => {
                assert(r.subrange(0, ids.len() as int) =~= ids);
            },
            Some(n) => if ids.contains(n) {
                assert(r.subrange(0, ids.len() as int) =~= ids);
            } else {
                let t = ids.push(n);
                lemma_extend_adds_new(cfg, t);
                assert(r == extend_ids(cfg, t));
                assert(r.subrange(0, ids.len() as int) =~= t.subrange(0, ids.len() as int));
                assert(t.subrange(0, ids.len() as int) =~= ids);
                assert(r.subrange(0, t.len() as int) == t);
                assert forall|k: int| ids.len() <= k < r.len() implies !r.take(k).contains(#[trigger] r[k]) by {
                    if k == ids.len() {
                        assert(r[k] == r.subrange(0, t.len() as int)[k]);
                        assert(r.take(k) =~= ids);
                    }
                }
            },
        }
    }
}

/// Leading the player to a step adds steps only after the old path: each added
/// step is new to the path and met once, and the first of them is the step asked
/// for; when the step cannot be appended, or is on the path already, nothing
/// changes.
pub proof fn law_unlock_adds_new_steps(cfg: Seq<Act165StepConfig>, ids: Seq<i32>, next: i32)
    ensures
        ({
            let out = unlock_ids(cfg, ids, next);
            &&& out.len() >= ids.len()
            &&& out.subrange(0, ids.len() as int) == ids
            &&& forall|i: int, j: int| ids.len() <= i < j < out.len() ==> out[i] != out[j]
            &&& forall|i: int| ids.len() <= i < out.len() ==> !ids.contains(#[trigger] out[i])
            &&& out.len() > ids.len() ==> out[ids.len() as int] == next
            &&& (!can_append_spec(cfg, ids, next) || ids.contains(next)) ==> out == ids
        }),
{
    let out = unlock_ids(cfg, ids, next);
    if !can_append_spec(cfg, ids, next) || ids.contains(next) {
        assert(out.subrange(0, ids.len() as int) =~= ids);
    } else {
        let t = ids.push(next);
        lemma_extend_adds_new(cfg, t);
        assert(out == extend_ids(cfg, t));
        assert(out.subrange(0, t.len() as int) == t);
        assert(out.subrange(0, ids.len() as int) =~= t.subrange(0, ids.len() as int));
        assert(t.subrange(0, ids.len() as int) =~= ids);
        assert(out[ids.len() as int] == out.subrange(0, t.len() as int)[ids.len() as int]);
        assert forall|i: int| ids.len() <= i < out.len() implies !ids.contains(#[trigger] out[i]) by {
            if i == ids.len() {
                assert(out[i] == next);
            } else {
                assert(!out.take(i).contains(out[i]));
                if ids.contains(out[i]) {
                    let w = choose|w: int| 0 <= w < ids.len() && ids[w] == out[i];
                    assert(out.take(i)[w] == out.subrange(0, ids.len() as int)[w]);
                }
            }
        }
        assert forall|i: int, j: int| ids.len() <= i < j < out.len() implies out[i] != out[j] by {
            assert(!out.take(j).contains(out[j]));
            assert(out.take(j)[i] == out[i]);
        }
    }
}

/// A step as the client sees it.
#[derive(Clone, Debug)]
pub struct StepInfo {
    pub step_id: Option<i32>,
    pub step_keywords: Vec<i32>,
}

/// The client's view of a step reached.
pub fn act165_step_info(step: &Act165StepState) -> (info: StepInfo)
    ensures
        info.step_id == Some(step.step_id),
        info.step_keywords@ == step.keywords@,
{
    StepInfo { step_id: Some(step.step_id), step_keywords: copy_i32s(step.keywords.as_slice()) }
}

/// One story of the deduction event.
#[derive(Clone, Copy, Debug)]
pub struct Act165StoryRow {
    pub story_id: i32,
    pub pre_element_id1: i32,
    pub first_step_id: i32,
}

/// An ending as the client sees it.
#[derive(Clone, Debug)]
pub struct EndingInfo {
    pub ending_id: Option<i32>,
    pub inferred_steps: Vec<StepInfo>,
}

/// A story as the client sees it.
#[derive(Clone, Debug)]
pub struct Act165StoryInfo {
    pub story_id: Option<i32>,
    pub story_state: Option<i32>,
    pub first_ele_cd_begin_time: Option<i64>,
    pub infer_state: Option<i32>,
    pub inferred_steps: Vec<StepInfo>,
    pub unlock_ending_infos: Vec<EndingInfo>,
    pub gained_ending_count: Option<i32>,
}

/// The view of a list of step infos.
pub open spec fn step_infos_view(s: Seq<StepInfo>) -> Seq<(Option<i32>, Seq<i32>)> {
    s.map_values(|i: StepInfo| (i.step_id, i.step_keywords@))
}

fn step_infos(steps: &Vec<Act165StepState>) -> (out: Vec<StepInfo>)
    ensures
        step_infos_view(out@) == path_view(steps@).map_values(|p: (i32, Seq<i32>)| (Some(p.0), p.1)),
{
    let mut out: Vec<StepInfo> = Vec::new();
    let mut k: usize = 0;
    while k < steps.len()
        invariant
            k <= steps@.len(),
            out@.len() == k,
            forall|j: int| 0 <= j < k ==> (#[trigger] out@[j]).step_id == Some(steps@[j].step_id) && out@[j].step_keywords@
                == steps@[j].keywords@,
        decreases steps.len() - k,
    {
        out.push(act165_step_info(&steps[k]));
        k = k + 1;
    }
    assert(step_infos_view(out@) =~= path_view(steps@).map_values(|p: (i32, Seq<i32>)| (Some(p.0), p.1)));
    out
}

/// A story as the client sees it. `stored` is the story's stored state and
/// progress, with whether its stored text was empty; `parsed` is the progress
/// read from that text (`None` when there was none or it did not parse). A
/// story never stored is unlocked when it needs no element, and starts at its
/// first step; with no stored text the path is the stored progress step (the
/// first step when the progress is `0`).
pub fn act165_story_info(row: Act165StoryRow, stored: Option<(i32, i32, bool)>, parsed: Option<Act165State>) -> (info: Act165StoryInfo)
    ensures
        ({
            let (story_state, progress, ext_empty) = match stored {
                Some(s) => s,
                None => (if row.pre_element_id1 == 0 { 1i32 } else { 0i32 }, row.first_step_id, true),
            };
            let base = normalized_state(if ext_empty { None } else { parsed }, row.first_step_id);
            let path = if ext_empty {
                base.2.update(0, (if progress == 0 { row.first_step_id } else { progress }, base.2[0].1))
            } else {
                base.2
            };
            &&& info.story_id == Some(row.story_id)
            &&& info.story_state == Some(story_state)
            &&& info.first_ele_cd_begin_time == Some(0i64)
            &&& info.infer_state == Some(base.0)
            &&& info.gained_ending_count == Some(base.1)
            &&& step_infos_view(info.inferred_steps@) == path.map_values(|p: (i32, Seq<i32>)| (Some(p.0), p.1))
            &&& info.unlock_ending_infos@.len() == base.3.len()
            &&& forall|e: int| 0 <= e < base.3.len() ==> (#[trigger] info.unlock_ending_infos@[e]).ending_id == Some(base.3[e].0)
                && step_infos_view(info.unlock_ending_infos@[e].inferred_steps@) == base.3[e].1.map_values(
                |p: (i32, Seq<i32>)| (Some(p.0), p.1),
            )
        }),
{
    let (story_state, progress, ext_empty) = match stored {
        Some(s) => s,
        None => (if row.pre_element_id1 == 0 { 1 } else { 0 }, row.first_step_id, true),
    };
    let mut state = act165_state(if ext_empty { None } else { parsed }, row.first_step_id);
    if ext_empty {
        let first = if progress == 0 { row.first_step_id } else { progress };
        let ghost before = path_view(state.steps@);
        state.steps[0].step_id = first;
        assert(path_view(state.steps@) =~= before.update(0, (first, before[0].1)));
    }
    let inferred_steps = step_infos(&state.steps);
    let mut endings: Vec<EndingInfo> = Vec::new();
    let mut e: usize = 0;
    while e < state.endings.len()
        invariant
            e <= state.endings@.len(),
            endings@.len() == e,
            forall|j: int| 0 <= j < e ==> (#[trigger] endings@[j]).ending_id == Some(state.endings@[j].ending_id)
                && step_infos_view(endings@[j].inferred_steps@) == path_view(state.endings@[j].steps@).map_values(
                |p: (i32, Seq<i32>)| (Some(p.0), p.1),
            ),
        decreases state.endings.len() - e,
    {
        let steps = step_infos(&state.endings[e].steps);
        endings.push(EndingInfo { ending_id: Some(state.endings[e].ending_id), inferred_steps: steps });
        e = e + 1;
    }
    Act165StoryInfo {
        story_id: Some(row.story_id),
        story_state: Some(story_state),
        first_ele_cd_begin_time: Some(0),
        infer_state: Some(state.infer_state),
        inferred_steps,
        unlock_ending_infos: endings,
        gained_ending_count: Some(state.gained_ending_count),
    }
}

/// The stories of event `activity_id` among `(event, story)` rows, each
/// keyed so that a higher story id comes first, in table order.
pub open spec fn stories_by_id_desc(rows: Seq<(i32, Act165StoryRow)>, activity_id: i32) -> Seq<(i32, Act165StoryRow)> {
    filter_map(rows, story_key_fn(activity_id))
}

/// A row keyed for a descending order (`-1 - story_id`), when it belongs to
/// event `activity_id`.
pub open spec fn story_key_fn(activity_id: i32) -> spec_fn((i32, Act165StoryRow)) -> Option<(i32, Act165StoryRow)> {
    |r: (i32, Act165StoryRow)| if r.0 == activity_id { Some(((-1 - r.1.story_id) as i32, r.1)) } else { None }
}

/// The stories of event `activity_id` in the order the event lists them:
/// highest story id first, stories with equal ids in table order. Each comes
/// keyed by `-1 - story_id`, which orders the same way upwards.
pub fn act165_story_order(activity_id: i32, rows: &[(i32, Act165StoryRow)]) -> (res: Vec<(i32, Act165StoryRow)>)
    ensures
        stably_sorted(res@, stories_by_id_desc(rows@, activity_id)),
        forall|j: int| 0 <= j < res@.len() ==> (#[trigger] res@[j]).0 == -1 - res@[j].1.story_id,
{
    let ghost f = story_key_fn(activity_id);
    let mut keyed: Vec<(i32, Act165StoryRow)> = Vec::new();
    let mut i: usize = 0;
    while i < rows.len()
        invariant
            i <= rows@.len(),
            f == story_key_fn(activity_id),
            keyed@ == filter_map(rows@.take(i as int), f),
            forall|j: int| 0 <= j < keyed@.len() ==> (#[trigger] keyed@[j]).0 == -1 - keyed@[j].1.story_id,
        decreases rows.len() - i,
    {
        assert(rows@.take(i + 1).drop_last() =~= rows@.take(i as int));
        if rows[i].0 == activity_id {
            let story = rows[i].1;
            keyed.push((-1 - story.story_id, story));
        }
        i = i + 1;
    }
    assert(rows@.take(rows@.len() as int) =~= rows@);
    let ghost before = keyed@;
    let out = sort_by_key_stable(keyed);
    proof {
        lemma_sorted_keeps(before, out@, |p: (i32, Act165StoryRow)| p.0 == -1 - p.1.story_id);
    }
    out
}

} // verus!
