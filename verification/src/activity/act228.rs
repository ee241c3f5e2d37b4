use crate::text::{chars_of, filter_map, parse_i32, parse_i32_spec, split, split_spec};
use vstd::prelude::*;

verus! {

/// One board of the flip-the-grid event.
#[derive(Clone, Debug)]
pub struct Act228Row {
    pub activity_id: i32,
    pub row: i32,
    pub column: i32,
    pub reward: String,
}

/// The state of a board as the client sees it.
#[derive(Clone, Debug)]
pub struct Act228Info {
    pub normal_flip_count: Option<i32>,
    pub reward_ids: Vec<i32>,
    pub grid_states: Vec<i32>,
    pub get_final_bonus: Option<bool>,
}

/// The answer to a request for the board.
#[derive(Clone, Debug)]
pub struct GetAct228InfoReply {
    pub activity_id: Option<i32>,
    pub info: Option<Act228Info>,
}

/// A material granted by a flip.
#[derive(Clone, Copy, Debug)]
pub struct MaterialData {
    pub material_type: u32,
    pub material_id: u32,
    pub quantity: i32,
}

/// The answer to a flip.
#[derive(Clone, Debug)]
pub struct Act228FlipGridGridReply {
    pub activity_id: Option<i32>,
    pub grid_states: Vec<i32>,
    pub bonuses: Vec<MaterialData>,
}

/// The answer to a claim of the final bonus.
#[derive(Clone, Debug)]
pub struct Act228GetFinalBonusReply {
    pub activity_id: Option<i32>,
    pub bonuses: Vec<MaterialData>,
}

/// The first board of `activity_id`.
pub open spec fn first_row_of(rows: Seq<Act228Row>, activity_id: i32) -> Option<Act228Row>
    decreases rows.len(),
{
    if rows.len() == 0 {
        None
    } else {
        match first_row_of(rows.drop_last(), activity_id) {
            Some(r) => Some(r),
            None => if rows.last().activity_id == activity_id {
                Some(rows.last())
            } else {
                None
            },
        }
    }
}

/// The board with the largest event id (the last of equals, as `max_by_key` picks).
pub open spec fn latest_row(rows: Seq<Act228Row>) -> Option<Act228Row>
    decreases rows.len(),
{
    if rows.len() == 0 {
        None
    } else {
        match latest_row(rows.drop_last()) {
            Some(r) => if rows.last().activity_id >= r.activity_id {
                Some(rows.last())
            } else {
                Some(r)
            },
            None => Some(rows.last()),
        }
    }
}

/// The board a request is about: the one of the asked event, or the latest.
pub open spec fn config_row(rows: Seq<Act228Row>, activity_id: Option<i32>) -> Option<Act228Row> {
    match activity_id {
        Some(id) => first_row_of(rows, id),
        None => latest_row(rows),
    }
}

fn act228_config(rows: &[Act228Row], activity_id: Option<i32>) -> (res: Option<usize>)
    ensures
        match res {
            Some(i) => i < rows@.len() && config_row(rows@, activity_id) == Some(rows@[i as int]),
            None => config_row(rows@, activity_id) is None,
        },
{
    let mut found: Option<usize> = None;
    let mut i: usize = 0;
    while i < rows.len()
        invariant
            i <= rows@.len(),
            match found {
                Some(j) => j < i && config_row(rows@.take(i as int), activity_id) == Some(rows@[j as int]),
                None => config_row(rows@.take(i as int), activity_id) is None,
            },
        decreases rows.len() - i,
    {
        assert(rows@.take(i + 1).drop_last() =~= rows@.take(i as int));
        assert(rows@.take(i + 1).last() == rows@[i as int]);
        match activity_id {
            Some(id) => {
                if found.is_none() && rows[i].activity_id == id {
                    found = Some(i);
                }
            },
            None => {
                found = match found {
                    Some(j) => if rows[i].activity_id >= rows[j].activity_id {
                        Some(i)
                    } else {
                        Some(j)
                    },
                    None => Some(i),
                };
            },
        }
        i = i + 1;
    }
    assert(rows@.take(rows@.len() as int) =~= rows@);
    found
}

/// The event id to answer with: the board's, else the asked one, else `fallback`.
pub open spec fn reply_activity_id(rows: Seq<Act228Row>, activity_id: Option<i32>, fallback: i32) -> i32 {
    match config_row(rows, activity_id) {
        Some(r) => r.activity_id,
        None => match activity_id {
            Some(id) => id,
            None => fallback,
        },
    }
}

/// How many cells a board has (negative sizes count as zero).
pub open spec fn grid_count(r: Act228Row) -> int {
    (if r.row > 0 { r.row as int } else { 0 }) * (if r.column > 0 { r.column as int } else { 0 })
}

/// Every board's cell count fits in memory's index range.
pub open spec fn boards_fit(rows: Seq<Act228Row>) -> bool {
    forall|i: int| 0 <= i < rows.len() ==> grid_count(#[trigger] rows[i]) <= usize::MAX
}

/// The cells of the board a request is about, all unflipped (`0`); none without a board.
pub open spec fn grid_states_spec(rows: Seq<Act228Row>, activity_id: Option<i32>) -> Seq<i32> {
    match config_row(rows, activity_id) {
        Some(r) => Seq::new(grid_count(r) as nat, |i: int| 0i32),
        None => Seq::empty(),
    }
}

fn grid_states(rows: &[Act228Row], idx: Option<usize>) -> (out: Vec<i32>)
    requires
        boards_fit(rows@),
        idx matches Some(i) ==> i < rows@.len(),
    ensures
        out@ == match idx {
            Some(i) => Seq::new(grid_count(rows@[i as int]) as nat, |k: int| 0i32),
            None => Seq::empty(),
        },
{
    let n: usize = match idx {
        Some(i) => {
            let r: usize = if rows[i].row > 0 { rows[i].row as usize } else { 0 };
            let c: usize = if rows[i].column > 0 { rows[i].column as usize } else { 0 };
            assert(grid_count(rows@[i as int]) == r * c);
            r * c
        },
        None => 0,
    };
    let mut out: Vec<i32> = Vec::new();
    let mut k: usize = 0;
    while k < n
        invariant
            k <= n,
            out@ == Seq::new(k as nat, |j: int| 0i32),
        decreases n - k,
    {
        out.push(0);
        assert(out@ =~= Seq::new((k + 1) as nat, |j: int| 0i32));
        k = k + 1;
    }
    assert(out@ =~= match idx {
        Some(i) => Seq::new(grid_count(rows@[i as int]) as nat, |k: int| 0i32),
        None => Seq::<i32>::empty(),
    });
    out
}

/// A `|`-separated reward piece: its first `#` field as a positive id.
pub open spec fn reward_id_fn() -> spec_fn(Seq<char>) -> Option<i32> {
    |p: Seq<char>|
        match parse_i32_spec(split_spec(p, '#')[0]) {
            Some(v) => if v > 0 {
                Some(v)
            } else {
                None
            },
            None => None,
        }
}

/// The positive reward ids of a board's reward list `id#...|id#...`.
pub open spec fn reward_ids_spec(reward: Seq<char>) -> Seq<i32> {
    filter_map(split_spec(reward, '|'), reward_id_fn())
}

/// The reward ids listed on a board.
pub fn act228_reward_ids(row: &Act228Row) -> (out: Vec<i32>)
    ensures
        out@ == reward_ids_spec(row.reward@),
{
    let chars = chars_of(row.reward.as_str());
    let parts = split(chars.as_slice(), '|');
    let mut out: Vec<i32> = Vec::new();
    let mut i: usize = 0;
    while i < parts.len()
        invariant
            i <= parts@.len(),
            parts.deep_view() == split_spec(row.reward@, '|'),
            out@ == filter_map(parts.deep_view().take(i as int), reward_id_fn()),
        decreases parts.len() - i,
    {
        let ghost pv = parts.deep_view();
        assert(pv.take(i + 1).drop_last() =~= pv.take(i as int));
        assert(pv[i as int] == parts[i as int]@);
        let fields = split(parts[i].as_slice(), '#');
        proof {
            crate::text::lemma_split_nonempty(parts[i as int]@, '#');
        }
        assert(fields.deep_view()[0] == fields[0]@);
        match parse_i32(fields[0].as_slice()) {
            Some(v) => {
                if v > 0 {
                    out.push(v);
                }
            },
            None => {},
        }
        i = i + 1;
    }
    assert(parts.deep_view().take(parts@.len() as int) =~= parts.deep_view());
    out
}

/// The board as a player first sees it: no flips, the board's rewards, all
/// cells unflipped, final bonus not taken. `fallback` is the event id used when
/// neither a board nor an event id is at hand.
pub fn act228_info(rows: &[Act228Row], activity_id: Option<i32>, fallback: i32) -> (reply: GetAct228InfoReply)
    requires
        boards_fit(rows@),
    ensures
        reply.activity_id == Some(reply_activity_id(rows@, activity_id, fallback)),
        reply.info is Some,
        reply.info->0.normal_flip_count == Some(0i32),
        reply.info->0.reward_ids@ == match config_row(rows@, activity_id) {
            Some(r) => reward_ids_spec(r.reward@),
            None => Seq::<i32>::empty(),
        },
        reply.info->0.grid_states@ == grid_states_spec(rows@, activity_id),
        reply.info->0.get_final_bonus == Some(false),
{
    let idx = act228_config(rows, activity_id);
    let id = match idx {
        Some(i) => rows[i].activity_id,
        None => match activity_id {
            Some(a) => a,
            None => fallback,
        },
    };
    let reward_ids = match idx {
        Some(i) => act228_reward_ids(&rows[i]),
        None => Vec::new(),
    };
    GetAct228InfoReply {
        activity_id: Some(id),
        info: Some(
            Act228Info {
                normal_flip_count: Some(0),
                reward_ids,
                grid_states: grid_states(rows, idx),
                get_final_bonus: Some(false),
            },
        ),
    }
}

/// A flip: the board's cells, unflipped, and no bonus.
pub fn act228_flip_grid(rows: &[Act228Row], activity_id: Option<i32>, fallback: i32) -> (reply: Act228FlipGridGridReply)
    requires
        boards_fit(rows@),
    ensures
        reply.activity_id == Some(reply_activity_id(rows@, activity_id, fallback)),
        reply.grid_states@ == grid_states_spec(rows@, activity_id),
        reply.bonuses@.len() == 0,
{
    let idx = act228_config(rows, activity_id);
    let id = match idx {
        Some(i) => rows[i].activity_id,
        None => match activity_id {
            Some(a) => a,
            None => fallback,
        },
    };
    Act228FlipGridGridReply { activity_id: Some(id), grid_states: grid_states(rows, idx), bonuses: Vec::new() }
}

/// A claim of the final bonus: the event id and no bonus.
pub fn act228_get_final_bonus(rows: &[Act228Row], activity_id: Option<i32>, fallback: i32) -> (reply: Act228GetFinalBonusReply)
    ensures
        reply.activity_id == Some(reply_activity_id(rows@, activity_id, fallback)),
        reply.bonuses@.len() == 0,
{
    let idx = act228_config(rows, activity_id);
    let id = match idx {
        Some(i) => rows[i].activity_id,
        None => match activity_id {
            Some(a) => a,
            None => fallback,
        },
    };
    Act228GetFinalBonusReply { activity_id: Some(id), bonuses: Vec::new() }
}

} // verus!
