use crate::error::LogicError;
use crate::text::{find_map, int_text, lemma_find_map_prefix, push_int_text};
use vstd::prelude::*;

verus! {

/// The sum of the levels that are present among the first `n`.
pub open spec fn level_sum(levels: Seq<Option<i32>>, n: int) -> int
    decreases n,
{
    if n <= 0 {
        0
    } else {
        level_sum(levels, n - 1) + match levels[n - 1] {
            Some(l) => l as int,
            None => 0,
        }
    }
}

/// How many of the first `n` levels are present.
pub open spec fn level_count(levels: Seq<Option<i32>>, n: int) -> int
    decreases n,
{
    if n <= 0 {
        0
    } else {
        level_count(levels, n - 1) + if levels[n - 1] is Some { 1int } else { 0int }
    }
}

proof fn lemma_count_grows(levels: Seq<Option<i32>>, a: int, b: int)
    requires
        0 <= a <= b,
    ensures
        level_count(levels, a) <= level_count(levels, b),
    decreases b - a,
{
    if a < b {
        lemma_count_grows(levels, a, b - 1);
    }
}

/// `a / b` rounded toward zero, as Rust divides integers.
pub open spec fn div_toward_zero(a: int, b: int) -> int {
    if a >= 0 {
        a / b
    } else {
        -((-a) / b)
    }
}

/// The team's average level over the members that have one (rounded toward
/// zero), or nothing when no member has a level. The running sum must stay
/// within `i32`, as the sum is kept in one.
pub fn average_team_level(levels: &[Option<i32>]) -> (res: Option<i32>)
    requires
        forall|k: int| 0 <= k <= levels@.len() ==> i32::MIN <= #[trigger] level_sum(levels@, k) <= i32::MAX,
        level_count(levels@, levels@.len() as int) <= i32::MAX,
    ensures
        level_count(levels@, levels@.len() as int) == 0 ==> res is None,
        level_count(levels@, levels@.len() as int) > 0 ==> res == Some(
            div_toward_zero(level_sum(levels@, levels@.len() as int), level_count(levels@, levels@.len() as int))
                as i32,
        ),
{
    let mut sum: i32 = 0;
    let mut count: i32 = 0;
    let mut i: usize = 0;
    while i < levels.len()
        invariant
            i <= levels@.len(),
            forall|k: int| 0 <= k <= levels@.len() ==> i32::MIN <= #[trigger] level_sum(levels@, k) <= i32::MAX,
            sum == level_sum(levels@, i as int),
            count == level_count(levels@, i as int),
            0 <= count <= i,
            level_count(levels@, levels@.len() as int) <= i32::MAX,
        decreases levels.len() - i,
    {
        assert(i32::MIN <= level_sum(levels@, i + 1) <= i32::MAX);
        match levels[i] {
            Some(l) => {
                sum = sum + l;
                assert(count < i32::MAX) by {
                    lemma_count_grows(levels@, i + 1, levels@.len() as int);
                }
                count = count + 1;
            },
            None => {},
        }
        i = i + 1;
    }
    if count == 0 {
        return None;
    }
    let q: i32 = if sum >= 0 {
        sum / count
    } else {
        let m: i64 = -(sum as i64);
        let d: i64 = m / (count as i64);
        (-d) as i32
    };
    Some(q)
}

/// The four bytes of a non-negative `v`, most significant first.
pub open spec fn be32(v: int) -> Seq<u8> {
    seq![(v / 16777216) as u8, ((v / 65536) % 256) as u8, ((v / 256) % 256) as u8, (v % 256) as u8]
}

fn push_be32(out: &mut Vec<u8>, v: i32)
    requires
        v >= 0,
    ensures
        final(out)@ == old(out)@ + be32(v as int),
{
    let u = v as u32;
    out.push((u / 16777216) as u8);
    out.push(((u / 65536) % 256) as u8);
    out.push(((u / 256) % 256) as u8);
    out.push((u % 256) as u8);
    assert(final(out)@ =~= old(out)@ + be32(v as int));
}

/// The steps framed for the client: the step count, then each step's length
/// and bytes, counts and lengths as big-endian `i32`.
pub open spec fn framed_steps(steps: Seq<Seq<u8>>) -> Seq<u8> {
    be32(steps.len() as int) + framed_body(steps)
}

/// Each step's length and bytes, in order.
pub open spec fn framed_body(steps: Seq<Seq<u8>>) -> Seq<u8>
    decreases steps.len(),
{
    if steps.len() == 0 {
        Seq::empty()
    } else {
        framed_body(steps.drop_last()) + be32(steps.last().len() as int) + steps.last()
    }
}

/// All steps and their count fit the framing's `i32` lengths.
pub open spec fn frame_fits(steps: Seq<Seq<u8>>) -> bool {
    steps.len() <= i32::MAX && forall|i: int| 0 <= i < steps.len() ==> (#[trigger] steps[i]).len() <= i32::MAX
}

/// The message of a round with more steps than an `i32` counts.
pub open spec fn step_count_error_text() -> Seq<char> {
    "fight step count exceeds i32"@
}

/// The message of a step longer than an `i32` length.
pub open spec fn step_length_error_text() -> Seq<char> {
    "encoded fight step exceeds i32"@
}

/// Why steps cannot be framed, if they cannot: too many steps, else a step
/// too long.
pub open spec fn frame_error(steps: Seq<Seq<u8>>) -> Option<Seq<char>> {
    if steps.len() > i32::MAX {
        Some(step_count_error_text())
    } else if !frame_fits(steps) {
        Some(step_length_error_text())
    } else {
        None
    }
}

/// Frames encoded steps; see `framed_steps`. Too many steps, or a step too
/// long for an `i32` length, is an error (see `frame_error`).
pub fn frame_round_steps(steps: &Vec<Vec<u8>>) -> (res: Result<Vec<u8>, LogicError>)
    ensures
        frame_fits(steps.deep_view()) ==> res is Ok && res->Ok_0@ == framed_steps(steps.deep_view()),
        !frame_fits(steps.deep_view()) ==> res is Err,
        frame_error(steps.deep_view()) matches Some(m) ==> (res matches Err(LogicError::Custom(t)) && t@ == m),
{
    if steps.len() > 0x7fff_ffff {
        proof {
            reveal_strlit("fight step count exceeds i32");
        }
        return Err(LogicError::Custom(String::from_str("fight step count exceeds i32")));
    }
    let ghost sv = steps.deep_view();
    let mut framed: Vec<u8> = Vec::new();
    push_be32(&mut framed, steps.len() as i32);
    let mut i: usize = 0;
    while i < steps.len()
        invariant
            i <= sv.len(),
            sv == steps.deep_view(),
            sv.len() <= i32::MAX,
            forall|k: int| 0 <= k < i ==> (#[trigger] sv[k]).len() <= i32::MAX,
            framed@ == be32(sv.len() as int) + framed_body(sv.take(i as int)),
        decreases steps.len() - i,
    {
        assert(sv[i as int] == steps@[i as int]@);
        let step = &steps[i];
        if step.len() > 0x7fff_ffff {
            proof {
                reveal_strlit("encoded fight step exceeds i32");
            }
            return Err(LogicError::Custom(String::from_str("encoded fight step exceeds i32")));
        }
        let ghost before = framed@;
        push_be32(&mut framed, step.len() as i32);
        let mut j: usize = 0;
        while j < step.len()
            invariant
                j <= step@.len(),
                framed@ == before + be32(step@.len() as int) + step@.take(j as int),
            decreases step.len() - j,
        {
            framed.push(step[j]);
            assert(step@.take(j + 1) =~= step@.take(j as int).push(step@[j as int]));
            assert(framed@ =~= before + be32(step@.len() as int) + step@.take(j + 1));
            j = j + 1;
        }
        assert(step@.take(step@.len() as int) =~= step@);
        assert(sv.take(i + 1).drop_last() =~= sv.take(i as int));
        assert(framed@ =~= be32(sv.len() as int) + framed_body(sv.take(i + 1)));
        i = i + 1;
    }
    assert(sv.take(sv.len() as int) =~= sv);
    Ok(framed)
}

/// Names the gzip stream that `flate2` writes for `data` at the default level
/// (`GzEncoder::new(data, Compression::default())`, read to the end).
pub uninterp spec fn gzip_of(data: Seq<u8>) -> Seq<u8>;

/// Gzips `data` with `flate2` at the default level: the encoder reads from an
/// in-memory slice, which cannot fail, so the result is always the stream
/// `gzip_of` names. The error arm only converts the `io::Error` type.
#[verifier::external_body]
fn gzip(data: &[u8]) -> (r: Result<Vec<u8>, String>)
    ensures
        r is Ok,
        r matches Ok(v) ==> v@ == gzip_of(data@),
{
    let mut encoder = flate2::read::GzEncoder::new(data, flate2::Compression::default());
    let mut out = Vec::new();
    match std::io::Read::read_to_end(&mut encoder, &mut out) {
        Ok(_) => Ok(out),
        Err(e) => Err(e.to_string()),
    }
}

/// The reply for a round of `count` steps, from what compressing its framed
/// steps gave: the count and the compressed bytes, or the failure's message as
/// an I/O error.
pub fn round_steps_reply(count: i32, compressed: Result<Vec<u8>, String>) -> (res: Result<(i32, Vec<u8>), LogicError>)
    ensures
        match compressed {
            Ok(bytes) => res == Ok::<(i32, Vec<u8>), LogicError>((count, bytes)),
            Err(msg) => res == Err::<(i32, Vec<u8>), LogicError>(LogicError::Io(msg)),
        },
{
    match compressed {
        Ok(bytes) => Ok((count, bytes)),
        Err(msg) => Err(LogicError::Io(msg)),
    }
}

/// A round's steps as the client receives them: their count, and the framed
/// steps gzipped. Steps that cannot be framed give the framing error (see
/// `frame_error`); steps that can always give the reply.
pub fn compress_round_steps(steps: &Vec<Vec<u8>>) -> (res: Result<(i32, Vec<u8>), LogicError>)
    ensures
        !frame_fits(steps.deep_view()) ==> res is Err,
        frame_error(steps.deep_view()) matches Some(m) ==> (res matches Err(LogicError::Custom(t)) && t@ == m),
        frame_fits(steps.deep_view()) ==> (res matches Ok((count, bytes)) && count == steps@.len() && bytes@ == gzip_of(
            framed_steps(steps.deep_view()),
        )),
        res matches Ok((count, bytes)) ==> frame_fits(steps.deep_view()) && count == steps@.len()
            && bytes@ == gzip_of(framed_steps(steps.deep_view())),
{
    let framed = match frame_round_steps(steps) {
        Ok(f) => f,
        Err(e) => {
            return Err(e);
        },
    };
    let compressed = gzip(framed.as_slice());
    round_steps_reply(steps.len() as i32, compressed)
}

/// One round of a fight as the replay keeps it: the client's request and the
/// cloth skills used before it.
#[derive(Clone, Debug)]
pub struct CommittedRound<R, O> {
    pub request: R,
    pub cloth_skill_opers: Vec<O>,
}

/// The rounds of a fight, and the cloth skills used since the last round.
#[derive(Clone, Debug)]
pub struct RoundRecords<R, O> {
    pub rounds: Vec<CommittedRound<R, O>>,
    pub pending_cloth_skill_opers: Vec<O>,
}

impl<R, O> RoundRecords<R, O> {
    /// No round yet, no skill used.
    pub fn new() -> (res: Self)
        ensures
            res.rounds@.len() == 0,
            res.pending_cloth_skill_opers@.len() == 0,
    {
        RoundRecords { rounds: Vec::new(), pending_cloth_skill_opers: Vec::new() }
    }

    /// A cloth skill used: kept until the next round is recorded.
    pub fn push_cloth_skill_oper(&mut self, oper: O)
        ensures
            final(self).pending_cloth_skill_opers@ == old(self).pending_cloth_skill_opers@.push(oper),
            final(self).rounds@ == old(self).rounds@,
    {
        self.pending_cloth_skill_opers.push(oper);
    }

    /// Records a round: its request with the cloth skills used since the last
    /// round, which then start afresh. Earlier rounds stay as they were.
    pub fn record_round(&mut self, request: R)
        ensures
            final(self).rounds@.len() == old(self).rounds@.len() + 1,
            forall|i: int| 0 <= i < old(self).rounds@.len() ==> #[trigger] final(self).rounds@[i] == old(self).rounds@[i],
            final(self).rounds@.last().request == request,
            final(self).rounds@.last().cloth_skill_opers@ == old(self).pending_cloth_skill_opers@,
            final(self).pending_cloth_skill_opers@.len() == 0,
    {
        let mut opers: Vec<O> = Vec::new();
        std::mem::swap(&mut opers, &mut self.pending_cloth_skill_opers);
        self.rounds.push(CommittedRound { request, cloth_skill_opers: opers });
    }
}

/// A fight may start only while the player has none running, neither in this
/// session (`active`) nor stored (`stored_active`).
pub fn ensure_can_start(active: bool, stored_active: bool) -> (res: Result<(), LogicError>)
    ensures
        res == if active || stored_active {
            Err::<(), LogicError>(LogicError::InvalidRequest)
        } else {
            Ok(())
        },
{
    if active || stored_active {
        Err(LogicError::InvalidRequest)
    } else {
        Ok(())
    }
}

/// The multiplier a fight is stored with: the one asked for, at least one.
pub open spec fn stored_multiplication(multiplication: Option<i32>) -> i32 {
    match multiplication {
        Some(m) => if m < 1 { 1 } else { m },
        None => 1,
    }
}

/// Activating a prepared fight: refused once it has a stored instance
/// (`fight_id`); else the multiplier to store (see `stored_multiplication`).
pub fn activation_multiplication(fight_id: Option<i64>, multiplication: Option<i32>) -> (res: Result<i32, LogicError>)
    ensures
        res == match fight_id {
            Some(_) => Err::<i32, LogicError>(LogicError::InvalidRequest),
            None => Ok(stored_multiplication(multiplication)),
        },
{
    if fight_id.is_some() {
        return Err(LogicError::InvalidRequest);
    }
    let m = match multiplication {
        Some(m) => m,
        None => 1,
    };
    Ok(if m < 1 { 1 } else { m })
}

/// The message of a checkpoint that names no episode.
pub open spec fn no_episode_text() -> Seq<char> {
    "start request has no episode"@
}

/// The message of a checkpoint whose episode is not the fight's.
pub open spec fn episode_mismatch_text() -> Seq<char> {
    "checkpoint episode does not match fight instance"@
}

/// The message of a checkpoint that names no team.
pub open spec fn no_fight_group_text() -> Seq<char> {
    "start request has no fight group"@
}

/// Checks a stored fight's checkpoint before the fight is rebuilt: it must
/// name an episode, the stored fight's (`record_episode`), and a team; the
/// answer is the episode, or the checkpoint error that says what is wrong.
pub fn restore_checks(checkpoint_episode: Option<i32>, record_episode: i32, has_fight_group: bool) -> (res: Result<i32, LogicError>)
    ensures
        match checkpoint_episode {
            None => res matches Err(LogicError::InvalidBattleCheckpoint(m)) && m@ == no_episode_text(),
            Some(e) => if e != record_episode {
                res matches Err(LogicError::InvalidBattleCheckpoint(m)) && m@ == episode_mismatch_text()
            } else if !has_fight_group {
                res matches Err(LogicError::InvalidBattleCheckpoint(m)) && m@ == no_fight_group_text()
            } else {
                res == Ok::<i32, LogicError>(e)
            },
        },
{
    let e = match checkpoint_episode {
        Some(e) => e,
        None => {
            proof {
                reveal_strlit("start request has no episode");
            }
            return Err(LogicError::InvalidBattleCheckpoint(String::from_str("start request has no episode")));
        },
    };
    if e != record_episode {
        proof {
            reveal_strlit("checkpoint episode does not match fight instance");
        }
        return Err(
            LogicError::InvalidBattleCheckpoint(String::from_str("checkpoint episode does not match fight instance")),
        );
    }
    if !has_fight_group {
        proof {
            reveal_strlit("start request has no fight group");
        }
        return Err(LogicError::InvalidBattleCheckpoint(String::from_str("start request has no fight group")));
    }
    Ok(e)
}

/// Where a tower fight stands: its tower, layer, difficulty and talent plan.
#[derive(Clone, Copy, Debug, PartialEq, Eq)]
pub struct TowerContext {
    pub tower_type: i32,
    pub tower_id: i32,
    pub layer_id: i32,
    pub difficulty: i32,
    pub talent_plan_id: i32,
}

/// Why a stored checkpoint cannot be restored, if it cannot (see
/// `restore_checks`).
pub open spec fn restore_error(checkpoint_episode: Option<i32>, record_episode: i32, has_fight_group: bool) -> Option<Seq<char>> {
    match checkpoint_episode {
        None => Some(no_episode_text()),
        Some(e) => if e != record_episode {
            Some(episode_mismatch_text())
        } else if !has_fight_group {
            Some(no_fight_group_text())
        } else {
            None
        },
    }
}

/// A stored fight brought back: the fight's id, the episode and battle of its
/// record, the chapter, replay flag, tower and seed of its checkpoint.
#[derive(Clone, Copy, Debug, PartialEq, Eq)]
pub struct RestoredFight {
    pub fight_id: i64,
    pub episode_id: i32,
    pub chapter_id: i32,
    pub battle_id: i32,
    pub use_record: bool,
    pub tower: Option<TowerContext>,
    pub seed: u64,
}

/// Restores a stored fight from its record (`record_id`, `record_episode`,
/// `record_battle_id`) and its checkpoint (the episode and team of its start
/// request, its chapter, replay flag, tower and seed): refused with the
/// checkpoint error that `restore_error` names; else the fight keeps the
/// record's id and the checkpoint's seed, so the rebuilt fight replays alike.
pub fn restore_fight(
    record_id: i64,
    record_episode: i32,
    record_battle_id: i32,
    checkpoint_episode: Option<i32>,
    checkpoint_chapter: i32,
    has_fight_group: bool,
    use_record: Option<bool>,
    tower: Option<TowerContext>,
    seed: u64,
) -> (res: Result<RestoredFight, LogicError>)
    ensures
        match restore_error(checkpoint_episode, record_episode, has_fight_group) {
            Some(m) => res matches Err(LogicError::InvalidBattleCheckpoint(t)) && t@ == m,
            None => res == Ok::<RestoredFight, LogicError>(
                RestoredFight {
                    fight_id: record_id,
                    episode_id: record_episode,
                    chapter_id: checkpoint_chapter,
                    battle_id: record_battle_id,
                    use_record: use_record == Some(true),
                    tower,
                    seed,
                },
            ),
        },
{
    let episode_id = match restore_checks(checkpoint_episode, record_episode, has_fight_group) {
        Ok(e) => e,
        Err(err) => {
            return Err(err);
        },
    };
    let replay = match use_record {
        Some(b) => b,
        None => false,
    };
    Ok(RestoredFight {
        fight_id: record_id,
        episode_id,
        chapter_id: checkpoint_chapter,
        battle_id: record_battle_id,
        use_record: replay,
        tower,
        seed,
    })
}

/// The kind of fight the client is told of on reconnecting.
#[derive(Clone, Copy, Debug, PartialEq, Eq)]
pub enum FightKind {
    Dungeon,
    DungeonRecord,
}

/// On reconnecting, a replayed fight shows as a recorded dungeon fight, any
/// other as a dungeon fight; the reason's text is the episode id.
pub fn fight_reason(is_replay: Option<bool>, episode_id: i32) -> (res: (FightKind, String))
    ensures
        res.0 == if is_replay == Some(true) { FightKind::DungeonRecord } else { FightKind::Dungeon },
        res.1@ == int_text(episode_id as int),
{
    let kind = if is_replay == Some(true) { FightKind::DungeonRecord } else { FightKind::Dungeon };
    let mut content = String::new();
    push_int_text(&mut content, episode_id);
    (kind, content)
}

/// A seed drawn from the thread's random generator (`rand::random::<u64>()`).
/// The draw is random: nothing is stated of the value.
#[verifier::external_body]
fn random_seed() -> (r: u64) {
    rand::random::<u64>()
}

/// What the server keeps of a fight besides its engine state.
#[derive(Clone, Copy, Debug, PartialEq, Eq)]
pub struct BattleMeta {
    pub tower: Option<TowerContext>,
    pub episode_id: i32,
    pub chapter_id: i32,
    pub battle_id: i32,
    pub team_level: Option<i32>,
    pub assist_boss_level: Option<i32>,
    pub is_replay: bool,
    pub multiplication: Option<i32>,
    pub seed: u64,
}

/// The levels of the attacking team keep a running sum within `i32`.
pub open spec fn levels_fit(levels: Seq<Option<i32>>) -> bool {
    &&& forall|k: int| 0 <= k <= levels.len() ==> i32::MIN <= #[trigger] level_sum(levels, k) <= i32::MAX
    &&& level_count(levels, levels.len() as int) <= i32::MAX
}

/// The team's average level, as `average_team_level` gives it.
pub open spec fn team_level_spec(levels: Seq<Option<i32>>) -> Option<i32> {
    if level_count(levels, levels.len() as int) == 0 {
        None
    } else {
        Some(div_toward_zero(level_sum(levels, levels.len() as int), level_count(levels, levels.len() as int)) as i32)
    }
}

/// What the server keeps of a fight about to start: refused without a team
/// (`has_fight_group`); else the fight's ids, its tower context, the attacking
/// team's average level (`attacker_levels`, `None` without an attacking team)
/// and its assist boss's level, whether it replays a record, the multiplier
/// asked for and the seed.
pub fn battle_metadata(
    chapter_id: i32,
    episode_id: i32,
    battle_id: i32,
    use_record: Option<bool>,
    has_fight_group: bool,
    attacker_levels: Option<&[Option<i32>]>,
    assist_boss_level: Option<i32>,
    tower: Option<TowerContext>,
    multiplication: Option<i32>,
    seed: u64,
) -> (res: Result<BattleMeta, LogicError>)
    requires
        attacker_levels matches Some(l) ==> levels_fit(l@),
    ensures
        !has_fight_group ==> res == Err::<BattleMeta, LogicError>(LogicError::InvalidRequest),
        has_fight_group ==> res == Ok::<BattleMeta, LogicError>(
            BattleMeta {
                tower,
                episode_id,
                chapter_id,
                battle_id,
                team_level: match attacker_levels {
                    Some(l) => team_level_spec(l@),
                    None => None,
                },
                assist_boss_level,
                is_replay: use_record == Some(true),
                multiplication,
                seed,
            },
        ),
{
    if !has_fight_group {
        return Err(LogicError::InvalidRequest);
    }
    let team_level = match attacker_levels {
        Some(l) => {
            proof {
                lemma_count_grows(l@, 0, l@.len() as int);
            }
            average_team_level(l)
        },
        None => None,
    };
    let is_replay = match use_record {
        Some(u) => u,
        None => false,
    };
    Ok(
        BattleMeta {
            tower,
            episode_id,
            chapter_id,
            battle_id,
            team_level,
            assist_boss_level,
            is_replay,
            multiplication,
            seed,
        },
    )
}

/// The chapter of an episode in the episode table (`(episode, chapter)`
/// rows; the first for it).
pub open spec fn episode_chapter(episodes: Seq<(i32, i32)>, episode_id: i32) -> Option<i32> {
    find_map(episodes, chapter_fn(episode_id))
}

/// An `(episode, chapter)` row read as its chapter, when it is `episode_id`'s.
pub open spec fn chapter_fn(episode_id: i32) -> spec_fn((i32, i32)) -> Option<i32> {
    |e: (i32, i32)| if e.0 == episode_id { Some(e.1) } else { None }
}

/// The ids of a fight about to start as `(episode, chapter, battle)`:
/// refused without an episode or without a positive battle id; the chapter is
/// the one asked for, else the episode's in the table, else `0`.
pub open spec fn prepare_ids_spec(episode_id: Option<i32>, chapter_id: Option<i32>, episodes: Seq<(i32, i32)>, battle_id: Option<i32>) -> Result<
    (i32, i32, i32),
    LogicError,
> {
    match (episode_id, battle_id) {
        (Some(e), Some(b)) => if b > 0 {
            Ok(
                (
                    e,
                    match chapter_id {
                        Some(c) => c,
                        None => match episode_chapter(episodes, e) {
                            Some(c) => c,
                            None => 0,
                        },
                    },
                    b,
                ),
            )
        } else {
            Err(LogicError::InvalidRequest)
        },
        _ => Err(LogicError::InvalidRequest),
    }
}

/// The ids of a fight about to start; see `prepare_ids_spec`.
pub fn prepare_ids(episode_id: Option<i32>, chapter_id: Option<i32>, episodes: &[(i32, i32)], battle_id: Option<i32>) -> (res:
    Result<(i32, i32, i32), LogicError>)
    ensures
        res == prepare_ids_spec(episode_id, chapter_id, episodes@, battle_id),
{
    let e = match episode_id {
        Some(e) => e,
        None => {
            return Err(LogicError::InvalidRequest);
        },
    };
    let chapter = match chapter_id {
        Some(c) => c,
        None => {
            let ghost f = chapter_fn(e);
            let mut found: i32 = 0;
            let mut i: usize = 0;
            let mut done = false;
            while i < episodes.len() && !done
                invariant
                    i <= episodes@.len(),
                    f == chapter_fn(e),
                    !done ==> find_map(episodes@.take(i as int), f) is None && found == 0,
                    done ==> find_map(episodes@, f) == Some(found),
                decreases episodes.len() - i,
            {
                assert(episodes@.take(i + 1).drop_last() =~= episodes@.take(i as int));
                if episodes[i].0 == e {
                    proof {
                        lemma_find_map_prefix(episodes@, f, i + 1);
                    }
                    found = episodes[i].1;
                    done = true;
                }
                i = i + 1;
            }
            if !done {
                assert(episodes@.take(episodes@.len() as int) =~= episodes@);
            }
            found
        },
    };
    let b = match battle_id {
        Some(b) => b,
        None => {
            return Err(LogicError::InvalidRequest);
        },
    };
    if b <= 0 {
        return Err(LogicError::InvalidRequest);
    }
    Ok((e, chapter, b))
}

/// Prepares what the server keeps of a fight about to start: its ids (see
/// `prepare_ids`) and its metadata (see `battle_metadata`) with a fresh random
/// seed; refused as those are.
pub fn prepare_from_built(
    episode_id: Option<i32>,
    chapter_id: Option<i32>,
    episodes: &[(i32, i32)],
    battle_id: Option<i32>,
    use_record: Option<bool>,
    has_fight_group: bool,
    attacker_levels: Option<&[Option<i32>]>,
    assist_boss_level: Option<i32>,
    tower: Option<TowerContext>,
    multiplication: Option<i32>,
) -> (res: Result<BattleMeta, LogicError>)
    requires
        attacker_levels matches Some(l) ==> levels_fit(l@),
    ensures
        match prepare_ids_spec(episode_id, chapter_id, episodes@, battle_id) {
            Err(err) => res == Err::<BattleMeta, LogicError>(err),
            Ok((e, c, b)) => if !has_fight_group {
                res == Err::<BattleMeta, LogicError>(LogicError::InvalidRequest)
            } else {
                res matches Ok(m) && m == BattleMeta {
                    tower,
                    episode_id: e,
                    chapter_id: c,
                    battle_id: b,
                    team_level: match attacker_levels {
                        Some(l) => team_level_spec(l@),
                        None => None,
                    },
                    assist_boss_level,
                    is_replay: use_record == Some(true),
                    multiplication,
                    seed: m.seed,
                }
            },
        },
{
    let (e, c, b) = match prepare_ids(episode_id, chapter_id, episodes, battle_id) {
        Ok(ids) => ids,
        Err(err) => {
            return Err(err);
        },
    };
    let seed = random_seed();
    battle_metadata(c, e, b, use_record, has_fight_group, attacker_levels, assist_boss_level, tower, multiplication, seed)
}

} // verus!
