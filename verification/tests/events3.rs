use logic::activity::act136::{act136_select, is_allowed_hero, resolve_activity_id as resolve136, Act136Select, HeroPickRow};
use logic::activity::act146::{
    act146_activity_id, act146_episode_bonus, act146_infos, finish_act146_episode, valid_act146_episode, Act146Claim,
    Activity146Row, ACT146_FINISHED, ACT146_RECEIVED, ACT146_UNFINISHED,
};
use logic::activity::act158::{act158_infos, act225_activity_id};
use logic::activity::act172::act172_info;
use logic::activity::act189::{act189_info, get_act189_once_bonus, latest_act189_activity_id, Activity189Row};
use logic::activity::act196::{act196_gain, act196_info, resolve_activity_id as resolve196, Activity196Row};
use logic::activity::act198::{act198_can_gain, act198_gain, Activity198Row};
use logic::activity::act199::{act199_gain, Act199Gain};
use logic::activity::act208::{act208_activity_id, act208_info, receive_act208_bonus, Activity208BonusRow};
use logic::activity::act209::act209_info;
use logic::activity::act212::{act212_activity_id, act212_info_no, receive_act212_bonus, Activity212BonusRow, Activity212ConstRow};
use logic::activity::act217::{act217_activity_id, act217_infos};
use logic::activity::act221::{act221_can_summon, act221_record_summon, act221_select, activity_cfg, left_times, Act221State, Activity221Row};
use logic::activity::act229::{act229_activity_id, act229_info, Activity229EpisodeRow, SavedStage};
use logic::error::LogicError;

fn bonus189(activity_id: i32, bonus: &str) -> Activity189Row {
    Activity189Row { activity_id, bonus: bonus.to_string() }
}

#[test]
fn act189_once_bonus_is_granted_once() {
    let rows = vec![bonus189(12801, "1#100#1"), bonus189(12900, "2#5#10")];
    assert_eq!(latest_act189_activity_id(&rows), 12900);
    assert_eq!(latest_act189_activity_id(&[]), 0);
    assert_eq!(act189_info(None, &rows, None), (12900, false));
    assert_eq!(act189_info(Some(12801), &rows, Some(1)), (12801, true));
    let granted = get_act189_once_bonus(None, &rows, None).unwrap();
    assert_eq!(granted.activity_id, 12900);
    assert_eq!(granted.bonus, Some("2#5#10".to_string()));
    assert_eq!(get_act189_once_bonus(Some(12801), &rows, Some(1)).unwrap().bonus, None);
    assert_eq!(get_act189_once_bonus(Some(1), &rows, None), Err(LogicError::InvalidRequest));
}

#[test]
fn act196_gifts_are_taken_once() {
    let rows = vec![
        Activity196Row { activity_id: 12862, id: 1, bonus: "2#1#100".to_string() },
        Activity196Row { activity_id: 12862, id: 2, bonus: "2#1#200".to_string() },
    ];
    assert_eq!(resolve196(None, &rows), Ok(12862));
    assert_eq!(resolve196(None, &[]), Err(LogicError::InvalidRequest));
    assert_eq!(act196_info(None, &rows, &[(1, 1), (2, 0)]), Ok((12862, vec![1])));
    let claim = act196_gain(None, Some(2), &rows, None).unwrap();
    assert_eq!((claim.activity_id, claim.id, claim.bonus), (12862, 2, Some("2#1#200".to_string())));
    assert_eq!(act196_gain(None, Some(1), &rows, Some(1)).unwrap().bonus, None);
    assert_eq!(act196_gain(None, None, &rows, None), Err(LogicError::InvalidRequest));
    assert_eq!(act196_gain(None, Some(3), &rows, None), Err(LogicError::InvalidRequest));
}

#[test]
fn act208_bonus_needs_the_ready_state() {
    let rows = vec![
        Activity208BonusRow { id: 1, activity_id: 100, bonus: "a".to_string() },
        Activity208BonusRow { id: 2, activity_id: 100, bonus: "b".to_string() },
        Activity208BonusRow { id: 3, activity_id: 200, bonus: "c".to_string() },
    ];
    assert_eq!(act208_activity_id(None, &rows), 200);
    assert_eq!(act208_info(Some(100), &rows, &[(2, 1)]), (100, vec![(1, 0), (2, 1)]));
    let claim = receive_act208_bonus(Some(100), Some(2), &rows, Some(1)).unwrap();
    assert_eq!(claim.bonus, "b");
    assert_eq!(receive_act208_bonus(Some(100), Some(2), &rows, Some(2)), Err(LogicError::InvalidRequest));
    assert_eq!(receive_act208_bonus(Some(100), Some(3), &rows, Some(1)), Err(LogicError::InvalidRequest));
    assert_eq!(receive_act208_bonus(None, Some(2), &rows, Some(1)), Err(LogicError::InvalidRequest));
}

#[test]
fn act212_bonuses_are_listed_by_id() {
    let rows = vec![
        Activity212BonusRow { activity_id: 7, id: 3, bonus: "c".to_string() },
        Activity212BonusRow { activity_id: 7, id: 1, bonus: "a".to_string() },
        Activity212BonusRow { activity_id: 8, id: 1, bonus: "x".to_string() },
        Activity212BonusRow { activity_id: 7, id: 2, bonus: "b".to_string() },
    ];
    let consts = [Activity212ConstRow { activity_id: 7, value: 14 }];
    let info = act212_info_no(7, &rows, &[(2, 2)], &consts);
    assert_eq!(info.bonuss, vec![(1, 1), (2, 2), (3, 0)]);
    assert!(info.is_active);
    assert_eq!(info.end_time, 14 * 86_400_000);
    let empty = act212_info_no(9, &rows, &[], &consts);
    assert!(!empty.is_active);
    assert_eq!(empty.end_time, 0);
    assert_eq!(act212_activity_id(Some(5), &rows, &[], &[], 1), 5);
    assert_eq!(act212_activity_id(None, &rows, &[], &[], 1), 8);
    assert_eq!(receive_act212_bonus(7, Some(1), &rows, Some(1)).unwrap().bonus, "a");
    assert_eq!(receive_act212_bonus(7, Some(1), &rows, None), Err(LogicError::InvalidRequest));
    assert_eq!(receive_act212_bonus(7, None, &rows, Some(1)), Err(LogicError::InvalidRequest));
}

fn episode146(activity_id: i32, id: i32) -> Activity146Row {
    Activity146Row { activity_id, id, bonus: format!("bonus{id}") }
}

#[test]
fn act146_default_activity_id_comes_from_config() {
    let rows = vec![episode146(11511, 2), episode146(11511, 1), episode146(11600, 1)];
    assert_eq!(act146_activity_id(None, &rows).unwrap(), 11511);
}

#[test]
fn act146_episodes_finish_then_pay_once() {
    let rows = vec![episode146(11511, 2), episode146(11511, 1), episode146(11600, 1)];
    assert_eq!((ACT146_UNFINISHED, ACT146_FINISHED, ACT146_RECEIVED), (0, 1, 2));
    assert_eq!(act146_activity_id(None, &[]), Err(LogicError::InvalidRequest));
    assert_eq!(valid_act146_episode(11511, Some(3), &rows), Err(LogicError::InvalidRequest));
    assert_eq!(act146_infos(11511, &rows, &[(2, ACT146_FINISHED)]), vec![(1, 0), (2, 1)]);
    assert_eq!(finish_act146_episode(None, Some(2), &rows), Ok((11511, 2)));
    assert_eq!(finish_act146_episode(None, None, &rows), Err(LogicError::InvalidRequest));
    assert_eq!(
        act146_episode_bonus(11511, Some(2), &rows, Some(ACT146_FINISHED)),
        Ok(Act146Claim { activity_id: 11511, episode_id: 2, bonus: "bonus2".to_string() })
    );
    assert_eq!(act146_episode_bonus(11511, Some(2), &rows, Some(ACT146_RECEIVED)), Err(LogicError::InvalidRequest));
    assert_eq!(act146_episode_bonus(11511, Some(1), &rows, None), Err(LogicError::InvalidRequest));
}

fn pick_rows() -> Vec<HeroPickRow> {
    vec![
        HeroPickRow { activity_id: 13202, hero_ids: "3118#3001".to_string() },
        HeroPickRow { activity_id: 13100, hero_ids: "3002".to_string() },
    ]
}

#[test]
fn allowed_hero_uses_activity136_config() {
    let rows = pick_rows();
    assert!(is_allowed_hero(13202, 3118, &rows));
    assert!(!is_allowed_hero(13202, 9999, &rows));
}

#[test]
fn hero_pick_keeps_the_first_choice() {
    let rows = pick_rows();
    assert_eq!(resolve136(None, &rows), Ok(13202));
    assert_eq!(
        act136_select(None, Some(3001), &rows, 0),
        Ok(Act136Select { activity_id: 13202, select_hero_id: 3001, grant: true })
    );
    assert_eq!(
        act136_select(None, Some(3001), &rows, 3118),
        Ok(Act136Select { activity_id: 13202, select_hero_id: 3118, grant: false })
    );
    assert_eq!(act136_select(None, Some(3002), &rows, 0), Err(LogicError::InvalidRequest));
    assert_eq!(act136_select(None, None, &rows, 0), Err(LogicError::InvalidRequest));
    assert_eq!(act199_gain(Some(13100), Some(3002), &rows, 0), Ok(Act199Gain { activity_id: 13100, hero_id: 3002, grant: true }));
}

#[test]
fn act198_needs_enough_owned_skins() {
    let rows = vec![Activity198Row {
        activity_id: 12882,
        skin_ids: "308603#308604#x".to_string(),
        num: 2,
        bonus: "2#1#5".to_string(),
    }];
    assert_eq!(act198_can_gain(None, &rows, false, &[308603]), Ok(None));
    assert_eq!(act198_can_gain(None, &rows, false, &[308604, 308603]), Ok(Some(12882)));
    assert_eq!(act198_can_gain(None, &rows, true, &[308604, 308603]), Ok(None));
    assert_eq!(act198_can_gain(Some(1), &rows, false, &[]), Err(LogicError::InvalidRequest));
    assert_eq!(act198_gain(None, &rows, false, &[308604, 308603]).unwrap().bonus, "2#1#5");
    assert_eq!(act198_gain(None, &rows, false, &[]), Err(LogicError::InvalidRequest));
}

#[test]
fn act229_stages_show_saved_progress() {
    assert_eq!(act229_activity_id(None, &[(1, "x".to_string()), (2, "13001".to_string())]), Ok(13001));
    assert_eq!(act229_activity_id(None, &[(2, "x".to_string())]), Err(LogicError::InvalidRequest));
    assert_eq!(act229_activity_id(Some(5), &[]), Ok(5));
    let rows = [
        Activity229EpisodeRow { activity_id: 13001, stage: 3 },
        Activity229EpisodeRow { activity_id: 13001, stage: 1 },
        Activity229EpisodeRow { activity_id: 9, stage: 2 },
    ];
    let saved = [SavedStage { stage_id: 3, star: 2, max_star: 3, round: 5, min_round: 4, heroes_json: "[]".to_string() }];
    let stages = act229_info(13001, &rows, &saved);
    assert_eq!(stages.len(), 2);
    assert_eq!(stages[0].0, 1);
    assert_eq!(stages[0].1.heroes_json, None);
    assert_eq!((stages[1].0, stages[1].1.star, stages[1].1.min_round), (3, 2, 4));
    assert_eq!(stages[1].1.heroes_json, Some("[]".to_string()));
}

fn summon_row(activity_id: i32, summon_times: i32) -> Activity221Row {
    Activity221Row { activity_id, summon_times, pool_id: 1, double_six_rate: 0, init_weight: String::new() }
}

#[test]
fn act221_draws_then_picks_once() {
    let rows = vec![summon_row(5, 2), summon_row(9, 3), summon_row(9, 1)];
    assert_eq!(activity_cfg(Some(5), &rows), Ok(0));
    assert_eq!(activity_cfg(Some(7), &rows), Ok(2));
    assert_eq!(activity_cfg(None, &rows), Ok(2));
    assert_eq!(activity_cfg(None, &[]), Err(LogicError::InvalidRequest));
    let cfg = summon_row(5, 2);
    let mut state = Act221State { saved_hero_ids: vec![], select_index: 0 };
    assert!(act221_can_summon(&cfg, &state));
    act221_record_summon(&mut state, vec![1, 2]);
    act221_record_summon(&mut state, vec![3, 4]);
    assert_eq!(left_times(&cfg, &state), 0);
    assert!(!act221_can_summon(&cfg, &state));
    assert_eq!(act221_select(&mut state, Some(3)), Err(LogicError::InvalidRequest));
    assert_eq!(act221_select(&mut state, Some(2)), Ok(vec![3, 4]));
    assert_eq!(state.select_index, 2);
    assert_eq!(act221_select(&mut state, Some(1)), Err(LogicError::InvalidRequest));
}

#[test]
fn small_event_views_resolve_their_event() {
    assert_eq!(act172_info(None, &[12716, 12000], &[(5, 1), (2, 1), (9, 0)]), Ok((12716, vec![2, 5])));
    assert_eq!(act172_info(None, &[], &[]), Err(LogicError::InvalidRequest));
    assert_eq!(act209_info(None, &[3, 4], &[(1, 0, 9), (0, 1, 6)]), (4, 6));
    assert_eq!(act209_info(Some(2), &[], &[]), (2, 0));
    let info = act158_infos(None, &[1, 7]);
    assert_eq!(info.activity_id, 7);
    assert!(!info.open_challenge);
    assert_eq!(act225_activity_id(None, &[]), 0);
    assert_eq!(act217_activity_id(None, &[5, 3, 8]), Ok(3));
    assert_eq!(act217_activity_id(None, &[]), Err(LogicError::InvalidRequest));
    let infos = act217_infos(3, -2, 4, vec![(1, 2, 3)]);
    assert_eq!((infos.exp_episode_count, infos.coin_episode_count), (0, 4));
}

#[test]
fn default_act172_activity_id_comes_from_latest_config() {
    let task_activity_ids = [12001, 12716, 12500, 12716];
    let (activity_id, _) = act172_info(None, &task_activity_ids, &[]).unwrap();
    assert_eq!(activity_id, 12716);
}

#[test]
fn generated_activity198_config_loads_skin_gate() {
    let rows = vec![Activity198Row {
        activity_id: 12882,
        skin_ids: "308601#308603".to_string(),
        num: 1,
        bonus: "2#1#10".to_string(),
    }];
    assert_eq!(act198_can_gain(Some(12882), &rows, false, &[308603]), Ok(Some(12882)));
    assert_eq!(act198_can_gain(Some(12882), &rows, false, &[308699]), Ok(None));
    assert!(!act198_gain(Some(12882), &rows, false, &[308603]).unwrap().bonus.is_empty());
}

#[test]
fn activity221_config_loads_simulation_pool() {
    let rows = vec![Activity221Row {
        activity_id: 13108,
        summon_times: 10,
        pool_id: 21,
        double_six_rate: 0,
        init_weight: String::new(),
    }];
    let index = activity_cfg(None, &rows).unwrap();
    let row = &rows[index];
    assert!(row.pool_id > 0);
    assert!(row.summon_times > 0);
    let summon_pool_ids = [20, 21, 22];
    assert!(summon_pool_ids.contains(&row.pool_id));
}
