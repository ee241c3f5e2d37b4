use logic::activity::act104::first_number;
use logic::activity::act123::act153_infos;
use logic::activity::act152::{parse_accept_date_ms, unlocked_at};
use logic::activity::act154::{answer154_decide, answer154_puzzle, answer_records, login_count, puzzle_info, state_for_row, Act154Row, PuzzleState};
use logic::activity::act186::{current_stage_at, first_weighted_id, parse_time_millis, task_expire_time, Act186StageRow};
use logic::activity::act197::{claimed_gain_ids, gain_ids_text, parse_gain_ids, parse_material, pool_is_open, MaterialAmount};
use logic::activity::act206::{choose_weighted_reward, chosen_entry_text, parse_weighted};
use logic::activity::act216::{
    hero_rare, parse_i32s, rare_level_progress, rare_level_progress_with, rare_rank_progress, talent_progress, Act216Flag,
    HeroSnapshot,
};
use logic::activity::act218::{to_client_accepted_reward_id, GameResultType};
use logic::activity::act221::{choose_weighted, parse_weights};
use logic::activity::act228::{act228_flip_grid, act228_get_final_bonus, act228_info, act228_reward_ids, Act228Row};
use logic::activity::dice_hero::{add_unique, nth_reward_row, split_i32_list};
use logic::activity::weights::pick_weighted;
use logic::activity::{
    activity_time_range, default_act125_activity_id, is_open, is_unlocked_by_default, latest_config_activity_id,
    parse_config_time_millis, version_activity_time_range, ActivityRow, OpenRow, PERMANENT_END_MS,
};
use logic::error::LogicError;

#[test]
fn parses_retail_episode_pool() {
    assert_eq!(first_number("1102101#1102102#1102103"), Some(1_102_101));
    assert_eq!(first_number(""), None);
}

#[test]
fn first_number_skips_empty_pieces() {
    assert_eq!(first_number("##42#7"), Some(42));
    assert_eq!(first_number("x#1"), None);
}

#[test]
fn parses_act186_weighted_game_type() {
    assert_eq!(first_weighted_id("1#500|2#500"), Some(1));
    assert_eq!(first_weighted_id(""), None);
}

#[test]
fn first_weighted_id_skips_unreadable_pieces() {
    assert_eq!(first_weighted_id("x#1|7#3"), Some(7));
}

#[test]
fn act186_expiry_uses_task_loop_and_server_time() {
    let now = 1_784_829_600_000;
    let activity_end = parse_time_millis("2026-08-13 04:59:59");

    assert_eq!(activity_end, 1_786_615_199_000);
    assert_eq!(task_expire_time(1, activity_end, now), 1_784_887_200_000);
    assert_eq!(task_expire_time(2, activity_end, now), 1_785_146_400_000);
    assert_eq!(task_expire_time(3, activity_end, now), activity_end);
}

#[test]
fn blank_or_unreadable_stage_time_is_zero() {
    assert_eq!(parse_time_millis("   "), 0);
    assert_eq!(parse_time_millis("soon"), 0);
    assert_eq!(parse_time_millis("2026-8-13 04:59:59"), 1_786_615_199_000);
}

#[test]
fn current_stage_prefers_the_running_stage_then_the_last_finished() {
    let rows = vec![
        Act186StageRow { activity_id: 5, stage_id: 1, start_time: "2026-08-01 05:00:00".into(), end_time: "2026-08-05 04:59:59".into() },
        Act186StageRow { activity_id: 5, stage_id: 2, start_time: "2026-08-05 05:00:00".into(), end_time: "2026-08-09 04:59:59".into() },
        Act186StageRow { activity_id: 6, stage_id: 9, start_time: "2026-08-01 05:00:00".into(), end_time: "2026-08-30 04:59:59".into() },
    ];
    let in_second = parse_time_millis("2026-08-06 12:00:00");
    assert_eq!(current_stage_at(&rows, 5, in_second), 2);
    let after_all = parse_time_millis("2026-08-20 12:00:00");
    assert_eq!(current_stage_at(&rows, 5, after_all), 2);
    let before_all = parse_time_millis("2026-07-01 12:00:00");
    assert_eq!(current_stage_at(&rows, 5, before_all), 1);
    assert_eq!(current_stage_at(&rows, 7, in_second), 1);
}

#[test]
fn parses_midnight_24_hour_accept_date() {
    assert_eq!(
        parse_accept_date_ms("2024-05-30 24:00:00"),
        parse_accept_date_ms("2024-05-31 00:00:00")
    );
}

#[test]
fn accept_dates_parse_as_utc() {
    assert_eq!(parse_accept_date_ms("2024-05-31 00:00:00"), Some(1_717_113_600_000));
    assert_eq!(parse_accept_date_ms("2024-12-31 24:30:00"), Some(1_735_691_400_000));
    assert_eq!(parse_accept_date_ms("2024-05-30 25:00:00"), None);
    assert_eq!(parse_accept_date_ms("never"), None);
    assert!(unlocked_at("never", 0));
    assert!(!unlocked_at("2024-05-31 00:00:00", 1_717_113_599_999));
    assert!(unlocked_at("2024-05-31 00:00:00", 1_717_113_600_000));
}

#[test]
fn permanent_end_matches_lua_millisecond_time_shape() {
    assert_eq!(PERMANENT_END_MS, 2_145_934_800_000);
}

#[test]
fn parses_copost_time_with_extra_space() {
    assert_eq!(
        parse_config_time_millis("2026-07-23  4:59:59"),
        Some(1_784_782_799_000)
    );
}

#[test]
fn version_window_needs_both_ends_in_order() {
    assert_eq!(
        version_activity_time_range(Some("2026-07-01 05:00:00"), Some("2026-07-23  4:59:59")),
        Some((1_782_882_000_000, 1_784_782_799_000))
    );
    assert_eq!(version_activity_time_range(Some("2026-07-23 4:59:59"), Some("2026-07-01 05:00:00")), None);
    assert_eq!(version_activity_time_range(None, Some("2026-07-01 05:00:00")), None);
    assert_eq!(parse_config_time_millis("1969-12-31 23:59:59"), None);
}

#[test]
fn event_catalog_lookups_follow_the_tables() {
    let activities = vec![
        ActivityRow { id: 10, type_id: 125, open_id: 0, is_retro_acitivity: 0 },
        ActivityRow { id: 11, type_id: 125, open_id: 7, is_retro_acitivity: 2 },
        ActivityRow { id: 12, type_id: 100, open_id: 8, is_retro_acitivity: 0 },
    ];
    let opens = vec![OpenRow { id: 7, is_online: 0 }, OpenRow { id: 8, is_online: 1 }];
    assert!(is_open(&opens, 0));
    assert!(!is_open(&opens, 7));
    assert!(is_open(&opens, 8));
    assert!(!is_open(&opens, 9));
    assert_eq!(latest_config_activity_id(&[10, 11, 12, -3], &activities, &opens, 99), 12);
    assert_eq!(latest_config_activity_id(&[10, 11], &activities, &opens, 99), 10);
    assert_eq!(latest_config_activity_id(&[11, 40], &activities, &opens, 99), 40);
    assert_eq!(latest_config_activity_id(&[0, -1], &activities, &opens, 99), 99);
    assert_eq!(default_act125_activity_id(&[11, 12, 10], &activities, &opens, 77), 10);
    assert_eq!(default_act125_activity_id(&[11], &activities, &opens, 77), 77);
    assert!(is_unlocked_by_default(&activities, 10));
    assert!(!is_unlocked_by_default(&activities, 11));
    assert!(is_unlocked_by_default(&activities, 555));
    assert_eq!(activity_time_range(&activities, 11, Some((5, 6))), (0, PERMANENT_END_MS));
    assert_eq!(activity_time_range(&activities, 10, Some((5, 6))), (5, 6));
    assert_eq!(activity_time_range(&activities, 10, None), (0, PERMANENT_END_MS));
}

#[test]
fn act206_weighted_rewards_parse() {
    assert_eq!(
        parse_weighted("1#30|2#40|7#30"),
        vec![(1, 30), (2, 40), (7, 30)]
    );
    assert_eq!(choose_weighted_reward("3#100"), Some(3));
}

#[test]
fn weighted_tables_skip_malformed_entries_and_zero_totals() {
    assert_eq!(parse_weights("1#2#9|x#3|4|5#-1|6#7"), vec![(1, 2), (6, 7)]);
    assert_eq!(choose_weighted_reward("1#0|2#0"), None);
    assert_eq!(choose_weighted(&[(1, 0)]), Err(LogicError::InvalidRequest));
    assert_eq!(choose_weighted(&[(4, 0), (5, 9)]), Ok(5));
    let r = choose_weighted_reward("1#1|2#1").unwrap();
    assert!(r == 1 || r == 2);
}

#[test]
fn a_roll_lands_on_the_entry_whose_weight_covers_it() {
    let ws = [(1, 30), (2, 40), (7, 30)];
    assert_eq!(pick_weighted(&ws, 0), Some(1));
    assert_eq!(pick_weighted(&ws, 29), Some(1));
    assert_eq!(pick_weighted(&ws, 30), Some(2));
    assert_eq!(pick_weighted(&ws, 69), Some(2));
    assert_eq!(pick_weighted(&ws, 70), Some(7));
    assert_eq!(pick_weighted(&ws, 100), None);
}

#[test]
fn parses_act216_rare_level_with_optional_hero_ids() {
    let heroes = vec![HeroSnapshot {
        hero_id: 3125,
        level: 180,
        rank: 0,
        talent: 0,
    }];

    let rare_of = |_| Some(5);
    assert_eq!(
        rare_level_progress_with("5|180|3120#3126#3125", &heroes, rare_of),
        1
    );
    assert_eq!(rare_level_progress_with("5|180|3120", &heroes, rare_of), 0);
}

#[test]
fn growth_tasks_count_matching_heroes() {
    let heroes = vec![
        HeroSnapshot { hero_id: 1, level: 100, rank: 3, talent: 10 },
        HeroSnapshot { hero_id: 2, level: 50, rank: 1, talent: 20 },
        HeroSnapshot { hero_id: 3, level: 120, rank: 3, talent: 30 },
    ];
    let rares = vec![(1, 5), (2, 5), (3, 4)];
    assert_eq!(hero_rare(&rares, 3), Some(4));
    assert_eq!(hero_rare(&rares, 9), None);
    assert_eq!(rare_rank_progress("5#2", &heroes, &rares), 1);
    assert_eq!(rare_rank_progress("5#2#1", &heroes, &rares), 0);
    assert_eq!(talent_progress("5#10", &heroes, &rares), 2);
    assert_eq!(rare_level_progress("5|50", &heroes, &rares), 2);
    assert_eq!(rare_level_progress("5|60", &heroes, &rares), 1);
    assert_eq!(rare_level_progress("x|60", &heroes, &rares), 0);
    assert_eq!(rare_level_progress("5", &heroes, &rares), 0);
    assert_eq!(parse_i32s("1#a#-3", '#'), vec![1, -3]);
    assert_eq!(Act216Flag::OnceBonus.id(), 1);
    assert_eq!(Act216Flag::TalentItem.id(), 2);
}

#[test]
fn puzzle_states_round_trip_through_their_ids() {
    for s in [PuzzleState::Lock, PuzzleState::UnAnswer, PuzzleState::Answering, PuzzleState::Solved, PuzzleState::RewardGet] {
        assert_eq!(PuzzleState::from_id(s.id()), Some(s));
    }
    assert_eq!(PuzzleState::from_id(5), None);
    assert_eq!(PuzzleState::RewardGet.id(), 4);
}

#[test]
fn puzzle_answers_follow_the_stored_state() {
    let row = Act154Row { activity_id: 1, puzzle_id: 9, day: 2, answer_id: 3, bonus: String::new() };
    let rows = vec![
        row.clone(),
        Act154Row { activity_id: 1, puzzle_id: 10, day: 4, answer_id: 1, bonus: String::new() },
        Act154Row { activity_id: 2, puzzle_id: 11, day: 9, answer_id: 1, bonus: String::new() },
    ];
    assert_eq!(login_count(&rows, 1), 4);
    assert_eq!(login_count(&rows, 3), 1);
    assert_eq!(state_for_row(None, 2, 4), (1, 0, String::new()));
    assert_eq!(state_for_row(None, 5, 4), (0, 0, String::new()));
    assert_eq!(answer154_decide(&row, 1, None, 3).unwrap_err(), LogicError::InvalidRequest);
    let wrong = answer154_decide(&row, 4, None, 2).unwrap();
    assert_eq!((wrong.next_state, wrong.ext.as_str(), wrong.rewarded), (1, "2", false));
    let again = answer154_decide(&row, 4, Some((1, 0, "2".into())), 2).unwrap();
    assert_eq!(again.ext, "2");
    let right = answer154_decide(&row, 4, Some((1, 0, "2#-7".into())), 3).unwrap();
    assert_eq!((right.next_state, right.ext.as_str(), right.rewarded), (4, "2#-7#3", true));
    assert!(answer154_decide(&row, 4, Some((4, 0, "3".into())), 3).is_err());
    assert_eq!(answer_records("1#x#22"), vec![1, 22]);
    let info = puzzle_info(9, (1, 0, "5#-1".into()));
    assert_eq!((info.puzzle_id, info.state, info.answer_records), (9, 1, vec![5, u32::MAX]));
}

#[test]
fn act197_uses_pool_id_as_state_entry() {
    assert!(pool_is_open(1, None));
    assert!(!pool_is_open(2, None));
    assert_eq!(claimed_gain_ids(Some((1, 0, "[1]".to_string()))), vec![1]);
    assert!(pool_is_open(2, Some((1, 0, "[1]".to_string()))));
}

#[test]
fn gain_ids_are_sorted_without_repeats() {
    assert_eq!(parse_gain_ids("[3,1,3,2]"), vec![1, 2, 3]);
    assert_eq!(parse_gain_ids("not json"), Vec::<i32>::new());
    assert_eq!(claimed_gain_ids(Some((0, 0, "[1]".to_string()))), Vec::<i32>::new());
    assert!(!pool_is_open(3, Some((1, 0, "[2,3]".to_string()))));
}

#[test]
fn materials_need_exactly_three_numbers() {
    assert_eq!(parse_material("2#4#3"), Some(MaterialAmount { material_type: 2, id: 4, count: 3 }));
    assert_eq!(parse_material("2#x#4#3"), Some(MaterialAmount { material_type: 2, id: 4, count: 3 }));
    assert_eq!(parse_material("2#4"), None);
    assert_eq!(parse_material("1#2#3#4"), None);
}

#[test]
fn board_game_ids_convert_for_the_client() {
    assert_eq!(GameResultType::from_id(2), Some(GameResultType::Victory));
    assert_eq!(GameResultType::from_id(3), None);
    assert_eq!(to_client_accepted_reward_id(0), 1);
    assert_eq!(to_client_accepted_reward_id(-1), 0);
    assert_eq!(to_client_accepted_reward_id(-5), u32::MAX - 3);
    assert_eq!(to_client_accepted_reward_id(i32::MAX), i32::MAX as u32);
}

#[test]
fn flip_grid_boards_come_from_the_table() {
    let rows = vec![
        Act228Row { activity_id: 3, row: 2, column: 3, reward: "5#1#1|0#2|x|9".into() },
        Act228Row { activity_id: 8, row: -1, column: 4, reward: String::new() },
    ];
    assert_eq!(act228_reward_ids(&rows[0]), vec![5, 9]);
    let info = act228_info(&rows, Some(3), 100);
    assert_eq!(info.activity_id, Some(3));
    let body = info.info.unwrap();
    assert_eq!(body.grid_states, vec![0; 6]);
    assert_eq!(body.reward_ids, vec![5, 9]);
    assert_eq!(body.normal_flip_count, Some(0));
    assert_eq!(body.get_final_bonus, Some(false));
    let latest = act228_flip_grid(&rows, None, 100);
    assert_eq!(latest.activity_id, Some(8));
    assert!(latest.grid_states.is_empty());
    assert_eq!(act228_get_final_bonus(&rows, Some(42), 100).activity_id, Some(42));
    assert_eq!(act228_get_final_bonus(&[], None, 100).activity_id, Some(100));
}

#[test]
fn dice_counters_use_the_latest_event() {
    let reply = act153_infos(None, &[4, 9, 2]);
    assert_eq!(reply.activity_id, Some(9));
    assert_eq!(act153_infos(Some(1), &[4]).activity_id, Some(1));
    assert_eq!(act153_infos(None, &[]).activity_id, Some(0));
    assert_eq!(reply.total_count, Some(0));
}

#[test]
fn dice_hero_helpers() {
    assert_eq!(nth_reward_row(7, 0), None);
    assert_eq!(nth_reward_row(7, 3), Some(1));
    let mut ids = vec![1, 2];
    add_unique(&mut ids, &[2, 3, 3, 1, 4]);
    assert_eq!(ids, vec![1, 2, 3, 4]);
    assert_eq!(split_i32_list("4#x#5"), vec![4, 5]);
}

#[test]
fn puzzle_answer_finds_the_row_of_the_event() {
    let rows = vec![
        Act154Row { activity_id: 1, puzzle_id: 9, day: 2, answer_id: 3, bonus: "2#1#5".to_string() },
        Act154Row { activity_id: 1, puzzle_id: 10, day: 4, answer_id: 1, bonus: String::new() },
        Act154Row { activity_id: 2, puzzle_id: 9, day: 1, answer_id: 7, bonus: "2#1#9".to_string() },
    ];
    let states = vec![(9, 1, 0, "2".to_string())];
    let claim = answer154_puzzle(&rows, Some(1), Some(9), Some(3), &states).unwrap();
    assert_eq!((claim.activity_id, claim.puzzle_id, claim.bonus.as_str()), (1, 9, "2#1#5"));
    assert_eq!((claim.answer.next_state, claim.answer.ext.as_str(), claim.answer.rewarded), (4, "2#3", true));
    let latest = answer154_puzzle(&rows, None, Some(9), Some(1), &[]).unwrap();
    assert_eq!((latest.activity_id, latest.answer.ext.as_str(), latest.answer.rewarded), (2, "1", false));
    assert_eq!(answer154_puzzle(&rows, Some(1), Some(11), Some(3), &[]).unwrap_err(), LogicError::InvalidRequest);
    assert_eq!(answer154_puzzle(&rows, Some(1), None, Some(3), &[]).unwrap_err(), LogicError::InvalidRequest);
    assert_eq!(answer154_puzzle(&rows, Some(1), Some(9), None, &[]).unwrap_err(), LogicError::InvalidRequest);
    assert_eq!(answer154_puzzle(&rows, Some(1), Some(9), Some(3), &[(9, 4, 0, "3".to_string())]).unwrap_err(), LogicError::InvalidRequest);
}

#[test]
fn gains_are_stored_as_a_json_array_and_read_back() {
    let text = gain_ids_text(&[1, 2, -30]);
    assert_eq!(text, "[1,2,-30]");
    assert_eq!(parse_gain_ids(&text), vec![-30, 1, 2]);
    assert_eq!(gain_ids_text(&[]), "[]");
}

#[test]
fn only_a_chosen_entry_holds_a_choice() {
    assert_eq!(chosen_entry_text(Some((1, 0, "{}".to_string()))), Some("{}".to_string()));
    assert_eq!(chosen_entry_text(Some((0, 0, "{}".to_string()))), None);
    assert_eq!(chosen_entry_text(None), None);
}
