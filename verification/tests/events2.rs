use logic::activity::act165::{act165_state, act165_step_info, act165_story_info, Act165State, Act165StepState, Act165StoryRow};
use logic::activity::act205::{
    act205_finish_game, active_game_type, active_game_type_at, default_game_count, parse_time_ms, Act205RewardRow,
    Act205StageRow,
};
use logic::activity::act206::{act206_choose_direction, act206_get_bonus, option_directions, Act206DirectionRow, Act206GroupRow, ChosenState};
use logic::error::LogicError;

#[test]
fn dice_event_stage_and_game_counts() {
    let stages = vec![
        Act205StageRow { activity_id: 1, stage_id: 2, start_time: "2026-01-01 00:00:00".into(), end_time: "2026-02-01 00:00:00".into(), times: 5 },
        Act205StageRow { activity_id: 1, stage_id: 1, start_time: "2026-02-01 00:00:00".into(), end_time: "2026-03-01 00:00:00".into(), times: 3 },
    ];
    let jan = parse_time_ms("2026-01-15 00:00:00");
    assert_eq!(jan, 1_768_435_200_000);
    assert_eq!(parse_time_ms("bad"), 0);
    assert_eq!(active_game_type_at(&stages, 1, jan), Ok(2));
    assert_eq!(active_game_type_at(&stages, 1, parse_time_ms("2026-02-01 00:00:00")), Ok(1));
    assert_eq!(active_game_type_at(&stages, 1, 0), Ok(1));
    assert_eq!(active_game_type_at(&stages, 2, jan), Err(LogicError::InvalidRequest));
    assert!(active_game_type(&stages, 1).is_ok());
    assert_eq!(default_game_count(&stages, &[(9, 4)], 1, 1), 3);
    assert_eq!(default_game_count(&stages, &[(9, 4)], 1, 9), 4);
    assert_eq!(default_game_count(&stages, &[], 1, 9), 0);
    let rewards = vec![Act205RewardRow { game_type: 1, reward_id: 2, is_win: true }];
    assert_eq!(act205_finish_game(&rewards, 1, 2, 3), Ok((2, true)));
    assert_eq!(act205_finish_game(&rewards, 1, 2, 0), Err(LogicError::InvalidRequest));
    assert_eq!(act205_finish_game(&rewards, 1, 3, 3), Err(LogicError::InvalidRequest));
}

#[test]
fn direction_choice_draws_from_the_group() {
    let directions = vec![
        Act206DirectionRow { activity_id: 4, direction_id: 3, reward_group_id: 10 },
        Act206DirectionRow { activity_id: 4, direction_id: 1, reward_group_id: 11 },
        Act206DirectionRow { activity_id: 5, direction_id: 2, reward_group_id: 10 },
    ];
    let groups = vec![
        Act206GroupRow { group_id: 10, reward_id2_prob: "7#100".into() },
        Act206GroupRow { group_id: 11, reward_id2_prob: "8#0".into() },
    ];
    let chosen = act206_choose_direction(&directions, &groups, 4, 3).unwrap();
    assert_eq!((chosen.direction_id, chosen.reward_id, chosen.reselected_num), (3, 7, 0));
    assert!(chosen.direction_gen_time > 1_700_000_000_000);
    assert_eq!(act206_choose_direction(&directions, &groups, 4, 1), Err(LogicError::InvalidRequest));
    assert_eq!(act206_choose_direction(&directions, &groups, 4, 9), Err(LogicError::InvalidRequest));
    assert_eq!(option_directions(&directions, 4), vec![1, 3]);
    let c = ChosenState { direction_id: 3, direction_gen_time: 0, reselected_num: 0, reward_id: 7 };
    assert_eq!(act206_get_bonus(&[5, 7, 7], Some(c)), Ok(1));
    assert_eq!(act206_get_bonus(&[5], Some(c)), Err(LogicError::InvalidRequest));
    assert_eq!(act206_get_bonus(&[7], None), Err(LogicError::InvalidRequest));
}

#[test]
fn story_info_reads_the_stored_progress() {
    let row = Act165StoryRow { story_id: 3, pre_element_id1: 0, first_step_id: 100 };
    let fresh = act165_story_info(row, None, None);
    assert_eq!((fresh.story_state, fresh.infer_state), (Some(1), Some(0)));
    assert_eq!(fresh.inferred_steps.len(), 1);
    assert_eq!(fresh.inferred_steps[0].step_id, Some(100));
    let progressed = act165_story_info(row, Some((1, 104, true)), None);
    assert_eq!(progressed.inferred_steps[0].step_id, Some(104));
    let locked = Act165StoryRow { pre_element_id1: 9, ..row };
    assert_eq!(act165_story_info(locked, None, None).story_state, Some(0));
    let stored = Act165State {
        infer_state: 2,
        gained_ending_count: 1,
        steps: vec![Act165StepState { step_id: 100, keywords: vec![5] }, Act165StepState { step_id: 101, keywords: vec![] }],
        endings: vec![logic::activity::act165::Act165EndingState { ending_id: 9, steps: vec![Act165StepState { step_id: 100, keywords: vec![5] }] }],
    };
    let info = act165_story_info(row, Some((1, 101, false)), Some(stored));
    assert_eq!(info.inferred_steps.len(), 2);
    assert_eq!(info.inferred_steps[0].step_keywords, vec![5]);
    assert_eq!(info.unlock_ending_infos[0].ending_id, Some(9));
    assert_eq!(info.gained_ending_count, Some(1));
    let step = act165_step_info(&Act165StepState { step_id: 7, keywords: vec![1, 2] });
    assert_eq!((step.step_id, step.step_keywords), (Some(7), vec![1, 2]));
    assert_eq!(act165_state(None, 5).steps.len(), 1);
}
