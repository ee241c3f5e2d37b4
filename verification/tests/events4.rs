use logic::activity::act104::{mark_activity104_flag, mark_episode_after_story, Act104EpisodeRow};
use logic::activity::act123::{act123_episodes, act123_infos, Activity123EpisodeRow, Activity123RetailRow, Activity123StageRow};
use logic::activity::act152::{act152_info, resolve_activity_id as resolve152, Act152Row};
use logic::activity::act154::{act154_infos, config_rows, Act154Row};
use logic::activity::act160::{act160_activity_id, act160_get_info, Act160MissionRow};
use logic::activity::act165::{act165_story_order, Act165StoryRow};
use logic::activity::act186::{accept_act186_sp_bonus, get_act186_sp_bonus_info};
use logic::activity::act205::{game_count, resolve_activity_id as resolve205, Act205StageRow};
use logic::activity::act218::{
    accept_act218_reward, finish_act218_game, game_points, max_coin, Act218Finish, Activity218ControlRow,
    Activity218MilestoneRow, GameResultType,
};
use logic::error::LogicError;
use logic::sorting::{sort_by_pair_key, sort_i32s};

#[test]
fn season_event_lists_stages_and_layers_in_order() {
    let stages = [
        Activity123StageRow { activity_id: 7, stage: 3 },
        Activity123StageRow { activity_id: 7, stage: 1 },
        Activity123StageRow { activity_id: 9, stage: 5 },
    ];
    let episodes = [
        Activity123EpisodeRow { activity_id: 7, stage: 1, layer: 4 },
        Activity123EpisodeRow { activity_id: 7, stage: 1, layer: 2 },
        Activity123EpisodeRow { activity_id: 7, stage: 3, layer: 1 },
    ];
    let retails = [
        Activity123RetailRow { activity_id: 7, id: 40 },
        Activity123RetailRow { activity_id: 7, id: 30 },
        Activity123RetailRow { activity_id: 9, id: 10 },
    ];
    assert_eq!(act123_episodes(&episodes, 7, 1), vec![2, 4]);
    let infos = act123_infos(Some(7), &stages, &episodes, &retails);
    assert_eq!(infos.stage, 1);
    assert_eq!(infos.stages, vec![(1, vec![2, 4]), (3, vec![1])]);
    assert_eq!(infos.retail, Some(30));
    let latest = act123_infos(None, &stages, &episodes, &retails);
    assert_eq!((latest.activity_id, latest.stage, latest.retail), (9, 5, Some(10)));
    let empty = act123_infos(Some(1), &stages, &episodes, &retails);
    assert_eq!((empty.stage, empty.stages.len(), empty.retail), (0, 0, None));
}

#[test]
fn act104_marks_need_a_listed_episode() {
    let rows = [Act104EpisodeRow { activity_id: 3, layer: 1 }, Act104EpisodeRow { activity_id: 3, layer: 2 }];
    assert_eq!(mark_activity104_flag(3, &rows), Ok(()));
    assert_eq!(mark_activity104_flag(4, &rows), Err(LogicError::InvalidRequest));
    assert_eq!(mark_episode_after_story(3, 2, &rows), Ok((3, 2)));
    assert_eq!(mark_episode_after_story(3, 5, &rows), Err(LogicError::InvalidRequest));
}

fn milestone(reward_id: i32, coin_num: i32) -> Activity218MilestoneRow {
    Activity218MilestoneRow { activity_id: 5, reward_id, coin_num, bonus: format!("b{reward_id}") }
}

#[test]
fn board_game_points_and_milestones() {
    let controls = [Activity218ControlRow { activity_id: 5, lose_point: 1, draw_point: 2, win_point: 3 }];
    let milestones = [milestone(1, 10), milestone(2, 30), milestone(3, 20)];
    assert_eq!(game_points(5, GameResultType::Draw, &controls), Ok(2));
    assert_eq!(game_points(6, GameResultType::Draw, &controls), Err(LogicError::InvalidRequest));
    assert_eq!(max_coin(5, &milestones), 30);
    assert_eq!(max_coin(6, &milestones), 0);
    assert_eq!(finish_act218_game(None, Some(2), &controls, &milestones), Ok(Act218Finish { activity_id: 5, points: 3, max_coin: 30 }));
    assert_eq!(finish_act218_game(None, Some(7), &controls, &milestones), Err(LogicError::InvalidRequest));
    assert_eq!(finish_act218_game(None, None, &[], &milestones), Err(LogicError::InvalidRequest));
    let accepted = accept_act218_reward(5, 0, 10, &milestones).unwrap();
    assert_eq!((accepted.reward_id, accepted.bonus.as_str(), accepted.accepted_reward_id), (1, "b1", 2));
    assert_eq!(accept_act218_reward(5, 1, 29, &milestones), Err(LogicError::InvalidRequest));
    assert_eq!(accept_act218_reward(5, 3, 100, &milestones), Err(LogicError::InvalidRequest));
}

#[test]
fn act160_missions_come_by_sort_then_id() {
    let rows = [
        Act160MissionRow { id: 3, activity_id: 8, pre_id: 0, sort: 2 },
        Act160MissionRow { id: 2, activity_id: 8, pre_id: 0, sort: 1 },
        Act160MissionRow { id: 1, activity_id: 8, pre_id: 0, sort: 2 },
        Act160MissionRow { id: 9, activity_id: 9, pre_id: 0, sort: 0 },
    ];
    let listed = act160_get_info(8, &rows, &[(1, 2)]);
    let ids: Vec<(i32, i32)> = listed.iter().map(|e| e.1).collect();
    assert_eq!(ids, vec![(2, 0), (1, 2), (3, 0)]);
    assert_eq!(act160_activity_id(Some(4), &rows, &[], &[], 1), 4);
    assert_eq!(act160_activity_id(None, &rows, &[], &[], 1), 9);
    assert_eq!(act160_activity_id(None, &[], &[], &[], 1), 1);
}

#[test]
fn act165_stories_come_highest_id_first() {
    let story = |story_id: i32| Act165StoryRow { story_id, pre_element_id1: 0, first_step_id: 1 };
    let rows = [(1, story(10)), (1, story(30)), (2, story(99)), (1, story(20))];
    let order: Vec<i32> = act165_story_order(1, &rows).iter().map(|p| p.1.story_id).collect();
    assert_eq!(order, vec![30, 20, 10]);
    assert!(act165_story_order(1, &[(1, story(i32::MIN)), (1, story(i32::MAX))]).iter().map(|p| p.1.story_id).eq([i32::MAX, i32::MIN]));
}

#[test]
fn act205_games_default_from_the_tables() {
    let stage = |activity_id: i32, stage_id: i32, times: i32| Act205StageRow {
        activity_id,
        stage_id,
        start_time: String::new(),
        end_time: String::new(),
        times,
    };
    let stages = [stage(5, 1, 3), stage(6, 2, 4)];
    assert_eq!(resolve205(None, &stages), Ok(6));
    assert_eq!(resolve205(None, &[]), Err(LogicError::InvalidRequest));
    assert_eq!(game_count(Some(0), &stages, &[], 5, 1), 0);
    assert_eq!(game_count(None, &stages, &[], 5, 1), 3);
    assert_eq!(game_count(None, &stages, &[(7, 9)], 5, 7), 9);
    assert_eq!(game_count(None, &stages, &[], 5, 8), 0);
}

#[test]
fn act154_lists_puzzles_by_day() {
    let row = |activity_id: i32, puzzle_id: i32, day: i32| Act154Row { activity_id, puzzle_id, day, answer_id: 1, bonus: String::new() };
    let rows = [row(4, 41, 3), row(4, 40, 1), row(5, 50, 1)];
    assert_eq!(config_rows(4, &rows), vec![(1, 40), (3, 41)]);
    let infos = act154_infos(Some(4), &rows, &[(41, 2, 0, "3#1".to_string())]);
    assert_eq!(infos.login_count, 3);
    assert_eq!(infos.infos.len(), 2);
    assert_eq!((infos.infos[0].puzzle_id, infos.infos[0].state), (40, 1));
    assert_eq!((infos.infos[1].puzzle_id, infos.infos[1].state), (41, 2));
    assert_eq!(infos.infos[1].answer_records, vec![3, 1]);
    assert_eq!(act154_infos(None, &rows, &[]).activity_id, 5);
}

#[test]
fn act152_and_act186_requests_are_checked() {
    let rows = [Act152Row { activity_id: 2, present_id: 1, accept_date: String::new() }];
    assert_eq!(resolve152(None, &rows), Ok(2));
    assert_eq!(resolve152(None, &[]), Err(LogicError::InvalidRequest));
    assert_eq!(act152_info(2, &[(1, 1), (2, 0), (3, 5)]), (2, vec![1, 3]));
    assert_eq!(get_act186_sp_bonus_info(Some(1), Some(2), None), Ok((1, 2, 0)));
    assert_eq!(get_act186_sp_bonus_info(Some(1), None, Some(2)), Err(LogicError::InvalidRequest));
    assert_eq!(accept_act186_sp_bonus(Some(1), Some(2)), Ok((1, 2)));
    assert_eq!(accept_act186_sp_bonus(None, Some(2)), Err(LogicError::InvalidRequest));
}

#[test]
fn sorting_helpers_order_their_keys() {
    assert_eq!(sort_i32s(vec![3, -1, 3, 0]), vec![-1, 0, 3, 3]);
    let sorted = sort_by_pair_key(vec![((2, 1), 'a'), ((1, 5), 'b'), ((2, 0), 'c'), ((1, 5), 'd')]);
    assert_eq!(sorted, vec![((1, 5), 'b'), ((1, 5), 'd'), ((2, 0), 'c'), ((2, 1), 'a')]);
}
