use logic::bp::rewards::select_reward;
use logic::command_post::CommandPostManager;
use logic::dungeon::{completion_plan, episode_cost_value, episode_player_exp, player_exp_value, CompletionPlan};
use logic::fairyland::FairylandManager;
use logic::error::LogicError;
use logic::guide::{
    action_ids, episode_condition, grants_guide_hero, guide_done, guide_finish_check, guide_finish_plan, stored_step_after,
    story_requirement, teaching_rewards, teaching_skip, tutorial_skip_plan, GuideActionKind, GuideFinishPlan, GuideManager,
    GuideRow, GuideStepRow, TeachingSkip, TeachingSummonRow, TutorialSkip,
};

fn teaching(grant_guide_id: i32, grant_step_id: i32, grant_reward: String) -> TeachingSummonRow {
    TeachingSummonRow { id: 0, grant_guide_id, grant_step_id, grant_reward, previous_step_id: 0, pool_id: 0, step_id: 0 }
}

fn guide(id: i32, is_online: i32, trigger: &str, invalid: &str) -> GuideRow {
    GuideRow { id, is_online, trigger: trigger.to_string(), invalid: invalid.to_string() }
}

fn step(id: i32, step_id: i32, key_step: i32, action: &str) -> GuideStepRow {
    GuideStepRow { id, step_id, key_step, action: action.to_string() }
}
use logic::types::hero_group_snapshot_type::HeroGroupSnapshotType;

#[test]
fn guide_actions_are_read_by_tag() {
    assert_eq!(GuideActionKind::WaitForStory.tag(), "204");
    assert_eq!(GuideActionKind::PlayStory.tag(), "101");
    assert_eq!(story_requirement("101#5|204#100017|204#9"), Some(100017));
    assert_eq!(story_requirement("204|204#x|204#8"), Some(8));
    assert_eq!(story_requirement("101#5"), None);
    assert_eq!(action_ids("101#1|102#2|101#3#x|101", GuideActionKind::PlayStory), vec![1, 3]);
    assert_eq!(action_ids("", GuideActionKind::EnterEpisode), Vec::<i32>::new());
}

#[test]
fn episode_conditions_name_the_episode() {
    assert_eq!(episode_condition("EpisodeFinish#10101"), Some(10101));
    assert_eq!(episode_condition("EpisodeFinish#"), None);
    assert_eq!(episode_condition("StoryFinish#3"), None);
}

#[test]
fn guide_progress_stays_until_the_last_key_step() {
    let steps = vec![
        GuideStepRow { id: 101, step_id: 1, key_step: 1, action: String::new() },
        GuideStepRow { id: 101, step_id: 2, key_step: 0, action: String::new() },
        GuideStepRow { id: 101, step_id: 3, key_step: 1, action: String::new() },
        GuideStepRow { id: 102, step_id: 9, key_step: 1, action: String::new() },
    ];
    assert_eq!(stored_step_after(&steps, 101, 1), 1);
    assert_eq!(stored_step_after(&steps, 101, 2), 2);
    assert_eq!(stored_step_after(&steps, 101, 3), -1);
}

#[test]
fn tutorial_skip_gathers_changes_in_order() {
    let mut skip = TutorialSkip::default();
    assert!(skip.material_changes.is_empty());
    skip.extend(vec![(1, 2, 3)]);
    skip.extend(vec![(4, 5, -6), (7, 8, 9)]);
    assert_eq!(skip.material_changes, vec![(1, 2, 3), (4, 5, -6), (7, 8, 9)]);
}

#[test]
fn managers_are_made_for_a_player() {
    let _ = CommandPostManager::new(5);
    let _ = FairylandManager::new(5);
    let _ = GuideManager::new(5);
}

#[test]
fn player_experience_values() {
    assert_eq!(player_exp_value("12", 6), 12);
    assert_eq!(player_exp_value("3*cost", 6), 18);
    assert_eq!(player_exp_value("2147483647*cost", 2), i32::MAX);
    assert_eq!(player_exp_value("x*cost", 6), 0);
    assert_eq!(player_exp_value("cost", 6), 0);
    assert_eq!(episode_cost_value("2#4#6|1#2#8"), 6);
    assert_eq!(episode_cost_value("2#4#x|1#2#8"), 8);
    assert_eq!(episode_cost_value(""), 0);
    assert_eq!(episode_player_exp(Some("2*cost"), Some("5"), 6, true, 3), 41);
    assert_eq!(episode_player_exp(Some("2*cost"), Some("5"), 6, false, 3), 36);
    assert_eq!(episode_player_exp(None, None, 6, true, 3), 0);
}

#[test]
fn self_select_rewards_are_picked_by_index() {
    assert_eq!(select_reward("1#2#3|4#5#6", 1), Some("4#5#6".chars().collect()));
    assert_eq!(select_reward("1#2#3|4#5#6", 2), None);
    assert_eq!(select_reward("1#2#3|4#5#6", -1), None);
    assert_eq!(select_reward("", 0), Some(Vec::new()));
}

#[test]
fn snapshot_types_round_trip() {
    for t in HeroGroupSnapshotType::all_descending() {
        assert_eq!(HeroGroupSnapshotType::from_id(t.id()), Some(t));
    }
}

#[test]
fn completion_grants_first_and_advanced_bonuses_once() {
    let first_clear = completion_plan(Some("2*cost"), Some("5"), "2#4#6", true, 0, 3, 3);
    assert_eq!(first_clear, CompletionPlan { player_exp: 41, first_bonus: true, advanced_bonus: true });
    let replay = completion_plan(Some("2*cost"), Some("5"), "2#4#6", false, 2, 3, 3);
    assert_eq!(replay, CompletionPlan { player_exp: 36, first_bonus: false, advanced_bonus: false });
    let one_star = completion_plan(None, None, "", false, 0, 1, 1);
    assert_eq!(one_star, CompletionPlan { player_exp: 0, first_bonus: false, advanced_bonus: false });
    let second_star = completion_plan(None, None, "", false, 1, 2, 1);
    assert!(second_star.advanced_bonus);
}

#[test]
fn teaching_rewards_collect_every_row_of_the_step() {
    let rows = vec![
        teaching(101, 3, "2#1#10".to_string()),
        teaching(101, 4, "2#1#20".to_string()),
        teaching(102, 3, "2#1#30".to_string()),
        teaching(101, 3, "1#5#1".to_string()),
    ];
    assert_eq!(teaching_rewards(&rows, 101, 3), vec!["2#1#10".to_string(), "1#5#1".to_string()]);
    assert!(teaching_rewards(&rows, 103, 3).is_empty());
}

#[test]
fn finishing_a_guide_step_checks_the_guide_and_its_story() {
    let guides = vec![guide(101, 1, "PlayerLv#1", ""), guide(102, 0, "", "")];
    let steps = vec![
        step(101, 1, 1, "204#9"),
        step(101, 2, 0, "105#CharacterGetView#3001"),
        step(101, 3, 1, "101#4"),
    ];
    assert_eq!(guide_finish_check(&guides, &steps, 101, 1, &[9]), Ok(Some(9)));
    assert_eq!(guide_finish_check(&guides, &steps, 101, 1, &[8]), Err(LogicError::InvalidRequest));
    assert_eq!(guide_finish_check(&guides, &steps, 101, 3, &[]), Ok(None));
    assert_eq!(guide_finish_check(&guides, &steps, 101, 0, &[]), Ok(None));
    assert_eq!(guide_finish_check(&guides, &steps, 101, 7, &[9]), Err(LogicError::InvalidRequest));
    assert_eq!(guide_finish_check(&guides, &steps, 102, 0, &[]), Err(LogicError::InvalidRequest));
    assert_eq!(guide_finish_check(&guides, &steps, 103, 0, &[]), Err(LogicError::InvalidRequest));

    let plan = guide_finish_plan(&steps, 101, 1, Some(9), None);
    assert_eq!(plan, GuideFinishPlan { first_completion: true, stored_step_id: 1, reward_hero: Some(3001) });
    assert!(grants_guide_hero(&plan, false));
    assert!(!grants_guide_hero(&plan, true));
    let again = guide_finish_plan(&steps, 101, 1, Some(9), Some(1));
    assert!(!again.first_completion);
    let last = guide_finish_plan(&steps, 101, 3, None, Some(1));
    assert_eq!(last, GuideFinishPlan { first_completion: true, stored_step_id: -1, reward_hero: None });
    assert!(!guide_finish_plan(&steps, 101, 3, None, Some(-1)).first_completion);
    let stored = plan.stored_step_id;
    let second = guide_finish_plan(&steps, 101, 1, Some(9), Some(stored));
    assert!(!second.first_completion && !grants_guide_hero(&second, false));
}

#[test]
fn skipping_the_tutorial_plans_its_guides() {
    let guides = vec![
        guide(100, 0, "PlayerLv#1", ""),
        guide(101, 1, "PlayerLv#1", ""),
        guide(201, 1, "EpisodeFinish#10102", "EpisodeFinish#10103"),
        guide(202, 1, "EpisodeFinish#99999", "EpisodeFinish#1"),
        guide(203, 1, "EpisodeFinish#10101", ""),
        guide(301, 1, "EpisodeFinish#10101", "EpisodeFinish#10104"),
    ];
    let steps = vec![step(101, 1, 1, "102#10101|101#5"), step(102, 1, 1, "102#99999"), step(101, 2, 1, "102#10102")];
    let mut teach = teaching(101, 2, "".to_string());
    teach.id = 301;
    teach.previous_step_id = 4;
    let teachings = vec![teach.clone(), teaching(555, 1, "".to_string())];
    let plan = tutorial_skip_plan(&guides, &steps, &teachings).unwrap();
    assert_eq!(plan.guide_id, 101);
    assert_eq!(plan.prerequisites, vec![(201, 10103)]);
    assert_eq!(plan.teachings.len(), 1);
    assert_eq!(plan.teachings[0].id, 301);
    assert!(tutorial_skip_plan(&guides[..1], &steps, &teachings).is_err());

    assert!(guide_done(Some(-1)));
    assert!(!guide_done(Some(3)) && !guide_done(None));
    assert_eq!(teaching_skip(&teach, Some(-1)), TeachingSkip::Done);
    assert_eq!(teaching_skip(&teach, None), TeachingSkip::Finish { start: true, summon: true });
    assert_eq!(teaching_skip(&teach, Some(4)), TeachingSkip::Finish { start: false, summon: true });
    assert_eq!(teaching_skip(&teach, Some(5)), TeachingSkip::Finish { start: false, summon: false });
}
