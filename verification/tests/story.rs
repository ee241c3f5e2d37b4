use logic::activity::act165::{
    act165_branches, act165_can_append_step, act165_fixed_next_step, act165_gain_milestone_reward, act165_generate_ending,
    act165_modify_keyword, act165_next_step, act165_restart, act165_state, act165_step_ids, act165_unlock_next_steps,
    act165_validate_keywords, parse_i32_list, parse_i32_rows, same_prefix, same_set, Act165EndingRow, Act165RewardRow,
    Act165State, Act165StepConfig, Act165StepState,
};
use logic::error::LogicError;

fn story() -> Vec<Act165StepConfig> {
    vec![
        Act165StepConfig::from_row(1, "2#10|4#11", "", "10#11"),
        Act165StepConfig::from_row(2, "3", "", ""),
        Act165StepConfig::from_row(3, "5", "5#1#2", ""),
        Act165StepConfig::from_row(4, "-1", "", ""),
        Act165StepConfig::from_row(5, "-1", "4#1", ""),
    ]
}

#[test]
fn number_lists_parse() {
    assert_eq!(parse_i32_rows("1#2||x|3#y#4"), vec![vec![1, 2], vec![3, 4]]);
    assert_eq!(parse_i32_list("5#a#6", '#'), vec![5, 6]);
    assert!(same_set(&[1, 2], &[2, 1]));
    assert!(!same_set(&[1, 1], &[1, 2, 3]));
    assert!(same_prefix(&[1, 2, 3], &[1, 2]));
    assert!(!same_prefix(&[1], &[1, 2]));
}

#[test]
fn branches_end_at_ending_steps() {
    let cfg = story();
    assert!(cfg[3].is_ending && !cfg[0].is_ending);
    assert_eq!(act165_branches(&cfg), vec![vec![1, 2, 3, 5], vec![1, 5, 4]]);
}

#[test]
fn choosing_keywords_leads_along_the_branch() {
    let cfg = story();
    let mut state = act165_state(None, 1);
    assert_eq!(act165_step_ids(&state), vec![1]);
    assert_eq!(act165_next_step(&cfg, 1, &[10]), Some(2));
    assert_eq!(act165_next_step(&cfg, 1, &[12]), None);
    assert!(act165_can_append_step(&cfg, &state, 2));
    assert!(!act165_can_append_step(&cfg, &state, 3));
    let mut off_branch = act165_state(None, 1);
    assert_eq!(act165_modify_keyword(&cfg, &mut off_branch, 1, &[11]), Ok(()));
    assert_eq!(act165_step_ids(&off_branch), vec![1]);
    assert_eq!(off_branch.steps[0].keywords, vec![11]);
    assert_eq!(off_branch.infer_state, 0);
    assert_eq!(act165_modify_keyword(&cfg, &mut state, 1, &[10]), Ok(()));
    assert_eq!(act165_step_ids(&state), vec![1, 2, 3, 5]);
    assert_eq!(state.steps[0].keywords, vec![10]);
    assert_eq!(state.infer_state, 1);
    assert_eq!(act165_fixed_next_step(&cfg, &state), None);
}

#[test]
fn unlocking_follows_steps_that_need_no_choice_up_to_an_ending() {
    let cfg = vec![
        Act165StepConfig::from_row(1, "2#10", "", "10"),
        Act165StepConfig::from_row(2, "3", "3#1", ""),
        Act165StepConfig::from_row(3, "-1", "", ""),
    ];
    let mut state = act165_state(None, 1);
    assert_eq!(act165_modify_keyword(&cfg, &mut state, 1, &[10]), Ok(()));
    assert_eq!(act165_step_ids(&state), vec![1, 2, 3]);
    assert_eq!(state.infer_state, 1);
    let mut other = act165_state(None, 1);
    act165_unlock_next_steps(&cfg, &mut other, 3);
    assert_eq!(act165_step_ids(&other), vec![1]);
    act165_unlock_next_steps(&cfg, &mut other, 2);
    let ids = act165_step_ids(&other);
    assert_eq!(ids, vec![1, 2, 3]);
    assert_eq!(ids[1], 2);
    assert!(other.steps[1..].iter().all(|s| s.keywords.is_empty()));
    act165_unlock_next_steps(&cfg, &mut other, 2);
    assert_eq!(act165_step_ids(&other), vec![1, 2, 3]);
}

#[test]
fn refused_keyword_choices_change_nothing() {
    let cfg = story();
    let mut state = act165_state(None, 1);
    assert_eq!(act165_modify_keyword(&cfg, &mut state, 0, &[10]), Err(LogicError::InvalidRequest));
    assert_eq!(act165_modify_keyword(&cfg, &mut state, 1, &[12]), Err(LogicError::InvalidRequest));
    assert_eq!(act165_step_ids(&state), vec![1]);
    assert_eq!(act165_validate_keywords(&cfg, 9, &[]), Err(LogicError::InvalidRequest));
    assert_eq!(act165_validate_keywords(&cfg, 1, &[11, 10]), Ok(()));
}

#[test]
fn restart_keeps_the_path_up_to_the_step() {
    let mut state = Act165State {
        infer_state: 1,
        gained_ending_count: 0,
        steps: vec![
            Act165StepState { step_id: 1, keywords: vec![10] },
            Act165StepState { step_id: 2, keywords: vec![20] },
            Act165StepState { step_id: 3, keywords: vec![] },
        ],
        endings: vec![],
    };
    assert_eq!(act165_restart(&mut state, 1, 1, Some(2)), Ok(()));
    assert_eq!(act165_step_ids(&state), vec![1, 2]);
    assert_eq!(state.steps[0].keywords, vec![10]);
    assert!(state.steps[1].keywords.is_empty());
    assert_eq!(state.infer_state, 0);
    assert_eq!(act165_restart(&mut state, 1, 1, Some(99)), Ok(()));
    assert_eq!(act165_step_ids(&state), vec![1]);
    assert_eq!(act165_restart(&mut state, 0, 1, None), Err(LogicError::InvalidRequest));
}

#[test]
fn endings_are_recorded_once_and_milestones_follow_them() {
    let endings = vec![Act165EndingRow { ending_id: 70, final_step_id: 4 }];
    let rewards = vec![Act165RewardRow { ending_count: 1, bonus: 900 }];
    let mut state = Act165State {
        infer_state: 1,
        gained_ending_count: 0,
        steps: vec![Act165StepState { step_id: 1, keywords: vec![11] }, Act165StepState { step_id: 4, keywords: vec![] }],
        endings: vec![],
    };
    assert_eq!(act165_gain_milestone_reward(&rewards, &mut state), Err(LogicError::InvalidRequest));
    assert_eq!(act165_generate_ending(&endings, &mut state, 1), Ok(70));
    assert_eq!(act165_generate_ending(&endings, &mut state, 1), Ok(70));
    assert_eq!(state.endings.len(), 1);
    assert_eq!(state.endings[0].steps.len(), 2);
    assert_eq!(state.infer_state, 2);
    assert_eq!(act165_gain_milestone_reward(&rewards, &mut state), Ok(900));
    assert_eq!(state.gained_ending_count, 1);
    assert_eq!(act165_gain_milestone_reward(&rewards, &mut state), Err(LogicError::InvalidRequest));
    state.steps.truncate(1);
    assert_eq!(act165_generate_ending(&endings, &mut state, 1), Err(LogicError::InvalidRequest));
}

#[test]
fn stored_progress_gets_a_first_step() {
    let state = act165_state(Some(Act165State { infer_state: 2, gained_ending_count: 1, steps: vec![], endings: vec![] }), 7);
    assert_eq!(act165_step_ids(&state), vec![7]);
    assert_eq!(state.infer_state, 2);
}
