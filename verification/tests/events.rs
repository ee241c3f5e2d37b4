use logic::activity::act104::{act104_infos, Act104EpisodeRow, Act104RetailRow, Act104States};
use logic::activity::act152::{accept_act152_present, Act152Accept, Act152Row};
use logic::activity::act160::{finish_act160_mission, Act160MissionRow};
use logic::activity::act186::{
    act186_activity_id, act186_info, act186_milestone_currency_id, parse_time_millis, Act186GameRow, Act186LikeRow,
    Act186StageRow, Act186TaskRow,
};
use logic::activity::act197::act197_rummage;
use logic::activity::act216::{
    dynamic_progress, finish_act216_task, get_act216_once_bonus, task_info, task_infos, Act216Finish, Act216OnceBonus, Act216OnceBonusRow,
    Act216TaskInfo, Act216TaskRow, HeroSnapshot,
};
use logic::bp::rewards::{bp_claim_plan, self_select_allowed, BpBonusRow, BpState};
use logic::error::LogicError;
use logic::sorting::sort_by_key_stable;

#[test]
fn stable_sort_keeps_equal_keys_in_order() {
    let sorted = sort_by_key_stable(vec![(3, 'a'), (1, 'b'), (3, 'c'), (2, 'd'), (1, 'e')]);
    assert_eq!(sorted, vec![(1, 'b'), (1, 'e'), (2, 'd'), (3, 'a'), (3, 'c')]);
    assert_eq!(sort_by_key_stable(Vec::<(i32, u8)>::new()), vec![]);
}

#[test]
fn tower_event_lists_are_sorted_for_the_client() {
    let episodes = vec![
        Act104EpisodeRow { activity_id: 5, layer: 3 },
        Act104EpisodeRow { activity_id: 5, layer: 1 },
        Act104EpisodeRow { activity_id: 6, layer: 2 },
    ];
    let specials = vec![Act104EpisodeRow { activity_id: 5, layer: 9 }];
    let retails = vec![
        Act104RetailRow { activity_id: 5, stage: 2, retail_episode_id_pool: "700#701".into() },
        Act104RetailRow { activity_id: 5, stage: 1, retail_episode_id_pool: "".into() },
    ];
    let trials = vec![Act104EpisodeRow { activity_id: 5, layer: 42 }];
    let states = Act104States {
        episode: vec![(1, 1), (3, 1), (7, 0)],
        special: vec![(9, 2)],
        after_story: vec![(3, 1)],
        story: vec![(0, 1)],
        summary: vec![],
    };
    let reply = act104_infos(&episodes, &specials, &retails, &trials, &states, None).unwrap();
    assert_eq!(reply.activity_id, Some(6));
    let reply = act104_infos(&episodes, &specials, &retails, &trials, &states, Some(5)).unwrap();
    let layers: Vec<_> = reply.episodes.iter().map(|e| (e.layer, e.state, e.read_after_story)).collect();
    assert_eq!(layers, vec![(Some(1), Some(1), Some(false)), (Some(3), Some(1), Some(true))]);
    assert_eq!(reply.specials[0].state, Some(2));
    let retail: Vec<_> = reply.retails.iter().map(|r| (r.id, r.position)).collect();
    assert_eq!(retail, vec![(Some(1), Some(1)), (Some(700), Some(2))]);
    assert!(reply.retails.iter().all(|r| r.state == Some(0)
        && r.advanced_id == Some(0)
        && r.star == Some(0)
        && r.advanced_rare == Some(0)
        && r.tag == Some(0)
        && r.show_activity104_equip_ids.is_empty()));
    assert_eq!(reply.trial_id, Some(42));
    assert_eq!(reply.read_activity104_story, Some(true));
    assert_eq!(reply.is_pop_summary, Some(false));
    assert_eq!(reply.max_layer, Some(3));
    assert!(act104_infos(&[], &[], &[], &[], &states, None).is_err());
}

#[test]
fn mission_chain_opens_the_next_missions() {
    let rows = vec![
        Act160MissionRow { id: 1, activity_id: 8, pre_id: 0, sort: 0 },
        Act160MissionRow { id: 2, activity_id: 8, pre_id: 1, sort: 0 },
        Act160MissionRow { id: 3, activity_id: 8, pre_id: 1, sort: 0 },
        Act160MissionRow { id: 4, activity_id: 9, pre_id: 1, sort: 0 },
    ];
    let done = finish_act160_mission(&rows, 8, Some(1), Some(1)).unwrap();
    assert_eq!(done.updates, vec![(1, 2), (2, 1), (3, 1)]);
    assert_eq!((done.activity_id, done.act160_info, done.is_read_mail), (8, Some((1, 2)), Some(false)));
    assert_eq!(finish_act160_mission(&rows, 8, Some(1), Some(2)).unwrap_err(), LogicError::InvalidRequest);
    assert_eq!(finish_act160_mission(&rows, 8, Some(1), None).unwrap_err(), LogicError::InvalidRequest);
    assert_eq!(finish_act160_mission(&rows, 9, Some(1), Some(1)).unwrap_err(), LogicError::InvalidRequest);
    assert_eq!(finish_act160_mission(&rows, 8, Some(77), Some(1)).unwrap_err(), LogicError::InvalidRequest);
    assert_eq!(finish_act160_mission(&rows, 8, None, Some(1)).unwrap_err(), LogicError::InvalidRequest);
}

#[test]
fn gifts_open_on_their_date_and_are_taken_once() {
    let rows = vec![Act152Row { activity_id: 1, present_id: 2, accept_date: "2024-05-31 00:00:00".into() }];
    let open = 1_717_113_600_000;
    assert_eq!(accept_act152_present(&rows, 1, 2, None, open), Ok(Act152Accept::Granted));
    assert_eq!(accept_act152_present(&rows, 1, 2, Some(1), open), Ok(Act152Accept::AlreadyAccepted));
    assert_eq!(accept_act152_present(&rows, 1, 2, None, open - 1), Err(LogicError::InvalidRequest));
    assert_eq!(accept_act152_present(&rows, 1, 3, None, open), Err(LogicError::InvalidRequest));
}

#[test]
fn event_info_lists_tasks_likes_and_games() {
    let stages = vec![
        Act186StageRow { activity_id: 5, stage_id: 1, start_time: "2026-07-20 05:00:00".into(), end_time: "2026-08-13 04:59:59".into() },
        Act186StageRow { activity_id: 5, stage_id: 2, start_time: "2026-08-13 05:00:00".into(), end_time: "2026-08-01 04:59:59".into() },
    ];
    assert_eq!(act186_activity_id(&stages, None), Ok(5));
    assert_eq!(act186_activity_id(&[], None), Err(LogicError::InvalidRequest));
    let tasks = vec![
        Act186TaskRow { activity_id: 5, id: 30, loop_type: 3, is_online: 1 },
        Act186TaskRow { activity_id: 5, id: 10, loop_type: 1, is_online: 1 },
        Act186TaskRow { activity_id: 5, id: 20, loop_type: 1, is_online: 0 },
    ];
    let likes = vec![Act186LikeRow { activity_id: 5, like_type: 2 }, Act186LikeRow { activity_id: 5, like_type: 1 }];
    let games = vec![Act186GameRow { activity_id: 5, id: 4, game_type2_prob: "2#50|1#50".into() }];
    let now = 1_784_829_600_000;
    let reply = act186_info(&stages, &tasks, &likes, &games, &[(30, 1, 7)], 5, 12, now);
    let ts: Vec<_> = reply.task_infos.iter().map(|t| (t.task_id, t.progress, t.expire_time, t.has_get_bonus)).collect();
    let end = parse_time_millis("2026-08-13 04:59:59");
    assert_eq!(ts, vec![(Some(10), Some(0), Some(1_784_887_200_000), Some(false)), (Some(30), Some(7), Some(end), Some(true))]);
    let ls: Vec<_> = reply.like_infos.iter().map(|l| l.like_type).collect();
    assert_eq!(ls, vec![Some(1), Some(2)]);
    assert_eq!(reply.game_infos[0].game_type_id, Some(2));
    assert_eq!(reply.get_milestone_progress, Some(12));
    assert_eq!(reply.current_stage, Some(1));
    assert_eq!(act186_milestone_currency_id(&[(2, "9".into()), (1, "140001".into())]), Ok(140001));
    assert_eq!(act186_milestone_currency_id(&[(1, "x".into())]), Err(LogicError::InvalidRequest));
}

#[test]
fn rummage_draws_an_untaken_prize() {
    let rows = vec![
        logic::activity::act197::Act197PoolRow { activity_id: 1, pool_id: 1, index: 1 },
        logic::activity::act197::Act197PoolRow { activity_id: 1, pool_id: 1, index: 2 },
        logic::activity::act197::Act197PoolRow { activity_id: 1, pool_id: 2, index: 1 },
    ];
    let r = act197_rummage(&rows, 1, 1, "2#4#3", None, Some((1, 0, "[1]".into()))).unwrap();
    assert_eq!(r.row, 1);
    assert_eq!(r.claimed, vec![1, 2]);
    assert_eq!(r.cost.count, 3);
    assert!(act197_rummage(&rows, 1, 1, "2#4#3", None, Some((1, 0, "[2,1]".into()))).is_err());
    assert!(act197_rummage(&rows, 1, 2, "2#4#3", None, None).is_err());
    assert!(act197_rummage(&rows, 1, 1, "2#4", None, None).is_err());
    assert_eq!(act197_rummage(&rows, 1, 2, "2#4#3", None, None).unwrap_err(), LogicError::InvalidRequest);
    assert_eq!(
        act197_rummage(&rows, 1, 1, "2#4#3", None, Some((1, 0, "[2,1]".into()))).unwrap_err(),
        LogicError::InvalidRequest
    );
    let next = act197_rummage(&rows, 1, 2, "2#4#3", Some((1, 0, "[1]".into())), None).unwrap();
    assert_eq!((next.row, next.claimed), (2, vec![1]));
}

#[test]
fn growth_tasks_finish_at_their_goal() {
    let heroes = vec![HeroSnapshot { hero_id: 1, level: 100, rank: 3, talent: 0 }, HeroSnapshot { hero_id: 2, level: 10, rank: 3, talent: 0 }];
    let rares = vec![(1, 5), (2, 5)];
    let row = Act216TaskRow {
        id: 7,
        activity_id: 3,
        is_online: 1,
        max_progress: 2,
        listener_type: "UpdateTargetRareHeroRank".into(),
        listener_param: "5#3".into(),
    };
    assert_eq!(dynamic_progress(&row, &heroes, &rares), 2);
    let other = Act216TaskRow { listener_type: "Other".into(), max_progress: 5, id: 8, ..row.clone() };
    assert_eq!(dynamic_progress(&other, &heroes, &rares), 0);
    assert_eq!(task_info(&other, (0, 4), &heroes, &rares), Act216TaskInfo { task_id: Some(8), progress: Some(4), has_finish: Some(false) });
    assert_eq!(task_info(&other, (1, 0), &heroes, &rares).progress, Some(5));
    let done = Act216TaskInfo { task_id: Some(7), progress: Some(2), has_finish: Some(true) };
    let offline = Act216TaskRow { id: 9, is_online: 0, ..row.clone() };
    let table = vec![row.clone(), other.clone(), offline];
    assert_eq!(finish_act216_task(&table, 3, Some(7), &[], &heroes, &rares), Ok(Act216Finish::Finished(done)));
    assert_eq!(finish_act216_task(&table, 3, Some(7), &[(7, 1, 0)], &heroes, &rares), Ok(Act216Finish::AlreadyFinished(done)));
    assert_eq!(finish_act216_task(&table, 3, Some(8), &[(8, 0, 1)], &heroes, &rares), Err(LogicError::InvalidRequest));
    assert_eq!(finish_act216_task(&table, 3, None, &[], &heroes, &rares), Err(LogicError::InvalidRequest));
    assert_eq!(finish_act216_task(&table, 4, Some(7), &[], &heroes, &rares), Err(LogicError::InvalidRequest));
    assert_eq!(finish_act216_task(&table, 3, Some(9), &[], &heroes, &rares), Err(LogicError::InvalidRequest));
    assert_eq!(finish_act216_task(&table, 3, Some(10), &[], &heroes, &rares), Err(LogicError::InvalidRequest));
    let infos = task_infos(&[other.clone(), row.clone()], 3, &[(7, 1, 0)], &heroes, &rares);
    assert_eq!(infos.iter().map(|t| t.task_id).collect::<Vec<_>>(), vec![Some(7), Some(8)]);
    let once = |need: i32| vec![Act216OnceBonusRow { activity_id: 3, need_finish_task_num: need, bonus: "2#1#50".into() }];
    assert_eq!(get_act216_once_bonus(&once(9), 3, true, &infos), Ok(Act216OnceBonus::AlreadyTaken));
    assert_eq!(get_act216_once_bonus(&once(2), 3, false, &infos), Err(LogicError::InvalidRequest));
    assert_eq!(get_act216_once_bonus(&once(1), 3, false, &infos), Ok(Act216OnceBonus::Granted { bonus: "2#1#50".into() }));
    assert_eq!(get_act216_once_bonus(&once(1), 4, true, &infos), Err(LogicError::InvalidRequest));
}

#[test]
fn battle_pass_claims_follow_the_tracks() {
    let rows = vec![
        BpBonusRow { level: 1, free_bonus: "1#1#1".into(), pay_bonus: "1#2#1".into(), sp_free_bonus: String::new(), sp_pay_bonus: "2#1#1".into() },
        BpBonusRow { level: 2, free_bonus: "1#1#1".into(), pay_bonus: String::new(), sp_free_bonus: "3#1#1".into(), sp_pay_bonus: String::new() },
        BpBonusRow { level: 3, free_bonus: "1#1#1".into(), pay_bonus: "1#2#1".into(), sp_free_bonus: String::new(), sp_pay_bonus: String::new() },
    ];
    let state = BpState {
        score: 250,
        pay_status: 1,
        has_get_free_bonus: vec![1],
        has_get_pay_bonus: vec![],
        has_get_sp_free_bonus: vec![],
        has_get_sp_pay_bonus: vec![],
    };
    let all = bp_claim_plan(&rows, &state, 100, None, None, None);
    assert_eq!((all.free, all.pay, all.sp_free, all.sp_pay), (vec![2], vec![1], vec![], vec![]));
    let one_pay = bp_claim_plan(&rows, &state, 100, Some(1), Some(true), None);
    assert_eq!((one_pay.free, one_pay.pay), (vec![], vec![1]));
    let sp = bp_claim_plan(&rows, &state, 100, Some(0), None, Some(true));
    assert_eq!((sp.free, sp.sp_free, sp.sp_pay), (vec![], vec![2], vec![1]));
    let unpaid = BpState { pay_status: 0, ..state.clone() };
    assert!(bp_claim_plan(&rows, &unpaid, 100, None, None, None).pay.is_empty());
    let negative = BpState { score: -150, ..state.clone() };
    assert!(bp_claim_plan(&rows, &negative, 100, None, None, None).free.is_empty());
    assert!(self_select_allowed(1, 250, 0, 2, &[Some(1)]));
    assert!(!self_select_allowed(1, 250, 100, 3, &[]));
    assert!(!self_select_allowed(0, 250, 100, 1, &[]));
    assert!(!self_select_allowed(1, 250, 100, 2, &[None, Some(2)]));
}
