use logic::activity::catalog::{
    activity_info, activity_infos, activity_infos_with_param, apply_act125_activity, apply_bp_activity, catalog_infos,
    CatalogTables,
};
use logic::activity::{default_act125_activity_id, ActivityRow, OpenRow, PERMANENT_END_MS};
use logic::command_post::{command_post_dispatch, dispatch_window, CopostEventRow, COMMAND_POST_EVENT_TYPE_DISPATCH};
use logic::error::LogicError;
use logic::hero::progression::{ex_skill_consume, level_up_check};
use logic::push::{clear_red_dot_infos, clear_red_dots, red_dot_value_group, RedDotInfo};

fn row(id: i32, type_id: i32, open_id: i32, is_retro_acitivity: i32) -> ActivityRow {
    ActivityRow { id, type_id, open_id, is_retro_acitivity }
}

fn tables() -> CatalogTables {
    CatalogTables {
        activities: vec![row(13116, 1, 0, 0), row(13610, 125, 0, 0), row(13612, 125, 5, 0), row(13500, 1, 0, 2)],
        opens: vec![OpenRow { id: 5, is_online: 0 }],
        active_catalog: vec![13500, 13610],
        current_bp: None,
        version_range: Some((1_782_968_400_000, 1_784_782_799_000)),
    }
}

#[test]
fn catalog_contains_every_configured_activity() {
    let t = tables();
    let infos = catalog_infos(&t);
    assert_eq!(infos.len(), t.activities.len());
    assert!(t.activities.iter().all(|activity| infos.iter().any(|info| info.id == activity.id)));
}

#[test]
fn old_lua_activity_ids_are_present_but_not_online() {
    let t = tables();
    let infos = catalog_infos(&t);
    let inactive_activity = infos.iter().find(|info| info.id == 13116).unwrap();
    let current_dungeon = infos.iter().find(|info| info.id == 13500).unwrap();
    assert!(!inactive_activity.online);
    assert!(current_dungeon.online);
}

#[test]
fn empty_param_request_keeps_the_catalog_and_current_act125() {
    let t = tables();
    let mut infos = catalog_infos(&t);
    apply_act125_activity(&mut infos, &[13610, 13612], &t);
    assert!(!infos.is_empty());
    assert_eq!(default_act125_activity_id(&[13610, 13612], &t.activities, &t.opens, 1), 13610);
    assert!(infos.iter().any(|info| info.id == 13610));
    assert_eq!(infos.iter().find(|info| info.id == 13116).map(|info| info.online), Some(false));
    assert_eq!(infos.iter().find(|info| info.id == 13612).map(|info| info.online), Some(false));
}

#[test]
fn catalog_windows_and_unlocks_follow_the_event_kind() {
    let t = tables();
    let permanent = activity_info(&t, 13500);
    assert_eq!((permanent.start_time, permanent.end_time), (0, PERMANENT_END_MS));
    assert!(!permanent.is_unlock);
    let versioned = activity_info(&t, 13116);
    assert_eq!((versioned.start_time, versioned.end_time), (1_782_968_400_000, 1_784_782_799_000));
    assert!(versioned.is_unlock);
    let unknown = activity_info(&t, 7);
    assert!(unknown.is_unlock && !unknown.online);
}

#[test]
fn battle_pass_and_shop_events_join_the_catalog() {
    let mut t = tables();
    t.current_bp = Some(14000);
    let mut infos = catalog_infos(&t);
    apply_bp_activity(&mut infos, &t);
    assert_eq!(infos.len(), 5);
    assert_eq!(infos[4].id, 14000);
    assert!(infos[4].online);
    let mut again = infos.clone();
    apply_bp_activity(&mut again, &t);
    assert_eq!(again.len(), 5);
    apply_act125_activity(&mut again, &[13610, 15000, 15000], &t);
    assert_eq!(again.len(), 6);
    assert_eq!(again[5].id, 15000);
}

#[test]
fn player_flags_and_requested_events_shape_the_reply() {
    let t = tables();
    let all = activity_infos(&t, &[13610, 13612], &[13116], &[13500]);
    assert_eq!(all.len(), 4);
    assert!(all[0].is_new_stage);
    assert!(all[3].is_unlock);
    assert!(!all[1].is_new_stage);
    let some = activity_infos_with_param(&t, &[13500, 99], &[13610], &[], &[]);
    assert_eq!(some.len(), 1);
    assert_eq!(some[0].id, 13500);
    assert!(!some[0].is_unlock);
    let everything = activity_infos_with_param(&t, &[], &[13610], &[], &[]);
    assert_eq!(everything.len(), 4);
}

#[test]
fn dispatch_sends_only_dispatch_events() {
    let events = [
        CopostEventRow { id: 1, event_type: COMMAND_POST_EVENT_TYPE_DISPATCH, all_time: 60 },
        CopostEventRow { id: 2, event_type: 1, all_time: 60 },
        CopostEventRow { id: 3, event_type: COMMAND_POST_EVENT_TYPE_DISPATCH, all_time: -5 },
    ];
    assert_eq!(dispatch_window(Some(1), &events, 1_000), Some((1, 1_000, 61_000)));
    assert_eq!(dispatch_window(Some(3), &events, 1_000), Some((3, 1_000, 1_000)));
    assert_eq!(dispatch_window(Some(2), &events, 1_000), None);
    assert_eq!(dispatch_window(Some(9), &events, 1_000), None);
    assert_eq!(dispatch_window(None, &events, 1_000), None);
    let (id, start, end) = command_post_dispatch(Some(1), &events).unwrap();
    assert_eq!((id, end - start), (1, 60_000));
    assert_eq!(command_post_dispatch(Some(2), &events), None);
}

#[test]
fn red_dot_groups_carry_the_ids_given() {
    assert_eq!(red_dot_value_group(7, &[], true, 1, 2), None);
    let group = red_dot_value_group(7, &[3, 4], false, 1, 2).unwrap();
    assert_eq!(group.define_id, 7);
    assert_eq!(group.replace_all, Some(false));
    assert_eq!(
        group.infos,
        vec![RedDotInfo { id: 3, value: 1, time: Some(2) }, RedDotInfo { id: 4, value: 1, time: Some(2) }]
    );
    let cleared = clear_red_dot_infos(9);
    assert!(cleared.infos.is_empty() && cleared.replace_all == Some(true));
    let groups = clear_red_dots(&[1, 2]);
    assert_eq!(groups.len(), 2);
    assert_eq!(groups[1].define_id, 2);
    assert_eq!(groups[1].infos, vec![RedDotInfo { id: 0, value: 0, time: Some(0) }]);
}

#[test]
fn ex_skill_upgrade_uses_the_levels_left() {
    assert_eq!(ex_skill_consume(3, 2, 10), Ok(3));
    assert_eq!(ex_skill_consume(3, 2, 0), Ok(1));
    assert_eq!(ex_skill_consume(3, 4, 2), Ok(1));
    assert_eq!(ex_skill_consume(3, 5, 1), Err(LogicError::InvalidRequest));
    assert_eq!(ex_skill_consume(2, 0, 1), Err(LogicError::InvalidRequest));
}

#[test]
fn hero_level_up_needs_a_configured_level() {
    let levels = [(3023, 1), (3023, 2), (3028, 1)];
    assert_eq!(level_up_check(&levels, 3023, 2), Ok(2));
    assert_eq!(level_up_check(&levels, 3028, 2), Err(LogicError::InvalidRequest));
}
