use logic::activity::act197::{explore_times, gain_infos, resolve_activity_id as resolve197};
use logic::collection::handbook::{read_handbook, record_dialog};
use logic::critter::{book_info, book_state, book_stored, mark_book_read, owned_book_entry, set_book_background, set_book_special_skin, CRITTER_BOOK_BACKGROUND_SUB_TYPE};
use logic::error::LogicError;
use logic::fairyland::FairylandManager;
use logic::tower_compose::{compose_battle, get_info, settle_plan, theme_info, SettlePlan, ComposeBattle, TowerComposeEpisodeRow, TowerComposeModRow, TowerComposeThemeState};

#[test]
fn handbook_reads_need_a_known_type_and_id() {
    assert_eq!(read_handbook(3, 3125), Ok((3, 3125)));
    assert_eq!(read_handbook(5, 3125), Err(LogicError::InvalidRequest));
    assert_eq!(read_handbook(0, 1), Err(LogicError::InvalidRequest));
    assert_eq!(read_handbook(1, 0), Err(LogicError::InvalidRequest));
    assert_eq!(record_dialog(Some(7)), Ok(7));
    assert_eq!(record_dialog(None), Err(LogicError::InvalidRequest));
}

#[test]
fn critter_book_keeps_only_preferences() {
    let table = [500001, 500002];
    assert_eq!(set_book_special_skin(&table, 500001, Some(false), true), Err(LogicError::InvalidRequest));
    assert_eq!(set_book_special_skin(&table, 500001, Some(false), false), Ok(false));
    assert_eq!(set_book_special_skin(&table, 500001, Some(true), true), Ok(true));
    assert_eq!(set_book_special_skin(&table, 500002, None, true), Err(LogicError::InvalidRequest));
    assert_eq!(set_book_special_skin(&table, 500003, Some(true), false), Err(LogicError::InvalidRequest));
    assert_eq!(set_book_background(&table, 500001, Some(true), 1, None, true), Err(LogicError::InvalidRequest));
    assert_eq!(
        set_book_background(&table, 500001, Some(true), 1, Some(CRITTER_BOOK_BACKGROUND_SUB_TYPE), false),
        Err(LogicError::InvalidRequest)
    );
    assert_eq!(set_book_background(&table, 500001, Some(true), 1, Some(CRITTER_BOOK_BACKGROUND_SUB_TYPE), true), Ok(1));
    assert_eq!(set_book_background(&table, 500001, Some(false), 0, None, false), Ok(0));
    assert_eq!(set_book_background(&table, 500002, None, 0, None, false), Err(LogicError::InvalidRequest));
    assert_eq!(mark_book_read(&table, 500001, Some(true)), Ok(()));
    assert_eq!(mark_book_read(&table, 500002, None), Err(LogicError::InvalidRequest));
    assert_eq!(owned_book_entry(&table, 500001, Some(true)), Ok(true));
    let stored = book_stored(true, 0, true);
    assert_eq!(book_state(Some(stored.clone())), (true, 0, true));
    let info = book_info(500001, true, Some(stored));
    assert!(info.use_special_skin && !info.is_new && info.unlock_normal_skin);
    let fresh = book_info(500002, false, Some(book_stored(false, 7, true)));
    assert!(!fresh.use_special_skin && fresh.is_new);
    assert_eq!(fresh.background, 7);
}

#[test]
fn fairyland_records_only_configured_entries() {
    let fairyland = FairylandManager::new(3);
    assert_eq!(fairyland.record_dialog(&[1, 2], 2), Ok(2));
    assert_eq!(fairyland.record_dialog(&[1, 2], 3), Err(LogicError::InvalidRequest));
    assert_eq!(fairyland.record_element(&[9], 9), Ok(9));
    assert_eq!(fairyland.record_element(&[], 9), Err(LogicError::InvalidRequest));
    assert_eq!(fairyland.resolve_puzzle(4, Some("abc"), "abc"), Ok(4));
    assert_eq!(fairyland.resolve_puzzle(4, Some("abc"), "abd"), Err(LogicError::InvalidRequest));
    assert_eq!(fairyland.resolve_puzzle(4, None, "abc"), Err(LogicError::InvalidRequest));
}

#[test]
fn tower_themes_show_progress_and_offered_mods() {
    let mods = [TowerComposeModRow { id: 11, theme_id: 1, is_unlock: 1, level: 2 }];
    let episodes = [
        TowerComposeEpisodeRow { theme_id: 1, layer_id: 1, plane: 0, episode_id: 100, unlock_mod_ids: "12".to_string() },
        TowerComposeEpisodeRow { theme_id: 1, layer_id: 2, plane: 1, episode_id: 101, unlock_mod_ids: "13".to_string() },
    ];
    let fresh = theme_info(1, None, &mods, &episodes);
    assert_eq!(fresh.unlock_mod_ids, vec![11]);
    assert_eq!((fresh.pass_max_layer_id, fresh.params.clone()), (0, None));
    let state = TowerComposeThemeState {
        theme_id: 1,
        pass_max_layer_id: 1,
        research_progress: 4,
        high_score: 9,
        curr_score: 3,
        boss_level: 2,
        boss_lock: true,
        saved_record: 5,
        params: "x".to_string(),
    };
    let played = theme_info(1, Some(&state), &mods, &episodes);
    assert_eq!(played.unlock_mod_ids, vec![11, 12]);
    assert_eq!((played.research_progress, played.high_score, played.boss_lock), (4, 9, true));
    assert_eq!(played.params, Some("x".to_string()));
    let battle = ComposeBattle { theme_id: 1, layer_id: 2, plane_id: 1 };
    assert_eq!(compose_battle(Some(battle), 101, &episodes), Some(battle));
    assert_eq!(compose_battle(Some(battle), 100, &episodes), None);
    assert_eq!(compose_battle(None, 101, &episodes), None);
}

#[test]
fn act197_gains_and_explorations() {
    let states = vec![(2, 1, 0, "[3,1,3]".to_string()), (1, 1, 0, "[2]".to_string()), (3, 0, 0, "[1]".to_string())];
    assert_eq!(gain_infos(&states), vec![(1, vec![2]), (2, vec![1, 3])]);
    assert_eq!(explore_times(Some(2), 7, 3), Some(2));
    assert_eq!(explore_times(Some(2), 2, 3), None);
    assert_eq!(explore_times(Some(2), -7, -3), Some(2));
    assert_eq!(explore_times(Some(2), 7, -3), None);
    assert_eq!(explore_times(None, 0, 0), Some(1));
    assert_eq!(resolve197(None, &[4, 9, 2]), Ok(9));
    assert_eq!(resolve197(None, &[]), Err(LogicError::InvalidRequest));
}

#[test]
fn tower_info_lists_online_themes_with_their_last_progress() {
    let mods = [TowerComposeModRow { id: 11, theme_id: 1, is_unlock: 1, level: 2 }];
    let state = |theme_id: i32, research_progress: i32| TowerComposeThemeState {
        theme_id,
        pass_max_layer_id: 0,
        research_progress,
        high_score: 0,
        curr_score: 0,
        boss_level: 0,
        boss_lock: false,
        saved_record: 0,
        params: String::new(),
    };
    let themes = get_info(&[(1, 1), (2, 0), (3, 1)], &[state(1, 5), state(1, 6), state(2, 9)], &mods, &[]);
    assert_eq!(themes.len(), 2);
    assert_eq!((themes[0].theme_id, themes[0].research_progress), (1, 6));
    assert_eq!(themes[0].unlock_mod_ids, vec![11]);
    assert_eq!((themes[1].theme_id, themes[1].research_progress), (3, 0));
}

#[test]
fn only_layer_fights_settle() {
    let layer = ComposeBattle { theme_id: 1, layer_id: 2, plane_id: 0 };
    assert_eq!(settle_plan(Some(layer), true), Some(SettlePlan { theme_id: 1, layer_id: 2, complete_layer: true, result: 1 }));
    assert_eq!(settle_plan(Some(layer), false), Some(SettlePlan { theme_id: 1, layer_id: 2, complete_layer: false, result: 2 }));
    assert_eq!(settle_plan(Some(ComposeBattle { plane_id: 1, ..layer }), true), None);
    assert_eq!(settle_plan(None, true), None);
}
