use logic::charge::month_card_claim_id;
use logic::text::stored_id_list;
use logic::activity::act166::{act166_infos, default_act166_activity_id};
use logic::activity::dice_hero::{
    apply_dice_hero_reward_item, chapter_ids, dice_hero_base_info, dice_hero_enter_story, dice_hero_get_reward,
    dice_hero_game_info, dice_hero_reward_items, ensure_dice_hero_reward_panel, refill_stored_reward_panel, next_dice_hero_level, DiceCharacterRow, DiceHeroRewardItem,
    DiceHeroRewardType, DiceHeroRun, DiceLevelRow, EnterStoryAction, RewardSelect,
};
use logic::activity::version_activity_time_range;
use logic::command_post::{claimable_bonus_id, claimable_bonus_ids, command_post_current_version, CopostBonusRow, COMMAND_POST_CURRENT_VERSION_CONST_ID};
use logic::critter::book_state;
use logic::fairyland::completed_ids;
use logic::guide::{hero_reward_after_step, GuideStepRow};
use logic::hero::destiny::{destiny_level_up_cost, destiny_stones, next_destiny_slot, CharacterDestinyRow, DestinySlotRow};
use logic::hero_group::snapshot::{common_sort_sub_ids, snapshot_catalog_slots, snapshot_group, snapshot_query, snapshot_target_valid, FightGroup, SnapshotQuery};
use logic::error::LogicError;
use logic::tower_compose::{max_selected_mod_level, unlock_mods, TowerComposeEpisodeRow, TowerComposeModRow};

fn destiny_tables() -> (Vec<CharacterDestinyRow>, Vec<DestinySlotRow>) {
    let rows = vec![
        CharacterDestinyRow { hero_id: 3003, facets_id: "300301#300302".to_string(), slots_id: 3003 },
        CharacterDestinyRow { hero_id: 3052, facets_id: "305201".to_string(), slots_id: 3052 },
    ];
    let mut slots = Vec::new();
    for stage in 1..=3 {
        for node in 1..=4 {
            let consume = if node == 3 { String::new() } else { format!("1#{stage}{node}#1") };
            slots.push(DestinySlotRow { slots_id: 3052, stage, node, consume });
        }
    }
    slots.push(DestinySlotRow { slots_id: 3003, stage: 1, node: 1, consume: "2#5#10".to_string() });
    (rows, slots)
}

#[test]
fn destiny_progression_follows_the_configured_slot_order() {
    let (rows, slots) = destiny_tables();

    let first = next_destiny_slot(&rows, &slots, 3052, 0, 0).unwrap();
    assert_eq!((first.stage, first.node), (1, 1));

    let last_stage_one = slots
        .iter()
        .filter(|slot| slot.slots_id == 3052 && slot.stage == 1)
        .map(|slot| slot.node)
        .max()
        .unwrap();
    let next_rank = next_destiny_slot(&rows, &slots, 3052, 1, last_stage_one).unwrap();
    assert_eq!((next_rank.stage, next_rank.node), (2, 1));
    assert_eq!(destiny_stones(&rows, 3052), vec![305201]);
}

#[test]
fn destiny_moves_node_by_node_and_stops_at_the_end() {
    let (rows, slots) = destiny_tables();
    let next = next_destiny_slot(&rows, &slots, 3052, 2, 1).unwrap();
    assert_eq!((next.stage, next.node), (2, 2));
    assert_eq!(next_destiny_slot(&rows, &slots, 3052, 3, 4), None);
    assert_eq!(next_destiny_slot(&rows, &slots, 9999, 0, 0), None);
    assert_eq!(destiny_stones(&rows, 3003), vec![300301, 300302]);
    assert_eq!(destiny_stones(&rows, 9999), Vec::<i32>::new());
}

#[test]
fn destiny_level_up_joins_the_costs_of_the_nodes_passed() {
    let (rows, slots) = destiny_tables();
    assert_eq!(destiny_level_up_cost(&rows, &slots, 3052, 2, 1, 4), Ok("1#22#1|1#24#1".to_string()));
    assert_eq!(destiny_level_up_cost(&rows, &slots, 3052, 2, 0, 1), Ok("1#21#1".to_string()));
    assert_eq!(destiny_level_up_cost(&rows, &slots, 3052, 2, 2, 3), Ok(String::new()));
    assert_eq!(destiny_level_up_cost(&rows, &slots, 3052, 0, 0, 1), Err(LogicError::InvalidRequest));
    assert_eq!(destiny_level_up_cost(&rows, &slots, 3052, 2, 2, 2), Err(LogicError::InvalidRequest));
    assert_eq!(destiny_level_up_cost(&rows, &slots, 9999, 2, 0, 1), Err(LogicError::InvalidRequest));
    assert_eq!(destiny_level_up_cost(&rows, &slots, 3052, 2, 3, 5), Err(LogicError::InvalidRequest));
}

#[test]
fn command_post_version_comes_from_its_constant() {
    assert_eq!(COMMAND_POST_CURRENT_VERSION_CONST_ID, 300);
    assert_eq!(command_post_current_version(&[(1, 7), (300, 4), (300, 9)]), 4);
    assert_eq!(command_post_current_version(&[(1, 7)]), 0);
}

#[test]
fn command_post_bonuses_open_by_version_and_points() {
    let bonuses = vec![
        CopostBonusRow { id: 1, version_id: 1, point_num: 10 },
        CopostBonusRow { id: 2, version_id: 2, point_num: 20 },
        CopostBonusRow { id: 3, version_id: 3, point_num: 5 },
        CopostBonusRow { id: 4, version_id: 1, point_num: 40 },
    ];
    assert_eq!(claimable_bonus_id(&bonuses, 2, 1, 10), Some(1));
    assert_eq!(claimable_bonus_id(&bonuses, 2, 2, 19), None);
    assert_eq!(claimable_bonus_id(&bonuses, 2, 3, 100), None);
    assert_eq!(claimable_bonus_id(&bonuses, 2, 7, 100), None);
    assert_eq!(claimable_bonus_ids(&bonuses, 2, 25, &[1]), vec![2]);
    assert_eq!(claimable_bonus_ids(&bonuses, 3, 100, &[]), vec![1, 2, 3, 4]);
}

#[test]
fn critter_book_reads_its_stored_state() {
    assert_eq!(book_state(Some((1, 4, "1".to_string()))), (true, 4, true));
    assert_eq!(book_state(Some((0, 2, "0".to_string()))), (false, 2, false));
    assert_eq!(book_state(Some((1, 0, "11".to_string()))), (true, 0, false));
    assert_eq!(book_state(None), (false, 0, false));
}

#[test]
fn fairyland_lists_completed_entries_in_order() {
    assert_eq!(completed_ids(&[(9, 1), (3, 0), (5, 2), (1, 1)]), vec![1, 5, 9]);
    assert_eq!(completed_ids(&[]), Vec::<i32>::new());
}

#[test]
fn tower_compose_unlocks_starting_and_passed_layer_mods() {
    let mods = vec![
        TowerComposeModRow { id: 11, theme_id: 1, is_unlock: 1, level: 2 },
        TowerComposeModRow { id: 12, theme_id: 1, is_unlock: 0, level: 5 },
        TowerComposeModRow { id: 21, theme_id: 2, is_unlock: 1, level: 1 },
        TowerComposeModRow { id: 13, theme_id: 1, is_unlock: 1, level: 3 },
    ];
    let episodes = vec![
        TowerComposeEpisodeRow { theme_id: 1, layer_id: 1, plane: 0, episode_id: 0, unlock_mod_ids: "12|14".to_string() },
        TowerComposeEpisodeRow { theme_id: 1, layer_id: 2, plane: 0, episode_id: 0, unlock_mod_ids: "15|x".to_string() },
        TowerComposeEpisodeRow { theme_id: 1, layer_id: 3, plane: 0, episode_id: 0, unlock_mod_ids: "16".to_string() },
        TowerComposeEpisodeRow { theme_id: 2, layer_id: 1, plane: 0, episode_id: 0, unlock_mod_ids: "22".to_string() },
    ];
    assert_eq!(unlock_mods(&mods, &episodes, 1, 2), vec![11, 13, 12, 14, 15]);
    assert_eq!(unlock_mods(&mods, &episodes, 2, 0), vec![21]);
    assert_eq!(max_selected_mod_level(&mods, &[Some(11), None, Some(12), Some(99)]), 5);
    assert_eq!(max_selected_mod_level(&mods, &[None, Some(99)]), 0);
    assert_eq!(max_selected_mod_level(&mods, &[]), 0);
}

#[test]
fn snapshot_catalog_lists_every_type_highest_first() {
    let slots = snapshot_catalog_slots(&[2, 19, 2]);
    assert_eq!(slots.len(), 17);
    assert_eq!(slots[0], (19, Some(1)));
    assert_eq!(slots[1], (18, None));
    assert_eq!(slots[16], (2, Some(2)));
}

#[test]
fn snapshot_requests_are_checked() {
    assert_eq!(snapshot_query(None), Ok(SnapshotQuery::All));
    assert_eq!(snapshot_query(Some(0)), Ok(SnapshotQuery::All));
    assert_eq!(snapshot_query(Some(17)), Ok(SnapshotQuery::One(17)));
    assert_eq!(snapshot_query(Some(4)), Err(LogicError::InvalidRequest));
    assert_eq!(snapshot_query(Some(-1)), Err(LogicError::InvalidRequest));
    assert!(snapshot_target_valid(2, 1));
    assert!(!snapshot_target_valid(2, 0));
    assert!(!snapshot_target_valid(4, 1));
}

#[test]
fn hero_reward_is_derived_from_the_following_guide_step() {
    let steps = vec![
        GuideStepRow { id: 101, step_id: 84, key_step: 0, action: "101#5".to_string() },
        GuideStepRow { id: 101, step_id: 90, key_step: 0, action: "105#CharacterGetView#3099".to_string() },
        GuideStepRow { id: 101, step_id: 85, key_step: 1, action: "204#3|105#OtherView#1|105#CharacterGetView#3028".to_string() },
        GuideStepRow { id: 102, step_id: 85, key_step: 0, action: "105#CharacterGetView#3001".to_string() },
    ];
    assert_eq!(hero_reward_after_step(&steps, 101, 84), Some(3028));
    assert_eq!(hero_reward_after_step(&steps, i32::MAX, i32::MAX), None);
    assert_eq!(hero_reward_after_step(&steps, 101, 85), Some(3099));
    assert_eq!(hero_reward_after_step(&steps, 101, 90), None);
}

#[test]
fn activity_time_uses_copost_version_window() {
    assert_eq!(
        version_activity_time_range(Some("2026-07-02 5:00:00"), Some("2026-07-23  4:59:59")),
        Some((1_782_968_400_000, 1_784_782_799_000))
    );
    assert_eq!(version_activity_time_range(Some("2026-07-23 4:59:59"), Some("2026-07-02 5:00:00")), None);
    assert_eq!(version_activity_time_range(None, Some("2026-07-02 5:00:00")), None);
}

#[test]
fn act166_lists_the_rows_of_the_chosen_event() {
    let bases = [(1, 11), (2, 21), (1, 12)];
    let trains = [(2, 201), (1, 101)];
    let teaches = [7, 8];
    let talents = [(1, 1001)];
    assert_eq!(default_act166_activity_id(&bases), 2);
    assert_eq!(default_act166_activity_id(&[]), 0);
    let infos = act166_infos(Some(1), &bases, &trains, &teaches, &talents);
    assert_eq!(infos.activity_id, 1);
    assert_eq!(infos.base_ids, vec![11, 12]);
    assert_eq!(infos.train_ids, vec![101]);
    assert_eq!(infos.teach_ids, vec![7, 8]);
    assert_eq!(infos.talent_ids, vec![1001]);
    let default = act166_infos(None, &bases, &trains, &teaches, &talents);
    assert_eq!(default.activity_id, 2);
    assert_eq!(default.base_ids, vec![21]);
    assert_eq!(default.talent_ids, Vec::<i32>::new());
}

fn dice_characters() -> Vec<DiceCharacterRow> {
    vec![
        DiceCharacterRow { id: 1, hp: 30, power: 3, relic_ids: "101#102".to_string(), skilllist: "201".to_string() },
        DiceCharacterRow { id: 2, hp: 40, power: 4, relic_ids: "103".to_string(), skilllist: "202#203".to_string() },
    ]
}

fn dice_level(id: i32, chapter: i32, room: i32, mode: i32, story: bool, reward_select: RewardSelect) -> DiceLevelRow {
    DiceLevelRow { id, chapter, room, mode, story, reward_select }
}

fn hero(id: i32) -> DiceHeroRewardItem {
    DiceHeroRewardItem { kind: Some(DiceHeroRewardType::Hero), id: Some(id) }
}

#[test]
fn dice_hero_chapters_prefer_the_newer_entry_table() {
    assert_eq!(chapter_ids(&[5, 6], &[1]), vec![5, 6]);
    assert_eq!(chapter_ids(&[], &[1, 2]), vec![1, 2]);
}

#[test]
fn dice_hero_next_level_goes_by_room_then_id() {
    let levels = [
        dice_level(30, 1, 2, 0, false, RewardSelect::Offered),
        dice_level(20, 1, 1, 0, true, RewardSelect::Offered),
        dice_level(10, 1, 1, 0, false, RewardSelect::Offered),
        dice_level(5, 2, 0, 0, false, RewardSelect::Offered),
    ];
    assert_eq!(next_dice_hero_level(&levels, 1, &[]).map(|l| l.id), Some(10));
    assert_eq!(next_dice_hero_level(&levels, 1, &[10]).map(|l| l.id), Some(20));
    assert_eq!(next_dice_hero_level(&levels, 1, &[10, 20, 30]).map(|l| l.id), None);
}

#[test]
fn dice_hero_rewards_follow_the_level_kind() {
    let chars = dice_characters();
    let relics = [501, 502, 503];
    let cards = [601, 602];
    let none = dice_level(7, 1, 1, 0, false, RewardSelect::NoReward);
    assert_eq!(dice_hero_reward_items(&none, &chars, &relics, &cards), vec![]);
    let unknown = dice_level(7, 1, 1, 0, false, RewardSelect::Unknown);
    assert_eq!(dice_hero_reward_items(&unknown, &chars, &relics, &cards), vec![]);
    let any_hero = dice_level(7, 1, 1, 2, true, RewardSelect::Offered);
    assert_eq!(dice_hero_reward_items(&any_hero, &chars, &relics, &cards), vec![hero(1), hero(2)]);
    let story = dice_level(7, 5, 1, 0, true, RewardSelect::Offered);
    assert_eq!(dice_hero_reward_items(&story, &chars, &relics, &cards), vec![hero(2)]);
    let early = dice_level(7, 0, 1, 0, true, RewardSelect::Offered);
    assert_eq!(dice_hero_reward_items(&early, &chars, &relics, &cards), vec![hero(1)]);
    let fight = dice_level(7, 1, 1, 0, false, RewardSelect::Offered);
    assert_eq!(
        dice_hero_reward_items(&fight, &chars, &relics, &cards),
        vec![
            DiceHeroRewardItem { kind: Some(DiceHeroRewardType::Relic), id: Some(502) },
            DiceHeroRewardItem { kind: Some(DiceHeroRewardType::SkillCard), id: Some(602) },
        ]
    );
    assert_eq!(dice_hero_reward_items(&fight, &chars, &[], &[]), vec![]);
}

#[test]
fn dice_hero_picks_change_the_run() {
    let chars = dice_characters();
    let mut current = 0;
    let mut relics = vec![102];
    let mut cards = vec![];
    apply_dice_hero_reward_item(&hero(1), &mut current, &mut relics, &mut cards, &chars);
    assert_eq!((current, relics.clone(), cards.clone()), (1, vec![102, 101], vec![201]));
    let relic = DiceHeroRewardItem { kind: Some(DiceHeroRewardType::Relic), id: Some(101) };
    apply_dice_hero_reward_item(&relic, &mut current, &mut relics, &mut cards, &chars);
    assert_eq!(relics, vec![102, 101]);
    let blank = DiceHeroRewardItem { kind: None, id: Some(9) };
    apply_dice_hero_reward_item(&blank, &mut current, &mut relics, &mut cards, &chars);
    assert_eq!((current, relics.clone(), cards.clone()), (1, vec![102, 101], vec![201]));

    let levels = [dice_level(10, 1, 1, 0, true, RewardSelect::Offered), dice_level(11, 1, 2, 0, false, RewardSelect::Offered)];
    let run = DiceHeroRun { current_hero_id: 0, relic_ids: vec![], skill_card_ids: vec![] };
    assert!(dice_hero_get_reward(run.clone(), &[], &[0], 1, "[]", &levels, &chars).is_none());
    let (after, done) = dice_hero_get_reward(run, &[hero(2), hero(1)], &[0, 5, -1], 1, "[10]", &levels, &chars).unwrap();
    assert_eq!(after.current_hero_id, 2);
    assert_eq!(after.relic_ids, vec![103]);
    assert_eq!(after.skill_card_ids, vec![202, 203]);
    assert_eq!(done, Some(11));
}

#[test]
fn dice_hero_story_levels_fill_or_pass() {
    let chars = dice_characters();
    let levels = [
        dice_level(10, 1, 1, 0, true, RewardSelect::NoReward),
        dice_level(11, 1, 2, 0, true, RewardSelect::Offered),
        dice_level(12, 1, 3, 0, false, RewardSelect::Offered),
    ];
    assert_eq!(dice_hero_enter_story(&levels, 1, 10, &chars, &[], &[]), EnterStoryAction::CompleteLevel);
    assert_eq!(dice_hero_enter_story(&levels, 1, 11, &chars, &[], &[]), EnterStoryAction::SaveItems(vec![hero(1)]));
    assert_eq!(dice_hero_enter_story(&levels, 2, 11, &chars, &[], &[]), EnterStoryAction::Nothing);
    assert_eq!(dice_hero_enter_story(&levels, 1, 12, &chars, &[], &[]), EnterStoryAction::Nothing);
    assert_eq!(ensure_dice_hero_reward_panel("[]", 1, &[10], &levels, &chars, &[], &[]), Some(vec![hero(1)]));
    assert_eq!(ensure_dice_hero_reward_panel("[{}]", 1, &[10], &levels, &chars, &[], &[]), None);
    assert_eq!(ensure_dice_hero_reward_panel("[]", 1, &[], &levels, &chars, &[], &[]), None);
    assert_eq!(ensure_dice_hero_reward_panel("[]", 1, &[10, 11], &levels, &chars, &[], &[]), None);
    assert_eq!(refill_stored_reward_panel("[]", 1, "[10]", &levels, &chars, &[], &[]), Some(vec![hero(1)]));
    assert_eq!(refill_stored_reward_panel("[]", 1, "not json", &levels, &chars, &[], &[]), None);
    assert_eq!(refill_stored_reward_panel("[]", 1, "[10]", &levels, &[], &[], &[]), None);
}

#[test]
fn dice_hero_chapter_reads_its_stored_lists() {
    let chars = dice_characters();
    let run = DiceHeroRun::from_stored(2, "[101,102]", "oops");
    assert_eq!((run.current_hero_id, run.relic_ids, run.skill_card_ids), (2, vec![101, 102], vec![]));
    let info = dice_hero_game_info(1, "[10,11]", 2, "", vec![hero(1)], &chars);
    assert_eq!(info.pass_level_ids, vec![10, 11]);
    assert_eq!(info.reward_items, vec![hero(1)]);
    assert_eq!(info.hero_base_info.unwrap().relic_ids, vec![103]);
    assert_eq!(stored_id_list(" [3, -4] "), vec![3, -4]);
    assert_eq!(stored_id_list("[3,"), Vec::<i32>::new());
}

#[test]
fn dice_hero_shows_the_current_or_first_hero() {
    let chars = dice_characters();
    let shown = dice_hero_base_info(2, vec![], &chars).unwrap();
    assert_eq!((shown.id, shown.hp, shown.power, shown.relic_ids), (2, 40, 4, vec![103]));
    let fallback = dice_hero_base_info(9, vec![7], &chars).unwrap();
    assert_eq!((fallback.id, fallback.relic_ids), (1, vec![7]));
    assert_eq!(dice_hero_base_info(1, vec![], &[]), None);
}

#[test]
fn month_card_claim_uses_the_requested_card_or_the_first_held() {
    assert_eq!(month_card_claim_id(Some(7), &[Some(3)]), 7);
    assert_eq!(month_card_claim_id(None, &[Some(3), Some(4)]), 3);
    assert_eq!(month_card_claim_id(None, &[None, Some(4)]), 0);
    assert_eq!(month_card_claim_id(None, &[]), 0);
}

#[test]
fn snapshot_group_keeps_heroes_in_order_and_numbers_equipment() {
    let group = FightGroup {
        hero_list: vec![11, 12],
        sub_hero_list: vec![13],
        cloth_id: None,
        equips: vec![vec![101], vec![], vec![103, 104]],
        activity104_equips: vec![vec![201]],
        assist_boss_id: None,
        params: None,
    };
    let info = snapshot_group(4, group);
    assert_eq!(info.group_id, 4);
    assert_eq!(info.hero_list, vec![11, 12, 13]);
    assert_eq!(info.name, "");
    assert_eq!(info.cloth_id, 1);
    assert_eq!(info.equips.len(), 3);
    assert_eq!(info.equips[2].index, 2);
    assert_eq!(info.equips[2].equip_uids, vec![103, 104]);
    assert_eq!(info.activity104_equips[0].index, 0);
    assert_eq!(info.assist_boss_id, 0);
    assert_eq!(info.params, "");

    let chosen = snapshot_group(
        2,
        FightGroup {
            hero_list: vec![],
            sub_hero_list: vec![],
            cloth_id: Some(5),
            equips: vec![],
            activity104_equips: vec![],
            assist_boss_id: Some(9),
            params: Some("x".to_string()),
        },
    );
    assert_eq!((chosen.cloth_id, chosen.assist_boss_id, chosen.params.as_str()), (5, 9, "x"));
}

#[test]
fn common_snapshot_order_falls_back_to_the_groups() {
    assert_eq!(common_sort_sub_ids(Some(&[3, 1]), &[1, 2, 3]), vec![3, 1]);
    assert_eq!(common_sort_sub_ids(Some(&[]), &[1, 2, 3]), vec![1, 2, 3]);
    assert_eq!(common_sort_sub_ids(None, &[4]), vec![4]);
}
