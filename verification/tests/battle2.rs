use logic::battle::{
    activation_multiplication, battle_metadata, ensure_can_start, fight_reason, prepare_from_built, prepare_ids, restore_checks,
    restore_fight, FightKind, RestoredFight, RoundRecords, TowerContext,
};
use logic::error::LogicError;

#[derive(Clone, Copy, Debug, Default, PartialEq)]
struct ClothSkillOper {
    skill_id: Option<i32>,
}

#[derive(Clone, Debug, Default, PartialEq)]
struct BeginRound {
    opers: Vec<u8>,
}

#[test]
fn replay_record_keeps_cloth_and_card_operations_in_the_same_round() {
    let mut active: RoundRecords<BeginRound, ClothSkillOper> = RoundRecords::new();
    active.push_cloth_skill_oper(ClothSkillOper { skill_id: Some(12) });

    active.record_round(BeginRound { opers: vec![0] });

    let records = &active.rounds;
    assert_eq!(records.len(), 1);
    assert_eq!(records[0].cloth_skill_opers[0].skill_id, Some(12));
    assert_eq!(records[0].request.opers.len(), 1);
    assert!(active.pending_cloth_skill_opers.is_empty());
}

#[test]
fn later_rounds_start_without_earlier_skills() {
    let mut active: RoundRecords<BeginRound, ClothSkillOper> = RoundRecords::new();
    active.push_cloth_skill_oper(ClothSkillOper { skill_id: Some(1) });
    active.record_round(BeginRound::default());
    active.record_round(BeginRound { opers: vec![1, 2] });
    assert_eq!(active.rounds.len(), 2);
    assert_eq!(active.rounds[0].cloth_skill_opers.len(), 1);
    assert!(active.rounds[1].cloth_skill_opers.is_empty());
}

#[test]
fn fights_start_and_activate_once() {
    assert_eq!(ensure_can_start(false, false), Ok(()));
    assert_eq!(ensure_can_start(true, false), Err(LogicError::InvalidRequest));
    assert_eq!(ensure_can_start(false, true), Err(LogicError::InvalidRequest));
    assert_eq!(activation_multiplication(None, None), Ok(1));
    assert_eq!(activation_multiplication(None, Some(0)), Ok(1));
    assert_eq!(activation_multiplication(None, Some(3)), Ok(3));
    assert_eq!(activation_multiplication(Some(7), Some(3)), Err(LogicError::InvalidRequest));
}

#[test]
fn restore_checks_name_what_the_checkpoint_lacks() {
    assert_eq!(
        restore_checks(None, 10002, true),
        Err(LogicError::InvalidBattleCheckpoint("start request has no episode".to_string()))
    );
    assert_eq!(
        restore_checks(Some(10001), 10002, true),
        Err(LogicError::InvalidBattleCheckpoint("checkpoint episode does not match fight instance".to_string()))
    );
    assert_eq!(
        restore_checks(Some(10002), 10002, false),
        Err(LogicError::InvalidBattleCheckpoint("start request has no fight group".to_string()))
    );
    assert_eq!(restore_checks(Some(10002), 10002, true), Ok(10002));
}

#[test]
fn reconnect_reason_names_the_episode() {
    assert_eq!(fight_reason(Some(true), 10002), (FightKind::DungeonRecord, "10002".to_string()));
    assert_eq!(fight_reason(None, -5), (FightKind::Dungeon, "-5".to_string()));
}

#[test]
fn prepared_fights_keep_their_ids_and_team() {
    assert_eq!(prepare_ids(Some(10002), Some(301), &[], Some(1002)), Ok((10002, 301, 1002)));
    assert_eq!(prepare_ids(Some(10002), None, &[(10002, 7)], Some(1002)), Ok((10002, 7, 1002)));
    assert_eq!(prepare_ids(Some(10002), None, &[], Some(1002)), Ok((10002, 0, 1002)));
    assert_eq!(prepare_ids(None, None, &[], Some(1002)), Err(LogicError::InvalidRequest));
    assert_eq!(prepare_ids(Some(1), None, &[], Some(0)), Err(LogicError::InvalidRequest));
    let tower = TowerContext { tower_type: 1, tower_id: 2, layer_id: 3, difficulty: 4, talent_plan_id: 5 };
    let levels = [Some(10), None, Some(20)];
    let meta = battle_metadata(301, 10002, 1002, Some(true), true, Some(&levels), Some(9), Some(tower), Some(2), 7).unwrap();
    assert_eq!((meta.team_level, meta.assist_boss_level, meta.is_replay, meta.seed), (Some(15), Some(9), true, 7));
    assert_eq!(meta.tower, Some(tower));
    assert_eq!(battle_metadata(301, 10002, 1002, None, false, None, None, None, None, 7), Err(LogicError::InvalidRequest));
    let prepared = prepare_from_built(Some(10002), Some(301), &[], Some(1002), None, true, None, None, None, None).unwrap();
    assert_eq!((prepared.episode_id, prepared.chapter_id, prepared.battle_id, prepared.is_replay), (10002, 301, 1002, false));
}

#[test]
fn restored_fight_keeps_its_record_and_checkpoint() {
    let tower = TowerContext { tower_type: 1, tower_id: 2, layer_id: 3, difficulty: 4, talent_plan_id: 5 };
    let restored = restore_fight(77, 10002, 9, Some(10002), 3, true, Some(true), Some(tower), 123456789).unwrap();
    assert_eq!(
        restored,
        RestoredFight {
            fight_id: 77,
            episode_id: 10002,
            chapter_id: 3,
            battle_id: 9,
            use_record: true,
            tower: Some(tower),
            seed: 123456789,
        }
    );
    assert!(!restore_fight(77, 10002, 9, Some(10002), 3, true, None, None, 1).unwrap().use_record);
    assert_eq!(
        restore_fight(77, 10002, 9, Some(10003), 3, true, None, None, 1),
        Err(LogicError::InvalidBattleCheckpoint("checkpoint episode does not match fight instance".to_string()))
    );
    assert_eq!(
        restore_fight(77, 10002, 9, Some(10002), 3, false, None, None, 1),
        Err(LogicError::InvalidBattleCheckpoint("start request has no fight group".to_string()))
    );
}
