use veritas::attack::AttackType;
use veritas::battle::{get_battle_mode, BattleContext, BattleError, BattleMode, BattleState, EventOutcome};
use veritas::events::{
    Event, OnBattleBeginEvent, OnDamageEvent, OnEntityDefeatedEvent, OnInitializeEnemyEvent,
    OnSetLineupEvent, OnStatChangeEvent, OnTurnBeginEvent, OnUpdateCycleEvent,
    OnUpdateTeamFormationEvent, OnUpdateWaveEvent, OnUseSkillEvent,
};
use veritas::types::{Avatar, BattleStats, Enemy, Entity, Property, Skill, Team};

fn plus(a: f64, b: f64) -> f64 {
    a + b
}

fn same(a: f64, b: f64) -> bool {
    a == b
}

fn apply(ctx: &mut BattleContext<f64>, event: Result<Event<f64>, String>) -> Result<EventOutcome<f64>, BattleError> {
    ctx.handle_event(event, 0.0, &plus, &same)
}

fn lineup() -> Vec<Avatar> {
    vec![
        Avatar { id: 1001, name: "March 7th".to_string() },
        Avatar { id: 1002, name: "Dan Heng".to_string() },
    ]
}

fn player(uid: u32) -> Entity {
    Entity { uid, team: Team::Player }
}

fn started() -> BattleContext<f64> {
    let mut ctx = BattleContext::new(0.0);
    let r = apply(&mut ctx, Ok(Event::OnSetBattleLineup(OnSetLineupEvent { avatars: lineup() })));
    assert!(matches!(r, Ok(EventOutcome::Applied)));
    ctx
}

fn damage(uid: u32, amount: f64, overkill: f64, kind: &str) -> Result<Event<f64>, String> {
    Ok(Event::OnDamage(OnDamageEvent {
        attacker: player(uid),
        damage: amount,
        overkill_damage: overkill,
        damage_type: kind.to_string(),
    }))
}

#[test]
fn battle_mode_follows_stage_ranges() {
    assert_eq!(get_battle_mode(30010121), BattleMode::MOC);
    assert_eq!(get_battle_mode(30010122), BattleMode::MOC);
    assert_eq!(get_battle_mode(30010141), BattleMode::PF);
    assert_eq!(get_battle_mode(30010142), BattleMode::PF);
    assert_eq!(get_battle_mode(30010150), BattleMode::Other);
    assert_eq!(get_battle_mode(30500021), BattleMode::Other);
    assert_eq!(get_battle_mode(420101), BattleMode::AS);
    assert_eq!(get_battle_mode(420999), BattleMode::AS);
    assert_eq!(get_battle_mode(421000), BattleMode::Other);
    assert_eq!(get_battle_mode(0), BattleMode::Other);
}

#[test]
fn new_tracker_is_empty() {
    let ctx: BattleContext<f64> = BattleContext::new(0.0);
    assert!(ctx.state.is_none());
    assert!(ctx.avatar_lineup.is_empty());
    assert_eq!(ctx.total_damage, 0.0);
    assert_eq!(ctx.turn_count, 0);
    assert_eq!(ctx.battle_mode, BattleMode::Other);
}

#[test]
fn new_tracker_starts_with_an_empty_turn() {
    let ctx: BattleContext<f64> = BattleContext::new(0.0);
    assert_eq!(ctx.current_turn_info.action_value, 0.0);
    assert_eq!(ctx.current_turn_info.wave, 0);
    assert_eq!(ctx.current_turn_info.cycle, 0);
    assert_eq!(ctx.current_turn_info.total_damage, 0.0);
    assert!(ctx.current_turn_info.avatars_turn_damage.is_empty());
    assert!(ctx.real_time_damages.is_empty());
    assert!(ctx.damage_by_category.is_empty());
    assert!(ctx.battle_enemies.is_empty());
}

#[test]
fn lineup_starts_a_fresh_battle() {
    let ctx = started();
    assert_eq!(ctx.state, Some(BattleState::Started));
    assert_eq!(ctx.avatar_lineup.len(), 2);
    assert_eq!(ctx.real_time_damages, vec![0.0, 0.0]);
    assert_eq!(ctx.real_time_overkill_damages, vec![0.0, 0.0]);
    assert_eq!(ctx.current_turn_info.avatars_turn_damage, vec![0.0, 0.0]);
    assert_eq!(ctx.battle_avatars.len(), 2);
    assert_eq!(ctx.battle_avatars[1].entity.uid, 1002);
    assert_eq!(ctx.battle_avatars[1].entity.team, Team::Player);
    assert_eq!(ctx.damage_by_category.len(), 2);
    assert_eq!(ctx.find_lineup_index_by_avatar_id(1002), Some(1));
    assert_eq!(ctx.find_lineup_index_by_avatar_id(5), None);
}

#[test]
fn battle_begin_sets_waves_and_mode() {
    let mut ctx = started();
    let r = apply(&mut ctx, Ok(Event::OnBattleBegin(OnBattleBeginEvent { max_waves: 3, max_cycles: 30, stage_id: 30010121 })));
    assert!(matches!(r, Ok(EventOutcome::Applied)));
    assert_eq!(ctx.max_waves, 3);
    assert_eq!(ctx.battle_mode, BattleMode::MOC);
    assert_eq!(ctx.stage_id, 0);
}

#[test]
fn wave_in_moc_keeps_action_value() {
    let mut ctx = started();
    apply(&mut ctx, Ok(Event::OnBattleBegin(OnBattleBeginEvent { max_waves: 2, max_cycles: 30, stage_id: 30010121 }))).unwrap();
    apply(&mut ctx, Ok(Event::OnTurnBegin(OnTurnBeginEvent { action_value: 120.0, turn_owner: None }))).unwrap();
    apply(&mut ctx, Ok(Event::OnUpdateWave(OnUpdateWaveEvent { wave: 2 }))).unwrap();
    assert_eq!(ctx.wave, 2);
    assert_eq!(ctx.last_wave_action_value, 120.0);
}

#[test]
fn wave_outside_moc_leaves_wave_action_value() {
    let mut ctx = started();
    apply(&mut ctx, Ok(Event::OnTurnBegin(OnTurnBeginEvent { action_value: 120.0, turn_owner: None }))).unwrap();
    apply(&mut ctx, Ok(Event::OnUpdateWave(OnUpdateWaveEvent { wave: 2 }))).unwrap();
    assert_eq!(ctx.wave, 2);
    assert_eq!(ctx.last_wave_action_value, 0.0);
}

#[test]
fn repeated_cycle_is_ignored() {
    let mut ctx = started();
    let r = apply(&mut ctx, Ok(Event::OnUpdateCycle(OnUpdateCycleEvent { cycle: 2 })));
    assert!(matches!(r, Ok(EventOutcome::Applied)));
    assert_eq!(ctx.cycle, 2);
    assert_eq!(ctx.max_cycle, 2);
    let r = apply(&mut ctx, Ok(Event::OnUpdateCycle(OnUpdateCycleEvent { cycle: 2 })));
    assert!(matches!(r, Ok(EventOutcome::Ignored)));
    assert_eq!(ctx.cycle, 2);
    let r = apply(&mut ctx, Ok(Event::OnUpdateCycle(OnUpdateCycleEvent { cycle: 1 })));
    assert!(matches!(r, Ok(EventOutcome::Applied)));
    assert_eq!(ctx.cycle, 1);
    assert_eq!(ctx.max_cycle, 2);
}

#[test]
fn turn_begin_records_owner() {
    let mut ctx = started();
    apply(&mut ctx, Ok(Event::OnUpdateCycle(OnUpdateCycleEvent { cycle: 1 }))).unwrap();
    apply(&mut ctx, Ok(Event::OnTurnBegin(OnTurnBeginEvent { action_value: 75.5, turn_owner: Some(player(1001)) }))).unwrap();
    assert_eq!(ctx.action_value, 75.5);
    assert_eq!(ctx.current_turn_info.action_value, 75.5);
    assert_eq!(ctx.current_turn_battle_id, 1);
    assert_eq!(ctx.entity_turn_history.len(), 1);
    let (owner, av, wave, cycle) = ctx.entity_turn_history[0];
    assert_eq!(owner.uid, 1001);
    assert_eq!(av, 75.5);
    assert_eq!(wave, 0);
    assert_eq!(cycle, 1);
    apply(&mut ctx, Ok(Event::OnTurnBegin(OnTurnBeginEvent { action_value: 80.0, turn_owner: None }))).unwrap();
    assert_eq!(ctx.current_turn_battle_id, 2);
    assert_eq!(ctx.entity_turn_history.len(), 1);
}

#[test]
fn damage_is_credited_everywhere() {
    let mut ctx = started();
    apply(&mut ctx, Ok(Event::OnTurnBegin(OnTurnBeginEvent { action_value: 0.0, turn_owner: Some(player(1001)) }))).unwrap();
    let skill = Skill { name: "Frigid Cold Arrow".to_string(), skill_type: "Basic ATK".to_string(), skill_config_id: 100101 };
    apply(&mut ctx, Ok(Event::OnUseSkill(OnUseSkillEvent { avatar: player(1001), skill }))).unwrap();
    assert_eq!(ctx.skill_history.len(), 1);
    assert_eq!(ctx.skill_history[0].turn_battle_id, 1);
    assert_eq!(ctx.skill_history[0].total_damage, 0.0);

    let r = apply(&mut ctx, damage(1001, 100.0, 10.0, "Normal"));
    match r {
        Ok(EventOutcome::Damage(rec)) => {
            assert_eq!(rec.lineup_index, 0);
            assert_eq!(rec.attack_type, AttackType::Normal);
            assert_eq!(rec.label, "Basic");
        },
        _ => panic!("damage was not credited"),
    }
    let r = apply(&mut ctx, damage(1001, 25.0, 0.0, "Insert"));
    assert!(matches!(r, Ok(EventOutcome::Damage(_))));
    assert_eq!(ctx.real_time_damages, vec![125.0, 0.0]);
    assert_eq!(ctx.real_time_overkill_damages, vec![10.0, 0.0]);
    assert_eq!(ctx.current_turn_info.avatars_turn_damage, vec![125.0, 0.0]);
    assert_eq!(ctx.total_damage, 125.0);
    assert_eq!(ctx.damage_by_category[0].get(&AttackType::Normal.rank()), Some(&100.0));
    assert_eq!(ctx.damage_by_category[0].get(&AttackType::Insert.rank()), Some(&25.0));
    assert_eq!(ctx.damage_by_category[0].len(), 2);
    assert_eq!(ctx.skill_history[0].total_damage, 125.0);
    assert_eq!(ctx.skill_history[0].damage_detail.len(), 2);
    assert_eq!(ctx.skill_history[0].damage_detail[0], (100.0, 10.0, "Basic".to_string()));
    assert_eq!(ctx.skill_history[0].damage_detail[1], (25.0, 0.0, "Follow-Up".to_string()));
}

#[test]
fn damage_to_the_same_category_accumulates() {
    let mut ctx = started();
    apply(&mut ctx, damage(1002, 10.0, 0.0, "DOT")).unwrap();
    apply(&mut ctx, damage(1002, 5.0, 0.0, "DOT")).unwrap();
    apply(&mut ctx, damage(1002, 1.0, 0.0, "NotAType")).unwrap();
    let listed: Vec<(u32, f64)> = ctx.damage_by_category[1].iter().map(|(k, v)| (*k, *v)).collect();
    assert_eq!(listed, vec![(AttackType::Unknown.rank(), 1.0), (AttackType::DOT.rank(), 15.0)]);
    assert_eq!(ctx.total_damage, 16.0);
}

#[test]
fn damage_without_skill_touches_no_skill() {
    let mut ctx = started();
    let skill = Skill { name: "Ice".to_string(), skill_type: "Skill".to_string(), skill_config_id: 1 };
    apply(&mut ctx, Ok(Event::OnUseSkill(OnUseSkillEvent { avatar: player(1001), skill }))).unwrap();
    apply(&mut ctx, damage(1002, 40.0, 0.0, "BPSkill")).unwrap();
    assert_eq!(ctx.skill_history[0].total_damage, 0.0);
    assert!(ctx.skill_history[0].damage_detail.is_empty());
    assert_eq!(ctx.real_time_damages, vec![0.0, 40.0]);
}

#[test]
fn damage_from_outside_the_lineup_is_refused() {
    let mut ctx = started();
    apply(&mut ctx, damage(1001, 5.0, 0.0, "Normal")).unwrap();
    let r = apply(&mut ctx, damage(9999, 50.0, 0.0, "Normal"));
    assert!(matches!(r, Err(BattleError::AvatarNotInLineup(9999))));
    assert_eq!(ctx.total_damage, 5.0);
    assert_eq!(ctx.real_time_damages, vec![5.0, 0.0]);
}

#[test]
fn error_events_are_reported_back() {
    let mut ctx = started();
    let r = apply(&mut ctx, Err("hook failed".to_string()));
    match r {
        Err(BattleError::Event(msg)) => assert_eq!(msg, "hook failed"),
        _ => panic!("error event was not reported"),
    }
    assert_eq!(ctx.avatar_lineup.len(), 2);
}

#[test]
fn turn_end_records_and_merges_same_action_value() {
    let mut ctx = started();
    apply(&mut ctx, Ok(Event::OnUpdateWave(OnUpdateWaveEvent { wave: 1 }))).unwrap();
    apply(&mut ctx, Ok(Event::OnUpdateCycle(OnUpdateCycleEvent { cycle: 3 }))).unwrap();
    apply(&mut ctx, Ok(Event::OnTurnBegin(OnTurnBeginEvent { action_value: 50.0, turn_owner: Some(player(1001)) }))).unwrap();
    apply(&mut ctx, damage(1001, 100.0, 0.0, "Normal")).unwrap();
    let r = apply(&mut ctx, Ok(Event::OnTurnEnd));
    match r {
        Ok(EventOutcome::TurnEnded(turn, merged)) => {
            assert!(!merged);
            assert_eq!(turn.total_damage, 100.0);
            assert_eq!(turn.avatars_turn_damage, vec![100.0, 0.0]);
            assert_eq!(turn.wave, 1);
            assert_eq!(turn.cycle, 3);
            assert_eq!(turn.action_value, 50.0);
        },
        _ => panic!("turn did not end"),
    }
    assert_eq!(ctx.turn_history.len(), 1);
    assert_eq!(ctx.av_history.len(), 1);
    assert_eq!(ctx.turn_count, 1);
    assert_eq!(ctx.current_turn_info.avatars_turn_damage, vec![0.0, 0.0]);

    apply(&mut ctx, Ok(Event::OnTurnBegin(OnTurnBeginEvent { action_value: 50.0, turn_owner: Some(player(1002)) }))).unwrap();
    apply(&mut ctx, damage(1002, 30.0, 0.0, "Normal")).unwrap();
    let r = apply(&mut ctx, Ok(Event::OnTurnEnd));
    match r {
        Ok(EventOutcome::TurnEnded(turn, merged)) => {
            assert!(merged);
            assert_eq!(turn.total_damage, 30.0);
        },
        _ => panic!("turn did not end"),
    }
    assert_eq!(ctx.turn_history.len(), 2);
    assert_eq!(ctx.av_history.len(), 1);
    assert_eq!(ctx.av_history[0].avatars_turn_damage, vec![100.0, 30.0]);
    assert_eq!(ctx.av_history[0].total_damage, 100.0);

    apply(&mut ctx, Ok(Event::OnTurnBegin(OnTurnBeginEvent { action_value: 90.0, turn_owner: Some(player(1001)) }))).unwrap();
    let r = apply(&mut ctx, Ok(Event::OnTurnEnd));
    assert!(matches!(r, Ok(EventOutcome::TurnEnded(_, false))));
    assert_eq!(ctx.av_history.len(), 2);
    assert_eq!(ctx.turn_count, 3);
}

#[test]
fn stat_changes_reach_the_right_holder() {
    let mut ctx = started();
    let mut base = BattleStats::new();
    base.set_value("MaxHP", 1000.0);
    apply(&mut ctx, Ok(Event::OnInitializeEnemy(OnInitializeEnemyEvent {
        enemy: Enemy { id: 3001, uid: 77, name: "Slime".to_string(), base_stats: base },
    }))).unwrap();
    assert_eq!(ctx.enemies.len(), 1);
    assert_eq!(ctx.battle_enemies.len(), 1);
    assert_eq!(ctx.battle_enemies[0].entity.uid, 77);
    assert_eq!(ctx.battle_enemies[0].entity.team, Team::Enemy);
    assert_eq!(ctx.battle_enemies[0].properties.get_value("MaxHP"), Some(1000.0));

    apply(&mut ctx, Ok(Event::OnStatChange(OnStatChangeEvent {
        entity: player(1002),
        property: Property { value: 500.0, kind: "CurrentHP".to_string() },
    }))).unwrap();
    assert_eq!(ctx.battle_avatars[1].properties.get_value("CurrentHP"), Some(500.0));
    assert_eq!(ctx.battle_avatars[0].properties.get_value("CurrentHP"), None);

    apply(&mut ctx, Ok(Event::OnStatChange(OnStatChangeEvent {
        entity: Entity { uid: 77, team: Team::Enemy },
        property: Property { value: 640.0, kind: "CurrentHP".to_string() },
    }))).unwrap();
    assert_eq!(ctx.battle_enemies[0].properties.get_value("CurrentHP"), Some(640.0));
    assert_eq!(ctx.enemies[0].base_stats.get_value("CurrentHP"), None);

    apply(&mut ctx, Ok(Event::OnStatChange(OnStatChangeEvent {
        entity: Entity { uid: 78, team: Team::Enemy },
        property: Property { value: 1.0, kind: "Speed".to_string() },
    }))).unwrap();
    assert_eq!(ctx.battle_enemies[0].properties.get_value("Speed"), None);
}

#[test]
fn enemy_formation_is_kept_player_formation_is_not() {
    let mut ctx = started();
    let enemies = vec![Entity { uid: 77, team: Team::Enemy }, Entity { uid: 78, team: Team::Enemy }];
    apply(&mut ctx, Ok(Event::OnUpdateTeamFormation(OnUpdateTeamFormationEvent { entities: enemies, team: Team::Enemy }))).unwrap();
    assert_eq!(ctx.enemy_lineup.len(), 2);
    apply(&mut ctx, Ok(Event::OnUpdateTeamFormation(OnUpdateTeamFormationEvent { entities: vec![player(1)], team: Team::Player }))).unwrap();
    assert_eq!(ctx.enemy_lineup.len(), 2);
    assert_eq!(ctx.enemy_lineup[1].uid, 78);
}

#[test]
fn defeat_and_end_of_battle() {
    let mut ctx = started();
    apply(&mut ctx, damage(1001, 12.0, 0.0, "Ultra")).unwrap();
    let r = apply(&mut ctx, Ok(Event::OnEntityDefeated(OnEntityDefeatedEvent {
        killer: player(1001),
        entity_defeated: Entity { uid: 77, team: Team::Enemy },
    })));
    assert!(matches!(r, Ok(EventOutcome::Applied)));
    assert_eq!(ctx.total_damage, 12.0);
    let r = apply(&mut ctx, Ok(Event::OnBattleEnd));
    assert!(matches!(r, Ok(EventOutcome::Applied)));
    assert_eq!(ctx.state, Some(BattleState::Ended));
    assert_eq!(ctx.total_damage, 12.0);
}

#[test]
fn new_lineup_clears_previous_battle() {
    let mut ctx = started();
    apply(&mut ctx, Ok(Event::OnUpdateCycle(OnUpdateCycleEvent { cycle: 4 }))).unwrap();
    apply(&mut ctx, damage(1001, 12.0, 0.0, "Ultra")).unwrap();
    apply(&mut ctx, Ok(Event::OnTurnEnd)).unwrap();
    let r = apply(&mut ctx, Ok(Event::OnSetBattleLineup(OnSetLineupEvent {
        avatars: vec![Avatar { id: 1005, name: "Kafka".to_string() }],
    })));
    assert!(matches!(r, Ok(EventOutcome::Applied)));
    assert_eq!(ctx.total_damage, 0.0);
    assert_eq!(ctx.max_cycle, 0);
    assert_eq!(ctx.cycle, 0);
    assert_eq!(ctx.turn_count, 0);
    assert!(ctx.turn_history.is_empty());
    assert!(ctx.av_history.is_empty());
    assert_eq!(ctx.real_time_damages, vec![0.0]);
    assert_eq!(ctx.avatar_lineup[0].id, 1005);
}

#[test]
fn breakdown_order_does_not_depend_on_crediting_order() {
    use_points_in_both_orders();
}

fn use_points_in_both_orders() {
    let positive = |x: f64| x > 0.0;
    let mut a = started();
    apply(&mut a, damage(1001, 2.0, 0.0, "MazeNormal")).unwrap();
    apply(&mut a, damage(1001, 7.0, 0.0, "Unknown")).unwrap();
    let mut b = started();
    apply(&mut b, damage(1001, 7.0, 0.0, "Unknown")).unwrap();
    apply(&mut b, damage(1001, 2.0, 0.0, "MazeNormal")).unwrap();
    let pa = veritas::breakdown::collect_damage_category_points(&a.damage_by_category[0], &positive);
    let pb = veritas::breakdown::collect_damage_category_points(&b.damage_by_category[0], &positive);
    let kinds_a: Vec<AttackType> = pa.iter().map(|p| p.0).collect();
    let kinds_b: Vec<AttackType> = pb.iter().map(|p| p.0).collect();
    assert_eq!(kinds_a, vec![AttackType::Unknown, AttackType::MazeNormal]);
    assert_eq!(kinds_a, kinds_b);
}

fn assert_tallies_agree(ctx: &BattleContext<f64>) {
    let n = ctx.avatar_lineup.len();
    assert_eq!(ctx.real_time_damages.len(), n);
    assert_eq!(ctx.real_time_overkill_damages.len(), n);
    assert_eq!(ctx.damage_by_category.len(), n);
    assert_eq!(ctx.battle_avatars.len(), n);
    assert_eq!(ctx.current_turn_info.avatars_turn_damage.len(), n);
    assert_eq!(ctx.total_damage, ctx.real_time_damages.iter().sum::<f64>());
    for i in 0..n {
        let by_type: f64 = ctx.damage_by_category[i].values().sum();
        assert_eq!(ctx.real_time_damages[i], by_type);
        let by_turn: f64 = ctx.turn_history.iter().map(|t| t.avatars_turn_damage[i]).sum::<f64>()
            + ctx.current_turn_info.avatars_turn_damage[i];
        assert_eq!(ctx.real_time_damages[i], by_turn);
    }
}

#[test]
fn damage_tallies_agree_after_every_event() {
    let mut ctx = started();
    assert_tallies_agree(&ctx);
    let events: Vec<Result<Event<f64>, String>> = vec![
        Ok(Event::OnTurnBegin(OnTurnBeginEvent { action_value: 10.0, turn_owner: Some(player(1001)) })),
        damage(1001, 100.0, 0.0, "Normal"),
        damage(1002, 40.0, 0.0, "DOT"),
        damage(1001, 25.0, 5.0, "Insert"),
        Ok(Event::OnTurnEnd),
        damage(1002, 7.0, 0.0, "DOT"),
        damage(4242, 9.0, 0.0, "DOT"),
        Ok(Event::OnUpdateCycle(OnUpdateCycleEvent { cycle: 1 })),
        Ok(Event::OnTurnEnd),
        damage(1001, 3.0, 0.0, "Unknown"),
        Err("lost".to_string()),
    ];
    for event in events {
        let _ = apply(&mut ctx, event);
        assert_tallies_agree(&ctx);
    }
    assert_eq!(ctx.total_damage, 175.0);
}

#[test]
fn battle_state_is_handed_out_once() {
    let mut ctx = started();
    apply(&mut ctx, damage(1001, 30.0, 0.0, "Normal")).unwrap();
    assert_eq!(ctx.take_state(), Some(BattleState::Started));
    assert_eq!(ctx.take_state(), None);
    assert_eq!(ctx.total_damage, 30.0);
    assert_eq!(ctx.avatar_lineup.len(), 2);
    apply(&mut ctx, Ok(Event::OnBattleEnd)).unwrap();
    assert_eq!(ctx.take_state(), Some(BattleState::Ended));
    assert_eq!(ctx.state, None);
}
