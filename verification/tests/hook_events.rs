use veritas::events::Event;
use veritas::hooks::{
    battle_begin_event, damage_event, defeat_event, enemy_event, landed_hit_event, lineup_event,
    skill_use_event, stat_change_value, stat_event, team_formation_event, turn_begin_event,
    wave_event, EntityKind, HitArith, PendingHit, SkillHook, StatHook,
};
use veritas::types::{Avatar, Entity, Property, Skill, Team};

fn skill(name: &str) -> Skill {
    Skill { name: name.to_string(), skill_type: "Skill".to_string(), skill_config_id: 3 }
}

fn greater(a: f64, b: f64) -> bool {
    a > b
}

fn at_most(a: f64, b: f64) -> bool {
    a <= b
}

fn minus(a: f64, b: f64) -> f64 {
    a - b
}

fn larger(a: f64, b: f64) -> f64 {
    a.max(b)
}

fn tenfold(x: f64) -> f64 {
    x * 10.0
}

type Hits = HitArith<f64, fn(f64, f64) -> bool, fn(f64, f64) -> f64>;

fn hits() -> Hits {
    HitArith {
        zero: 0.0,
        greater: greater as fn(f64, f64) -> bool,
        at_most: at_most as fn(f64, f64) -> bool,
        minus: minus as fn(f64, f64) -> f64,
        max: larger as fn(f64, f64) -> f64,
    }
}

fn err_text(r: Option<Result<Event<f64>, String>>) -> String {
    match r {
        Some(Err(e)) => e,
        _ => panic!("expected an error"),
    }
}

#[test]
fn skill_use_by_avatar_is_reported() {
    let r: Option<Result<Event<f64>, String>> =
        skill_use_event(SkillHook::UseSkill, true, true, EntityKind::Avatar, Some(Ok(1001)), Ok(skill("Strike")));
    match r {
        Some(Ok(Event::OnUseSkill(e))) => {
            assert_eq!(e.avatar.uid, 1001);
            assert_eq!(e.avatar.team, Team::Player);
            assert_eq!(e.skill.name, "Strike");
        },
        _ => panic!("skill use was not reported"),
    }
}

#[test]
fn skill_use_outside_player_side_is_silent() {
    let r: Option<Result<Event<f64>, String>> =
        skill_use_event(SkillHook::UseSkill, false, true, EntityKind::Avatar, Some(Ok(1)), Ok(skill("a")));
    assert!(r.is_none());
    let r: Option<Result<Event<f64>, String>> =
        skill_use_event(SkillHook::Combo, true, false, EntityKind::Avatar, Some(Ok(1)), Ok(skill("a")));
    assert!(r.is_none());
    let r: Option<Result<Event<f64>, String>> =
        skill_use_event(SkillHook::UseSkill, true, true, EntityKind::Monster, Some(Ok(1)), Ok(skill("a")));
    assert!(r.is_none());
}

#[test]
fn skill_use_with_empty_name_is_dropped_for_avatars_only() {
    let r: Option<Result<Event<f64>, String>> =
        skill_use_event(SkillHook::UseSkill, true, true, EntityKind::Avatar, Some(Ok(1)), Ok(skill("")));
    assert!(r.is_none());
    let r: Option<Result<Event<f64>, String>> =
        skill_use_event(SkillHook::UseSkill, true, true, EntityKind::Servant, Some(Ok(1)), Ok(skill("")));
    assert!(matches!(r, Some(Ok(Event::OnUseSkill(_)))));
}

#[test]
fn skill_use_errors_follow_lookup_order() {
    let r: Option<Result<Event<f64>, String>> = skill_use_event(
        SkillHook::UseSkill, true, true, EntityKind::Avatar, Some(Err("no avatar".to_string())), Err("no skill".to_string()));
    assert_eq!(err_text(r), "on_use_skill Avatar Event Error: no avatar");
    let r: Option<Result<Event<f64>, String>> = skill_use_event(
        SkillHook::UseSkill, true, true, EntityKind::Avatar, Some(Ok(1)), Err("no skill".to_string()));
    assert_eq!(err_text(r), "on_use_skill Avatar Skill Event Error: no skill");
    let r: Option<Result<Event<f64>, String>> = skill_use_event(
        SkillHook::Combo, true, true, EntityKind::Avatar, Some(Err("no avatar".to_string())), Err("no skill".to_string()));
    assert_eq!(err_text(r), "on_combo Avatar Combo Skill Event Error: no skill");
    let r: Option<Result<Event<f64>, String>> = skill_use_event(
        SkillHook::Combo, true, true, EntityKind::Servant, Some(Err("gone".to_string())), Ok(skill("s")));
    assert_eq!(err_text(r), "on_combo Servant Event Error: gone");
    let r: Option<Result<Event<f64>, String>> = skill_use_event(
        SkillHook::UseSkill, true, true, EntityKind::Servant, Some(Err("gone".to_string())), Err("x".to_string()));
    assert_eq!(err_text(r), "on_use_skill Servant Event Error: gone");
    let r: Option<Result<Event<f64>, String>> = skill_use_event(
        SkillHook::UseSkill, true, true, EntityKind::BattleEvent, Some(Err("a".to_string())), Err("b".to_string()));
    assert_eq!(err_text(r), "on_use_skill Summon Skill Event Error: b");
    let r: Option<Result<Event<f64>, String>> = skill_use_event(
        SkillHook::Combo, true, true, EntityKind::BattleEvent, Some(Err("a".to_string())), Ok(skill("s")));
    assert_eq!(err_text(r), "on_combo Summon Event Error: a");
}

#[test]
fn battle_event_without_caster_is_silent() {
    let r: Option<Result<Event<f64>, String>> =
        skill_use_event(SkillHook::UseSkill, true, true, EntityKind::BattleEvent, None, Err("b".to_string()));
    assert!(r.is_none());
}

#[test]
fn damage_hook_reports_hits_with_overkill() {
    let r = damage_event(&hits(), true, EntityKind::Avatar, Ok(1001), 1200.0, 1000.0, "Ultra".to_string());
    match r {
        Some(Ok(Event::OnDamage(e))) => {
            assert_eq!(e.attacker.uid, 1001);
            assert_eq!(e.attacker.team, Team::Player);
            assert_eq!(e.damage, 1200.0);
            assert_eq!(e.overkill_damage, 200.0);
            assert_eq!(e.damage_type, "Ultra");
        },
        _ => panic!("hit was not reported"),
    }
    let r = damage_event(&hits(), true, EntityKind::Snapshot, Ok(5), 300.0, 1000.0, "DOT".to_string());
    match r {
        Some(Ok(Event::OnDamage(e))) => assert_eq!(e.overkill_damage, 0.0),
        _ => panic!("hit was not reported"),
    }
}

#[test]
fn damage_hook_skips_what_it_does_not_count() {
    assert!(damage_event(&hits(), false, EntityKind::Avatar, Ok(1), 10.0, 5.0, "Normal".to_string()).is_none());
    assert!(damage_event(&hits(), true, EntityKind::Avatar, Ok(1), 0.0, 5.0, "Normal".to_string()).is_none());
    assert!(damage_event(&hits(), true, EntityKind::Avatar, Ok(1), -3.0, 5.0, "Normal".to_string()).is_none());
    assert!(damage_event(&hits(), true, EntityKind::Monster, Ok(1), 10.0, 5.0, "Normal".to_string()).is_none());
    let r = damage_event(&hits(), true, EntityKind::Servant, Err("lost".to_string()), 10.0, 5.0, "Normal".to_string());
    assert_eq!(err_text(r), "on_damage Servant Event Error: lost");
}

#[test]
fn landed_hit_reports_hp_lost() {
    let pending = PendingHit {
        attacker: Entity { uid: 1001, team: Team::Player },
        raw_damage: 900.0,
        hp_before_raw: 600.0,
        damage_type: "Normal".to_string(),
    };
    match landed_hit_event(&hits(), Some(pending), 600.0, 0.0) {
        Some(Event::OnDamage(e)) => {
            assert_eq!(e.damage, 600.0);
            assert_eq!(e.overkill_damage, 300.0);
            assert_eq!(e.attacker.uid, 1001);
        },
        _ => panic!("hit was not reported"),
    }
    let pending = PendingHit {
        attacker: Entity { uid: 1001, team: Team::Player },
        raw_damage: 100.0,
        hp_before_raw: 600.0,
        damage_type: "Normal".to_string(),
    };
    match landed_hit_event(&hits(), Some(pending), 600.0, 500.0) {
        Some(Event::OnDamage(e)) => {
            assert_eq!(e.damage, 100.0);
            assert_eq!(e.overkill_damage, 0.0);
        },
        _ => panic!("hit was not reported"),
    }
}

#[test]
fn landed_hit_without_loss_is_silent() {
    let pending = PendingHit {
        attacker: Entity { uid: 1, team: Team::Player },
        raw_damage: 100.0,
        hp_before_raw: 600.0,
        damage_type: "Normal".to_string(),
    };
    assert!(landed_hit_event(&hits(), Some(pending), 500.0, 520.0).is_none());
    assert!(landed_hit_event(&hits(), None, 500.0, 100.0).is_none());
}

#[test]
fn action_delay_is_reported_tenfold() {
    assert_eq!(stat_change_value("ActionDelay", 7.5, &tenfold), 75.0);
    assert_eq!(stat_change_value("Speed", 7.5, &tenfold), 7.5);
}

#[test]
fn stat_hooks_credit_owner() {
    let prop = Property { value: 10.0, kind: "Attack".to_string() };
    match stat_event(StatHook::StatChange, EntityKind::Avatar, Ok(1001), prop) {
        Some(Ok(Event::OnStatChange(e))) => {
            assert_eq!(e.entity.uid, 1001);
            assert_eq!(e.entity.team, Team::Player);
            assert_eq!(e.property.kind, "Attack");
        },
        _ => panic!("stat change was not reported"),
    }
    let prop = Property { value: 10.0, kind: "CurrentHP".to_string() };
    match stat_event(StatHook::HpChange, EntityKind::Monster, Ok(77), prop) {
        Some(Ok(Event::OnStatChange(e))) => assert_eq!(e.entity.team, Team::Enemy),
        _ => panic!("stat change was not reported"),
    }
    let prop = Property { value: 1.0, kind: "CurrentHP".to_string() };
    assert!(stat_event(StatHook::HpChange, EntityKind::Servant, Ok(1), prop).is_none());
}

#[test]
fn stat_hook_errors() {
    let prop = Property { value: 1.0, kind: "Attack".to_string() };
    let r = stat_event(StatHook::StatChange, EntityKind::Avatar, Err("boom".to_string()), prop);
    assert_eq!(err_text(r), "on_stat_change Avatar Event Error: on_stat_change: failed to resolve avatar from entity");
    let prop = Property { value: 1.0, kind: "CurrentHP".to_string() };
    let r = stat_event(StatHook::HpChange, EntityKind::Avatar, Err("boom".to_string()), prop);
    assert_eq!(err_text(r), "handle_hp_change Avatar Event Error: boom");
}

#[test]
fn turn_begin_hook_owners() {
    match turn_begin_event(EntityKind::Avatar, Ok(1001), 3.5, &tenfold) {
        Some(Ok(Event::OnTurnBegin(e))) => {
            assert_eq!(e.action_value, 35.0);
            assert_eq!(e.turn_owner.map(|o| (o.uid, o.team)), Some((1001, Team::Player)));
        },
        _ => panic!("turn was not reported"),
    }
    match turn_begin_event(EntityKind::Monster, Ok(77), 1.0, &tenfold) {
        Some(Ok(Event::OnTurnBegin(e))) => assert_eq!(e.turn_owner.map(|o| o.team), Some(Team::Enemy)),
        _ => panic!("turn was not reported"),
    }
    match turn_begin_event(EntityKind::BattleEvent, Err("n/a".to_string()), 2.0, &tenfold) {
        Some(Ok(Event::OnTurnBegin(e))) => {
            assert!(e.turn_owner.is_none());
            assert_eq!(e.action_value, 20.0);
        },
        _ => panic!("turn was not reported"),
    }
    assert!(turn_begin_event(EntityKind::Monster, Err("x".to_string()), 1.0, &tenfold).is_none());
    let r = turn_begin_event(EntityKind::Avatar, Err("x".to_string()), 1.0, &tenfold);
    assert_eq!(err_text(r), "on_turn_begin Avatar Event Error: x");
}

#[test]
fn defeat_hook_needs_dying_enemy_and_avatar_killer() {
    match defeat_event::<f64>(true, true, EntityKind::Avatar, Ok(1001), 77) {
        Some(Ok(Event::OnEntityDefeated(e))) => {
            assert_eq!(e.killer.uid, 1001);
            assert_eq!(e.entity_defeated.uid, 77);
            assert_eq!(e.entity_defeated.team, Team::Enemy);
        },
        _ => panic!("defeat was not reported"),
    }
    assert!(defeat_event::<f64>(false, true, EntityKind::Avatar, Ok(1), 2).is_none());
    assert!(defeat_event::<f64>(true, false, EntityKind::Avatar, Ok(1), 2).is_none());
    assert!(defeat_event::<f64>(true, true, EntityKind::Monster, Ok(1), 2).is_none());
    let r = defeat_event::<f64>(true, true, EntityKind::Avatar, Err("who".to_string()), 2);
    assert_eq!(err_text(r), "on_entity_defeated Avatar Event Error: who");
}

#[test]
fn formation_hook_reports_enemy_team_only() {
    match team_formation_event::<f64>(true, &vec![77, 78]) {
        Some(Event::OnUpdateTeamFormation(e)) => {
            assert_eq!(e.team, Team::Enemy);
            assert_eq!(e.entities.iter().map(|x| x.uid).collect::<Vec<u32>>(), vec![77, 78]);
        },
        _ => panic!("formation was not reported"),
    }
    assert!(team_formation_event::<f64>(false, &vec![1]).is_none());
}

#[test]
fn begin_and_wave_hooks_refuse_negative_counts() {
    match battle_begin_event::<f64>(3, 30, 420101) {
        Some(Event::OnBattleBegin(e)) => {
            assert_eq!(e.max_waves, 3);
            assert_eq!(e.max_cycles, 30);
            assert_eq!(e.stage_id, 420101);
        },
        _ => panic!("battle begin was not reported"),
    }
    assert!(battle_begin_event::<f64>(-1, 30, 1).is_none());
    assert!(matches!(wave_event::<f64>(2), Some(Event::OnUpdateWave(e)) if e.wave == 2));
    assert!(wave_event::<f64>(-2).is_none());
}

#[test]
fn enemy_hook_fills_base_stats() {
    match enemy_event(3001, 77, "Slime".to_string(), 80.0, 1000.0) {
        Event::OnInitializeEnemy(e) => {
            assert_eq!(e.enemy.id, 3001);
            assert_eq!(e.enemy.uid, 77);
            assert_eq!(e.enemy.name, "Slime");
            assert_eq!(e.enemy.base_stats.get_value("Level"), Some(80.0));
            assert_eq!(e.enemy.base_stats.get_value("MaxHP"), Some(1000.0));
            assert_eq!(e.enemy.base_stats.get_value("CurrentHP"), Some(1000.0));
            assert_eq!(e.enemy.base_stats.get_value("Speed"), None);
        },
        _ => panic!("enemy was not reported"),
    }
}

#[test]
fn lineup_hook_collects_avatars_or_errors() {
    let ok = vec![
        Ok(Avatar { id: 1, name: "A".to_string() }),
        Ok(Avatar { id: 2, name: "B".to_string() }),
    ];
    match lineup_event::<f64>(ok) {
        Ok(Event::OnSetBattleLineup(e)) => {
            assert_eq!(e.avatars.iter().map(|a| a.id).collect::<Vec<u32>>(), vec![1, 2]);
        },
        _ => panic!("lineup was not reported"),
    }
    let mixed = vec![
        Err("first".to_string()),
        Ok(Avatar { id: 1, name: "A".to_string() }),
        Err("second".to_string()),
    ];
    match lineup_event::<f64>(mixed) {
        Err(text) => assert_eq!(text, "first. second. "),
        _ => panic!("errors were not reported"),
    }
    assert!(matches!(lineup_event::<f64>(Vec::new()), Ok(Event::OnSetBattleLineup(e)) if e.avatars.is_empty()));
}
