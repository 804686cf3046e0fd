use veritas::battle::{BattleContext, BattleError, EventOutcome};
use veritas::chart::{create_damage_portrait_rows, decimal_string, ChartArith, ComprehensiveData};
use veritas::events::{
    Event, OnDamageEvent, OnInitializeEnemyEvent, OnSetLineupEvent, OnStatChangeEvent,
    OnTurnBeginEvent, OnUpdateCycleEvent, OnUpdateWaveEvent, OnUseSkillEvent,
};
use veritas::export::{parse_export_format, ExportFormat, copy_stats, format_date_from_timestamp, plan_export_directory, BattleDataExporter, ExportError};
use veritas::types::{Avatar, BattleStats, Enemy, Entity, Property, Skill, Team};

fn plus(a: f64, b: f64) -> f64 {
    a + b
}

fn div(a: f64, b: f64) -> f64 {
    a / b
}

fn mul(a: f64, b: f64) -> f64 {
    a * b
}

fn larger(a: f64, b: f64) -> f64 {
    a.max(b)
}

fn same(a: f64, b: f64) -> bool {
    a == b
}

fn positive(x: f64) -> bool {
    x > 0.0
}

fn level_of(x: f64) -> u32 {
    x as u32
}

fn of_count(n: u32) -> f64 {
    n as f64
}

type Ops = ChartArith<f64, fn(f64) -> bool, fn(f64, f64) -> f64, fn(u32) -> f64>;

fn ops() -> Ops {
    ChartArith {
        zero: 0.0,
        hundred: 100.0,
        positive: positive as fn(f64) -> bool,
        plus: plus as fn(f64, f64) -> f64,
        div: div as fn(f64, f64) -> f64,
        mul: mul as fn(f64, f64) -> f64,
        max: larger as fn(f64, f64) -> f64,
        of_count: of_count as fn(u32) -> f64,
    }
}

fn apply(ctx: &mut BattleContext<f64>, event: Event<f64>) -> Result<EventOutcome<f64>, BattleError> {
    ctx.handle_event(Ok(event), 0.0, &plus, &same)
}

fn player(uid: u32) -> Entity {
    Entity { uid, team: Team::Player }
}

fn hit(uid: u32, amount: f64) -> Event<f64> {
    Event::OnDamage(OnDamageEvent {
        attacker: player(uid),
        damage: amount,
        overkill_damage: 0.0,
        damage_type: "Normal".to_string(),
    })
}

/// Two avatars; March uses a skill and hits for 100 in turn one, Dan hits for 50
/// in turn two at the same action value.
fn played() -> BattleContext<f64> {
    let mut ctx = BattleContext::new(0.0);
    apply(&mut ctx, Event::OnSetBattleLineup(OnSetLineupEvent {
        avatars: vec![
            Avatar { id: 1001, name: "March".to_string() },
            Avatar { id: 1002, name: "Dan".to_string() },
        ],
    })).unwrap();
    apply(&mut ctx, Event::OnUpdateWave(OnUpdateWaveEvent { wave: 1 })).unwrap();
    apply(&mut ctx, Event::OnUpdateCycle(OnUpdateCycleEvent { cycle: 1 })).unwrap();
    apply(&mut ctx, Event::OnTurnBegin(OnTurnBeginEvent { action_value: 50.0, turn_owner: Some(player(1001)) })).unwrap();
    apply(&mut ctx, Event::OnUseSkill(OnUseSkillEvent {
        avatar: player(1001),
        skill: Skill { name: "Strike".to_string(), skill_type: "Basic ATK".to_string(), skill_config_id: 1 },
    })).unwrap();
    apply(&mut ctx, hit(1001, 100.0)).unwrap();
    apply(&mut ctx, Event::OnTurnEnd).unwrap();
    apply(&mut ctx, Event::OnTurnBegin(OnTurnBeginEvent { action_value: 50.0, turn_owner: Some(player(1002)) })).unwrap();
    apply(&mut ctx, hit(1002, 50.0)).unwrap();
    apply(&mut ctx, Event::OnTurnEnd).unwrap();
    apply(&mut ctx, Event::OnStatChange(OnStatChangeEvent {
        entity: player(1001),
        property: Property { value: 500.0, kind: "CurrentHP".to_string() },
    })).unwrap();
    let mut base = BattleStats::new();
    base.set_value("MaxHP", 1000.0);
    base.set_value("Level", 80.0);
    apply(&mut ctx, Event::OnInitializeEnemy(OnInitializeEnemyEvent {
        enemy: Enemy { id: 3001, uid: 77, name: "Slime".to_string(), base_stats: base },
    })).unwrap();
    ctx
}

fn close(a: f64, b: f64) -> bool {
    (a - b).abs() < 1e-9
}

#[test]
fn date_folder_names_are_utc_dates() {
    assert_eq!(format_date_from_timestamp(0), "1970-01-01");
    assert_eq!(format_date_from_timestamp(86_399), "1970-01-01");
    assert_eq!(format_date_from_timestamp(86_400), "1970-01-02");
    assert_eq!(format_date_from_timestamp(1_700_000_000), "2023-11-14");
}

#[test]
fn out_of_range_timestamp_falls_back_to_epoch() {
    assert_eq!(format_date_from_timestamp(i64::MAX as u64), "1970-01-01");
}

#[test]
fn timestamps_are_read_as_signed_seconds() {
    assert_eq!(format_date_from_timestamp(u64::MAX), "1969-12-31");
}

#[test]
fn export_directory_uses_custom_path() {
    let segs = plan_export_directory(Some("D:/exports"), Some("C:/local"), false, 0, "veritas").unwrap();
    assert_eq!(segs, vec!["D:/exports".to_string()]);
    let segs = plan_export_directory(Some("D:/exports"), None, true, 86_400, "veritas").unwrap();
    assert_eq!(segs, vec!["D:/exports".to_string(), "1970-01-02".to_string()]);
}

#[test]
fn export_directory_defaults_to_local_data() {
    let segs = plan_export_directory(None, Some("/home/u/.local/share"), true, 0, "veritas").unwrap();
    assert_eq!(segs, vec![
        "/home/u/.local/share".to_string(),
        "veritas".to_string(),
        "battledata".to_string(),
        "1970-01-01".to_string(),
    ]);
}

#[test]
fn export_directory_needs_some_base() {
    let r = plan_export_directory(None, None, true, 0, "veritas");
    assert_eq!(r, Err(ExportError::NoDataDirectory));
}

#[test]
fn exporter_new_and_default_agree() {
    let _a = BattleDataExporter::new();
    let _b: BattleDataExporter = Default::default();
    assert_eq!(BattleDataExporter::INITIAL_TURN_ID, -1);
    assert_eq!(BattleDataExporter::DEFAULT_KILLER_ID, -1);
    assert_eq!(BattleDataExporter::INITIAL_TURN_BATTLE_ID, 0);
}

#[test]
fn stats_map_keeps_tracked_stats_in_order() {
    let mut stats = BattleStats::new();
    stats.set_value("Speed", 134.0);
    stats.set_value("Luck", 7.0);
    stats.set_value("CurrentHP", 900.0);
    let map = BattleDataExporter::build_stats_map(&stats);
    assert_eq!(map, vec![("CurrentHP".to_string(), 900.0), ("Speed".to_string(), 134.0)]);
    let history = BattleDataExporter::create_stats_history(&map);
    assert_eq!(history.len(), 1);
    assert_eq!(history[0].turn_battle_id, 0);
    assert_eq!(history[0].stats, map);
    let empty: Vec<(String, f64)> = Vec::new();
    assert!(BattleDataExporter::create_stats_history(&empty).is_empty());
    assert_eq!(copy_stats(&map), map);
}

#[test]
fn export_shapes_the_battle() {
    let ctx = played();
    let data = BattleDataExporter::new().export_battle_data(&ctx, "2.3.1", 0.0, &positive, &div, &level_of);
    assert_eq!(data.lineup.len(), 2);
    assert_eq!(data.lineup[1].avatar_id, 1002);
    assert!(!data.lineup[1].is_die);
    assert_eq!(data.turn_history.len(), 3);
    assert_eq!(data.turn_history[0].avatar_id, -1);
    assert_eq!(data.turn_history[0].action_value, 0.0);
    assert_eq!(data.turn_history[0].wave_index, 1);
    assert_eq!(data.turn_history[0].cycle_index, 1);
    assert_eq!(data.turn_history[2].avatar_id, 1002);
    assert_eq!(data.turn_history[2].action_value, 50.0);
    assert_eq!(data.skill_history.len(), 1);
    assert_eq!(data.skill_history[0].skill_name, "Strike");
    assert_eq!(data.skill_history[0].total_damage, 100.0);
    assert_eq!(data.skill_history[0].turn_battle_id, 1);
    assert_eq!(data.skill_history[0].damage_detail.len(), 1);
    assert_eq!(data.skill_history[0].damage_detail[0].damage_type, "Basic");
    assert_eq!(data.total_av, 50.0);
    assert_eq!(data.total_damage, 150.0);
    assert_eq!(data.damage_per_av, 3.0);
    assert_eq!(data.version, "2.3.1");
    assert_eq!(data.max_cycle, 1);
    assert_eq!(data.wave_index, 1);
    assert_eq!(data.avatar_detail.len(), 2);
    assert_eq!(data.avatar_detail[&1001].id, 1001);
    assert_eq!(data.avatar_detail[&1001].stats, vec![("CurrentHP".to_string(), 500.0)]);
    assert_eq!(data.avatar_detail[&1001].stats_history.len(), 1);
    assert_eq!(data.avatar_detail[&1001].killer_uid, -1);
    assert!(data.avatar_detail[&1002].stats.is_empty());
    assert!(data.avatar_detail[&1002].stats_history.is_empty());
    assert_eq!(data.enemy_detail.len(), 1);
    let enemy = &data.enemy_detail[&77];
    assert_eq!(enemy.id, 3001);
    assert_eq!(enemy.name, "Slime");
    assert_eq!(enemy.max_hp, 1000.0);
    assert_eq!(enemy.level, 80);
    assert_eq!(enemy.position_index, 0);
    assert_eq!(enemy.wave_index, 1);
    assert_eq!(enemy.stats, vec![("MaxHP".to_string(), 1000.0)]);
}

#[test]
fn export_without_action_value_has_no_rate() {
    let mut ctx = BattleContext::new(0.0);
    apply(&mut ctx, Event::OnSetBattleLineup(OnSetLineupEvent {
        avatars: vec![Avatar { id: 7, name: "Solo".to_string() }],
    })).unwrap();
    apply(&mut ctx, hit(7, 10.0)).unwrap();
    let data = BattleDataExporter::new().export_battle_data(&ctx, "x", 0.0, &positive, &div, &level_of);
    assert_eq!(data.damage_per_av, 0.0);
    assert_eq!(data.total_damage, 10.0);
}

fn summary<'a>(rows: &'a [ComprehensiveData<f64>], i: usize) -> &'a ComprehensiveData<f64> {
    assert_eq!(rows[i].data_type, "character_summary");
    &rows[i]
}

#[test]
fn chart_summarises_each_character() {
    let ctx = played();
    let rows = BattleDataExporter::new().generate_comprehensive_chart_data(&ctx, &ops());
    assert_eq!(rows.len(), 3);
    let march = summary(&rows, 0);
    assert_eq!(march.character_name, "March");
    assert_eq!(march.character_id, 1001);
    assert_eq!(march.total_damage, Some(100.0));
    assert!(close(march.damage_percentage.unwrap(), 200.0 / 3.0));
    assert_eq!(march.dpav, Some(2.0));
    assert_eq!(march.primary_skill_usage_count, Some(1));
    assert_eq!(march.turns_taken, Some(1));
    assert_eq!(march.average_damage_per_turn, Some(100.0));
    assert_eq!(march.max_single_turn_damage, Some(100.0));
    assert_eq!(march.first_turn_number, Some(1));
    assert_eq!(march.last_turn_number, Some(1));
    assert!(march.skill_name.is_none());
    assert!(march.turn_order.is_none());
    let dan = summary(&rows, 1);
    assert_eq!(dan.total_damage, Some(50.0));
    assert!(close(dan.damage_percentage.unwrap(), 100.0 / 3.0));
    assert_eq!(dan.dpav, Some(1.0));
    assert_eq!(dan.primary_skill_usage_count, Some(0));
    assert_eq!(dan.turns_taken, Some(1));
    assert_eq!(dan.first_turn_number, Some(2));
    assert_eq!(dan.last_turn_number, Some(2));
}

#[test]
fn chart_details_each_skill_use() {
    let ctx = played();
    let rows = BattleDataExporter::new().generate_comprehensive_chart_data(&ctx, &ops());
    let row = &rows[2];
    assert_eq!(row.data_type, "skill_detail");
    assert_eq!(row.character_name, "March");
    assert_eq!(row.character_id, 1001);
    assert_eq!(row.turn_order, Some(1));
    assert_eq!(row.turn_battle_id, Some(1));
    assert_eq!(row.action_value, Some(50.0));
    assert_eq!(row.wave, Some(1));
    assert_eq!(row.cycle, Some(1));
    assert_eq!(row.skill_name.as_deref(), Some("Strike"));
    assert_eq!(row.skill_type.as_deref(), Some("Basic ATK"));
    assert_eq!(row.skill_type_name.as_deref(), Some("Basic ATK"));
    assert_eq!(row.skill_damage, Some(100.0));
    assert_eq!(row.cumulative_damage, Some(100.0));
    assert_eq!(row.cumulative_character_damage, Some(100.0));
    assert!(close(row.skill_damage_percentage.unwrap(), 200.0 / 3.0));
    assert!(row.total_damage.is_none());
    assert!(row.turns_taken.is_none());
}

#[test]
fn chart_running_totals_and_unknown_avatars() {
    let mut ctx = BattleContext::new(0.0);
    apply(&mut ctx, Event::OnSetBattleLineup(OnSetLineupEvent {
        avatars: vec![Avatar { id: 1, name: "A".to_string() }],
    })).unwrap();
    let skill = |name: &str| Skill { name: name.to_string(), skill_type: "Skill".to_string(), skill_config_id: 0 };
    for (uid, name, amount) in [(1u32, "x", 10.0), (4242u32, "y", 0.0), (1u32, "x", 5.0), (1u32, "z", 1.0)] {
        apply(&mut ctx, Event::OnUseSkill(OnUseSkillEvent { avatar: player(uid), skill: skill(name) })).unwrap();
        if amount > 0.0 {
            apply(&mut ctx, hit(uid, amount)).unwrap();
        }
    }
    let rows = BattleDataExporter::new().generate_comprehensive_chart_data(&ctx, &ops());
    assert_eq!(rows.len(), 5);
    assert_eq!(rows[0].primary_skill_usage_count, Some(2));
    assert_eq!(rows[0].turns_taken, Some(0));
    assert_eq!(rows[0].average_damage_per_turn, Some(0.0));
    assert_eq!(rows[0].max_single_turn_damage, Some(0.0));
    assert_eq!(rows[0].first_turn_number, Some(0));
    assert_eq!(rows[0].dpav, Some(0.0));
    assert_eq!(rows[2].character_name, "Avatar_4242");
    assert_eq!(rows[2].wave, Some(1));
    assert_eq!(rows[2].cycle, Some(1));
    assert_eq!(rows[2].action_value, Some(0.0));
    let cumulative: Vec<Option<f64>> = rows[1..].iter().map(|r| r.cumulative_damage).collect();
    assert_eq!(cumulative, vec![Some(10.0), Some(10.0), Some(15.0), Some(16.0)]);
    let own: Vec<Option<f64>> = rows[1..].iter().map(|r| r.cumulative_character_damage).collect();
    assert_eq!(own, vec![Some(10.0), Some(0.0), Some(15.0), Some(16.0)]);
    let order: Vec<Option<u32>> = rows[1..].iter().map(|r| r.turn_order).collect();
    assert_eq!(order, vec![Some(1), Some(2), Some(3), Some(4)]);
}

#[test]
fn fresh_lineup_charts_zero_rows() {
    let mut ctx = BattleContext::new(0.0);
    apply(&mut ctx, Event::OnSetBattleLineup(OnSetLineupEvent {
        avatars: vec![Avatar { id: 1, name: "A".to_string() }, Avatar { id: 2, name: "B".to_string() }],
    })).unwrap();
    let rows = BattleDataExporter::new().generate_comprehensive_chart_data(&ctx, &ops());
    assert_eq!(rows.len(), 2);
    for row in &rows {
        assert_eq!(row.total_damage, Some(0.0));
        assert_eq!(row.turns_taken, Some(0));
        assert_eq!(row.primary_skill_usage_count, Some(0));
        assert_eq!(row.max_single_turn_damage, Some(0.0));
    }
}

#[test]
fn decimal_text_of_numbers() {
    assert_eq!(decimal_string(0), "0");
    assert_eq!(decimal_string(7), "7");
    assert_eq!(decimal_string(10), "10");
    assert_eq!(decimal_string(4242), "4242");
    assert_eq!(decimal_string(u32::MAX), "4294967295");
}

#[test]
fn enemies_sharing_a_uid_export_the_later_one() {
    let mut ctx = played();
    let base = BattleStats::new();
    apply(&mut ctx, Event::OnInitializeEnemy(OnInitializeEnemyEvent {
        enemy: Enemy { id: 3002, uid: 77, name: "Big Slime".to_string(), base_stats: base },
    })).unwrap();
    let data = BattleDataExporter::new().export_battle_data(&ctx, "x", 0.0, &positive, &div, &level_of);
    assert_eq!(data.enemy_detail.len(), 1);
    assert_eq!(data.enemy_detail[&77].id, 3002);
    assert_eq!(data.enemy_detail[&77].position_index, 1);
    assert_eq!(data.enemy_detail[&77].max_hp, 0.0);
}

fn minus(a: f64, b: f64) -> f64 {
    a - b
}

fn march_and_dan() -> Vec<Avatar> {
    vec![
        Avatar { id: 1001, name: "March".to_string() },
        Avatar { id: 1002, name: "Dan".to_string() },
    ]
}

#[test]
fn portrait_rows_per_action_value_and_share() {
    let sub = minus as fn(f64, f64) -> f64;
    let rows = create_damage_portrait_rows(&march_and_dan(), &vec![300.0, 100.0], &vec![50.0, 150.0], 100.0, &ops(), &sub);
    assert_eq!(rows.len(), 2);
    assert_eq!(rows[0].avatar.id, 1001);
    assert_eq!(rows[0].avatar.name, "March");
    assert!(close(rows[0].damage, 300.0));
    assert!(close(rows[0].dpav, 3.0));
    assert!(close(rows[0].effective_damage, 250.0));
    assert!(close(rows[0].overkill_damage, 50.0));
    assert!(close(rows[0].overkill_dpav, 0.5));
    assert!(close(rows[0].percentage, 75.0));
    assert_eq!(rows[1].avatar.id, 1002);
    assert!(close(rows[1].effective_damage, 0.0));
    assert!(close(rows[1].percentage, 25.0));
}

#[test]
fn portrait_rows_without_action_value_or_tallies() {
    let sub = minus as fn(f64, f64) -> f64;
    let rows = create_damage_portrait_rows(&march_and_dan(), &vec![40.0], &vec![], 0.0, &ops(), &sub);
    assert_eq!(rows.len(), 2);
    assert!(close(rows[0].dpav, 40.0));
    assert!(close(rows[0].overkill_dpav, 0.0));
    assert!(close(rows[0].percentage, 100.0));
    assert!(close(rows[1].damage, 0.0));
    assert!(close(rows[1].percentage, 0.0));
    let none = create_damage_portrait_rows(&march_and_dan(), &vec![], &vec![], 10.0, &ops(), &sub);
    assert!(close(none[0].percentage, 0.0));
    assert!(close(none[1].dpav, 0.0));
}

#[test]
fn export_formats_by_name() {
    assert_eq!(parse_export_format("json"), Some(ExportFormat::Json));
    assert_eq!(parse_export_format("csv"), Some(ExportFormat::Csv));
    assert_eq!(parse_export_format("xml"), None);
    assert_eq!(parse_export_format("JSON"), None);
}
