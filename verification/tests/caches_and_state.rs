use veritas::attack::AttackType;
use veritas::palette::{get_character_color, get_damage_category_color};
use veritas::buffers::{
    cache_monster_buffer, cache_property_buffer, clear_monster_buffers, populate_avatar_buffers,
    IconBuffers, NamedBuffers,
};
use veritas::battle::BattleState;
use veritas::ui_state::{
    clamp_breakdown_character_index, default_true, on_battle_state, AppState, DamageBarValue, DamageBreakdownChart, DamageBreakdownScope, GraphUnit,
};

fn icon(id: u32) -> Option<Vec<u8>> {
    if id % 2 == 0 { Some(vec![id as u8]) } else { None }
}

#[test]
fn avatar_icons_replace_the_cache() {
    let mut cache = IconBuffers::new();
    cache.insert(99, vec![9]);
    populate_avatar_buffers(&mut cache, &vec![2, 3, 4], &icon);
    assert!(!cache.contains(99));
    assert!(cache.contains(2));
    assert!(!cache.contains(3));
    assert_eq!(cache.get(4), Some(&vec![4u8]));
}

#[test]
fn monster_icons_are_fetched_once() {
    let mut cache = IconBuffers::new();
    cache_monster_buffer(&mut cache, 8, &icon);
    assert_eq!(cache.get(8), Some(&vec![8u8]));
    let other = |_id: u32| Some(vec![0u8]);
    cache_monster_buffer(&mut cache, 8, &other);
    assert_eq!(cache.get(8), Some(&vec![8u8]));
    cache_monster_buffer(&mut cache, 7, &icon);
    assert!(!cache.contains(7));
    clear_monster_buffers(&mut cache);
    assert!(!cache.contains(8));
}

#[test]
fn property_icons_are_fetched_once() {
    let mut cache = NamedBuffers::new();
    let fetch = |name: &str| if name.is_empty() { None } else { Some(name.as_bytes().to_vec()) };
    cache_property_buffer(&mut cache, "Speed", &fetch);
    assert!(cache.contains("Speed"));
    assert!(!cache.contains("Attack"));
    cache_property_buffer(&mut cache, "", &fetch);
    assert!(!cache.contains(""));
    cache.insert("Attack", vec![1]);
    assert!(cache.contains("Attack"));
    cache.clear();
    assert!(!cache.contains("Speed"));
}

#[test]
fn fresh_app_state() {
    let s = AppState::default();
    assert!(!s.show_menu);
    assert!(!s.hide_ui);
    assert!(!s.show_damage_breakdown_table);
    assert!(s.graph_x_unit == GraphUnit::Turn);
    assert!(s.damage_bar_value == DamageBarValue::Damage);
    assert!(s.damage_breakdown_scope == DamageBreakdownScope::Team);
    assert!(s.damage_breakdown_chart == DamageBreakdownChart::Pie);
    assert_eq!(s.damage_breakdown_character_index, 0);
    assert!(s.custom_export_path.is_none());
    assert!(s.auto_create_date_folders);
    assert!(default_true());
}

#[test]
fn character_colours_cycle_through_palette() {
    assert_eq!(get_character_color(0), (255, 99, 132));
    assert_eq!(get_character_color(3), (75, 192, 192));
    assert_eq!(get_character_color(7), (102, 255, 102));
    assert_eq!(get_character_color(8), (255, 99, 132));
    assert_eq!(get_character_color(13), (255, 159, 64));
}

#[test]
fn damage_types_have_colours() {
    assert_eq!(get_damage_category_color(&AttackType::Normal), (93, 156, 236));
    assert_eq!(get_damage_category_color(&AttackType::Maze), (52, 152, 219));
    assert_eq!(get_damage_category_color(&AttackType::MazeNormal), (52, 152, 219));
    assert_eq!(get_damage_category_color(&AttackType::Unknown), (189, 195, 199));
}

#[test]
fn overlay_shows_at_battle_start_and_hides_at_end_when_automatic() {
    let mut state = AppState::default();
    state.hide_ui = true;
    assert_eq!(on_battle_state(&state, Some(BattleState::Started), true), (false, false));
    state.hide_ui = false;
    assert_eq!(on_battle_state(&state, Some(BattleState::Ended), true), (true, false));
}

#[test]
fn overlay_keeps_its_visibility_when_not_automatic() {
    let mut state = AppState::default();
    state.hide_ui = true;
    assert_eq!(on_battle_state(&state, Some(BattleState::Started), false), (true, false));
    state.hide_ui = false;
    assert_eq!(on_battle_state(&state, Some(BattleState::Ended), false), (false, false));
    assert_eq!(on_battle_state(&state, None, true), (false, false));
}

#[test]
fn battle_end_exports_only_with_automatic_saving() {
    let mut state = AppState::default();
    state.auto_save_battle_data = true;
    assert_eq!(on_battle_state(&state, Some(BattleState::Ended), false), (false, true));
    assert_eq!(on_battle_state(&state, Some(BattleState::Started), false), (false, false));
    assert_eq!(on_battle_state(&state, None, false), (false, false));
}

#[test]
fn breakdown_character_index_stays_in_the_lineup() {
    assert_eq!(clamp_breakdown_character_index(2, 4), 2);
    assert_eq!(clamp_breakdown_character_index(3, 4), 3);
    assert_eq!(clamp_breakdown_character_index(9, 4), 3);
    assert_eq!(clamp_breakdown_character_index(5, 0), 0);
    assert_eq!(clamp_breakdown_character_index(0, 0), 0);
}
