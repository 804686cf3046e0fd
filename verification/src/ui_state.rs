use vstd::prelude::*;

use crate::battle::BattleState;

verus! {

/// Unit on the horizontal axis of damage graphs.
#[derive(Clone, Copy, Debug, PartialEq, Eq, Structural)]
pub enum GraphUnit {
    Turn,
    ActionValue,
}

/// Whether the damage-type breakdown covers the team or one character.
#[derive(Clone, Copy, Debug, PartialEq, Eq, Structural)]
pub enum DamageBreakdownScope {
    Team,
    Character,
}

/// How the damage-type breakdown is drawn.
#[derive(Clone, Copy, Debug, PartialEq, Eq, Structural)]
pub enum DamageBreakdownChart {
    Pie,
    Bar,
}

/// What the damage bars measure.
#[derive(Clone, Copy, Debug, PartialEq, Eq, Structural)]
pub enum DamageBarValue {
    Damage,
    Dpav,
}

/// The unit used when none was chosen: turns.
impl Default for GraphUnit {
    fn default() -> (r: Self)
        ensures
            r == GraphUnit::Turn,
    {
        GraphUnit::Turn
    }
}

/// The scope used when none was chosen: the team.
impl Default for DamageBreakdownScope {
    fn default() -> (r: Self)
        ensures
            r == DamageBreakdownScope::Team,
    {
        DamageBreakdownScope::Team
    }
}

/// The chart used when none was chosen: a pie.
impl Default for DamageBreakdownChart {
    fn default() -> (r: Self)
        ensures
            r == DamageBreakdownChart::Pie,
    {
        DamageBreakdownChart::Pie
    }
}

/// The measure used when none was chosen: damage.
impl Default for DamageBarValue {
    fn default() -> (r: Self)
        ensures
            r == DamageBarValue::Damage,
    {
        DamageBarValue::Damage
    }
}

/// The result of an automatic export, as shown to the player.
#[derive(Clone, Debug)]
pub enum ExportNotification {
    Success,
    Error { message: String },
}

/// Which windows and options of the overlay are on.
#[derive(Clone, Debug)]
pub struct AppState {
    pub show_menu: bool,
    pub show_changelog: bool,
    pub show_help: bool,
    pub show_settings: bool,
    pub show_console: bool,
    pub show_damage_distribution: bool,
    pub show_damage_type_breakdown: bool,
    pub show_damage_bars: bool,
    pub show_character_damage: bool,
    pub show_real_time_damage: bool,
    pub show_enemy_stats: bool,
    pub show_battle_metrics: bool,
    pub hide_ui: bool,
    pub graph_x_unit: GraphUnit,
    pub damage_bar_value: DamageBarValue,
    pub damage_breakdown_scope: DamageBreakdownScope,
    pub damage_breakdown_chart: DamageBreakdownChart,
    pub damage_breakdown_character_index: usize,
    pub show_damage_breakdown_table: bool,
    pub show_damage_breakdown_legend: bool,
    pub use_custom_color: bool,
    pub update_bttn_enabled: bool,
    pub center_updater_window: bool,
    pub show_character_legend: bool,
    pub auto_save_battle_data: bool,
    pub show_export_window: bool,
    pub show_updater_window: bool,
    pub custom_export_path: Option<String>,
    pub auto_create_date_folders: bool,
}

/// The value a saved state falls back to for options it does not mention that
/// are on unless turned off.
pub fn default_true() -> (r: bool)
    ensures
        r,
{
    true
}

impl AppState {
    /// The fresh state: every window and option off, no custom export path,
    /// except that exports go into date folders.
    pub open spec fn is_fresh(&self) -> bool {
        &&& !self.show_menu && !self.show_changelog && !self.show_help && !self.show_settings
        &&& !self.show_console && !self.show_damage_distribution && !self.show_damage_type_breakdown
        &&& !self.show_damage_bars && !self.show_character_damage && !self.show_real_time_damage
        &&& !self.show_enemy_stats && !self.show_battle_metrics && !self.hide_ui
        &&& self.graph_x_unit == GraphUnit::Turn
        &&& self.damage_bar_value == DamageBarValue::Damage
        &&& self.damage_breakdown_scope == DamageBreakdownScope::Team
        &&& self.damage_breakdown_chart == DamageBreakdownChart::Pie
        &&& self.damage_breakdown_character_index == 0
        &&& !self.show_damage_breakdown_table && !self.show_damage_breakdown_legend
        &&& !self.use_custom_color && !self.update_bttn_enabled && !self.center_updater_window
        &&& !self.show_character_legend && !self.auto_save_battle_data
        &&& !self.show_export_window && !self.show_updater_window
        &&& self.custom_export_path is None
        &&& self.auto_create_date_folders
    }
}

impl Default for AppState {
    fn default() -> (r: Self)
        ensures
            r.is_fresh(),
    {
        AppState {
            show_menu: false,
            show_changelog: false,
            show_help: false,
            show_settings: false,
            show_console: false,
            show_damage_distribution: false,
            show_damage_type_breakdown: false,
            show_damage_bars: false,
            show_character_damage: false,
            show_real_time_damage: false,
            show_enemy_stats: false,
            show_battle_metrics: false,
            hide_ui: false,
            graph_x_unit: GraphUnit::default(),
            damage_bar_value: DamageBarValue::default(),
            damage_breakdown_scope: DamageBreakdownScope::default(),
            damage_breakdown_chart: DamageBreakdownChart::default(),
            damage_breakdown_character_index: 0,
            show_damage_breakdown_table: false,
            show_damage_breakdown_legend: false,
            use_custom_color: false,
            update_bttn_enabled: false,
            center_updater_window: false,
            show_character_legend: false,
            auto_save_battle_data: false,
            show_export_window: false,
            show_updater_window: false,
            custom_export_path: None,
            auto_create_date_folders: true,
        }
    }
}

/// What the overlay does when the battle's state changes: with automatic showing
/// and hiding on, it shows itself when a battle starts and hides itself when one
/// ends; at the end of a battle it exports the battle when automatic saving is on.
/// The result is whether the overlay is hidden afterwards and whether to export
/// now; with no new state nothing changes.
pub fn on_battle_state(state: &AppState, battle: Option<BattleState>, auto_showhide_ui: bool) -> (r: (bool, bool))
    ensures
        r.0 == (match battle {
            Some(BattleState::Started) => if auto_showhide_ui { false } else { state.hide_ui },
            Some(BattleState::Ended) => if auto_showhide_ui { true } else { state.hide_ui },
            None => state.hide_ui,
        }),
        r.1 == (battle == Some(BattleState::Ended) && state.auto_save_battle_data),
{
    match battle {
        Some(BattleState::Started) => (if auto_showhide_ui { false } else { state.hide_ui }, false),
        Some(BattleState::Ended) => (if auto_showhide_ui { true } else { state.hide_ui }, state.auto_save_battle_data),
        None => (state.hide_ui, false),
    }
}

/// The character whose breakdown is shown, kept within a lineup of `lineup_len`
/// avatars: an index past the end picks the last avatar, and an empty lineup
/// index zero.
pub fn clamp_breakdown_character_index(index: usize, lineup_len: usize) -> (r: usize)
    ensures
        r == (if lineup_len == 0 {
            0
        } else if index < lineup_len {
            index
        } else {
            (lineup_len - 1) as usize
        }),
{
    let last = if lineup_len == 0 { 0 } else { lineup_len - 1 };
    if index < last { index } else { last }
}

} // verus!
