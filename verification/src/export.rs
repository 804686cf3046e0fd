use chrono::DateTime;
use std::collections::HashMap;
use vstd::prelude::*;
use vstd::string::*;

use crate::battle::{first_entity_at, BattleContext, SkillHistoryEntry};
use crate::text::str_eq;
use crate::types::{stat_lookup, BattleEntity, BattleStats, Entity};

verus! {

broadcast use vstd::std_specs::hash::group_hash_axioms;

/// What chrono renders, with the format "%Y-%m-%d", for the UTC date of the unix
/// timestamp `secs` (whole seconds), or `None` where chrono has no date for it.
pub uninterp spec fn utc_date_text(secs: i64) -> Option<Seq<char>>;

/// Last second of the year 9999, well inside the range chrono represents.
pub const LAST_FOUR_DIGIT_YEAR_SECOND: i64 = 253402300799;

/// Calls chrono's `DateTime::from_timestamp(secs, 0)` and renders the date it gives
/// with `format("%Y-%m-%d")`. Claimed of chrono: the text is the named one, and
/// every timestamp from the epoch to the end of year 9999 has a date. Which
/// timestamps beyond that have none is left unsaid.
#[verifier::external_body]
fn utc_date_from_timestamp(secs: i64) -> (r: Option<String>)
    ensures
        0 <= secs <= LAST_FOUR_DIGIT_YEAR_SECOND ==> r is Some,
        match r {
            Some(s) => utc_date_text(secs) == Some(s@),
            None => utc_date_text(secs) is None,
        },
{
    match DateTime::from_timestamp(secs, 0) {
        Some(d) => Some(d.format("%Y-%m-%d").to_string()),
        None => None,
    }
}

/// The date folder name for a timestamp: its UTC date, or the epoch's date when the
/// timestamp (read as a signed number) has none.
pub open spec fn date_folder_text(timestamp: u64) -> Seq<char> {
    match utc_date_text(timestamp as i64) {
        Some(t) => t,
        None => utc_date_text(0)->0,
    }
}

/// Renders a unix timestamp as the "YYYY-MM-DD" name of its UTC date.
pub fn format_date_from_timestamp(timestamp: u64) -> (s: String)
    ensures
        s@ == date_folder_text(timestamp),
{
    let secs: i64 = timestamp as i64;
    match utc_date_from_timestamp(secs) {
        Some(s) => s,
        None => {
            let epoch = utc_date_from_timestamp(0);
            match epoch {
                Some(s) => s,
                None => {
                    assert(false);
                    String::new()
                },
            }
        },
    }
}

/// Why an export location could not be chosen.
#[derive(Clone, Copy, Debug, PartialEq, Eq, Structural)]
pub enum ExportError {
    /// No custom path was given and the local data directory is unknown.
    NoDataDirectory,
}

/// The file formats a battle can be exported in.
#[derive(Clone, Copy, Debug, PartialEq, Eq, Structural)]
pub enum ExportFormat {
    /// The export document.
    Json,
    /// The chart table.
    Csv,
}

/// The format named `format`: "json" or "csv"; no other name is supported.
pub fn parse_export_format(format: &str) -> (r: Option<ExportFormat>)
    ensures
        r == (if format@ == "json"@ {
            Some(ExportFormat::Json)
        } else if format@ == "csv"@ {
            Some(ExportFormat::Csv)
        } else {
            None::<ExportFormat>
        }),
{
    if str_eq(format, "json") {
        Some(ExportFormat::Json)
    } else if str_eq(format, "csv") {
        Some(ExportFormat::Csv)
    } else {
        None
    }
}

/// The folder battle data goes to, as path segments: the custom path, or the local
/// data directory followed by the package name and "battledata"; then, when asked
/// for, a folder named after the date.
pub open spec fn export_segments(
    custom_path: Option<Seq<char>>,
    data_local_dir: Option<Seq<char>>,
    auto_create_date_folders: bool,
    timestamp: u64,
    package_name: Seq<char>,
) -> Option<Seq<Seq<char>>> {
    let base = match custom_path {
        Some(c) => Some(seq![c]),
        None => match data_local_dir {
            Some(d) => Some(seq![d, package_name, "battledata"@]),
            None => None,
        },
    };
    match base {
        Some(b) => Some(if auto_create_date_folders { b.push(date_folder_text(timestamp)) } else { b }),
        None => None,
    }
}

/// The views of a list of strings.
pub open spec fn string_views(v: Seq<String>) -> Seq<Seq<char>> {
    Seq::new(v.len(), |i: int| v[i]@)
}

/// Chooses where battle data is exported to, as path segments to be joined; see
/// [`export_segments`]. Creating the folder is left to the caller.
pub fn plan_export_directory(
    custom_path: Option<&str>,
    data_local_dir: Option<&str>,
    auto_create_date_folders: bool,
    timestamp: u64,
    package_name: &str,
) -> (r: Result<Vec<String>, ExportError>)
    ensures
        match r {
            Ok(segs) => export_segments(
                match custom_path { Some(c) => Some(c@), None => None },
                match data_local_dir { Some(d) => Some(d@), None => None },
                auto_create_date_folders,
                timestamp,
                package_name@,
            ) == Some(string_views(segs@)),
            Err(e) => e == ExportError::NoDataDirectory && custom_path is None && data_local_dir is None,
        },
{
    let mut segs: Vec<String> = Vec::new();
    match custom_path {
        Some(c) => {
            segs.push(String::from_str(c));
        },
        None => match data_local_dir {
            Some(d) => {
                segs.push(String::from_str(d));
                segs.push(String::from_str(package_name));
                segs.push(String::from_str("battledata"));
            },
            None => {
                return Err(ExportError::NoDataDirectory);
            },
        },
    }
    let ghost base = string_views(segs@);
    if auto_create_date_folders {
        segs.push(format_date_from_timestamp(timestamp));
        proof {
            assert(string_views(segs@) =~= base.push(date_folder_text(timestamp)));
        }
    }
    proof {
        match custom_path {
            Some(c) => {
                assert(base =~= seq![c@]);
            },
            None => {
                assert(base =~= seq![data_local_dir->0@, package_name@, "battledata"@]);
            },
        }
    }
    Ok(segs)
}

/// One lineup avatar as exported.
#[derive(Clone, Copy, Debug, PartialEq, Eq, Structural)]
pub struct ExportAvatarBattleInfo {
    pub avatar_id: u32,
    pub is_die: bool,
}

/// One turn as exported: who took it (or -1 for the opening entry), at which action
/// value, wave and cycle.
#[derive(Clone, Copy, Debug)]
pub struct ExportTurnBattleInfo<N> {
    pub avatar_id: i32,
    pub action_value: N,
    pub wave_index: u32,
    pub cycle_index: u32,
}

/// One damage instance of a skill use as exported.
#[derive(Clone, Debug)]
pub struct ExportDamageDetail<N> {
    pub damage: N,
    pub overkill_damage: N,
    pub damage_type: String,
}

/// One skill use as exported.
#[derive(Debug)]
pub struct ExportSkillBattleInfo<N> {
    pub avatar_id: u32,
    pub damage_detail: Vec<ExportDamageDetail<N>>,
    pub total_damage: N,
    pub skill_type: String,
    pub skill_name: String,
    pub turn_battle_id: u32,
}

/// A snapshot of stats, taken at a turn.
#[derive(Debug)]
pub struct ExportStatsHistory<N> {
    pub stats: Vec<(String, N)>,
    pub turn_battle_id: u32,
}

/// An avatar's details as exported.
#[derive(Debug)]
pub struct ExportAvatarDetail<N> {
    pub id: u32,
    pub is_die: bool,
    pub killer_uid: i32,
    pub stats: Vec<(String, N)>,
    pub stats_history: Vec<ExportStatsHistory<N>>,
}

/// An enemy's details as exported.
#[derive(Debug)]
pub struct ExportEnemyDetail<N> {
    pub id: u32,
    pub is_die: bool,
    pub killer_uid: i32,
    pub position_index: u32,
    pub wave_index: u32,
    pub name: String,
    pub max_hp: N,
    pub level: u32,
    pub stats: Vec<(String, N)>,
    pub stats_history: Vec<ExportStatsHistory<N>>,
}

/// An enemy described on its own, in the export's vocabulary.
#[derive(Debug)]
pub struct ExportEnemyInfo<N> {
    pub id: u32,
    pub name: String,
    pub max_hp: N,
    pub level: u32,
    pub is_die: bool,
    pub position_index: u32,
    pub wave_index: u32,
    pub killer_uid: i32,
    pub stats: Vec<(String, N)>,
    pub stats_history: Vec<ExportStatsHistory<N>>,
}

/// A whole battle as exported. Avatar details are keyed by avatar id and enemy
/// details by enemy uid.
#[derive(Debug)]
pub struct ExportBattleData<N> {
    pub lineup: Vec<ExportAvatarBattleInfo>,
    pub turn_history: Vec<ExportTurnBattleInfo<N>>,
    pub skill_history: Vec<ExportSkillBattleInfo<N>>,
    pub total_av: N,
    pub total_damage: N,
    pub damage_per_av: N,
    pub cycle_index: u32,
    pub wave_index: u32,
    pub max_wave: u32,
    pub max_cycle: u32,
    pub version: String,
    pub avatar_detail: HashMap<u32, ExportAvatarDetail<N>>,
    pub enemy_detail: HashMap<u32, ExportEnemyDetail<N>>,
}

/// Shapes a tracked battle into its export form.
#[derive(Clone, Copy, Debug)]
pub struct BattleDataExporter;

impl Default for BattleDataExporter {
    /// The exporter.
    fn default() -> (r: Self)
        ensures
            r == BattleDataExporter,
    {
        BattleDataExporter
    }
}

/// The stats an export carries, in this order.
pub open spec fn tracked_stat_names() -> Seq<Seq<char>> {
    seq!["CurrentHP"@, "MaxHP"@, "Attack"@, "Defence"@, "Speed"@, "ActionDelay"@]
}

/// The tracked stats among `props` that have a value, in tracked order.
pub open spec fn picked_stats<N>(props: Seq<(String, N)>, names: Seq<Seq<char>>) -> Seq<(Seq<char>, N)>
    decreases names.len(),
{
    if names.len() == 0 {
        seq![]
    } else {
        let prev = picked_stats(props, names.drop_last());
        match stat_lookup(props, names.last()) {
            Some(v) => prev.push((names.last(), v)),
            None => prev,
        }
    }
}

/// Stats as (name, value) views.
pub open spec fn stat_views<N>(stats: Seq<(String, N)>) -> Seq<(Seq<char>, N)> {
    Seq::new(stats.len(), |i: int| (stats[i].0@, stats[i].1))
}

/// The stats exported for a combatant found (or not) among `holders` by uid.
pub open spec fn holder_stats<N>(holders: Seq<BattleEntity<N>>, uid: u32) -> Seq<(Seq<char>, N)> {
    if exists|i: int| first_entity_at(holders, uid, i) {
        let i = choose|i: int| first_entity_at(holders, uid, i);
        picked_stats(holders[i].properties@, tracked_stat_names())
    } else {
        seq![]
    }
}

/// `history` is the export's stats history for `stats`: empty for no stats, else
/// one snapshot at turn 0.
pub open spec fn stats_history_of<N>(stats: Seq<(Seq<char>, N)>, history: Seq<ExportStatsHistory<N>>) -> bool {
    if stats.len() == 0 {
        history.len() == 0
    } else {
        &&& history.len() == 1
        &&& stat_views(history[0].stats@) == stats
        &&& history[0].turn_battle_id == 0
    }
}

/// `out` exports the skill use `skill`.
pub open spec fn skill_exported<N>(skill: SkillHistoryEntry<N>, out: ExportSkillBattleInfo<N>) -> bool {
    &&& out.avatar_id == skill.avatar_id
    &&& out.total_damage == skill.total_damage
    &&& out.skill_type@ == skill.skill_type@
    &&& out.skill_name@ == skill.skill_name@
    &&& out.turn_battle_id == skill.turn_battle_id
    &&& out.damage_detail@.len() == skill.damage_detail@.len()
    &&& forall|j: int| 0 <= j < out.damage_detail@.len() ==> {
        &&& (#[trigger] out.damage_detail@[j]).damage == skill.damage_detail@[j].0
        &&& out.damage_detail@[j].overkill_damage == skill.damage_detail@[j].1
        &&& out.damage_detail@[j].damage_type@ == skill.damage_detail@[j].2@
    }
}

impl BattleDataExporter {
    /// Turn id given to the opening entry of the turn history.
    pub const INITIAL_TURN_ID: i32 = -1;

    /// Killer uid recorded when nobody is known to have defeated a combatant.
    pub const DEFAULT_KILLER_ID: i32 = -1;

    /// Turn id of the only stats snapshot an export carries.
    pub const INITIAL_TURN_BATTLE_ID: u32 = 0;

    /// An exporter.
    pub fn new() -> (r: Self)
        ensures
            r == BattleDataExporter,
    {
        BattleDataExporter
    }

    /// The tracked stats among `properties` that have a value, in tracked order.
    pub fn build_stats_map<N: Copy>(properties: &BattleStats<N>) -> (r: Vec<(String, N)>)
        ensures
            stat_views(r@) == picked_stats(properties@, tracked_stat_names()),
    {
        let names: [&str; 6] = ["CurrentHP", "MaxHP", "Attack", "Defence", "Speed", "ActionDelay"];
        let mut out: Vec<(String, N)> = Vec::new();
        let mut i: usize = 0;
        while i < 6
            invariant
                i <= 6,
                forall|k: int| 0 <= k < 6 ==> #[trigger] names@[k]@ == tracked_stat_names()[k],
                stat_views(out@) == picked_stats(properties@, tracked_stat_names().subrange(0, i as int)),
            decreases 6 - i,
        {
            let name = names[i];
            let got = properties.get_value(name);
            let ghost before = out@;
            proof {
                assert(tracked_stat_names().subrange(0, i + 1).drop_last() =~= tracked_stat_names().subrange(0, i as int));
            }
            match got {
                Some(v) => {
                    out.push((String::from_str(name), v));
                    proof {
                        assert(stat_views(out@) =~= stat_views(before).push((name@, v)));
                    }
                },
                None => {},
            }
            i = i + 1;
        }
        proof {
            assert(tracked_stat_names().subrange(0, 6) =~= tracked_stat_names());
        }
        out
    }

    /// The stats history an export carries for `stats`: nothing when there are no
    /// stats, else one snapshot at the initial turn.
    pub fn create_stats_history<N: Copy>(stats: &Vec<(String, N)>) -> (r: Vec<ExportStatsHistory<N>>)
        ensures
            stats_history_of(stat_views(stats@), r@),
    {
        if stats.len() == 0 {
            Vec::new()
        } else {
            let copy = copy_stats(stats);
            let mut out = Vec::new();
            out.push(ExportStatsHistory { stats: copy, turn_battle_id: Self::INITIAL_TURN_BATTLE_ID });
            out
        }
    }
}

/// `out` lists the lineup avatars, none defeated.
pub open spec fn lineup_exported(lineup: Seq<crate::types::Avatar>, out: Seq<ExportAvatarBattleInfo>) -> bool {
    &&& out.len() == lineup.len()
    &&& forall|i: int| 0 <= i < out.len() ==> #[trigger] out[i] == (ExportAvatarBattleInfo { avatar_id: lineup[i].id, is_die: false })
}

/// The export entry of one recorded turn.
pub open spec fn turn_entry<N>(t: (Entity, N, u32, u32)) -> ExportTurnBattleInfo<N> {
    ExportTurnBattleInfo { avatar_id: t.0.uid as i32, action_value: t.1, wave_index: t.2, cycle_index: t.3 }
}

/// `out` is the exported turn history: an opening entry (turn id -1, action value
/// `zero`, the current wave and the highest cycle) and then every recorded turn.
pub open spec fn turns_exported<N>(
    turns: Seq<(Entity, N, u32, u32)>,
    wave: u32,
    max_cycle: u32,
    zero: N,
    out: Seq<ExportTurnBattleInfo<N>>,
) -> bool {
    &&& out.len() == turns.len() + 1
    &&& out[0] == (ExportTurnBattleInfo { avatar_id: -1i32, action_value: zero, wave_index: wave, cycle_index: max_cycle })
    &&& forall|k: int| 0 <= k < turns.len() ==> #[trigger] out[k + 1] == turn_entry(turns[k])
}

/// `d` is the exported detail of the lineup avatar `id`.
pub open spec fn avatar_detail_of<N>(holders: Seq<BattleEntity<N>>, id: u32, d: ExportAvatarDetail<N>) -> bool {
    &&& d.id == id
    &&& !d.is_die
    &&& d.killer_uid == -1
    &&& stat_views(d.stats@) == holder_stats(holders, id)
    &&& stats_history_of(stat_views(d.stats@), d.stats_history@)
}

/// `out` holds the details of exactly the avatars of the lineup, by id.
pub open spec fn avatar_details_exported<N>(
    lineup: Seq<crate::types::Avatar>,
    holders: Seq<BattleEntity<N>>,
    out: Map<u32, ExportAvatarDetail<N>>,
) -> bool {
    &&& forall|id: u32| #[trigger] out.contains_key(id) <==> exists|i: int| 0 <= i < lineup.len() && lineup[i].id == id
    &&& forall|id: u32| #[trigger] out.contains_key(id) ==> avatar_detail_of(holders, id, out[id])
}

/// `i` is the last enemy with uid `uid`.
pub open spec fn last_enemy_at<N>(enemies: Seq<crate::types::Enemy<N>>, uid: u32, i: int) -> bool {
    &&& 0 <= i < enemies.len()
    &&& enemies[i].uid == uid
    &&& forall|j: int| i < j < enemies.len() ==> #[trigger] enemies[j].uid != uid
}

/// `d` is the exported detail of the enemy at position `i`.
pub open spec fn enemy_detail_of<N, L: Fn(N) -> u32>(
    enemies: Seq<crate::types::Enemy<N>>,
    holders: Seq<BattleEntity<N>>,
    wave: u32,
    zero: N,
    level_of: L,
    i: int,
    d: ExportEnemyDetail<N>,
) -> bool {
    let e = enemies[i];
    &&& d.id == e.id
    &&& !d.is_die
    &&& d.killer_uid == -1
    &&& d.position_index == i as u32
    &&& d.wave_index == wave
    &&& d.name@ == e.name@
    &&& d.max_hp == (match stat_lookup(e.base_stats@, "MaxHP"@) { Some(v) => v, None => zero })
    &&& level_of.ensures((match stat_lookup(e.base_stats@, "Level"@) { Some(v) => v, None => zero },), d.level)
    &&& stat_views(d.stats@) == holder_stats(holders, e.uid)
    &&& stats_history_of(stat_views(d.stats@), d.stats_history@)
}

/// `out` holds the details of exactly the enemies, by uid; where two enemies share
/// a uid, the later one's.
pub open spec fn enemy_details_exported<N, L: Fn(N) -> u32>(
    enemies: Seq<crate::types::Enemy<N>>,
    holders: Seq<BattleEntity<N>>,
    wave: u32,
    zero: N,
    level_of: L,
    out: Map<u32, ExportEnemyDetail<N>>,
) -> bool {
    &&& forall|uid: u32| #[trigger] out.contains_key(uid) <==> exists|i: int| 0 <= i < enemies.len() && enemies[i].uid == uid
    &&& forall|uid: u32| #[trigger] out.contains_key(uid) ==> exists|i: int|
        last_enemy_at(enemies, uid, i) && enemy_detail_of(enemies, holders, wave, zero, level_of, i, out[uid])
}

/// The exported stats of the combatant with uid `uid`, read from the first stat
/// holder with that uid; none when nobody holds it.
fn stats_for<N: Copy>(holders: &Vec<BattleEntity<N>>, uid: u32) -> (r: Vec<(String, N)>)
    ensures
        stat_views(r@) == holder_stats(holders@, uid),
{
    let mut i: usize = 0;
    while i < holders.len()
        invariant
            i <= holders@.len(),
            forall|j: int| 0 <= j < i ==> #[trigger] holders@[j].entity.uid != uid,
        decreases holders@.len() - i,
    {
        if holders[i].entity.uid == uid {
            proof {
                assert(first_entity_at(holders@, uid, i as int));
                crate::battle::lemma_first_entity_unique(holders@, uid, i as int);
            }
            return BattleDataExporter::build_stats_map(&holders[i].properties);
        }
        i = i + 1;
    }
    proof {
        assert(!exists|k: int| first_entity_at(holders@, uid, k));
        assert(stat_views(Seq::<(String, N)>::empty()) =~= Seq::<(Seq<char>, N)>::empty());
    }
    Vec::new()
}

/// Exports one skill use.
fn export_skill<N: Copy>(skill: &SkillHistoryEntry<N>) -> (r: ExportSkillBattleInfo<N>)
    ensures
        skill_exported(*skill, r),
{
    let mut details: Vec<ExportDamageDetail<N>> = Vec::new();
    let mut j: usize = 0;
    while j < skill.damage_detail.len()
        invariant
            j <= skill.damage_detail@.len(),
            details@.len() == j,
            forall|m: int| 0 <= m < j ==> {
                &&& (#[trigger] details@[m]).damage == skill.damage_detail@[m].0
                &&& details@[m].overkill_damage == skill.damage_detail@[m].1
                &&& details@[m].damage_type@ == skill.damage_detail@[m].2@
            },
        decreases skill.damage_detail@.len() - j,
    {
        let d = ExportDamageDetail {
            damage: skill.damage_detail[j].0,
            overkill_damage: skill.damage_detail[j].1,
            damage_type: skill.damage_detail[j].2.clone(),
        };
        details.push(d);
        j = j + 1;
    }
    ExportSkillBattleInfo {
        avatar_id: skill.avatar_id,
        damage_detail: details,
        total_damage: skill.total_damage,
        skill_type: skill.skill_type.clone(),
        skill_name: skill.skill_name.clone(),
        turn_battle_id: skill.turn_battle_id,
    }
}

impl BattleDataExporter {
    /// Shapes a tracked battle into its export form. `version` is stamped on it;
    /// the damage per action value is `div(total, action value)` when `positive`
    /// holds of the action value and `zero` otherwise; an enemy's level is
    /// `level_of` applied to its base "Level" stat (`zero` when missing).
    pub fn export_battle_data<N: Copy, G: Fn(N) -> bool, D: Fn(N, N) -> N, L: Fn(N) -> u32>(
        &self,
        battle_context: &BattleContext<N>,
        version: &str,
        zero: N,
        positive: &G,
        div: &D,
        level_of: &L,
    ) -> (r: ExportBattleData<N>)
        requires
            forall|x: N| #[trigger] positive.requires((x,)),
            forall|x: N, y: N| #[trigger] div.requires((x, y)),
            forall|x: N| #[trigger] level_of.requires((x,)),
        ensures
            lineup_exported(battle_context.avatar_lineup@, r.lineup@),
            turns_exported(battle_context.entity_turn_history@, battle_context.wave, battle_context.max_cycle, zero, r.turn_history@),
            r.skill_history@.len() == battle_context.skill_history@.len(),
            forall|k: int| 0 <= k < r.skill_history@.len() ==> skill_exported(battle_context.skill_history@[k], #[trigger] r.skill_history@[k]),
            r.total_av == battle_context.action_value,
            r.total_damage == battle_context.total_damage,
            exists|p: bool| positive.ensures((battle_context.action_value,), p) && (if p {
                div.ensures((battle_context.total_damage, battle_context.action_value), r.damage_per_av)
            } else {
                r.damage_per_av == zero
            }),
            r.cycle_index == battle_context.cycle,
            r.wave_index == battle_context.wave,
            r.max_wave == battle_context.max_waves,
            r.max_cycle == battle_context.max_cycle,
            r.version@ == version@,
            avatar_details_exported(battle_context.avatar_lineup@, battle_context.battle_avatars@, r.avatar_detail@),
            enemy_details_exported(battle_context.enemies@, battle_context.battle_enemies@, battle_context.wave, zero, *level_of, r.enemy_detail@),
    {
        let ctx = battle_context;

        let mut lineup: Vec<ExportAvatarBattleInfo> = Vec::new();
        let mut i: usize = 0;
        while i < ctx.avatar_lineup.len()
            invariant
                i <= ctx.avatar_lineup@.len(),
                lineup@.len() == i,
                forall|k: int| 0 <= k < i ==> #[trigger] lineup@[k] == (ExportAvatarBattleInfo { avatar_id: ctx.avatar_lineup@[k].id, is_die: false }),
            decreases ctx.avatar_lineup@.len() - i,
        {
            lineup.push(ExportAvatarBattleInfo { avatar_id: ctx.avatar_lineup[i].id, is_die: false });
            i = i + 1;
        }

        let mut turn_history: Vec<ExportTurnBattleInfo<N>> = Vec::new();
        turn_history.push(ExportTurnBattleInfo {
            avatar_id: Self::INITIAL_TURN_ID,
            action_value: zero,
            wave_index: ctx.wave,
            cycle_index: ctx.max_cycle,
        });
        let mut t: usize = 0;
        while t < ctx.entity_turn_history.len()
            invariant
                t <= ctx.entity_turn_history@.len(),
                turn_history@.len() == t + 1,
                turn_history@[0] == (ExportTurnBattleInfo { avatar_id: -1i32, action_value: zero, wave_index: ctx.wave, cycle_index: ctx.max_cycle }),
                forall|k: int| 0 <= k < t ==> #[trigger] turn_history@[k + 1] == turn_entry(ctx.entity_turn_history@[k]),
            decreases ctx.entity_turn_history@.len() - t,
        {
            let entry = ctx.entity_turn_history[t];
            turn_history.push(ExportTurnBattleInfo {
                avatar_id: entry.0.uid as i32,
                action_value: entry.1,
                wave_index: entry.2,
                cycle_index: entry.3,
            });
            t = t + 1;
        }

        let mut skill_history: Vec<ExportSkillBattleInfo<N>> = Vec::new();
        let mut k: usize = 0;
        while k < ctx.skill_history.len()
            invariant
                k <= ctx.skill_history@.len(),
                skill_history@.len() == k,
                forall|m: int| 0 <= m < k ==> skill_exported(ctx.skill_history@[m], #[trigger] skill_history@[m]),
            decreases ctx.skill_history@.len() - k,
        {
            skill_history.push(export_skill(&ctx.skill_history[k]));
            k = k + 1;
        }

        let mut avatar_detail: HashMap<u32, ExportAvatarDetail<N>> = HashMap::new();
        let mut a: usize = 0;
        while a < ctx.avatar_lineup.len()
            invariant
                a <= ctx.avatar_lineup@.len(),
                avatar_details_exported(ctx.avatar_lineup@.subrange(0, a as int), ctx.battle_avatars@, avatar_detail@),
            decreases ctx.avatar_lineup@.len() - a,
        {
            let id: u32 = ctx.avatar_lineup[a].id;
            let stats = stats_for(&ctx.battle_avatars, id);
            let stats_history = Self::create_stats_history(&stats);
            let ghost before = avatar_detail@;
            let detail = ExportAvatarDetail {
                id,
                is_die: false,
                killer_uid: Self::DEFAULT_KILLER_ID,
                stats,
                stats_history,
            };
            proof {
                assert(avatar_detail_of(ctx.battle_avatars@, id, detail));
            }
            avatar_detail.insert(id, detail);
            proof {
                let pre = ctx.avatar_lineup@.subrange(0, a as int);
                let sub = ctx.avatar_lineup@.subrange(0, a + 1);
                assert forall|k: u32| #[trigger] avatar_detail@.contains_key(k)
                    <==> exists|i: int| 0 <= i < sub.len() && sub[i].id == k by {
                    if avatar_detail@.contains_key(k) && k != id {
                        let i = choose|i: int| 0 <= i < pre.len() && pre[i].id == k;
                        assert(sub[i] == pre[i]);
                    }
                    if k == id {
                        assert(sub[a as int].id == id);
                    }
                    if exists|i: int| 0 <= i < sub.len() && sub[i].id == k {
                        let i = choose|i: int| 0 <= i < sub.len() && sub[i].id == k;
                        if i < a {
                            assert(pre[i] == sub[i]);
                        }
                    }
                }
            }
            a = a + 1;
        }
        proof {
            assert(ctx.avatar_lineup@.subrange(0, ctx.avatar_lineup@.len() as int) =~= ctx.avatar_lineup@);
        }

        let mut enemy_detail: HashMap<u32, ExportEnemyDetail<N>> = HashMap::new();
        let mut e: usize = 0;
        while e < ctx.enemies.len()
            invariant
                e <= ctx.enemies@.len(),
                forall|x: N| #[trigger] level_of.requires((x,)),
                enemy_details_exported(ctx.enemies@.subrange(0, e as int), ctx.battle_enemies@, ctx.wave, zero, *level_of, enemy_detail@),
            decreases ctx.enemies@.len() - e,
        {
            let enemy = &ctx.enemies[e];
            let stats = stats_for(&ctx.battle_enemies, enemy.uid);
            let stats_history = Self::create_stats_history(&stats);
            let max_hp = match enemy.base_stats.get_value("MaxHP") {
                Some(v) => v,
                None => zero,
            };
            let level_value = match enemy.base_stats.get_value("Level") {
                Some(v) => v,
                None => zero,
            };
            let level = level_of(level_value);
            let ghost before = enemy_detail@;
            let detail = ExportEnemyDetail {
                id: enemy.id,
                is_die: false,
                killer_uid: Self::DEFAULT_KILLER_ID,
                position_index: e as u32,
                wave_index: ctx.wave,
                name: enemy.name.clone(),
                max_hp,
                level,
                stats,
                stats_history,
            };
            let uid: u32 = enemy.uid;
            proof {
                let sub = ctx.enemies@.subrange(0, e + 1);
                assert(sub[e as int] == ctx.enemies@[e as int]);
                assert(enemy_detail_of(sub, ctx.battle_enemies@, ctx.wave, zero, *level_of, e as int, detail));
            }
            enemy_detail.insert(uid, detail);
            proof {
                let pre = ctx.enemies@.subrange(0, e as int);
                let sub = ctx.enemies@.subrange(0, e + 1);
                assert(last_enemy_at(sub, uid, e as int));
                assert forall|k: u32| #[trigger] enemy_detail@.contains_key(k)
                    <==> exists|i: int| 0 <= i < sub.len() && sub[i].uid == k by {
                    if enemy_detail@.contains_key(k) && k != uid {
                        let i = choose|i: int| 0 <= i < pre.len() && pre[i].uid == k;
                        assert(sub[i] == pre[i]);
                    }
                    if exists|i: int| 0 <= i < sub.len() && sub[i].uid == k {
                        let i = choose|i: int| 0 <= i < sub.len() && sub[i].uid == k;
                        if i < e {
                            assert(pre[i] == sub[i]);
                        }
                    }
                }
                assert forall|k: u32| #[trigger] enemy_detail@.contains_key(k) implies exists|i: int|
                    last_enemy_at(sub, k, i) && enemy_detail_of(sub, ctx.battle_enemies@, ctx.wave, zero, *level_of, i, enemy_detail@[k]) by {
                    if k != uid {
                        let i = choose|i: int| last_enemy_at(pre, k, i) && enemy_detail_of(pre, ctx.battle_enemies@, ctx.wave, zero, *level_of, i, before[k]);
                        assert(sub[i] == pre[i]);
                        assert(last_enemy_at(sub, k, i));
                        assert(enemy_detail_of(sub, ctx.battle_enemies@, ctx.wave, zero, *level_of, i, enemy_detail@[k]));
                    }
                }
            }
            e = e + 1;
        }
        proof {
            assert(ctx.enemies@.subrange(0, ctx.enemies@.len() as int) =~= ctx.enemies@);
        }

        let av_positive = positive(ctx.action_value);
        let damage_per_av = if av_positive {
            div(ctx.total_damage, ctx.action_value)
        } else {
            zero
        };

        ExportBattleData {
            lineup,
            turn_history,
            skill_history,
            total_av: ctx.action_value,
            total_damage: ctx.total_damage,
            damage_per_av,
            cycle_index: ctx.cycle,
            wave_index: ctx.wave,
            max_wave: ctx.max_waves,
            max_cycle: ctx.max_cycle,
            version: String::from_str(version),
            avatar_detail,
            enemy_detail,
        }
    }
}

/// A copy of a list of stats.
pub fn copy_stats<N: Copy>(stats: &Vec<(String, N)>) -> (r: Vec<(String, N)>)
    ensures
        stat_views(r@) == stat_views(stats@),
{
    let mut out: Vec<(String, N)> = Vec::new();
    let mut i: usize = 0;
    while i < stats.len()
        invariant
            i <= stats@.len(),
            out@.len() == i,
            stat_views(out@) == stat_views(stats@.subrange(0, i as int)),
        decreases stats@.len() - i,
    {
        let ghost before = out@;
        let name = stats[i].0.clone();
        out.push((name, stats[i].1));
        proof {
            let want = stat_views(stats@.subrange(0, i + 1));
            assert(stat_views(before) == stat_views(stats@.subrange(0, i as int)));
            assert forall|k: int| 0 <= k < i implies #[trigger] stat_views(out@)[k] == want[k] by {
                assert(stat_views(before)[k] == stat_views(stats@.subrange(0, i as int))[k]);
                assert(out@[k] == before[k]);
            }
            assert(stat_views(out@)[i as int] == want[i as int]);
            assert(stat_views(out@) =~= want);
        }
        i = i + 1;
    }
    proof {
        assert(stats@.subrange(0, stats@.len() as int) =~= stats@);
    }
    out
}

} // verus!
