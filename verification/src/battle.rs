use std::collections::BTreeMap;
use vstd::prelude::*;
use vstd::string::*;

use crate::attack::{
    attack_type_from_name, attack_type_rank, damage_type_label, display_damage_type, lemma_attack_type_rank,
    AttackType, ATTACK_TYPE_COUNT,
};
use crate::events::{
    Event, OnBattleBeginEvent, OnDamageEvent, OnEntityDefeatedEvent, OnInitializeEnemyEvent,
    OnSetLineupEvent, OnStatChangeEvent, OnTurnBeginEvent, OnUpdateCycleEvent,
    OnUpdateTeamFormationEvent, OnUpdateWaveEvent, OnUseSkillEvent,
};
use crate::types::{
    copy_values, filled, stat_lookup, Avatar, BattleEntity, BattleStats, Enemy, Entity, Property,
    TurnInfo, Team,
};

verus! {

broadcast use vstd::std_specs::btree::group_btree_axioms;

/// Game mode a stage belongs to.
#[derive(Clone, Copy, Debug, PartialEq, Eq, Structural)]
pub enum BattleMode {
    MOC,
    PF,
    AS,
    AA,
    Other,
}

/// Whether a battle is running or over.
#[derive(Clone, Copy, Debug, PartialEq, Eq, Structural)]
pub enum BattleState {
    Started,
    Ended,
}

/// Which mode a stage id belongs to.
pub open spec fn battle_mode_of(stage_id: u32) -> BattleMode {
    if 30010000 <= stage_id < 30500000 {
        let tail = stage_id % 100;
        if tail == 21 || tail == 22 {
            BattleMode::MOC
        } else if tail == 41 || tail == 42 {
            BattleMode::PF
        } else {
            BattleMode::Other
        }
    } else if 420101 <= stage_id <= 420999 {
        BattleMode::AS
    } else {
        BattleMode::Other
    }
}

/// Classifies a stage id into the battle mode it belongs to.
pub fn get_battle_mode(stage_id: u32) -> (mode: BattleMode)
    ensures
        mode == battle_mode_of(stage_id),
{
    if 30010000 <= stage_id && stage_id < 30500000 {
        let tail: u32 = stage_id % 100;
        if tail == 21 || tail == 22 {
            BattleMode::MOC
        } else if tail == 41 || tail == 42 {
            BattleMode::PF
        } else {
            BattleMode::Other
        }
    } else if 30500000 <= stage_id && stage_id <= 31000000 {
        BattleMode::Other
    } else if 420101 <= stage_id && stage_id <= 420999 {
        BattleMode::AS
    } else {
        BattleMode::Other
    }
}

/// One use of a skill and the damage it went on to deal.
#[derive(Debug)]
pub struct SkillHistoryEntry<N> {
    pub avatar_id: u32,
    pub skill_name: String,
    pub skill_type: String,
    pub total_damage: N,
    pub damage_detail: Vec<(N, N, String)>,
    pub turn_battle_id: u32,
}

/// Why an event could not be applied.
#[derive(Clone, Debug)]
pub enum BattleError {
    /// The event itself arrived as an error with this message.
    Event(String),
    /// Damage came from an avatar that is not in the lineup.
    AvatarNotInLineup(u32),
}

/// Where a damage event was credited and how its type is shown.
#[derive(Clone, Debug)]
pub struct DamageRecord {
    pub lineup_index: usize,
    pub attack_type: AttackType,
    pub label: String,
}

/// What applying an event produced.
#[derive(Debug)]
pub enum EventOutcome<N> {
    /// The event changed the tracked state as its handler describes.
    Applied,
    /// The event repeated the current cycle and was ignored.
    Ignored,
    /// Damage was credited as described.
    Damage(DamageRecord),
    /// A turn was closed; the flag tells whether it was folded into the previous
    /// action-value entry.
    TurnEnded(TurnInfo<N>, bool),
}

/// Two turn records hold the same values.
pub open spec fn same_turn<N>(a: TurnInfo<N>, b: TurnInfo<N>) -> bool {
    &&& a.action_value == b.action_value
    &&& a.cycle == b.cycle
    &&& a.wave == b.wave
    &&& a.avatars_turn_damage@ == b.avatars_turn_damage@
    &&& a.total_damage == b.total_damage
}

/// `v` is `old_v` with `d` added at slot `i` and every other slot kept.
pub open spec fn credited<N, A: Fn(N, N) -> N>(old_v: Seq<N>, v: Seq<N>, i: int, d: N, plus: A) -> bool {
    &&& v.len() == old_v.len()
    &&& forall|j: int| 0 <= j < v.len() && j != i ==> #[trigger] v[j] == old_v[j]
    &&& plus.ensures((old_v[i], d), v[i])
}

/// `row` is `old_row` with `d` added under the attack type of rank `rank`; a type
/// not yet listed starts from `zero`.
pub open spec fn category_credited<N, A: Fn(N, N) -> N>(
    old_row: Map<u32, N>,
    row: Map<u32, N>,
    rank: u32,
    d: N,
    zero: N,
    plus: A,
) -> bool {
    let base = if old_row.contains_key(rank) { old_row[rank] } else { zero };
    exists|v: N| plus.ensures((base, d), v) && row == old_row.insert(rank, v)
}

/// Every key of a breakdown is the rank of an attack type.
pub open spec fn breakdown_keys_valid<N>(row: Map<u32, N>) -> bool {
    forall|k: u32| #[trigger] row.contains_key(k) ==> k < ATTACK_TYPE_COUNT
}

/// `skills` is `old_skills` with the damage `d` (overkill `o`, shown as `label`)
/// credited to the most recent skill use of avatar `uid`, if it used one.
pub open spec fn skill_credited<N, A: Fn(N, N) -> N>(
    old_skills: Seq<SkillHistoryEntry<N>>,
    skills: Seq<SkillHistoryEntry<N>>,
    uid: u32,
    d: N,
    o: N,
    label: Seq<char>,
    plus: A,
) -> bool {
    if exists|k: int| last_skill_at(old_skills, uid, k) {
        let k = choose|k: int| last_skill_at(old_skills, uid, k);
        let before = old_skills[k];
        let after = skills[k];
        &&& skills.len() == old_skills.len()
        &&& forall|j: int| 0 <= j < skills.len() && j != k ==> #[trigger] skills[j] == old_skills[j]
        &&& after.avatar_id == before.avatar_id
        &&& after.skill_name == before.skill_name
        &&& after.skill_type == before.skill_type
        &&& after.turn_battle_id == before.turn_battle_id
        &&& after.damage_detail@.len() == before.damage_detail@.len() + 1
        &&& forall|m: int| 0 <= m < before.damage_detail@.len() ==> #[trigger] after.damage_detail@[m] == before.damage_detail@[m]
        &&& after.damage_detail@[before.damage_detail@.len() as int].0 == d
        &&& after.damage_detail@[before.damage_detail@.len() as int].1 == o
        &&& after.damage_detail@[before.damage_detail@.len() as int].2@ == label
        &&& plus.ensures((before.total_damage, d), after.total_damage)
    } else {
        skills == old_skills
    }
}

/// `list` is `old_list` with property `p` recorded on the first entity with uid `uid`,
/// if there is one.
pub open spec fn stat_recorded<N: Copy>(old_list: Seq<BattleEntity<N>>, list: Seq<BattleEntity<N>>, uid: u32, p: Property<N>) -> bool {
    if exists|i: int| first_entity_at(old_list, uid, i) {
        let i = choose|i: int| first_entity_at(old_list, uid, i);
        &&& list.len() == old_list.len()
        &&& forall|j: int| 0 <= j < list.len() && j != i ==> #[trigger] list[j] == old_list[j]
        &&& list[i].entity == old_list[i].entity
        &&& list[i].properties.value_of(p.kind@) == Some(p.value)
        &&& forall|k: Seq<char>| k != p.kind@ ==> #[trigger] list[i].properties.value_of(k) == old_list[i].properties.value_of(k)
    } else {
        list == old_list
    }
}

/// The first stat holder with uid `uid`.
fn find_entity<N>(list: &Vec<BattleEntity<N>>, uid: u32) -> (r: Option<usize>)
    ensures
        match r {
            Some(i) => first_entity_at(list@, uid, i as int),
            None => forall|j: int| 0 <= j < list@.len() ==> #[trigger] list@[j].entity.uid != uid,
        },
{
    let mut i: usize = 0;
    while i < list.len()
        invariant
            i <= list@.len(),
            forall|j: int| 0 <= j < i ==> #[trigger] list@[j].entity.uid != uid,
        decreases list@.len() - i,
    {
        if list[i].entity.uid == uid {
            return Some(i);
        }
        i = i + 1;
    }
    None
}

/// The most recent skill use of avatar `uid`.
fn find_last_skill<N>(skills: &Vec<SkillHistoryEntry<N>>, uid: u32) -> (r: Option<usize>)
    ensures
        match r {
            Some(k) => last_skill_at(skills@, uid, k as int),
            None => forall|j: int| 0 <= j < skills@.len() ==> #[trigger] skills@[j].avatar_id != uid,
        },
{
    let mut k: usize = skills.len();
    while k > 0
        invariant
            k <= skills@.len(),
            forall|j: int| k <= j < skills@.len() ==> #[trigger] skills@[j].avatar_id != uid,
        decreases k,
    {
        if skills[k - 1].avatar_id == uid {
            return Some(k - 1);
        }
        k = k - 1;
    }
    None
}

/// A first occurrence of a uid among stat holders is unique.
pub proof fn lemma_first_entity_unique<N>(list: Seq<BattleEntity<N>>, uid: u32, i: int)
    requires
        first_entity_at(list, uid, i),
    ensures
        forall|k: int| first_entity_at(list, uid, k) ==> k == i,
{
    assert forall|k: int| first_entity_at(list, uid, k) implies k == i by {
        if k < i {
            assert(list[k].entity.uid != uid);
        } else if k > i {
            assert(list[i].entity.uid != uid);
        }
    }
}

/// A most recent skill use of an avatar is unique.
pub proof fn lemma_last_skill_unique<N>(skills: Seq<SkillHistoryEntry<N>>, uid: u32, k: int)
    requires
        last_skill_at(skills, uid, k),
    ensures
        forall|m: int| last_skill_at(skills, uid, m) ==> m == k,
{
    assert forall|m: int| last_skill_at(skills, uid, m) implies m == k by {
        if m < k {
            assert(skills[k].avatar_id != uid);
        } else if m > k {
            assert(skills[m].avatar_id != uid);
        }
    }
}

/// The tracked state of the current battle. Numbers the game reports as
/// fractional (damage, action value, stats) are held as `N`; the tracker only
/// moves them around and combines them with the arithmetic it is handed.
#[derive(Debug)]
pub struct BattleContext<N> {
    pub state: Option<BattleState>,
    pub avatar_lineup: Vec<Avatar>,
    pub battle_avatars: Vec<BattleEntity<N>>,
    pub enemies: Vec<Enemy<N>>,
    pub enemy_lineup: Vec<Entity>,
    pub battle_enemies: Vec<BattleEntity<N>>,
    pub turn_history: Vec<TurnInfo<N>>,
    pub av_history: Vec<TurnInfo<N>>,
    pub entity_turn_history: Vec<(Entity, N, u32, u32)>,
    pub skill_history: Vec<SkillHistoryEntry<N>>,
    pub current_turn_battle_id: u32,
    /// Action value at the last wave change; only kept in MOC stages.
    pub last_wave_action_value: N,
    pub action_value: N,
    pub current_turn_info: TurnInfo<N>,
    pub turn_count: usize,
    pub total_damage: N,
    /// Damage per lineup slot.
    pub real_time_damages: Vec<N>,
    /// Damage per lineup slot, split by attack type, keyed by the type's rank.
    pub damage_by_category: Vec<BTreeMap<u32, N>>,
    /// Overkill damage per lineup slot.
    pub real_time_overkill_damages: Vec<N>,
    pub max_waves: u32,
    pub wave: u32,
    pub cycle: u32,
    pub max_cycle: u32,
    pub stage_id: u32,
    pub battle_mode: BattleMode,
}

/// `i` is the first lineup slot holding avatar `id`.
pub open spec fn first_avatar_at(lineup: Seq<Avatar>, id: u32, i: int) -> bool {
    &&& 0 <= i < lineup.len()
    &&& lineup[i].id == id
    &&& forall|j: int| 0 <= j < i ==> #[trigger] lineup[j].id != id
}

/// `k` is the most recent skill use by avatar `id`.
pub open spec fn last_skill_at<N>(skills: Seq<SkillHistoryEntry<N>>, id: u32, k: int) -> bool {
    &&& 0 <= k < skills.len()
    &&& skills[k].avatar_id == id
    &&& forall|j: int| k < j < skills.len() ==> #[trigger] skills[j].avatar_id != id
}

/// `i` is the first entity in `list` with uid `uid`.
pub open spec fn first_entity_at<N>(list: Seq<BattleEntity<N>>, uid: u32, i: int) -> bool {
    &&& 0 <= i < list.len()
    &&& list[i].entity.uid == uid
    &&& forall|j: int| 0 <= j < i ==> #[trigger] list[j].entity.uid != uid
}

/// `result` is what adding `xs` one by one onto `start` gives, with `plus` as the addition.
pub open spec fn running_sum<N, A: Fn(N, N) -> N>(plus: A, start: N, xs: Seq<N>, result: N) -> bool {
    exists|partial: Seq<N>|
        {
            &&& partial.len() == xs.len() + 1
            &&& partial[0] == start
            &&& partial[xs.len() as int] == result
            &&& forall|i: int| 0 <= i < xs.len() ==> #[trigger] plus.ensures((partial[i], xs[i]), partial[i + 1])
        }
}

impl<N: Copy> BattleContext<N> {
    /// Every per-slot record has one entry per lineup avatar, the lineup and the enemy
    /// list are mirrored by the stat holders, breakdowns list each attack type once,
    /// the highest cycle seen is at least the current one, and every skill use points
    /// at a turn that had already begun.
    pub open spec fn well_formed(&self) -> bool {
        let n = self.avatar_lineup@.len();
        &&& self.real_time_damages@.len() == n
        &&& self.real_time_overkill_damages@.len() == n
        &&& self.damage_by_category@.len() == n
        &&& self.current_turn_info.avatars_turn_damage@.len() == n
        &&& forall|t: int| 0 <= t < self.av_history@.len() ==> (#[trigger] self.av_history@[t]).avatars_turn_damage@.len() == n
        &&& forall|t: int| 0 <= t < self.turn_history@.len() ==> (#[trigger] self.turn_history@[t]).avatars_turn_damage@.len() == n
        &&& forall|i: int| 0 <= i < n ==> breakdown_keys_valid(#[trigger] self.damage_by_category@[i]@)
        &&& self.battle_avatars@.len() == n
        &&& forall|i: int| 0 <= i < n ==> (#[trigger] self.battle_avatars@[i]).entity.uid == self.avatar_lineup@[i].id
            && self.battle_avatars@[i].entity.team == Team::Player
        &&& self.battle_enemies@.len() == self.enemies@.len()
        &&& forall|i: int| 0 <= i < self.enemies@.len() ==> (#[trigger] self.battle_enemies@[i]).entity.uid == self.enemies@[i].uid
            && self.battle_enemies@[i].entity.team == Team::Enemy
        &&& self.cycle <= self.max_cycle
        &&& forall|k: int| 0 <= k < self.skill_history@.len() ==> (#[trigger] self.skill_history@[k]).turn_battle_id <= self.entity_turn_history@.len()
    }

    /// The combatants are unchanged between `a` and `b`.
    pub open spec fn same_roster(a: &Self, b: &Self) -> bool {
        &&& a.avatar_lineup == b.avatar_lineup
        &&& a.battle_avatars == b.battle_avatars
        &&& a.enemies == b.enemies
        &&& a.enemy_lineup == b.enemy_lineup
        &&& a.battle_enemies == b.battle_enemies
    }

    /// The recorded histories are unchanged between `a` and `b`.
    pub open spec fn same_history(a: &Self, b: &Self) -> bool {
        &&& a.turn_history == b.turn_history
        &&& a.av_history == b.av_history
        &&& a.entity_turn_history == b.entity_turn_history
        &&& a.skill_history == b.skill_history
    }

    /// The damage tallies are unchanged between `a` and `b`.
    pub open spec fn same_damage(a: &Self, b: &Self) -> bool {
        &&& a.total_damage == b.total_damage
        &&& a.real_time_damages == b.real_time_damages
        &&& a.damage_by_category == b.damage_by_category
        &&& a.real_time_overkill_damages == b.real_time_overkill_damages
        &&& a.current_turn_info == b.current_turn_info
    }

    /// Wave, cycle, counters, stage and state are unchanged between `a` and `b`.
    pub open spec fn same_progress(a: &Self, b: &Self) -> bool {
        &&& a.state == b.state
        &&& a.current_turn_battle_id == b.current_turn_battle_id
        &&& a.last_wave_action_value == b.last_wave_action_value
        &&& a.action_value == b.action_value
        &&& a.turn_count == b.turn_count
        &&& a.max_waves == b.max_waves
        &&& a.wave == b.wave
        &&& a.cycle == b.cycle
        &&& a.max_cycle == b.max_cycle
        &&& a.stage_id == b.stage_id
        &&& a.battle_mode == b.battle_mode
    }

    /// A tracker before any battle: nothing recorded, every number `zero`.
    pub fn new(zero: N) -> (ctx: Self)
        ensures
            ctx.well_formed(),
            ctx.state is None,
            ctx.avatar_lineup@.len() == 0,
            ctx.battle_avatars@.len() == 0,
            ctx.enemies@.len() == 0,
            ctx.enemy_lineup@.len() == 0,
            ctx.battle_enemies@.len() == 0,
            ctx.real_time_damages@.len() == 0,
            ctx.real_time_overkill_damages@.len() == 0,
            ctx.damage_by_category@.len() == 0,
            ctx.current_turn_info.action_value == zero,
            ctx.current_turn_info.wave == 0,
            ctx.current_turn_info.cycle == 0,
            ctx.current_turn_info.avatars_turn_damage@.len() == 0,
            ctx.current_turn_info.total_damage == zero,
            ctx.turn_history@.len() == 0,
            ctx.av_history@.len() == 0,
            ctx.entity_turn_history@.len() == 0,
            ctx.skill_history@.len() == 0,
            ctx.current_turn_battle_id == 0,
            ctx.turn_count == 0,
            ctx.total_damage == zero,
            ctx.action_value == zero,
            ctx.last_wave_action_value == zero,
            ctx.max_waves == 0 && ctx.wave == 0 && ctx.cycle == 0 && ctx.max_cycle == 0,
            ctx.stage_id == 0,
            ctx.battle_mode == BattleMode::Other,
    {
        BattleContext {
            state: None,
            avatar_lineup: Vec::new(),
            battle_avatars: Vec::new(),
            enemies: Vec::new(),
            enemy_lineup: Vec::new(),
            battle_enemies: Vec::new(),
            turn_history: Vec::new(),
            av_history: Vec::new(),
            entity_turn_history: Vec::new(),
            skill_history: Vec::new(),
            current_turn_battle_id: 0,
            last_wave_action_value: zero,
            action_value: zero,
            current_turn_info: TurnInfo::new(zero),
            turn_count: 0,
            total_damage: zero,
            real_time_damages: Vec::new(),
            damage_by_category: Vec::new(),
            real_time_overkill_damages: Vec::new(),
            max_waves: 0,
            wave: 0,
            cycle: 0,
            max_cycle: 0,
            stage_id: 0,
            battle_mode: BattleMode::Other,
        }
    }

    /// Hands the battle's state (started or ended) out once, for the overlay to act
    /// on, and leaves none; nothing else changes.
    pub fn take_state(&mut self) -> (r: Option<BattleState>)
        requires
            old(self).well_formed(),
        ensures
            r == old(self).state,
            final(self).state is None,
            final(self).well_formed(),
            Self::same_roster(&*final(self), &*old(self)),
            Self::same_history(&*final(self), &*old(self)),
            Self::same_damage(&*final(self), &*old(self)),
            final(self).current_turn_battle_id == old(self).current_turn_battle_id,
            final(self).last_wave_action_value == old(self).last_wave_action_value,
            final(self).action_value == old(self).action_value,
            final(self).turn_count == old(self).turn_count,
            final(self).max_waves == old(self).max_waves,
            final(self).wave == old(self).wave,
            final(self).cycle == old(self).cycle,
            final(self).max_cycle == old(self).max_cycle,
            final(self).stage_id == old(self).stage_id,
            final(self).battle_mode == old(self).battle_mode,
    {
        let r = self.state;
        self.state = None;
        r
    }

    /// The first lineup slot holding avatar `avatar_id`.
    pub fn find_lineup_index_by_avatar_id(&self, avatar_id: u32) -> (r: Option<usize>)
        ensures
            match r {
                Some(i) => first_avatar_at(self.avatar_lineup@, avatar_id, i as int),
                None => forall|j: int| 0 <= j < self.avatar_lineup@.len() ==> #[trigger] self.avatar_lineup@[j].id != avatar_id,
            },
    {
        let mut i: usize = 0;
        while i < self.avatar_lineup.len()
            invariant
                i <= self.avatar_lineup@.len(),
                forall|j: int| 0 <= j < i ==> #[trigger] self.avatar_lineup@[j].id != avatar_id,
            decreases self.avatar_lineup@.len() - i,
        {
            if self.avatar_lineup[i].id == avatar_id {
                return Some(i);
            }
            i = i + 1;
        }
        None
    }

    /// Clears what one battle recorded: histories, enemies, tallies, counters,
    /// wave, cycle and stage. The lineup and the per-slot tallies are left for the
    /// caller to set.
    fn initialize_battle_context(&mut self, zero: N)
        ensures
            final(self).current_turn_info.action_value == zero,
            final(self).current_turn_info.cycle == 0,
            final(self).current_turn_info.wave == 0,
            final(self).current_turn_info.avatars_turn_damage@.len() == 0,
            final(self).current_turn_info.total_damage == zero,
            final(self).turn_history@.len() == 0,
            final(self).av_history@.len() == 0,
            final(self).entity_turn_history@.len() == 0,
            final(self).skill_history@.len() == 0,
            final(self).current_turn_battle_id == 0,
            final(self).enemies@.len() == 0,
            final(self).battle_enemies@.len() == 0,
            final(self).turn_count == 0,
            final(self).total_damage == zero,
            final(self).last_wave_action_value == zero,
            final(self).action_value == zero,
            final(self).damage_by_category@.len() == 0,
            final(self).max_waves == 0,
            final(self).max_cycle == 0,
            final(self).wave == 0,
            final(self).cycle == 0,
            final(self).stage_id == 0,
            final(self).state == old(self).state,
            final(self).avatar_lineup == old(self).avatar_lineup,
            final(self).battle_avatars == old(self).battle_avatars,
            final(self).enemy_lineup == old(self).enemy_lineup,
            final(self).real_time_damages == old(self).real_time_damages,
            final(self).real_time_overkill_damages == old(self).real_time_overkill_damages,
            final(self).battle_mode == old(self).battle_mode,
    {
        self.current_turn_info = TurnInfo::new(zero);
        self.turn_history = Vec::new();
        self.av_history = Vec::new();
        self.entity_turn_history = Vec::new();
        self.skill_history = Vec::new();
        self.current_turn_battle_id = 0;
        self.enemies = Vec::new();
        self.battle_enemies = Vec::new();
        self.turn_count = 0;
        self.total_damage = zero;
        self.last_wave_action_value = zero;
        self.action_value = zero;
        self.damage_by_category = Vec::new();
        self.max_waves = 0;
        self.max_cycle = 0;
        self.wave = 0;
        self.cycle = 0;
        self.stage_id = 0;
    }

    /// The effect of a battle-begin event.
    pub open spec fn battle_begin_post(old_ctx: &Self, ctx: &Self, e: OnBattleBeginEvent) -> bool {
        &&& ctx.max_waves == e.max_waves
        &&& ctx.battle_mode == battle_mode_of(e.stage_id)
        &&& Self::same_roster(ctx, old_ctx)
        &&& Self::same_history(ctx, old_ctx)
        &&& Self::same_damage(ctx, old_ctx)
        &&& ctx.state == old_ctx.state
        &&& ctx.current_turn_battle_id == old_ctx.current_turn_battle_id
        &&& ctx.last_wave_action_value == old_ctx.last_wave_action_value
        &&& ctx.action_value == old_ctx.action_value
        &&& ctx.turn_count == old_ctx.turn_count
        &&& ctx.wave == old_ctx.wave
        &&& ctx.cycle == old_ctx.cycle
        &&& ctx.max_cycle == old_ctx.max_cycle
        &&& ctx.stage_id == old_ctx.stage_id
    }

    /// Records the start of a battle: its wave count and the mode of its stage.
    /// The stage id itself is not stored.
    pub fn handle_on_battle_begin_event(&mut self, e: OnBattleBeginEvent)
        requires
            old(self).well_formed(),
        ensures
            final(self).well_formed(),
            Self::battle_begin_post(&*old(self), &*final(self), e),
    {
        self.max_waves = e.max_waves;
        self.battle_mode = get_battle_mode(e.stage_id);
    }

    /// The effect of a wave event.
    pub open spec fn wave_post(old_ctx: &Self, ctx: &Self, e: OnUpdateWaveEvent) -> bool {
        &&& ctx.wave == e.wave
        &&& ctx.last_wave_action_value == (if old_ctx.battle_mode == BattleMode::MOC {
            old_ctx.action_value
        } else {
            old_ctx.last_wave_action_value
        })
        &&& Self::same_roster(ctx, old_ctx)
        &&& Self::same_history(ctx, old_ctx)
        &&& Self::same_damage(ctx, old_ctx)
        &&& ctx.state == old_ctx.state
        &&& ctx.current_turn_battle_id == old_ctx.current_turn_battle_id
        &&& ctx.action_value == old_ctx.action_value
        &&& ctx.turn_count == old_ctx.turn_count
        &&& ctx.max_waves == old_ctx.max_waves
        &&& ctx.cycle == old_ctx.cycle
        &&& ctx.max_cycle == old_ctx.max_cycle
        &&& ctx.stage_id == old_ctx.stage_id
        &&& ctx.battle_mode == old_ctx.battle_mode
    }

    /// Records a new wave. In MOC stages the action value reached so far is kept
    /// as the value the wave started at.
    pub fn handle_on_update_wave_event(&mut self, e: OnUpdateWaveEvent)
        requires
            old(self).well_formed(),
        ensures
            final(self).well_formed(),
            Self::wave_post(&*old(self), &*final(self), e),
    {
        if self.battle_mode == BattleMode::MOC {
            self.last_wave_action_value = self.action_value;
        }
        self.wave = e.wave;
    }

    /// The effect of a lineup event: a fresh battle around `avatars`.
    pub open spec fn set_lineup_post(old_ctx: &Self, ctx: &Self, avatars: Vec<Avatar>, zero: N) -> bool {
        let n = avatars@.len();
        &&& ctx.state == Some(BattleState::Started)
        &&& ctx.avatar_lineup == avatars
        &&& ctx.real_time_damages@ == Seq::new(n, |i: int| zero)
        &&& ctx.real_time_overkill_damages@ == Seq::new(n, |i: int| zero)
        &&& ctx.current_turn_info.avatars_turn_damage@ == Seq::new(n, |i: int| zero)
        &&& ctx.current_turn_info.action_value == zero
        &&& ctx.current_turn_info.total_damage == zero
        &&& ctx.current_turn_info.wave == 0 && ctx.current_turn_info.cycle == 0
        &&& ctx.damage_by_category@.len() == n
        &&& forall|i: int| 0 <= i < n ==> (#[trigger] ctx.damage_by_category@[i])@ == Map::<u32, N>::empty()
        &&& ctx.battle_avatars@.len() == n
        &&& forall|i: int| 0 <= i < n ==> (#[trigger] ctx.battle_avatars@[i]).entity.uid == avatars@[i].id
            && ctx.battle_avatars@[i].entity.team == Team::Player
            && ctx.battle_avatars@[i].properties@.len() == 0
        &&& ctx.turn_history@.len() == 0
        &&& ctx.av_history@.len() == 0
        &&& ctx.entity_turn_history@.len() == 0
        &&& ctx.skill_history@.len() == 0
        &&& ctx.enemies@.len() == 0
        &&& ctx.battle_enemies@.len() == 0
        &&& ctx.current_turn_battle_id == 0
        &&& ctx.turn_count == 0
        &&& ctx.total_damage == zero
        &&& ctx.last_wave_action_value == zero
        &&& ctx.action_value == zero
        &&& ctx.max_waves == 0 && ctx.max_cycle == 0 && ctx.wave == 0 && ctx.cycle == 0
        &&& ctx.stage_id == 0
        &&& ctx.enemy_lineup == old_ctx.enemy_lineup
        &&& ctx.battle_mode == old_ctx.battle_mode
    }

    /// Starts a battle around a new lineup: everything one battle records is
    /// cleared, each lineup avatar gets an empty stat holder and one zeroed slot in
    /// every per-avatar tally.
    pub fn handle_on_set_lineup_event(&mut self, e: OnSetLineupEvent, zero: N)
        requires
            old(self).well_formed(),
        ensures
            final(self).well_formed(),
            Self::set_lineup_post(&*old(self), &*final(self), e.avatars, zero),
    {
        self.state = Some(BattleState::Started);
        self.initialize_battle_context(zero);
        let n: usize = e.avatars.len();
        self.current_turn_info.avatars_turn_damage = filled(zero, n);
        self.real_time_damages = filled(zero, n);
        let mut categories: Vec<BTreeMap<u32, N>> = Vec::new();
        let mut i: usize = 0;
        while i < n
            invariant
                i <= n,
                categories@.len() == i,
                forall|k: int| 0 <= k < i ==> (#[trigger] categories@[k])@ == Map::<u32, N>::empty(),
            decreases n - i,
        {
            categories.push(BTreeMap::new());
            i = i + 1;
        }
        self.damage_by_category = categories;
        self.real_time_overkill_damages = filled(zero, n);
        self.avatar_lineup = e.avatars;
        let mut battle_avatars: Vec<BattleEntity<N>> = Vec::new();
        let mut j: usize = 0;
        while j < self.avatar_lineup.len()
            invariant
                j <= self.avatar_lineup@.len(),
                battle_avatars@.len() == j,
                forall|k: int| 0 <= k < j ==> (#[trigger] battle_avatars@[k]).entity.uid == self.avatar_lineup@[k].id
                    && battle_avatars@[k].entity.team == Team::Player
                    && battle_avatars@[k].properties@.len() == 0,
            decreases self.avatar_lineup@.len() - j,
        {
            battle_avatars.push(BattleEntity {
                entity: Entity { uid: self.avatar_lineup[j].id, team: Team::Player },
                properties: BattleStats::new(),
            });
            j = j + 1;
        }
        self.battle_avatars = battle_avatars;
    }

    /// The effect of a cycle event.
    pub open spec fn cycle_post(old_ctx: &Self, ctx: &Self, e: OnUpdateCycleEvent) -> bool {
        &&& ctx.cycle == e.cycle
        &&& ctx.max_cycle == (if e.cycle > old_ctx.max_cycle { e.cycle } else { old_ctx.max_cycle })
        &&& Self::same_roster(ctx, old_ctx)
        &&& Self::same_history(ctx, old_ctx)
        &&& Self::same_damage(ctx, old_ctx)
        &&& ctx.state == old_ctx.state
        &&& ctx.current_turn_battle_id == old_ctx.current_turn_battle_id
        &&& ctx.last_wave_action_value == old_ctx.last_wave_action_value
        &&& ctx.action_value == old_ctx.action_value
        &&& ctx.turn_count == old_ctx.turn_count
        &&& ctx.max_waves == old_ctx.max_waves
        &&& ctx.wave == old_ctx.wave
        &&& ctx.stage_id == old_ctx.stage_id
        &&& ctx.battle_mode == old_ctx.battle_mode
    }

    /// Records a new cycle and raises the highest cycle seen when it is exceeded.
    pub fn handle_on_update_cycle_event(&mut self, e: OnUpdateCycleEvent)
        requires
            old(self).well_formed(),
        ensures
            final(self).well_formed(),
            Self::cycle_post(&*old(self), &*final(self), e),
    {
        self.cycle = e.cycle;
        if e.cycle > self.max_cycle {
            self.max_cycle = e.cycle;
        }
    }

    /// The effect of a turn-begin event.
    pub open spec fn turn_begin_post(old_ctx: &Self, ctx: &Self, e: OnTurnBeginEvent<N>) -> bool {
        &&& ctx.action_value == e.action_value
        &&& ctx.current_turn_info.action_value == e.action_value
        &&& ctx.current_turn_info.cycle == old_ctx.current_turn_info.cycle
        &&& ctx.current_turn_info.wave == old_ctx.current_turn_info.wave
        &&& ctx.current_turn_info.avatars_turn_damage == old_ctx.current_turn_info.avatars_turn_damage
        &&& ctx.current_turn_info.total_damage == old_ctx.current_turn_info.total_damage
        &&& ctx.current_turn_battle_id == old_ctx.current_turn_battle_id + 1
        &&& ctx.entity_turn_history@ == (match e.turn_owner {
            Some(owner) => old_ctx.entity_turn_history@.push((owner, e.action_value, old_ctx.wave, old_ctx.cycle)),
            None => old_ctx.entity_turn_history@,
        })
        &&& Self::same_roster(ctx, old_ctx)
        &&& ctx.turn_history == old_ctx.turn_history
        &&& ctx.av_history == old_ctx.av_history
        &&& ctx.skill_history == old_ctx.skill_history
        &&& ctx.total_damage == old_ctx.total_damage
        &&& ctx.real_time_damages == old_ctx.real_time_damages
        &&& ctx.damage_by_category == old_ctx.damage_by_category
        &&& ctx.real_time_overkill_damages == old_ctx.real_time_overkill_damages
        &&& ctx.state == old_ctx.state
        &&& ctx.last_wave_action_value == old_ctx.last_wave_action_value
        &&& ctx.turn_count == old_ctx.turn_count
        &&& ctx.max_waves == old_ctx.max_waves
        &&& ctx.wave == old_ctx.wave
        &&& ctx.cycle == old_ctx.cycle
        &&& ctx.max_cycle == old_ctx.max_cycle
        &&& ctx.stage_id == old_ctx.stage_id
        &&& ctx.battle_mode == old_ctx.battle_mode
    }

    /// Records the start of a turn: the action value reached, one more turn id, and,
    /// when the owner is known, who took the turn at which wave and cycle.
    pub fn handle_on_turn_begin_event(&mut self, e: OnTurnBeginEvent<N>)
        requires
            old(self).well_formed(),
            old(self).current_turn_battle_id < u32::MAX,
        ensures
            final(self).well_formed(),
            Self::turn_begin_post(&*old(self), &*final(self), e),
    {
        self.action_value = e.action_value;
        self.current_turn_info.action_value = e.action_value;
        self.current_turn_battle_id = self.current_turn_battle_id + 1;
        if let Some(owner) = e.turn_owner {
            let wave = self.wave;
            let cycle = self.cycle;
            self.entity_turn_history.push((owner, e.action_value, wave, cycle));
        }
    }

    /// The effect of a skill event.
    pub open spec fn use_skill_post(old_ctx: &Self, ctx: &Self, e: OnUseSkillEvent, zero: N) -> bool {
        let n = old_ctx.skill_history@.len();
        &&& ctx.skill_history@.len() == n + 1
        &&& forall|k: int| 0 <= k < n ==> #[trigger] ctx.skill_history@[k] == old_ctx.skill_history@[k]
        &&& ctx.skill_history@[n as int].avatar_id == e.avatar.uid
        &&& ctx.skill_history@[n as int].skill_name == e.skill.name
        &&& ctx.skill_history@[n as int].skill_type == e.skill.skill_type
        &&& ctx.skill_history@[n as int].total_damage == zero
        &&& ctx.skill_history@[n as int].damage_detail@.len() == 0
        &&& ctx.skill_history@[n as int].turn_battle_id == old_ctx.entity_turn_history@.len() as u32
        &&& Self::same_roster(ctx, old_ctx)
        &&& ctx.turn_history == old_ctx.turn_history
        &&& ctx.av_history == old_ctx.av_history
        &&& ctx.entity_turn_history == old_ctx.entity_turn_history
        &&& Self::same_damage(ctx, old_ctx)
        &&& Self::same_progress(ctx, old_ctx)
    }

    /// Opens a new skill entry for the avatar, tied to the number of turns taken so
    /// far; damage dealt afterwards by that avatar is credited to it.
    pub fn handle_on_use_skill_event(&mut self, e: OnUseSkillEvent, zero: N)
        requires
            old(self).well_formed(),
        ensures
            final(self).well_formed(),
            Self::use_skill_post(&*old(self), &*final(self), e, zero),
    {
        let len: usize = self.entity_turn_history.len();
        let turn_battle_id: u32 = len as u32;
        assert(turn_battle_id <= len) by (bit_vector)
            requires
                turn_battle_id == len as u32;
        self.skill_history.push(SkillHistoryEntry {
            avatar_id: e.avatar.uid,
            skill_name: e.skill.name,
            skill_type: e.skill.skill_type,
            total_damage: zero,
            damage_detail: Vec::new(),
            turn_battle_id,
        });
    }

    /// The effect of a team-formation event.
    pub open spec fn team_formation_post(old_ctx: &Self, ctx: &Self, e: OnUpdateTeamFormationEvent) -> bool {
        &&& ctx.enemy_lineup == (if e.team == Team::Enemy { e.entities } else { old_ctx.enemy_lineup })
        &&& ctx.avatar_lineup == old_ctx.avatar_lineup
        &&& ctx.battle_avatars == old_ctx.battle_avatars
        &&& ctx.enemies == old_ctx.enemies
        &&& ctx.battle_enemies == old_ctx.battle_enemies
        &&& Self::same_history(ctx, old_ctx)
        &&& Self::same_damage(ctx, old_ctx)
        &&& Self::same_progress(ctx, old_ctx)
    }

    /// Keeps the enemy formation; player formations are not recorded.
    pub fn handle_on_update_team_formation_event(&mut self, e: OnUpdateTeamFormationEvent)
        requires
            old(self).well_formed(),
        ensures
            final(self).well_formed(),
            Self::team_formation_post(&*old(self), &*final(self), e),
    {
        match e.team {
            Team::Player => {},
            Team::Enemy => {
                self.enemy_lineup = e.entities;
            },
        }
    }

    /// The effect of an entity-defeated event: none.
    pub open spec fn entity_defeated_post(old_ctx: &Self, ctx: &Self) -> bool {
        &&& Self::same_roster(ctx, old_ctx)
        &&& Self::same_history(ctx, old_ctx)
        &&& Self::same_damage(ctx, old_ctx)
        &&& Self::same_progress(ctx, old_ctx)
    }

    /// A defeat is passed on to listeners; the tracked state does not change.
    pub fn handle_on_entity_defeated_event(&mut self, e: OnEntityDefeatedEvent)
        requires
            old(self).well_formed(),
        ensures
            final(self).well_formed(),
            Self::entity_defeated_post(&*old(self), &*final(self)),
    {
    }

    /// The effect of a battle-end event.
    pub open spec fn battle_end_post(old_ctx: &Self, ctx: &Self) -> bool {
        &&& ctx.state == Some(BattleState::Ended)
        &&& Self::same_roster(ctx, old_ctx)
        &&& Self::same_history(ctx, old_ctx)
        &&& Self::same_damage(ctx, old_ctx)
        &&& ctx.current_turn_battle_id == old_ctx.current_turn_battle_id
        &&& ctx.last_wave_action_value == old_ctx.last_wave_action_value
        &&& ctx.action_value == old_ctx.action_value
        &&& ctx.turn_count == old_ctx.turn_count
        &&& ctx.max_waves == old_ctx.max_waves
        &&& ctx.wave == old_ctx.wave
        &&& ctx.cycle == old_ctx.cycle
        &&& ctx.max_cycle == old_ctx.max_cycle
        &&& ctx.stage_id == old_ctx.stage_id
        &&& ctx.battle_mode == old_ctx.battle_mode
    }

    /// Marks the battle as over; everything recorded stays for export.
    pub fn handle_on_battle_end_event(&mut self)
        requires
            old(self).well_formed(),
        ensures
            final(self).well_formed(),
            Self::battle_end_post(&*old(self), &*final(self)),
    {
        self.state = Some(BattleState::Ended);
    }

    /// The effect of an enemy entering the battle.
    pub open spec fn initialize_enemy_post(old_ctx: &Self, ctx: &Self, enemy: Enemy<N>) -> bool {
        let n = old_ctx.enemies@.len();
        &&& ctx.enemies@ == old_ctx.enemies@.push(enemy)
        &&& ctx.battle_enemies@.len() == n + 1
        &&& forall|k: int| 0 <= k < n ==> #[trigger] ctx.battle_enemies@[k] == old_ctx.battle_enemies@[k]
        &&& ctx.battle_enemies@[n as int].entity.uid == enemy.uid
        &&& ctx.battle_enemies@[n as int].entity.team == Team::Enemy
        &&& ctx.battle_enemies@[n as int].properties@ == enemy.base_stats@
        &&& ctx.avatar_lineup == old_ctx.avatar_lineup
        &&& ctx.battle_avatars == old_ctx.battle_avatars
        &&& ctx.enemy_lineup == old_ctx.enemy_lineup
        &&& Self::same_history(ctx, old_ctx)
        &&& Self::same_damage(ctx, old_ctx)
        &&& Self::same_progress(ctx, old_ctx)
    }

    /// Adds an enemy, with a stat holder that starts from its base stats.
    pub fn handle_on_initialize_enemy_event(&mut self, e: OnInitializeEnemyEvent<N>)
        requires
            old(self).well_formed(),
        ensures
            final(self).well_formed(),
            Self::initialize_enemy_post(&*old(self), &*final(self), e.enemy),
    {
        let stats = e.enemy.base_stats.copy();
        let uid: u32 = e.enemy.uid;
        self.enemies.push(e.enemy);
        self.battle_enemies.push(BattleEntity { entity: Entity { uid, team: Team::Enemy }, properties: stats });
    }

    /// The effect of a stat-change event.
    pub open spec fn stat_change_post(old_ctx: &Self, ctx: &Self, e: OnStatChangeEvent<N>) -> bool {
        &&& (if e.entity.team == Team::Player {
            &&& stat_recorded(old_ctx.battle_avatars@, ctx.battle_avatars@, e.entity.uid, e.property)
            &&& ctx.battle_enemies == old_ctx.battle_enemies
        } else {
            &&& stat_recorded(old_ctx.battle_enemies@, ctx.battle_enemies@, e.entity.uid, e.property)
            &&& ctx.battle_avatars == old_ctx.battle_avatars
        })
        &&& ctx.avatar_lineup == old_ctx.avatar_lineup
        &&& ctx.enemies == old_ctx.enemies
        &&& ctx.enemy_lineup == old_ctx.enemy_lineup
        &&& Self::same_history(ctx, old_ctx)
        &&& Self::same_damage(ctx, old_ctx)
        &&& Self::same_progress(ctx, old_ctx)
    }

    /// Records a changed stat on the avatar or enemy with the event's uid; a uid
    /// nobody holds changes nothing.
    pub fn handle_on_stat_change_event(&mut self, e: OnStatChangeEvent<N>)
        requires
            old(self).well_formed(),
        ensures
            final(self).well_formed(),
            Self::stat_change_post(&*old(self), &*final(self), e),
    {
        let ghost pre = *self;
        let uid: u32 = e.entity.uid;
        match e.entity.team {
            Team::Player => {
                let found = find_entity(&self.battle_avatars, uid);
                if let Some(i) = found {
                    let mut holder = self.battle_avatars.remove(i);
                    holder.properties.set_property(e.property);
                    self.battle_avatars.insert(i, holder);
                    proof {
                        lemma_first_entity_unique(pre.battle_avatars@, uid, i as int);
                        assert(self.battle_avatars@ =~= pre.battle_avatars@.update(i as int, holder));
                        assert(exists|k: int| first_entity_at(pre.battle_avatars@, uid, k));
                        assert(stat_recorded(pre.battle_avatars@, self.battle_avatars@, uid, e.property));
                    }
                } else {
                    assert(!exists|k: int| first_entity_at(pre.battle_avatars@, uid, k));
                }
            },
            Team::Enemy => {
                let found = find_entity(&self.battle_enemies, uid);
                if let Some(i) = found {
                    let mut holder = self.battle_enemies.remove(i);
                    holder.properties.set_property(e.property);
                    self.battle_enemies.insert(i, holder);
                    proof {
                        lemma_first_entity_unique(pre.battle_enemies@, uid, i as int);
                        assert(self.battle_enemies@ =~= pre.battle_enemies@.update(i as int, holder));
                        assert(exists|k: int| first_entity_at(pre.battle_enemies@, uid, k));
                        assert(stat_recorded(pre.battle_enemies@, self.battle_enemies@, uid, e.property));
                    }
                } else {
                    assert(!exists|k: int| first_entity_at(pre.battle_enemies@, uid, k));
                }
            },
        }
    }

    /// The effect of a damage event, given what the handler returned.
    pub open spec fn damage_post<A: Fn(N, N) -> N>(
        old_ctx: &Self,
        ctx: &Self,
        e: OnDamageEvent<N>,
        zero: N,
        plus: A,
        r: Result<DamageRecord, BattleError>,
    ) -> bool {
        let uid: u32 = e.attacker.uid;
        match r {
            Err(err) => {
                &&& err == BattleError::AvatarNotInLineup(uid)
                &&& forall|j: int| 0 <= j < old_ctx.avatar_lineup@.len() ==> #[trigger] old_ctx.avatar_lineup@[j].id != uid
                &&& Self::same_roster(ctx, old_ctx)
                &&& Self::same_history(ctx, old_ctx)
                &&& Self::same_damage(ctx, old_ctx)
                &&& Self::same_progress(ctx, old_ctx)
            },
            Ok(rec) => {
                let i = rec.lineup_index as int;
                &&& first_avatar_at(old_ctx.avatar_lineup@, uid, i)
                &&& rec.attack_type == attack_type_from_name(e.damage_type@)
                &&& rec.label@ == damage_type_label(rec.attack_type)
                &&& credited(old_ctx.current_turn_info.avatars_turn_damage@, ctx.current_turn_info.avatars_turn_damage@, i, e.damage, plus)
                &&& credited(old_ctx.real_time_damages@, ctx.real_time_damages@, i, e.damage, plus)
                &&& credited(old_ctx.real_time_overkill_damages@, ctx.real_time_overkill_damages@, i, e.overkill_damage, plus)
                &&& plus.ensures((old_ctx.total_damage, e.damage), ctx.total_damage)
                &&& ctx.damage_by_category@.len() == old_ctx.damage_by_category@.len()
                &&& forall|j: int| 0 <= j < ctx.damage_by_category@.len() && j != i ==> #[trigger] ctx.damage_by_category@[j] == old_ctx.damage_by_category@[j]
                &&& category_credited(old_ctx.damage_by_category@[i]@, ctx.damage_by_category@[i]@, attack_type_rank(rec.attack_type), e.damage, zero, plus)
                &&& skill_credited(old_ctx.skill_history@, ctx.skill_history@, uid, e.damage, e.overkill_damage, rec.label@, plus)
                &&& ctx.current_turn_info.action_value == old_ctx.current_turn_info.action_value
                &&& ctx.current_turn_info.cycle == old_ctx.current_turn_info.cycle
                &&& ctx.current_turn_info.wave == old_ctx.current_turn_info.wave
                &&& ctx.current_turn_info.total_damage == old_ctx.current_turn_info.total_damage
                &&& Self::same_roster(ctx, old_ctx)
                &&& ctx.turn_history == old_ctx.turn_history
                &&& ctx.av_history == old_ctx.av_history
                &&& ctx.entity_turn_history == old_ctx.entity_turn_history
                &&& Self::same_progress(ctx, old_ctx)
            },
        }
    }

    /// Credits damage to the attacker's lineup slot: its damage this turn, its running
    /// damage and overkill, its breakdown under the attack type, the battle total, and
    /// the attacker's most recent skill use. Damage from an avatar outside the lineup
    /// is refused and changes nothing.
    pub fn handle_on_damage_event<A: Fn(N, N) -> N>(&mut self, e: OnDamageEvent<N>, zero: N, plus: &A) -> (r: Result<DamageRecord, BattleError>)
        requires
            old(self).well_formed(),
            forall|x: N, y: N| #[trigger] plus.requires((x, y)),
        ensures
            final(self).well_formed(),
            Self::damage_post(&*old(self), &*final(self), e, zero, *plus, r),
    {
        let ghost pre = *self;
        let uid: u32 = e.attacker.uid;
        let i = match self.find_lineup_index_by_avatar_id(uid) {
            Some(i) => i,
            None => {
                return Err(BattleError::AvatarNotInLineup(uid));
            },
        };
        let d = e.damage;
        let o = e.overkill_damage;

        let turn_value = plus(self.current_turn_info.avatars_turn_damage[i], d);
        self.current_turn_info.avatars_turn_damage.set(i, turn_value);
        let running = plus(self.real_time_damages[i], d);
        self.real_time_damages.set(i, running);

        let attack_type = AttackType::parse(e.damage_type.as_str());
        let label = display_damage_type(&attack_type);

        let rank = attack_type.rank();
        let mut row = self.damage_by_category[i].clone();
        let base = match row.get(&rank) {
            Some(v) => *v,
            None => zero,
        };
        let v = plus(base, d);
        row.insert(rank, v);
        proof {
            lemma_attack_type_rank(attack_type);
        }
        self.damage_by_category.set(i, row);

        let overkill = plus(self.real_time_overkill_damages[i], o);
        self.real_time_overkill_damages.set(i, overkill);
        self.total_damage = plus(self.total_damage, d);

        let hit = find_last_skill(&self.skill_history, uid);
        if let Some(idx) = hit {
            let mut entry = self.skill_history.remove(idx);
            let ghost before = entry;
            entry.damage_detail.push((d, o, label.clone()));
            entry.total_damage = plus(entry.total_damage, d);
            self.skill_history.insert(idx, entry);
            proof {
                assert(last_skill_at(pre.skill_history@, uid, idx as int));
                lemma_last_skill_unique(pre.skill_history@, uid, idx as int);
                assert(self.skill_history@ =~= pre.skill_history@.update(idx as int, entry));
            }
        } else {
            proof {
                assert(!exists|m: int| last_skill_at(pre.skill_history@, uid, m));
            }
        }
        Ok(DamageRecord { lineup_index: i, attack_type, label })
    }

    /// The effect of a turn-end event, given the turn it recorded and whether that turn
    /// was folded into the previous action-value entry.
    pub open spec fn turn_end_post<A: Fn(N, N) -> N, E: Fn(N, N) -> bool>(
        old_ctx: &Self,
        ctx: &Self,
        zero: N,
        plus: A,
        same: E,
        turn: TurnInfo<N>,
        merged: bool,
    ) -> bool {
        let cur = old_ctx.current_turn_info;
        let th = old_ctx.turn_history@.len();
        let ah = old_ctx.av_history@.len();
        &&& turn.action_value == cur.action_value
        &&& turn.wave == old_ctx.wave
        &&& turn.cycle == old_ctx.cycle
        &&& turn.avatars_turn_damage@ == cur.avatars_turn_damage@
        &&& running_sum(plus, zero, cur.avatars_turn_damage@, turn.total_damage)
        &&& ctx.turn_history@.len() == th + 1
        &&& forall|t: int| 0 <= t < th ==> #[trigger] ctx.turn_history@[t] == old_ctx.turn_history@[t]
        &&& same_turn(ctx.turn_history@[th as int], turn)
        &&& (if merged {
            let before = old_ctx.av_history@[ah - 1];
            let after = ctx.av_history@[ah - 1];
            &&& ah > 0
            &&& same.ensures((before.action_value, turn.action_value), true)
            &&& ctx.av_history@.len() == ah
            &&& forall|t: int| 0 <= t < ah - 1 ==> #[trigger] ctx.av_history@[t] == old_ctx.av_history@[t]
            &&& after.action_value == before.action_value
            &&& after.wave == before.wave
            &&& after.cycle == before.cycle
            &&& after.total_damage == before.total_damage
            &&& after.avatars_turn_damage@.len() == before.avatars_turn_damage@.len()
            &&& forall|i: int| 0 <= i < after.avatars_turn_damage@.len() ==> #[trigger] plus.ensures(
                (before.avatars_turn_damage@[i], turn.avatars_turn_damage@[i]),
                after.avatars_turn_damage@[i],
            )
        } else {
            &&& (ah > 0 ==> same.ensures((old_ctx.av_history@[ah - 1].action_value, turn.action_value), false))
            &&& ctx.av_history@.len() == ah + 1
            &&& forall|t: int| 0 <= t < ah ==> #[trigger] ctx.av_history@[t] == old_ctx.av_history@[t]
            &&& same_turn(ctx.av_history@[ah as int], turn)
        })
        &&& ctx.current_turn_info.avatars_turn_damage@ == Seq::new(old_ctx.avatar_lineup@.len(), |i: int| zero)
        &&& ctx.current_turn_info.action_value == cur.action_value
        &&& ctx.current_turn_info.wave == old_ctx.wave
        &&& ctx.current_turn_info.cycle == old_ctx.cycle
        &&& ctx.current_turn_info.total_damage == cur.total_damage
        &&& ctx.turn_count == old_ctx.turn_count + 1
        &&& Self::same_roster(ctx, old_ctx)
        &&& ctx.entity_turn_history == old_ctx.entity_turn_history
        &&& ctx.skill_history == old_ctx.skill_history
        &&& ctx.total_damage == old_ctx.total_damage
        &&& ctx.real_time_damages == old_ctx.real_time_damages
        &&& ctx.damage_by_category == old_ctx.damage_by_category
        &&& ctx.real_time_overkill_damages == old_ctx.real_time_overkill_damages
        &&& ctx.state == old_ctx.state
        &&& ctx.current_turn_battle_id == old_ctx.current_turn_battle_id
        &&& ctx.last_wave_action_value == old_ctx.last_wave_action_value
        &&& ctx.action_value == old_ctx.action_value
        &&& ctx.max_waves == old_ctx.max_waves
        &&& ctx.wave == old_ctx.wave
        &&& ctx.cycle == old_ctx.cycle
        &&& ctx.max_cycle == old_ctx.max_cycle
        &&& ctx.stage_id == old_ctx.stage_id
        &&& ctx.battle_mode == old_ctx.battle_mode
    }

    /// Closes the current turn: stamps it with the wave and cycle, totals its
    /// damage, appends it to the turn history, and either folds it into the last
    /// action-value entry (when `same` says the action values match) or appends it
    /// there too. The per-avatar turn damage starts again from `zero`.
    pub fn handle_on_turn_end_event<A: Fn(N, N) -> N, E: Fn(N, N) -> bool>(
        &mut self,
        zero: N,
        plus: &A,
        same: &E,
    ) -> (r: (TurnInfo<N>, bool))
        requires
            old(self).well_formed(),
            old(self).turn_count < usize::MAX,
            forall|x: N, y: N| #[trigger] plus.requires((x, y)),
            forall|x: N, y: N| #[trigger] same.requires((x, y)),
        ensures
            final(self).well_formed(),
            Self::turn_end_post(&*old(self), &*final(self), zero, *plus, *same, r.0, r.1),
    {
        let ghost pre = *self;
        self.current_turn_info.wave = self.wave;
        self.current_turn_info.cycle = self.cycle;
        let mut turn_info = self.current_turn_info.copy();

        let n: usize = turn_info.avatars_turn_damage.len();
        let mut total = zero;
        let mut i: usize = 0;
        let ghost mut partial: Seq<N> = seq![zero];
        while i < n
            invariant
                i <= n,
                n == turn_info.avatars_turn_damage@.len(),
                partial.len() == i + 1,
                partial[0] == zero,
                partial[i as int] == total,
                forall|j: int| 0 <= j < i ==> #[trigger] plus.ensures((partial[j], turn_info.avatars_turn_damage@[j]), partial[j + 1]),
                forall|x: N, y: N| #[trigger] plus.requires((x, y)),
            decreases n - i,
        {
            let next = plus(total, turn_info.avatars_turn_damage[i]);
            proof {
                partial = partial.push(next);
            }
            total = next;
            i = i + 1;
        }
        turn_info.total_damage = total;
        proof {
            assert(running_sum(*plus, zero, turn_info.avatars_turn_damage@, total));
        }
        self.turn_history.push(turn_info.copy());

        let ah: usize = self.av_history.len();
        let mut merged = false;
        if ah > 0 {
            let last_av = self.av_history[ah - 1].action_value;
            if same(last_av, turn_info.action_value) {
                let mut last = self.av_history.pop().unwrap();
                let ghost before = last;
                let m: usize = turn_info.avatars_turn_damage.len();
                let mut k: usize = 0;
                while k < m
                    invariant
                        k <= m,
                        m == turn_info.avatars_turn_damage@.len(),
                        m == before.avatars_turn_damage@.len(),
                        last.avatars_turn_damage@.len() == m,
                        last.action_value == before.action_value,
                        last.wave == before.wave,
                        last.cycle == before.cycle,
                        last.total_damage == before.total_damage,
                        forall|j: int| k <= j < m ==> #[trigger] last.avatars_turn_damage@[j] == before.avatars_turn_damage@[j],
                        forall|j: int| 0 <= j < k ==> #[trigger] plus.ensures(
                            (before.avatars_turn_damage@[j], turn_info.avatars_turn_damage@[j]),
                            last.avatars_turn_damage@[j],
                        ),
                        forall|x: N, y: N| #[trigger] plus.requires((x, y)),
                    decreases m - k,
                {
                    let v = plus(last.avatars_turn_damage[k], turn_info.avatars_turn_damage[k]);
                    last.avatars_turn_damage.set(k, v);
                    k = k + 1;
                }
                self.av_history.push(last);
                merged = true;
            } else {
                self.av_history.push(turn_info.copy());
            }
        } else {
            self.av_history.push(turn_info.copy());
        }

        self.current_turn_info.avatars_turn_damage = filled(zero, self.avatar_lineup.len());
        self.turn_count = self.turn_count + 1;
        (turn_info, merged)
    }

    /// Nothing tracked differs between `a` and `b`.
    pub open spec fn unchanged(a: &Self, b: &Self) -> bool {
        &&& Self::same_roster(a, b)
        &&& Self::same_history(a, b)
        &&& Self::same_damage(a, b)
        &&& Self::same_progress(a, b)
    }

    /// The effect of handling an incoming event, given what was returned.
    pub open spec fn event_post<A: Fn(N, N) -> N, E: Fn(N, N) -> bool>(
        old_ctx: &Self,
        ctx: &Self,
        event: Result<Event<N>, String>,
        zero: N,
        plus: A,
        same: E,
        r: Result<EventOutcome<N>, BattleError>,
    ) -> bool {
        match event {
            Err(msg) => r == Err::<EventOutcome<N>, BattleError>(BattleError::Event(msg)) && Self::unchanged(ctx, old_ctx),
            Ok(ev) => match ev {
                Event::OnBattleBegin(e) => r == Ok::<EventOutcome<N>, BattleError>(EventOutcome::Applied)
                    && Self::battle_begin_post(old_ctx, ctx, e),
                Event::OnSetBattleLineup(e) => r == Ok::<EventOutcome<N>, BattleError>(EventOutcome::Applied)
                    && Self::set_lineup_post(old_ctx, ctx, e.avatars, zero),
                Event::OnDamage(e) => match r {
                    Ok(EventOutcome::Damage(rec)) => Self::damage_post(old_ctx, ctx, e, zero, plus, Ok(rec)),
                    Err(err) => Self::damage_post(old_ctx, ctx, e, zero, plus, Err(err)),
                    _ => false,
                },
                Event::OnTurnBegin(e) => r == Ok::<EventOutcome<N>, BattleError>(EventOutcome::Applied)
                    && Self::turn_begin_post(old_ctx, ctx, e),
                Event::OnTurnEnd => match r {
                    Ok(EventOutcome::TurnEnded(turn, merged)) => Self::turn_end_post(old_ctx, ctx, zero, plus, same, turn, merged),
                    _ => false,
                },
                Event::OnUseSkill(e) => r == Ok::<EventOutcome<N>, BattleError>(EventOutcome::Applied)
                    && Self::use_skill_post(old_ctx, ctx, e, zero),
                Event::OnBattleEnd => r == Ok::<EventOutcome<N>, BattleError>(EventOutcome::Applied)
                    && Self::battle_end_post(old_ctx, ctx),
                Event::OnUpdateWave(e) => r == Ok::<EventOutcome<N>, BattleError>(EventOutcome::Applied)
                    && Self::wave_post(old_ctx, ctx, e),
                Event::OnUpdateCycle(e) => if e.cycle == old_ctx.cycle {
                    r == Ok::<EventOutcome<N>, BattleError>(EventOutcome::Ignored) && Self::unchanged(ctx, old_ctx)
                } else {
                    r == Ok::<EventOutcome<N>, BattleError>(EventOutcome::Applied) && Self::cycle_post(old_ctx, ctx, e)
                },
                Event::OnStatChange(e) => r == Ok::<EventOutcome<N>, BattleError>(EventOutcome::Applied)
                    && Self::stat_change_post(old_ctx, ctx, e),
                Event::OnEntityDefeated(e) => r == Ok::<EventOutcome<N>, BattleError>(EventOutcome::Applied)
                    && Self::entity_defeated_post(old_ctx, ctx),
                Event::OnUpdateTeamFormation(e) => r == Ok::<EventOutcome<N>, BattleError>(EventOutcome::Applied)
                    && Self::team_formation_post(old_ctx, ctx, e),
                Event::OnInitializeEnemy(e) => r == Ok::<EventOutcome<N>, BattleError>(EventOutcome::Applied)
                    && Self::initialize_enemy_post(old_ctx, ctx, e.enemy),
            },
        }
    }

    /// Whether `event` can be applied without a counter running past its range.
    pub open spec fn event_fits(&self, event: Result<Event<N>, String>) -> bool {
        &&& (event matches Ok(Event::OnTurnBegin(_)) ==> self.current_turn_battle_id < u32::MAX)
        &&& (event matches Ok(Event::OnTurnEnd) ==> self.turn_count < usize::MAX)
    }

    /// Routes an incoming event to its handler. An event that arrived as an error
    /// is reported back and changes nothing; a cycle event repeating the current
    /// cycle is ignored.
    pub fn handle_event<A: Fn(N, N) -> N, E: Fn(N, N) -> bool>(
        &mut self,
        event: Result<Event<N>, String>,
        zero: N,
        plus: &A,
        same: &E,
    ) -> (r: Result<EventOutcome<N>, BattleError>)
        requires
            old(self).well_formed(),
            old(self).event_fits(event),
            forall|x: N, y: N| #[trigger] plus.requires((x, y)),
            forall|x: N, y: N| #[trigger] same.requires((x, y)),
        ensures
            final(self).well_formed(),
            Self::event_post(&*old(self), &*final(self), event, zero, *plus, *same, r),
    {
        match event {
            Err(msg) => Err(BattleError::Event(msg)),
            Ok(ev) => match ev {
                Event::OnBattleBegin(e) => {
                    self.handle_on_battle_begin_event(e);
                    Ok(EventOutcome::Applied)
                },
                Event::OnSetBattleLineup(e) => {
                    self.handle_on_set_lineup_event(e, zero);
                    Ok(EventOutcome::Applied)
                },
                Event::OnDamage(e) => match self.handle_on_damage_event(e, zero, plus) {
                    Ok(rec) => Ok(EventOutcome::Damage(rec)),
                    Err(err) => Err(err),
                },
                Event::OnTurnBegin(e) => {
                    self.handle_on_turn_begin_event(e);
                    Ok(EventOutcome::Applied)
                },
                Event::OnTurnEnd => {
                    let (turn, merged) = self.handle_on_turn_end_event(zero, plus, same);
                    Ok(EventOutcome::TurnEnded(turn, merged))
                },
                Event::OnEntityDefeated(e) => {
                    self.handle_on_entity_defeated_event(e);
                    Ok(EventOutcome::Applied)
                },
                Event::OnBattleEnd => {
                    self.handle_on_battle_end_event();
                    Ok(EventOutcome::Applied)
                },
                Event::OnUseSkill(e) => {
                    self.handle_on_use_skill_event(e, zero);
                    Ok(EventOutcome::Applied)
                },
                Event::OnUpdateWave(e) => {
                    self.handle_on_update_wave_event(e);
                    Ok(EventOutcome::Applied)
                },
                Event::OnUpdateCycle(e) => {
                    if e.cycle == self.cycle {
                        return Ok(EventOutcome::Ignored);
                    }
                    self.handle_on_update_cycle_event(e);
                    Ok(EventOutcome::Applied)
                },
                Event::OnStatChange(e) => {
                    self.handle_on_stat_change_event(e);
                    Ok(EventOutcome::Applied)
                },
                Event::OnInitializeEnemy(e) => {
                    self.handle_on_initialize_enemy_event(e);
                    Ok(EventOutcome::Applied)
                },
                Event::OnUpdateTeamFormation(e) => {
                    self.handle_on_update_team_formation_event(e);
                    Ok(EventOutcome::Applied)
                },
            },
        }
    }
}

} // verus!
