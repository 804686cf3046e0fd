use vstd::prelude::*;

use crate::types::{Avatar, Enemy, Entity, Property, Skill, Team};

verus! {

/// A battle has begun.
#[derive(Clone, Copy, Debug)]
pub struct OnBattleBeginEvent {
    pub max_waves: u32,
    pub max_cycles: u32,
    pub stage_id: u32,
}

/// The battle moved to another wave.
#[derive(Clone, Copy, Debug)]
pub struct OnUpdateWaveEvent {
    pub wave: u32,
}

/// The battle moved to another cycle.
#[derive(Clone, Copy, Debug)]
pub struct OnUpdateCycleEvent {
    pub cycle: u32,
}

/// A turn has begun at `action_value`, owned by `turn_owner` when it is known.
#[derive(Clone, Copy, Debug)]
pub struct OnTurnBeginEvent<N> {
    pub action_value: N,
    pub turn_owner: Option<Entity>,
}

/// An avatar used a skill.
#[derive(Clone, Debug)]
pub struct OnUseSkillEvent {
    pub avatar: Entity,
    pub skill: Skill,
}

/// The player lineup was set for a new battle.
#[derive(Clone, Debug)]
pub struct OnSetLineupEvent {
    pub avatars: Vec<Avatar>,
}

/// An attacker dealt damage; `damage_type` is the game's attack type name.
#[derive(Clone, Debug)]
pub struct OnDamageEvent<N> {
    pub attacker: Entity,
    pub damage: N,
    pub overkill_damage: N,
    pub damage_type: String,
}

/// An entity was defeated.
#[derive(Clone, Copy, Debug)]
pub struct OnEntityDefeatedEvent {
    pub killer: Entity,
    pub entity_defeated: Entity,
}

/// A stat of an entity changed.
#[derive(Clone, Debug)]
pub struct OnStatChangeEvent<N> {
    pub entity: Entity,
    pub property: Property<N>,
}

/// A team's formation was refreshed.
#[derive(Clone, Debug)]
pub struct OnUpdateTeamFormationEvent {
    pub entities: Vec<Entity>,
    pub team: Team,
}

/// An enemy entered the battle.
#[derive(Debug)]
pub struct OnInitializeEnemyEvent<N> {
    pub enemy: Enemy<N>,
}

/// Everything the battle tracker reacts to.
#[derive(Debug)]
pub enum Event<N> {
    OnBattleBegin(OnBattleBeginEvent),
    OnSetBattleLineup(OnSetLineupEvent),
    OnDamage(OnDamageEvent<N>),
    OnTurnBegin(OnTurnBeginEvent<N>),
    OnTurnEnd,
    OnUseSkill(OnUseSkillEvent),
    OnBattleEnd,
    OnUpdateWave(OnUpdateWaveEvent),
    OnUpdateCycle(OnUpdateCycleEvent),
    OnStatChange(OnStatChangeEvent<N>),
    OnEntityDefeated(OnEntityDefeatedEvent),
    OnUpdateTeamFormation(OnUpdateTeamFormationEvent),
    OnInitializeEnemy(OnInitializeEnemyEvent<N>),
}

} // verus!
