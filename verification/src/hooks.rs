use vstd::prelude::*;
use vstd::string::*;

use crate::arith::{call1, call2, deterministic1, deterministic2, lemma_call1, lemma_call2};
use crate::events::{
    Event, OnBattleBeginEvent, OnDamageEvent, OnEntityDefeatedEvent, OnInitializeEnemyEvent,
    OnSetLineupEvent, OnStatChangeEvent, OnTurnBeginEvent, OnUpdateTeamFormationEvent,
    OnUpdateWaveEvent, OnUseSkillEvent,
};
use crate::text::str_eq;
use crate::types::{Avatar, BattleStats, Enemy, Entity, Property, Skill, Team};

verus! {

/// What kind of game entity a hook is looking at.
#[derive(Clone, Copy, Debug, PartialEq, Eq, Structural)]
pub enum EntityKind {
    Avatar,
    Servant,
    Snapshot,
    BattleEvent,
    Monster,
    Other,
}

/// The two hooks that report skill uses: a skill chosen for a turn, and a
/// follow-up skill the game triggers on its own.
#[derive(Clone, Copy, Debug, PartialEq, Eq, Structural)]
pub enum SkillHook {
    UseSkill,
    Combo,
}

/// An event the hooks report, or the text of why it could not be built, taken
/// by the view of that text.
pub open spec fn outcome_view<N>(r: Option<Result<Event<N>, String>>) -> Option<Result<Event<N>, Seq<char>>> {
    match r {
        None => None,
        Some(Ok(e)) => Some(Ok(e)),
        Some(Err(s)) => Some(Err(s@)),
    }
}

/// `prefix` followed by `message`.
fn prefixed(prefix: &str, message: &String) -> (r: String)
    ensures
        r@ == prefix@ + message@,
{
    let mut s = String::from_str(prefix);
    s.append(message.as_str());
    s
}

/// The error text when the avatar behind a skill use cannot be found.
pub open spec fn owner_error_text(hook: SkillHook, kind: EntityKind) -> Seq<char> {
    match (hook, kind) {
        (SkillHook::UseSkill, EntityKind::Avatar) => "on_use_skill Avatar Event Error: "@,
        (SkillHook::UseSkill, EntityKind::Servant) => "on_use_skill Servant Event Error: "@,
        (SkillHook::UseSkill, _) => "on_use_skill Summon Event Error: "@,
        (SkillHook::Combo, EntityKind::Avatar) => "on_combo Avatar Event Error: "@,
        (SkillHook::Combo, EntityKind::Servant) => "on_combo Servant Event Error: "@,
        (SkillHook::Combo, _) => "on_combo Summon Event Error: "@,
    }
}

/// The error text when the skill of a skill use cannot be read.
pub open spec fn skill_error_text(hook: SkillHook, kind: EntityKind) -> Seq<char> {
    match (hook, kind) {
        (SkillHook::UseSkill, EntityKind::Avatar) => "on_use_skill Avatar Skill Event Error: "@,
        (SkillHook::UseSkill, EntityKind::Servant) => "on_use_skill Servant Skill Event Error: "@,
        (SkillHook::UseSkill, _) => "on_use_skill Summon Skill Event Error: "@,
        (SkillHook::Combo, EntityKind::Avatar) => "on_combo Avatar Combo Skill Event Error: "@,
        (SkillHook::Combo, EntityKind::Servant) => "on_combo Servant Skill Event Error: "@,
        (SkillHook::Combo, _) => "on_combo Summon Skill Event Error: "@,
    }
}

/// Whether the skill is read before its avatar is looked up: for follow-up skills,
/// and for skills cast through a battle event.
pub open spec fn skill_read_first(hook: SkillHook, kind: EntityKind) -> bool {
    hook == SkillHook::Combo || kind == EntityKind::BattleEvent
}

/// What a skill hook reports. Nothing unless the user is on the player's side and
/// the skill has data, and the user is an avatar, a servant or a battle event with
/// a known caster; then the first failed lookup, in the hook's order, is reported
/// as an error; an avatar's skill with an empty name is not reported; otherwise the
/// skill use is, credited to the avatar found.
pub open spec fn skill_use_outcome<N>(
    hook: SkillHook,
    light_team: bool,
    has_skill_data: bool,
    kind: EntityKind,
    owner: Option<Result<u32, String>>,
    skill: Result<Skill, String>,
) -> Option<Result<Event<N>, Seq<char>>> {
    if !light_team || !has_skill_data {
        None
    } else if kind != EntityKind::Avatar && kind != EntityKind::Servant && kind != EntityKind::BattleEvent {
        None
    } else {
        match owner {
            None => None,
            Some(found) => {
                if skill_read_first(hook, kind) && skill is Err {
                    Some(Err(skill_error_text(hook, kind) + skill->Err_0@))
                } else if found is Err {
                    Some(Err(owner_error_text(hook, kind) + found->Err_0@))
                } else if skill is Err {
                    Some(Err(skill_error_text(hook, kind) + skill->Err_0@))
                } else if kind == EntityKind::Avatar && skill->Ok_0.name@.len() == 0 {
                    None
                } else {
                    Some(Ok(Event::OnUseSkill(OnUseSkillEvent {
                        avatar: Entity { uid: found->Ok_0, team: Team::Player },
                        skill: skill->Ok_0,
                    })))
                }
            },
        }
    }
}

/// Builds what a skill hook reports from what it read: the user's side, whether
/// the skill has data, the user's kind, the avatar behind the user (`None` when a
/// battle event has no caster) and the skill.
pub fn skill_use_event<N>(
    hook: SkillHook,
    light_team: bool,
    has_skill_data: bool,
    kind: EntityKind,
    owner: Option<Result<u32, String>>,
    skill: Result<Skill, String>,
) -> (r: Option<Result<Event<N>, String>>)
    ensures
        outcome_view(r) == skill_use_outcome::<N>(hook, light_team, has_skill_data, kind, owner, skill),
{
    if !light_team || !has_skill_data {
        return None;
    }
    let (owner_label, skill_label) = match (hook, kind) {
        (SkillHook::UseSkill, EntityKind::Avatar) => (
            "on_use_skill Avatar Event Error: ",
            "on_use_skill Avatar Skill Event Error: ",
        ),
        (SkillHook::UseSkill, EntityKind::Servant) => (
            "on_use_skill Servant Event Error: ",
            "on_use_skill Servant Skill Event Error: ",
        ),
        (SkillHook::UseSkill, EntityKind::BattleEvent) => (
            "on_use_skill Summon Event Error: ",
            "on_use_skill Summon Skill Event Error: ",
        ),
        (SkillHook::Combo, EntityKind::Avatar) => (
            "on_combo Avatar Event Error: ",
            "on_combo Avatar Combo Skill Event Error: ",
        ),
        (SkillHook::Combo, EntityKind::Servant) => (
            "on_combo Servant Event Error: ",
            "on_combo Servant Skill Event Error: ",
        ),
        (SkillHook::Combo, EntityKind::BattleEvent) => (
            "on_combo Summon Event Error: ",
            "on_combo Summon Skill Event Error: ",
        ),
        _ => {
            return None;
        },
    };
    let found = match owner {
        None => {
            return None;
        },
        Some(found) => found,
    };
    let skill_first = match hook {
        SkillHook::Combo => true,
        SkillHook::UseSkill => match kind {
            EntityKind::BattleEvent => true,
            _ => false,
        },
    };
    if skill_first {
        if let Err(e) = &skill {
            return Some(Err(prefixed(skill_label, e)));
        }
    }
    let id = match &found {
        Err(e) => {
            return Some(Err(prefixed(owner_label, e)));
        },
        Ok(id) => *id,
    };
    let skill = match skill {
        Err(e) => {
            return Some(Err(prefixed(skill_label, &e)));
        },
        Ok(s) => s,
    };
    let is_avatar = match kind {
        EntityKind::Avatar => true,
        _ => false,
    };
    if is_avatar && skill.name.unicode_len() == 0 {
        return None;
    }
    Some(Ok(Event::OnUseSkill(OnUseSkillEvent { avatar: Entity { uid: id, team: Team::Player }, skill })))
}

/// The number arithmetic hit reports are computed with: zero, the comparisons
/// `a > b` and `a <= b`, subtraction and the larger of two amounts.
pub struct HitArith<N, G, B> {
    pub zero: N,
    pub greater: G,
    pub at_most: G,
    pub minus: B,
    pub max: B,
}

impl<N, G: Fn(N, N) -> bool, B: Fn(N, N) -> N> HitArith<N, G, B> {
    /// Every operation is a total function.
    pub open spec fn lawful(&self) -> bool {
        &&& deterministic2(self.greater)
        &&& deterministic2(self.at_most)
        &&& deterministic2(self.minus)
        &&& deterministic2(self.max)
    }

    /// `a > b`.
    pub open spec fn gt(&self, a: N, b: N) -> bool {
        call2(self.greater, a, b)
    }

    /// `a <= b`.
    pub open spec fn le(&self, a: N, b: N) -> bool {
        call2(self.at_most, a, b)
    }

    /// `a - b`.
    pub open spec fn diff(&self, a: N, b: N) -> N {
        call2(self.minus, a, b)
    }

    /// The larger of `a` and `b`.
    pub open spec fn larger(&self, a: N, b: N) -> N {
        call2(self.max, a, b)
    }

    /// The part of `damage` beyond `hp`, or zero when it does not exceed `hp`.
    pub open spec fn overkill(&self, damage: N, hp: N) -> N {
        if self.gt(damage, hp) {
            self.diff(damage, hp)
        } else {
            self.zero
        }
    }
}

/// The error text when the avatar behind a hit cannot be found.
pub open spec fn hit_owner_error_text(kind: EntityKind) -> Seq<char> {
    match kind {
        EntityKind::Avatar => "on_damage Avatar Event Error: "@,
        EntityKind::Servant => "on_damage Servant Event Error: "@,
        _ => "on_damage Snapshot Event Error: "@,
    }
}

/// What the damage hook reports. Nothing unless the attacker is on the player's
/// side, the damage is positive (not `<= 0`) and the attacker is an avatar, a
/// servant or a snapshot; then the hit, credited to the avatar behind the attacker,
/// with the part of the damage beyond the defender's hp as overkill; or the error of
/// finding that avatar.
pub open spec fn hit_outcome<N, G: Fn(N, N) -> bool, B: Fn(N, N) -> N>(
    ops: HitArith<N, G, B>,
    light_team: bool,
    kind: EntityKind,
    owner: Result<u32, String>,
    damage: N,
    hp_initial: N,
    damage_type: String,
) -> Option<Result<Event<N>, Seq<char>>> {
    if !light_team || ops.le(damage, ops.zero) {
        None
    } else if kind != EntityKind::Avatar && kind != EntityKind::Servant && kind != EntityKind::Snapshot {
        None
    } else {
        match owner {
            Err(e) => Some(Err(hit_owner_error_text(kind) + e@)),
            Ok(id) => Some(Ok(Event::OnDamage(OnDamageEvent {
                attacker: Entity { uid: id, team: Team::Player },
                damage,
                overkill_damage: ops.overkill(damage, hp_initial),
                damage_type,
            }))),
        }
    }
}

/// Builds what the damage hook reports from what it read: the attacker's side and
/// kind, the avatar behind the attacker, the damage, the defender's hp before the
/// hit and the attack type's name.
pub fn damage_event<N: Copy, G: Fn(N, N) -> bool, B: Fn(N, N) -> N>(
    ops: &HitArith<N, G, B>,
    light_team: bool,
    kind: EntityKind,
    owner: Result<u32, String>,
    damage: N,
    hp_initial: N,
    damage_type: String,
) -> (r: Option<Result<Event<N>, String>>)
    requires
        ops.lawful(),
    ensures
        outcome_view(r) == hit_outcome(*ops, light_team, kind, owner, damage, hp_initial, damage_type),
{
    if !light_team {
        return None;
    }
    let beyond = (ops.greater)(damage, hp_initial);
    proof {
        lemma_call2(ops.greater, damage, hp_initial, beyond);
    }
    let overkill_damage = if beyond {
        let d = (ops.minus)(damage, hp_initial);
        proof {
            lemma_call2(ops.minus, damage, hp_initial, d);
        }
        d
    } else {
        ops.zero
    };
    let none_dealt = (ops.at_most)(damage, ops.zero);
    proof {
        lemma_call2(ops.at_most, damage, ops.zero, none_dealt);
    }
    if none_dealt {
        return None;
    }
    let label = match kind {
        EntityKind::Avatar => "on_damage Avatar Event Error: ",
        EntityKind::Servant => "on_damage Servant Event Error: ",
        EntityKind::Snapshot => "on_damage Snapshot Event Error: ",
        _ => {
            return None;
        },
    };
    match owner {
        Err(e) => Some(Err(prefixed(label, &e))),
        Ok(id) => Some(Ok(Event::OnDamage(OnDamageEvent {
            attacker: Entity { uid: id, team: Team::Player },
            damage,
            overkill_damage,
            damage_type,
        }))),
    }
}

/// A hit the damage hook saw land, kept until the defender's hp is seen to drop.
#[derive(Debug)]
pub struct PendingHit<N> {
    pub attacker: Entity,
    pub raw_damage: N,
    pub hp_before_raw: N,
    pub damage_type: String,
}

/// What the direct-damage hook reports for a pending hit, given the defender's hp
/// before and after: the hp it lost (never below zero), when that is positive, with
/// overkill only when the hp fell to zero or below: the larger of the raw damage and
/// the hp lost, beyond the hp the hit was recorded against (never below zero).
pub open spec fn landed_hit_outcome<N, G: Fn(N, N) -> bool, B: Fn(N, N) -> N>(
    ops: HitArith<N, G, B>,
    pending: Option<PendingHit<N>>,
    hp_before: N,
    hp_after: N,
) -> Option<Event<N>> {
    match pending {
        None => None,
        Some(p) => {
            let lost = ops.larger(ops.diff(hp_before, hp_after), ops.zero);
            if ops.gt(lost, ops.zero) {
                let overkill = if ops.le(hp_after, ops.zero) {
                    ops.larger(ops.diff(ops.larger(p.raw_damage, lost), p.hp_before_raw), ops.zero)
                } else {
                    ops.zero
                };
                Some(Event::OnDamage(OnDamageEvent {
                    attacker: p.attacker,
                    damage: lost,
                    overkill_damage: overkill,
                    damage_type: p.damage_type,
                }))
            } else {
                None
            }
        },
    }
}

/// Builds what the direct-damage hook reports for the oldest pending hit on the
/// defender (`None` when there is none), from its hp before and after.
pub fn landed_hit_event<N: Copy, G: Fn(N, N) -> bool, B: Fn(N, N) -> N>(
    ops: &HitArith<N, G, B>,
    pending: Option<PendingHit<N>>,
    hp_before: N,
    hp_after: N,
) -> (r: Option<Event<N>>)
    requires
        ops.lawful(),
    ensures
        r == landed_hit_outcome(*ops, pending, hp_before, hp_after),
{
    let p = match pending {
        None => {
            return None;
        },
        Some(p) => p,
    };
    let delta = (ops.minus)(hp_before, hp_after);
    let lost = (ops.max)(delta, ops.zero);
    let dealt = (ops.greater)(lost, ops.zero);
    proof {
        lemma_call2(ops.minus, hp_before, hp_after, delta);
        lemma_call2(ops.max, delta, ops.zero, lost);
        lemma_call2(ops.greater, lost, ops.zero, dealt);
    }
    if !dealt {
        return None;
    }
    let fell = (ops.at_most)(hp_after, ops.zero);
    proof {
        lemma_call2(ops.at_most, hp_after, ops.zero, fell);
    }
    let overkill_damage = if fell {
        let top = (ops.max)(p.raw_damage, lost);
        let beyond = (ops.minus)(top, p.hp_before_raw);
        let o = (ops.max)(beyond, ops.zero);
        proof {
            lemma_call2(ops.max, p.raw_damage, lost, top);
            lemma_call2(ops.minus, top, p.hp_before_raw, beyond);
            lemma_call2(ops.max, beyond, ops.zero, o);
        }
        o
    } else {
        ops.zero
    };
    Some(Event::OnDamage(OnDamageEvent {
        attacker: p.attacker,
        damage: lost,
        overkill_damage,
        damage_type: p.damage_type,
    }))
}

/// The two hooks that report stat changes: any stat, and hp alone.
#[derive(Clone, Copy, Debug, PartialEq, Eq, Structural)]
pub enum StatHook {
    StatChange,
    HpChange,
}

/// The value a stat change reports: action delay is reported ten times over.
pub open spec fn reported_stat_value<N, T: Fn(N) -> N>(kind: Seq<char>, value: N, tenfold: T) -> N {
    if kind == "ActionDelay"@ {
        call1(tenfold, value)
    } else {
        value
    }
}

/// The value a stat change reports for the stat named `kind`.
pub fn stat_change_value<N: Copy, T: Fn(N) -> N>(kind: &str, value: N, tenfold: &T) -> (r: N)
    requires
        deterministic1(*tenfold),
    ensures
        r == reported_stat_value(kind@, value, *tenfold),
{
    if str_eq(kind, "ActionDelay") {
        let v = tenfold(value);
        proof {
            lemma_call1(*tenfold, value, v);
        }
        v
    } else {
        value
    }
}

/// The error text of a stat hook when the avatar cannot be found: the hp hook adds
/// the lookup's message; the stat hook reports its own context line in its place.
pub open spec fn stat_owner_error_text(hook: StatHook, e: Seq<char>) -> Seq<char> {
    match hook {
        StatHook::StatChange => "on_stat_change Avatar Event Error: on_stat_change: failed to resolve avatar from entity"@,
        StatHook::HpChange => "handle_hp_change Avatar Event Error: "@ + e,
    }
}

/// What a stat hook reports: for an avatar, the change credited to it or the error
/// of finding it; for a monster whose runtime id was read, the change credited to
/// it; nothing otherwise.
pub open spec fn stat_outcome<N>(
    hook: StatHook,
    kind: EntityKind,
    owner: Result<u32, String>,
    property: Property<N>,
) -> Option<Result<Event<N>, Seq<char>>> {
    match (kind, owner) {
        (EntityKind::Avatar, Ok(id)) => Some(Ok(Event::OnStatChange(OnStatChangeEvent {
            entity: Entity { uid: id, team: Team::Player },
            property,
        }))),
        (EntityKind::Avatar, Err(e)) => Some(Err(stat_owner_error_text(hook, e@))),
        (EntityKind::Monster, Ok(uid)) => Some(Ok(Event::OnStatChange(OnStatChangeEvent {
            entity: Entity { uid, team: Team::Enemy },
            property,
        }))),
        _ => None,
    }
}

/// Builds what a stat hook reports from the owner's kind, its avatar id or runtime
/// id, and the changed property.
pub fn stat_event<N>(
    hook: StatHook,
    kind: EntityKind,
    owner: Result<u32, String>,
    property: Property<N>,
) -> (r: Option<Result<Event<N>, String>>)
    ensures
        outcome_view(r) == stat_outcome(hook, kind, owner, property),
{
    match kind {
        EntityKind::Avatar => match owner {
            Ok(id) => Some(Ok(Event::OnStatChange(OnStatChangeEvent {
                entity: Entity { uid: id, team: Team::Player },
                property,
            }))),
            Err(e) => match hook {
                StatHook::StatChange => Some(Err(String::from_str(
                    "on_stat_change Avatar Event Error: on_stat_change: failed to resolve avatar from entity",
                ))),
                StatHook::HpChange => Some(Err(prefixed("handle_hp_change Avatar Event Error: ", &e))),
            },
        },
        EntityKind::Monster => match owner {
            Ok(uid) => Some(Ok(Event::OnStatChange(OnStatChangeEvent {
                entity: Entity { uid, team: Team::Enemy },
                property,
            }))),
            Err(_) => None,
        },
        _ => None,
    }
}

/// What the turn hook reports: the turn begins at ten times the elapsed action
/// delay, owned by the avatar found (or the error of finding it), by a monster
/// whose runtime id was read (nothing when it was not), or by nobody known.
pub open spec fn turn_begin_outcome<N, T: Fn(N) -> N>(
    kind: EntityKind,
    owner: Result<u32, String>,
    elapsed_delay: N,
    tenfold: T,
) -> Option<Result<Event<N>, Seq<char>>> {
    let av = call1(tenfold, elapsed_delay);
    match (kind, owner) {
        (EntityKind::Avatar, Ok(id)) => Some(Ok(Event::OnTurnBegin(OnTurnBeginEvent {
            action_value: av,
            turn_owner: Some(Entity { uid: id, team: Team::Player }),
        }))),
        (EntityKind::Avatar, Err(e)) => Some(Err("on_turn_begin Avatar Event Error: "@ + e@)),
        (EntityKind::Monster, Ok(uid)) => Some(Ok(Event::OnTurnBegin(OnTurnBeginEvent {
            action_value: av,
            turn_owner: Some(Entity { uid, team: Team::Enemy }),
        }))),
        (EntityKind::Monster, Err(_)) => None,
        _ => Some(Ok(Event::OnTurnBegin(OnTurnBeginEvent { action_value: av, turn_owner: None }))),
    }
}

/// Builds what the turn hook reports from the turn owner's kind, its avatar id or
/// runtime id, and the elapsed action delay.
pub fn turn_begin_event<N: Copy, T: Fn(N) -> N>(
    kind: EntityKind,
    owner: Result<u32, String>,
    elapsed_delay: N,
    tenfold: &T,
) -> (r: Option<Result<Event<N>, String>>)
    requires
        deterministic1(*tenfold),
    ensures
        outcome_view(r) == turn_begin_outcome(kind, owner, elapsed_delay, *tenfold),
{
    let av = tenfold(elapsed_delay);
    proof {
        lemma_call1(*tenfold, elapsed_delay, av);
    }
    match kind {
        EntityKind::Avatar => match owner {
            Ok(id) => Some(Ok(Event::OnTurnBegin(OnTurnBeginEvent {
                action_value: av,
                turn_owner: Some(Entity { uid: id, team: Team::Player }),
            }))),
            Err(e) => Some(Err(prefixed("on_turn_begin Avatar Event Error: ", &e))),
        },
        EntityKind::Monster => match owner {
            Ok(uid) => Some(Ok(Event::OnTurnBegin(OnTurnBeginEvent {
                action_value: av,
                turn_owner: Some(Entity { uid, team: Team::Enemy }),
            }))),
            Err(_) => None,
        },
        _ => Some(Ok(Event::OnTurnBegin(OnTurnBeginEvent { action_value: av, turn_owner: None }))),
    }
}

/// What the defeat hook reports: only when the game accepted the defeat, the
/// defeated entity is dying and an avatar dealt the blow: the defeat of that enemy
/// by the avatar found, or the error of finding it.
pub open spec fn defeat_outcome<N>(
    accepted: bool,
    dying: bool,
    killer_kind: EntityKind,
    killer: Result<u32, String>,
    defeated_uid: u32,
) -> Option<Result<Event<N>, Seq<char>>> {
    if accepted && dying && killer_kind == EntityKind::Avatar {
        match killer {
            Ok(id) => Some(Ok(Event::OnEntityDefeated(OnEntityDefeatedEvent {
                killer: Entity { uid: id, team: Team::Player },
                entity_defeated: Entity { uid: defeated_uid, team: Team::Enemy },
            }))),
            Err(e) => Some(Err("on_entity_defeated Avatar Event Error: "@ + e@)),
        }
    } else {
        None
    }
}

/// Builds what the defeat hook reports.
pub fn defeat_event<N>(
    accepted: bool,
    dying: bool,
    killer_kind: EntityKind,
    killer: Result<u32, String>,
    defeated_uid: u32,
) -> (r: Option<Result<Event<N>, String>>)
    ensures
        outcome_view(r) == defeat_outcome::<N>(accepted, dying, killer_kind, killer, defeated_uid),
{
    let by_avatar = match killer_kind {
        EntityKind::Avatar => true,
        _ => false,
    };
    if accepted && dying && by_avatar {
        match killer {
            Ok(id) => Some(Ok(Event::OnEntityDefeated(OnEntityDefeatedEvent {
                killer: Entity { uid: id, team: Team::Player },
                entity_defeated: Entity { uid: defeated_uid, team: Team::Enemy },
            }))),
            Err(e) => Some(Err(prefixed("on_entity_defeated Avatar Event Error: ", &e))),
        }
    } else {
        None
    }
}

/// What the formation hook reports: for the enemy team only, its members by runtime
/// id, in order, as enemies.
pub fn team_formation_event<N>(dark_team: bool, uids: &Vec<u32>) -> (r: Option<Event<N>>)
    ensures
        dark_team <==> r is Some,
        match r {
            Some(Event::OnUpdateTeamFormation(e)) => {
                &&& e.team == Team::Enemy
                &&& e.entities@.len() == uids@.len()
                &&& forall|i: int| 0 <= i < uids@.len() ==> #[trigger] e.entities@[i] == (Entity { uid: uids@[i], team: Team::Enemy })
            },
            Some(_) => false,
            None => true,
        },
{
    if !dark_team {
        return None;
    }
    let mut entities: Vec<Entity> = Vec::new();
    let mut i: usize = 0;
    while i < uids.len()
        invariant
            i <= uids@.len(),
            entities@.len() == i,
            forall|k: int| 0 <= k < i ==> #[trigger] entities@[k] == (Entity { uid: uids@[k], team: Team::Enemy }),
        decreases uids@.len() - i,
    {
        entities.push(Entity { uid: uids[i], team: Team::Enemy });
        i = i + 1;
    }
    Some(Event::OnUpdateTeamFormation(OnUpdateTeamFormationEvent { entities, team: Team::Enemy }))
}

/// What the battle-begin hook reports: nothing when the wave count read is negative.
pub fn battle_begin_event<N>(max_waves: i32, max_cycles: u32, stage_id: u32) -> (r: Option<Event<N>>)
    ensures
        max_waves < 0 ==> r is None,
        max_waves >= 0 ==> r == Some(Event::<N>::OnBattleBegin(OnBattleBeginEvent {
            max_waves: max_waves as u32,
            max_cycles,
            stage_id,
        })),
{
    if max_waves < 0 {
        None
    } else {
        Some(Event::OnBattleBegin(OnBattleBeginEvent { max_waves: max_waves as u32, max_cycles, stage_id }))
    }
}

/// What the wave hook reports: nothing when the wave read is negative.
pub fn wave_event<N>(wave: i32) -> (r: Option<Event<N>>)
    ensures
        wave < 0 ==> r is None,
        wave >= 0 ==> r == Some(Event::<N>::OnUpdateWave(OnUpdateWaveEvent { wave: wave as u32 })),
{
    if wave < 0 {
        None
    } else {
        Some(Event::OnUpdateWave(OnUpdateWaveEvent { wave: wave as u32 }))
    }
}

/// What the enemy hook reports: the enemy with its level, max hp and current hp
/// (equal to its max hp) as base stats.
pub fn enemy_event<N: Copy>(id: u32, uid: u32, name: String, level: N, max_hp: N) -> (r: Event<N>)
    ensures
        match r {
            Event::OnInitializeEnemy(e) => {
                &&& e.enemy.id == id
                &&& e.enemy.uid == uid
                &&& e.enemy.name == name
                &&& e.enemy.base_stats.value_of("Level"@) == Some(level)
                &&& e.enemy.base_stats.value_of("MaxHP"@) == Some(max_hp)
                &&& e.enemy.base_stats.value_of("CurrentHP"@) == Some(max_hp)
                &&& forall|k: Seq<char>| k != "Level"@ && k != "MaxHP"@ && k != "CurrentHP"@
                    ==> #[trigger] e.enemy.base_stats.value_of(k) is None
            },
            _ => false,
        },
{
    let mut base_stats: BattleStats<N> = BattleStats::new();
    proof {
        assert forall|k: Seq<char>| #[trigger] base_stats.value_of(k) is None by {
            crate::types::lemma_absent_key(base_stats@, k);
        }
    }
    proof {
        reveal_strlit("Level");
        reveal_strlit("MaxHP");
        reveal_strlit("CurrentHP");
        assert("Level"@[0] != "MaxHP"@[0]);
        assert("Level"@.len() != "CurrentHP"@.len());
        assert("MaxHP"@.len() != "CurrentHP"@.len());
    }
    base_stats.set_value("Level", level);
    base_stats.set_value("MaxHP", max_hp);
    base_stats.set_value("CurrentHP", max_hp);
    Event::OnInitializeEnemy(OnInitializeEnemyEvent { enemy: Enemy { id, uid, name, base_stats } })
}

/// The avatars found, in the order they were looked up.
pub open spec fn found_avatars(lookups: Seq<Result<Avatar, String>>) -> Seq<Avatar>
    decreases lookups.len(),
{
    if lookups.len() == 0 {
        seq![]
    } else {
        let prev = found_avatars(lookups.drop_last());
        match lookups.last() {
            Ok(a) => prev.push(a),
            Err(_) => prev,
        }
    }
}

/// Each failed lookup's message followed by ". ", in order.
pub open spec fn lookup_errors(lookups: Seq<Result<Avatar, String>>) -> Seq<char>
    decreases lookups.len(),
{
    if lookups.len() == 0 {
        seq![]
    } else {
        let prev = lookup_errors(lookups.drop_last());
        match lookups.last() {
            Ok(_) => prev,
            Err(e) => prev + e@ + ". "@,
        }
    }
}

/// Some lookup failed.
pub open spec fn some_lookup_failed(lookups: Seq<Result<Avatar, String>>) -> bool {
    exists|i: int| 0 <= i < lookups.len() && (#[trigger] lookups[i]) is Err
}

/// Builds what the lineup hook reports from the avatar lookups of the lineup's
/// members, main team first: when any failed, the messages of all that failed;
/// otherwise the lineup of the avatars found, in order.
pub fn lineup_event<N>(lookups: Vec<Result<Avatar, String>>) -> (r: Result<Event<N>, String>)
    ensures
        some_lookup_failed(lookups@) <==> r is Err,
        match r {
            Ok(Event::OnSetBattleLineup(e)) => e.avatars@ == found_avatars(lookups@),
            Ok(_) => false,
            Err(text) => text@ == lookup_errors(lookups@),
        },
{
    let ghost all = lookups@;
    let n: usize = lookups.len();
    let mut rest = lookups;
    let mut reversed: Vec<Result<Avatar, String>> = Vec::new();
    while rest.len() > 0
        invariant
            n == all.len(),
            rest@.len() + reversed@.len() == n,
            rest@ == all.take(rest@.len() as int),
            forall|j: int| 0 <= j < reversed@.len() ==> #[trigger] reversed@[j] == all[n - 1 - j],
        decreases rest@.len(),
    {
        match rest.pop() {
            Some(x) => {
                reversed.push(x);
            },
            None => {},
        }
    }
    let mut avatars: Vec<Avatar> = Vec::new();
    let mut errors = String::new();
    let mut failed = false;
    let mut k: usize = 0;
    while reversed.len() > 0
        invariant
            n == all.len(),
            k + reversed@.len() == n,
            forall|j: int| 0 <= j < reversed@.len() ==> #[trigger] reversed@[j] == all[n - 1 - j],
            avatars@ == found_avatars(all.take(k as int)),
            errors@ == lookup_errors(all.take(k as int)),
            failed <==> some_lookup_failed(all.take(k as int)),
        decreases reversed@.len(),
    {
        let ghost last_index = reversed@.len() - 1;
        proof {
            assert(reversed@[last_index] == all[k as int]);
            assert(all.take(k + 1).drop_last() =~= all.take(k as int));
            assert(all.take(k + 1).last() == all[k as int]);
        }
        match reversed.pop() {
            Some(Ok(a)) => {
                avatars.push(a);
            },
            Some(Err(e)) => {
                errors.append(e.as_str());
                errors.append(". ");
                failed = true;
            },
            None => {},
        }
        proof {
            if failed {
                if all[k as int] is Err {
                    assert(all.take(k + 1)[k as int] is Err);
                } else {
                    let i = choose|i: int| 0 <= i < k && (#[trigger] all.take(k as int)[i]) is Err;
                    assert(all.take(k + 1)[i] is Err);
                }
            } else {
                assert forall|i: int| 0 <= i < k + 1 implies !(#[trigger] all.take(k + 1)[i] is Err) by {
                    if i < k {
                        assert(all.take(k + 1)[i] == all.take(k as int)[i]);
                    }
                }
            }
        }
        k = k + 1;
    }
    proof {
        assert(all.take(n as int) =~= all);
    }
    if failed {
        Err(errors)
    } else {
        Ok(Event::OnSetBattleLineup(OnSetLineupEvent { avatars }))
    }
}

} // verus!
