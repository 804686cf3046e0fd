use vstd::prelude::*;
use vstd::string::*;

use crate::accounting::{
    breakdown_sum, damage_consistent, exact_addition, lemma_breakdown_sum_credit, lemma_breakdown_sum_empty,
    lemma_fold_update, lemma_fold_zeros, turns_sum,
};
use crate::arith::{call1, call2, lemma_call2};
use crate::attack::{
    attack_type_from_name, attack_type_name, attack_type_of_rank, attack_type_rank, damage_type_label, lemma_attack_type_rank,
    AttackType, ATTACK_TYPE_COUNT,
};
use crate::battle::{category_credited, first_avatar_at};
use crate::battle::{BattleContext, BattleError, EventOutcome};
use crate::battle::{breakdown_keys_valid, SkillHistoryEntry};
use crate::breakdown::{aggregated, credit_rank, known_points, merged_ranks, ordered_damage_types, other_points};
use crate::chart::{
    best_usage, chart_of, detail_row_ok, fold_with, hit_damages, lemma_fold_push, lemma_name_count_bound, name_count,
    primary_usage, skill_totals, skill_totals_of, summary_row_ok, turn_hits, ChartArith, ComprehensiveData,
};
use crate::events::{Event, OnDamageEvent, OnSetLineupEvent, OnUpdateCycleEvent};
use crate::export::{date_folder_text, export_segments, picked_stats, tracked_stat_names};
use crate::types::{stat_lookup, BattleStats, TurnInfo};
use crate::types::Avatar;

verus! {

/// Handling the same cycle update twice in a row: the second one is ignored and
/// changes nothing.
pub proof fn law_repeated_cycle_update_is_ignored<N: Copy, A: Fn(N, N) -> N, E: Fn(N, N) -> bool>(
    c0: BattleContext<N>,
    c1: BattleContext<N>,
    c2: BattleContext<N>,
    cycle: u32,
    zero: N,
    plus: A,
    same: E,
    r1: Result<EventOutcome<N>, BattleError>,
    r2: Result<EventOutcome<N>, BattleError>,
)
    requires
        BattleContext::event_post(&c0, &c1, Ok(Event::OnUpdateCycle(OnUpdateCycleEvent { cycle })), zero, plus, same, r1),
        BattleContext::event_post(&c1, &c2, Ok(Event::OnUpdateCycle(OnUpdateCycleEvent { cycle })), zero, plus, same, r2),
    ensures
        r2 == Ok::<EventOutcome<N>, BattleError>(EventOutcome::Ignored),
        BattleContext::unchanged(&c2, &c1),
{
}

/// The highest cycle seen never goes down, except when a new lineup starts a new
/// battle.
pub proof fn law_highest_cycle_never_drops<N: Copy, A: Fn(N, N) -> N, E: Fn(N, N) -> bool>(
    c0: BattleContext<N>,
    c1: BattleContext<N>,
    event: Result<Event<N>, String>,
    zero: N,
    plus: A,
    same: E,
    r: Result<EventOutcome<N>, BattleError>,
)
    requires
        BattleContext::event_post(&c0, &c1, event, zero, plus, same, r),
        !(event matches Ok(Event::OnSetBattleLineup(_))),
    ensures
        c1.max_cycle >= c0.max_cycle,
{
}

/// Only a new lineup changes the lineup.
pub proof fn law_lineup_changes_only_with_new_lineup<N: Copy, A: Fn(N, N) -> N, E: Fn(N, N) -> bool>(
    c0: BattleContext<N>,
    c1: BattleContext<N>,
    event: Result<Event<N>, String>,
    zero: N,
    plus: A,
    same: E,
    r: Result<EventOutcome<N>, BattleError>,
)
    requires
        BattleContext::event_post(&c0, &c1, event, zero, plus, same, r),
        !(event matches Ok(Event::OnSetBattleLineup(_))),
    ensures
        c1.avatar_lineup == c0.avatar_lineup,
{
}

/// The battle's total damage changes only when damage is credited or a new
/// lineup starts a new battle.
pub proof fn law_total_damage_changes_only_with_damage<N: Copy, A: Fn(N, N) -> N, E: Fn(N, N) -> bool>(
    c0: BattleContext<N>,
    c1: BattleContext<N>,
    event: Result<Event<N>, String>,
    zero: N,
    plus: A,
    same: E,
    r: Result<EventOutcome<N>, BattleError>,
)
    requires
        BattleContext::event_post(&c0, &c1, event, zero, plus, same, r),
        !(event matches Ok(Event::OnSetBattleLineup(_))),
        !(event matches Ok(Event::OnDamage(_))),
    ensures
        c1.total_damage == c0.total_damage,
{
}

/// Every per-slot record has one entry per lineup avatar after any event: as many
/// as the new lineup has after a lineup event, as many as before after any other.
pub proof fn law_slot_lengths_follow_lineup<N: Copy, A: Fn(N, N) -> N, E: Fn(N, N) -> bool>(
    c0: BattleContext<N>,
    c1: BattleContext<N>,
    event: Result<Event<N>, String>,
    zero: N,
    plus: A,
    same: E,
    r: Result<EventOutcome<N>, BattleError>,
)
    requires
        c0.well_formed(),
        c1.well_formed(),
        BattleContext::event_post(&c0, &c1, event, zero, plus, same, r),
    ensures
        c1.avatar_lineup@.len() == (match event {
            Ok(Event::OnSetBattleLineup(e)) => e.avatars@.len(),
            _ => c0.avatar_lineup@.len(),
        }),
        c1.battle_avatars@.len() == c1.avatar_lineup@.len(),
        c1.real_time_damages@.len() == c1.avatar_lineup@.len(),
        c1.real_time_overkill_damages@.len() == c1.avatar_lineup@.len(),
        c1.damage_by_category@.len() == c1.avatar_lineup@.len(),
        c1.current_turn_info.avatars_turn_damage@.len() == c1.avatar_lineup@.len(),
{
    if !(event matches Ok(Event::OnSetBattleLineup(_))) {
        law_lineup_changes_only_with_new_lineup(c0, c1, event, zero, plus, same, r);
    }
}

/// An attack type's member name reads back as that type.
pub proof fn law_attack_type_name_round_trip(t: AttackType)
    ensures
        attack_type_from_name(attack_type_name(t)) == t,
{
    reveal_strlit("Unknown"); reveal_strlit("Normal"); reveal_strlit("BPSkill"); reveal_strlit("Ultra"); reveal_strlit("QTE"); reveal_strlit("DOT"); reveal_strlit("Pursued"); reveal_strlit("Maze"); reveal_strlit("MazeNormal"); reveal_strlit("Insert"); reveal_strlit("ElementDamage"); reveal_strlit("Servant"); reveal_strlit("TrueDamage"); reveal_strlit("ElationDamage"); reveal_strlit("Assist");
    match t {
        AttackType::Unknown => {
            assert("Unknown"@.len() != "Normal"@.len() && "Unknown"@[0] != "BPSkill"@[0] && "Unknown"@.len() != "Ultra"@.len() && "Unknown"@.len() != "QTE"@.len() && "Unknown"@.len() != "DOT"@.len() && "Unknown"@[0] != "Pursued"@[0] && "Unknown"@.len() != "Maze"@.len() && "Unknown"@.len() != "MazeNormal"@.len() && "Unknown"@.len() != "Insert"@.len() && "Unknown"@.len() != "ElementDamage"@.len() && "Unknown"@[0] != "Servant"@[0] && "Unknown"@.len() != "TrueDamage"@.len() && "Unknown"@.len() != "ElationDamage"@.len() && "Unknown"@.len() != "Assist"@.len());
        },
        AttackType::Normal => {},
        AttackType::BPSkill => {
            assert("BPSkill"@.len() != "Normal"@.len());
        },
        AttackType::Ultra => {
            assert("Ultra"@.len() != "Normal"@.len() && "Ultra"@.len() != "BPSkill"@.len());
        },
        AttackType::QTE => {
            assert("QTE"@.len() != "Normal"@.len() && "QTE"@.len() != "BPSkill"@.len() && "QTE"@.len() != "Ultra"@.len());
        },
        AttackType::DOT => {
            assert("DOT"@.len() != "Normal"@.len() && "DOT"@.len() != "BPSkill"@.len() && "DOT"@.len() != "Ultra"@.len() && "DOT"@[0] != "QTE"@[0]);
        },
        AttackType::Pursued => {
            assert("Pursued"@.len() != "Normal"@.len() && "Pursued"@[0] != "BPSkill"@[0] && "Pursued"@.len() != "Ultra"@.len() && "Pursued"@.len() != "QTE"@.len() && "Pursued"@.len() != "DOT"@.len());
        },
        AttackType::Maze => {
            assert("Maze"@.len() != "Normal"@.len() && "Maze"@.len() != "BPSkill"@.len() && "Maze"@.len() != "Ultra"@.len() && "Maze"@.len() != "QTE"@.len() && "Maze"@.len() != "DOT"@.len() && "Maze"@.len() != "Pursued"@.len());
        },
        AttackType::MazeNormal => {
            assert("MazeNormal"@.len() != "Normal"@.len() && "MazeNormal"@.len() != "BPSkill"@.len() && "MazeNormal"@.len() != "Ultra"@.len() && "MazeNormal"@.len() != "QTE"@.len() && "MazeNormal"@.len() != "DOT"@.len() && "MazeNormal"@.len() != "Pursued"@.len() && "MazeNormal"@.len() != "Maze"@.len());
        },
        AttackType::Insert => {
            assert("Insert"@[0] != "Normal"@[0] && "Insert"@.len() != "BPSkill"@.len() && "Insert"@.len() != "Ultra"@.len() && "Insert"@.len() != "QTE"@.len() && "Insert"@.len() != "DOT"@.len() && "Insert"@.len() != "Pursued"@.len() && "Insert"@.len() != "Maze"@.len() && "Insert"@.len() != "MazeNormal"@.len());
        },
        AttackType::ElementDamage => {
            assert("ElementDamage"@.len() != "Normal"@.len() && "ElementDamage"@.len() != "BPSkill"@.len() && "ElementDamage"@.len() != "Ultra"@.len() && "ElementDamage"@.len() != "QTE"@.len() && "ElementDamage"@.len() != "DOT"@.len() && "ElementDamage"@.len() != "Pursued"@.len() && "ElementDamage"@.len() != "Maze"@.len() && "ElementDamage"@.len() != "MazeNormal"@.len() && "ElementDamage"@.len() != "Insert"@.len());
        },
        AttackType::Servant => {
            assert("Servant"@.len() != "Normal"@.len() && "Servant"@[0] != "BPSkill"@[0] && "Servant"@.len() != "Ultra"@.len() && "Servant"@.len() != "QTE"@.len() && "Servant"@.len() != "DOT"@.len() && "Servant"@[0] != "Pursued"@[0] && "Servant"@.len() != "Maze"@.len() && "Servant"@.len() != "MazeNormal"@.len() && "Servant"@.len() != "Insert"@.len() && "Servant"@.len() != "ElementDamage"@.len());
        },
        AttackType::TrueDamage => {
            assert("TrueDamage"@.len() != "Normal"@.len() && "TrueDamage"@.len() != "BPSkill"@.len() && "TrueDamage"@.len() != "Ultra"@.len() && "TrueDamage"@.len() != "QTE"@.len() && "TrueDamage"@.len() != "DOT"@.len() && "TrueDamage"@.len() != "Pursued"@.len() && "TrueDamage"@.len() != "Maze"@.len() && "TrueDamage"@[0] != "MazeNormal"@[0] && "TrueDamage"@.len() != "Insert"@.len() && "TrueDamage"@.len() != "ElementDamage"@.len() && "TrueDamage"@.len() != "Servant"@.len());
        },
        AttackType::ElationDamage => {
            assert("ElationDamage"@.len() != "Normal"@.len() && "ElationDamage"@.len() != "BPSkill"@.len() && "ElationDamage"@.len() != "Ultra"@.len() && "ElationDamage"@.len() != "QTE"@.len() && "ElationDamage"@.len() != "DOT"@.len() && "ElationDamage"@.len() != "Pursued"@.len() && "ElationDamage"@.len() != "Maze"@.len() && "ElationDamage"@.len() != "MazeNormal"@.len() && "ElationDamage"@.len() != "Insert"@.len() && "ElationDamage"@[2] != "ElementDamage"@[2] && "ElationDamage"@.len() != "Servant"@.len() && "ElationDamage"@.len() != "TrueDamage"@.len());
        },
        AttackType::Assist => {
            assert("Assist"@[0] != "Normal"@[0] && "Assist"@.len() != "BPSkill"@.len() && "Assist"@.len() != "Ultra"@.len() && "Assist"@.len() != "QTE"@.len() && "Assist"@.len() != "DOT"@.len() && "Assist"@.len() != "Pursued"@.len() && "Assist"@.len() != "Maze"@.len() && "Assist"@.len() != "MazeNormal"@.len() && "Assist"@[0] != "Insert"@[0] && "Assist"@.len() != "ElementDamage"@.len() && "Assist"@.len() != "Servant"@.len() && "Assist"@.len() != "TrueDamage"@.len() && "Assist"@.len() != "ElationDamage"@.len());
        },
    }
}

/// A battle just set up around a lineup charts as one row per lineup avatar and no
/// skill rows; each row credits its avatar with zero damage, no turns and no skill
/// uses.
pub proof fn law_fresh_lineup_charts_empty<N: Copy, A: Fn(N, N) -> N, E: Fn(N, N) -> bool, P: Fn(N) -> bool, B: Fn(N, N) -> N, C: Fn(u32) -> N>(
    c0: BattleContext<N>,
    c1: BattleContext<N>,
    avatars: Vec<Avatar>,
    ops: ChartArith<N, P, B, C>,
    rows: Seq<ComprehensiveData<N>>,
)
    requires
        BattleContext::set_lineup_post(&c0, &c1, avatars, ops.zero),
        chart_of(&c1, ops, rows),
    ensures
        rows.len() == avatars@.len(),
        forall|i: int| 0 <= i < rows.len() ==> {
            let row = #[trigger] rows[i];
            &&& row.character_id == avatars@[i].id
            &&& row.total_damage == Some(ops.zero)
            &&& row.primary_skill_usage_count == Some(0u32)
            &&& row.turns_taken == Some(0u32)
            &&& row.average_damage_per_turn == Some(ops.zero)
            &&& row.max_single_turn_damage == Some(ops.zero)
            &&& row.first_turn_number == Some(0u32)
            &&& row.last_turn_number == Some(0u32)
        },
{
    assert forall|i: int| 0 <= i < rows.len() implies {
        let row = #[trigger] rows[i];
        &&& row.character_id == avatars@[i].id
        &&& row.total_damage == Some(ops.zero)
        &&& row.primary_skill_usage_count == Some(0u32)
        &&& row.turns_taken == Some(0u32)
        &&& row.average_damage_per_turn == Some(ops.zero)
        &&& row.max_single_turn_damage == Some(ops.zero)
        &&& row.first_turn_number == Some(0u32)
        &&& row.last_turn_number == Some(0u32)
    } by {
        assert(summary_row_ok(&c1, ops, i, rows[i]));
        let id = c1.avatar_lineup@[i].id;
        assert(turn_hits(ops, c1.turn_history@, c1.avatar_lineup@, id, 0) == Seq::<(u32, N)>::empty());
        assert(hit_damages(Seq::<(u32, N)>::empty()) =~= Seq::<N>::empty());
        assert(primary_usage(c1.skill_history@, id) == 0);
    }
}

/// A new lineup leaves the damage tallies in agreement: all zero.
proof fn lemma_lineup_consistent<N: Copy, A: Fn(N, N) -> N>(
    c0: BattleContext<N>,
    c1: BattleContext<N>,
    e: OnSetLineupEvent,
    zero: N,
    plus: A,
)
    requires
        exact_addition(plus, zero),
        BattleContext::set_lineup_post(&c0, &c1, e.avatars, zero),
    ensures
        damage_consistent(&c1, zero, plus),
{
    let n = c1.avatar_lineup@.len();
    lemma_fold_zeros(plus, zero, c1.real_time_damages@);
    assert forall|i: int| 0 <= i < n implies #[trigger] c1.real_time_damages@[i]
        == breakdown_sum(plus, zero, c1.damage_by_category@[i]@, ATTACK_TYPE_COUNT as nat) by {
        assert(c1.damage_by_category@[i]@ == Map::<u32, N>::empty());
        lemma_breakdown_sum_empty(plus, zero, ATTACK_TYPE_COUNT as nat);
    }
    assert forall|i: int| 0 <= i < n implies #[trigger] c1.real_time_damages@[i] == call2(
        plus,
        turns_sum(plus, zero, c1.turn_history@, i),
        c1.current_turn_info.avatars_turn_damage@[i],
    ) by {
        assert(turns_sum(plus, zero, c1.turn_history@, i) == zero);
        assert(call2(plus, zero, zero) == zero);
    }
}

/// Damage credited to a lineup slot keeps the damage tallies in agreement.
proof fn lemma_damage_consistent<N: Copy, A: Fn(N, N) -> N>(
    c0: BattleContext<N>,
    c1: BattleContext<N>,
    e: OnDamageEvent<N>,
    zero: N,
    plus: A,
    rec: crate::battle::DamageRecord,
)
    requires
        exact_addition(plus, zero),
        c0.well_formed(),
        damage_consistent(&c0, zero, plus),
        BattleContext::damage_post(&c0, &c1, e, zero, plus, Ok(rec)),
    ensures
        damage_consistent(&c1, zero, plus),
{
    let n = c0.avatar_lineup@.len();
    let i = rec.lineup_index as int;
    let d = e.damage;
    assert(first_avatar_at(c0.avatar_lineup@, e.attacker.uid, i));
    let rtd = c0.real_time_damages@;
    let cur = c0.current_turn_info.avatars_turn_damage@;
    lemma_call2(plus, rtd[i], d, c1.real_time_damages@[i]);
    lemma_call2(plus, cur[i], d, c1.current_turn_info.avatars_turn_damage@[i]);
    lemma_call2(plus, c0.total_damage, d, c1.total_damage);
    assert(c1.real_time_damages@ =~= rtd.update(i, call2(plus, rtd[i], d)));
    lemma_fold_update(plus, zero, rtd, i, d);
    let rank = attack_type_rank(rec.attack_type);
    lemma_attack_type_rank(rec.attack_type);
    let row = c0.damage_by_category@[i]@;
    let base = if row.contains_key(rank) { row[rank] } else { zero };
    assert(category_credited(row, c1.damage_by_category@[i]@, rank, d, zero, plus));
    let v = choose|v: N| plus.ensures((base, d), v) && c1.damage_by_category@[i]@ == row.insert(rank, v);
    lemma_call2(plus, base, d, v);
    lemma_breakdown_sum_credit(plus, zero, row, rank, d, ATTACK_TYPE_COUNT as nat);
    assert forall|j: int| 0 <= j < n implies #[trigger] c1.real_time_damages@[j]
        == breakdown_sum(plus, zero, c1.damage_by_category@[j]@, ATTACK_TYPE_COUNT as nat) by {
        if j != i {
            assert(c1.real_time_damages@[j] == rtd[j]);
            assert(c1.damage_by_category@[j] == c0.damage_by_category@[j]);
            assert(rtd[j] == breakdown_sum(plus, zero, c0.damage_by_category@[j]@, ATTACK_TYPE_COUNT as nat));
        } else {
            assert(rtd[i] == breakdown_sum(plus, zero, row, ATTACK_TYPE_COUNT as nat));
        }
    }
    assert forall|j: int| 0 <= j < n implies #[trigger] c1.real_time_damages@[j] == call2(
        plus,
        turns_sum(plus, zero, c1.turn_history@, j),
        c1.current_turn_info.avatars_turn_damage@[j],
    ) by {
        let t = turns_sum(plus, zero, c0.turn_history@, j);
        if j != i {
            assert(c1.real_time_damages@[j] == rtd[j]);
            assert(c1.current_turn_info.avatars_turn_damage@[j] == cur[j]);
            assert(rtd[j] == call2(plus, t, cur[j]));
        } else {
            assert(rtd[i] == call2(plus, t, cur[i]));
            assert(call2(plus, call2(plus, t, cur[i]), d) == call2(plus, t, call2(plus, cur[i], d)));
        }
    }
}

/// Closing a turn keeps the damage tallies in agreement.
proof fn lemma_turn_end_consistent<N: Copy, A: Fn(N, N) -> N, E: Fn(N, N) -> bool>(
    c0: BattleContext<N>,
    c1: BattleContext<N>,
    zero: N,
    plus: A,
    same: E,
    turn: TurnInfo<N>,
    merged: bool,
)
    requires
        exact_addition(plus, zero),
        c0.well_formed(),
        damage_consistent(&c0, zero, plus),
        BattleContext::turn_end_post(&c0, &c1, zero, plus, same, turn, merged),
    ensures
        damage_consistent(&c1, zero, plus),
{
    let n = c0.avatar_lineup@.len();
    let th = c0.turn_history@.len();
    assert(c1.turn_history@.drop_last() =~= c0.turn_history@);
    assert forall|j: int| 0 <= j < n implies #[trigger] c1.real_time_damages@[j] == call2(
        plus,
        turns_sum(plus, zero, c1.turn_history@, j),
        c1.current_turn_info.avatars_turn_damage@[j],
    ) by {
        let t = turns_sum(plus, zero, c0.turn_history@, j);
        let x = c0.current_turn_info.avatars_turn_damage@[j];
        assert(c1.turn_history@.last().avatars_turn_damage@[j] == x);
        assert(turns_sum(plus, zero, c1.turn_history@, j) == call2(plus, t, x));
        assert(c1.current_turn_info.avatars_turn_damage@[j] == zero);
        let y = call2(plus, t, x);
        assert(call2(plus, y, zero) == call2(plus, zero, y));
        assert(c1.real_time_damages@[j] == c0.real_time_damages@[j]);
    }
    assert forall|j: int| 0 <= j < n implies #[trigger] c1.real_time_damages@[j]
        == breakdown_sum(plus, zero, c1.damage_by_category@[j]@, ATTACK_TYPE_COUNT as nat) by {
        assert(c1.real_time_damages@[j] == c0.real_time_damages@[j]);
    }
}

/// With exact addition, the damage tallies always agree: the battle total is the
/// sum of the lineup slots' damage, and each slot's damage is the sum of its
/// damage-type breakdown and the sum of its damage over the recorded turns and the
/// current one. A new lineup makes them agree; every other event keeps them so.
pub proof fn law_damage_totals_stay_consistent<N: Copy, A: Fn(N, N) -> N, E: Fn(N, N) -> bool>(
    c0: BattleContext<N>,
    c1: BattleContext<N>,
    event: Result<Event<N>, String>,
    zero: N,
    plus: A,
    same: E,
    r: Result<EventOutcome<N>, BattleError>,
)
    requires
        exact_addition(plus, zero),
        c0.well_formed(),
        (event matches Ok(Event::OnSetBattleLineup(_))) || damage_consistent(&c0, zero, plus),
        BattleContext::event_post(&c0, &c1, event, zero, plus, same, r),
    ensures
        damage_consistent(&c1, zero, plus),
{
    match event {
        Err(_) => {},
        Ok(ev) => match ev {
            Event::OnSetBattleLineup(e) => {
                lemma_lineup_consistent(c0, c1, e, zero, plus);
            },
            Event::OnDamage(e) => match r {
                Ok(EventOutcome::Damage(rec)) => {
                    lemma_damage_consistent(c0, c1, e, zero, plus, rec);
                },
                _ => {},
            },
            Event::OnTurnEnd => match r {
                Ok(EventOutcome::TurnEnded(turn, merged)) => {
                    lemma_turn_end_consistent(c0, c1, zero, plus, same, turn, merged);
                },
                _ => {},
            },
            _ => {},
        },
    }
}

/// The uses of the skill named `name` by avatar `id`.
pub open spec fn uses_of<N>(id: u32, name: Seq<char>) -> spec_fn(SkillHistoryEntry<N>) -> bool {
    |e: SkillHistoryEntry<N>| e.avatar_id == id && e.skill_name@ == name
}

proof fn lemma_name_count_is_filter<N>(skills: Seq<SkillHistoryEntry<N>>, id: u32, name: Seq<char>)
    ensures
        name_count(skills, id, name) == skills.filter(uses_of(id, name)).len(),
    decreases skills.len(),
{
    reveal(Seq::filter);
    if skills.len() > 0 {
        lemma_name_count_is_filter(skills.drop_last(), id, name);
    }
}

proof fn lemma_name_count_counts_entry<N>(skills: Seq<SkillHistoryEntry<N>>, id: u32, k: int)
    requires
        0 <= k < skills.len(),
        skills[k].avatar_id == id,
    ensures
        name_count(skills, id, skills[k].skill_name@) >= 1,
    decreases skills.len(),
{
    if k < skills.len() - 1 {
        assert(skills.drop_last()[k] == skills[k]);
        lemma_name_count_counts_entry(skills.drop_last(), id, k);
    }
}

proof fn lemma_best_usage<N>(skills: Seq<SkillHistoryEntry<N>>, id: u32, upto: int)
    requires
        0 <= upto <= skills.len(),
    ensures
        forall|k: int| 0 <= k < upto && skills[k].avatar_id == id
            ==> best_usage(skills, id, upto) >= name_count(skills, id, #[trigger] skills[k].skill_name@),
        best_usage(skills, id, upto) == 0 || exists|k: int| 0 <= k < upto && skills[k].avatar_id == id
            && best_usage(skills, id, upto) == name_count(skills, id, #[trigger] skills[k].skill_name@),
    decreases upto,
{
    if upto > 0 {
        lemma_best_usage(skills, id, upto - 1);
    }
}

/// A character's primary skill usage in the chart is the number of uses of its
/// most-used skill: at least the uses of every skill it used, and equal to the uses
/// of one of them; zero when it used none.
pub proof fn law_primary_skill_usage_is_the_most_uses<N, P: Fn(N) -> bool, B: Fn(N, N) -> N, C: Fn(u32) -> N>(
    ctx: BattleContext<N>,
    ops: ChartArith<N, P, B, C>,
    rows: Seq<ComprehensiveData<N>>,
    i: int,
)
    requires
        chart_of(&ctx, ops, rows),
        ctx.skill_history@.len() <= u32::MAX,
        0 <= i < ctx.avatar_lineup@.len(),
    ensures
        ({
            let id = ctx.avatar_lineup@[i].id;
            let h = ctx.skill_history@;
            rows[i].primary_skill_usage_count matches Some(c) && {
                &&& forall|k: int| 0 <= k < h.len() && h[k].avatar_id == id
                    ==> c >= (#[trigger] h.filter(uses_of(id, h[k].skill_name@))).len()
                &&& (exists|k: int| 0 <= k < h.len() && h[k].avatar_id == id
                    && c == (#[trigger] h.filter(uses_of(id, h[k].skill_name@))).len())
                    || (c == 0 && forall|k: int| 0 <= k < h.len() ==> (#[trigger] h[k]).avatar_id != id)
            }
        }),
{
    let id = ctx.avatar_lineup@[i].id;
    let h = ctx.skill_history@;
    assert(summary_row_ok(&ctx, ops, i, rows[i]));
    lemma_best_usage(h, id, h.len() as int);
    let best = primary_usage(h, id);
    if best > 0 {
        let k = choose|k: int| 0 <= k < h.len() && h[k].avatar_id == id
            && best == name_count(h, id, #[trigger] h[k].skill_name@);
        lemma_name_count_bound(h, id, h[k].skill_name@);
        lemma_name_count_is_filter(h, id, h[k].skill_name@);
    } else {
        assert forall|k: int| 0 <= k < h.len() implies (#[trigger] h[k]).avatar_id != id by {
            if h[k].avatar_id == id {
                lemma_name_count_counts_entry(h, id, k);
            }
        }
    }
    let c = best as u32;
    assert forall|k: int| 0 <= k < h.len() && h[k].avatar_id == id
        implies c >= (#[trigger] h.filter(uses_of(id, h[k].skill_name@))).len() by {
        lemma_name_count_is_filter(h, id, h[k].skill_name@);
    }
}

/// The damage `rows` list under rank `r`, added up row by row from `zero` over the
/// rows that list it.
pub open spec fn rank_total<N, A: Fn(N, N) -> N>(rows: Seq<Map<u32, N>>, r: u32, zero: N, plus: A) -> N
    decreases rows.len(),
{
    if rows.len() == 0 {
        zero
    } else {
        let prev = rank_total(rows.drop_last(), r, zero, plus);
        if rows.last().contains_key(r) {
            call2(plus, prev, rows.last()[r])
        } else {
            prev
        }
    }
}

proof fn lemma_merged_ranks_at<N, A: Fn(N, N) -> N>(acc: Map<u32, N>, row: Map<u32, N>, upto: nat, zero: N, plus: A, r: u32)
    requires
        upto <= ATTACK_TYPE_COUNT,
    ensures
        ({
            let out = merged_ranks(acc, row, upto, zero, plus);
            if r < upto && row.contains_key(r) {
                out.contains_key(r) && out[r] == call2(plus, if acc.contains_key(r) { acc[r] } else { zero }, row[r])
            } else {
                out.contains_key(r) == acc.contains_key(r) && (acc.contains_key(r) ==> out[r] == acc[r])
            }
        }),
    decreases upto,
{
    if upto > 0 {
        lemma_merged_ranks_at(acc, row, (upto - 1) as nat, zero, plus, r);
    }
}

proof fn lemma_aggregated_at<N, A: Fn(N, N) -> N>(rows: Seq<Map<u32, N>>, zero: N, plus: A, r: u32)
    requires
        forall|i: int| 0 <= i < rows.len() ==> breakdown_keys_valid(#[trigger] rows[i]),
    ensures
        aggregated(rows, zero, plus).contains_key(r) <==> exists|i: int| 0 <= i < rows.len() && (#[trigger] rows[i]).contains_key(r),
        aggregated(rows, zero, plus).contains_key(r) ==> aggregated(rows, zero, plus)[r] == rank_total(rows, r, zero, plus),
        !aggregated(rows, zero, plus).contains_key(r) ==> rank_total(rows, r, zero, plus) == zero,
    decreases rows.len(),
{
    if rows.len() > 0 {
        let pre = rows.drop_last();
        assert forall|i: int| 0 <= i < pre.len() implies breakdown_keys_valid(#[trigger] pre[i]) by {
            assert(pre[i] == rows[i]);
        }
        lemma_aggregated_at(pre, zero, plus, r);
        lemma_merged_ranks_at(aggregated(pre, zero, plus), rows.last(), ATTACK_TYPE_COUNT as nat, zero, plus, r);
        assert(breakdown_keys_valid(rows[rows.len() - 1]));
        if exists|i: int| 0 <= i < rows.len() && (#[trigger] rows[i]).contains_key(r) {
            let i = choose|i: int| 0 <= i < rows.len() && (#[trigger] rows[i]).contains_key(r);
            if i < rows.len() - 1 {
                assert(pre[i] == rows[i]);
            }
        }
        if exists|i: int| 0 <= i < pre.len() && (#[trigger] pre[i]).contains_key(r) {
            let i = choose|i: int| 0 <= i < pre.len() && (#[trigger] pre[i]).contains_key(r);
            assert(rows[i] == pre[i]);
        }
    }
}

/// The team breakdown lists exactly the attack types some character's breakdown
/// lists, each with that type's damage added up over the characters that dealt it.
pub proof fn law_team_breakdown_sums_every_type<N, A: Fn(N, N) -> N>(rows: Seq<Map<u32, N>>, zero: N, plus: A)
    requires
        forall|i: int| 0 <= i < rows.len() ==> breakdown_keys_valid(#[trigger] rows[i]),
    ensures
        forall|r: u32| #[trigger] aggregated(rows, zero, plus).contains_key(r)
            <==> exists|i: int| 0 <= i < rows.len() && (#[trigger] rows[i]).contains_key(r),
        forall|r: u32| #[trigger] aggregated(rows, zero, plus).contains_key(r)
            ==> aggregated(rows, zero, plus)[r] == rank_total(rows, r, zero, plus),
{
    assert forall|r: u32| #[trigger] aggregated(rows, zero, plus).contains_key(r)
        <==> exists|i: int| 0 <= i < rows.len() && (#[trigger] rows[i]).contains_key(r) by {
        lemma_aggregated_at(rows, zero, plus, r);
    }
    assert forall|r: u32| #[trigger] aggregated(rows, zero, plus).contains_key(r)
        implies aggregated(rows, zero, plus)[r] == rank_total(rows, r, zero, plus) by {
        lemma_aggregated_at(rows, zero, plus, r);
    }
}

proof fn lemma_picked_stats<N>(props: Seq<(String, N)>, names: Seq<Seq<char>>)
    ensures
        forall|j: int| 0 <= j < names.len() && stat_lookup(props, names[j]) is Some
            ==> picked_stats(props, names).contains((#[trigger] names[j], stat_lookup(props, names[j])->0)),
        forall|k: int| 0 <= k < picked_stats(props, names).len() ==> names.contains((#[trigger] picked_stats(props, names)[k]).0)
            && stat_lookup(props, picked_stats(props, names)[k].0) == Some(picked_stats(props, names)[k].1),
    decreases names.len(),
{
    if names.len() > 0 {
        let pre = names.drop_last();
        lemma_picked_stats(props, pre);
        let prev = picked_stats(props, pre);
        let out = picked_stats(props, names);
        assert forall|j: int| 0 <= j < names.len() && stat_lookup(props, names[j]) is Some
            implies out.contains((#[trigger] names[j], stat_lookup(props, names[j])->0)) by {
            if j < names.len() - 1 {
                assert(pre[j] == names[j]);
                let m = choose|m: int| 0 <= m < prev.len() && prev[m] == (pre[j], stat_lookup(props, pre[j])->0);
                assert(out[m] == prev[m]);
            } else {
                assert(out[out.len() - 1] == (names[j], stat_lookup(props, names[j])->0));
            }
        }
        assert forall|k: int| 0 <= k < out.len() implies names.contains((#[trigger] out[k]).0)
            && stat_lookup(props, out[k].0) == Some(out[k].1) by {
            if k < prev.len() {
                assert(out[k] == prev[k]);
                let m = choose|m: int| 0 <= m < pre.len() && pre[m] == prev[k].0;
                assert(names[m] == pre[m]);
            } else {
                assert(names[names.len() - 1] == out[k].0);
            }
        }
    }
}

/// The stats exported for a combatant are exactly the ones among CurrentHP, MaxHP,
/// Attack, Defence, Speed and ActionDelay that it holds a value for, each with that
/// value: every such stat is there, and nothing else is.
pub proof fn law_exported_stats_are_the_tracked_ones<N: Copy>(stats: BattleStats<N>)
    ensures
        forall|name: Seq<char>|
            (name == "CurrentHP"@ || name == "MaxHP"@ || name == "Attack"@ || name == "Defence"@
                || name == "Speed"@ || name == "ActionDelay"@) && #[trigger] stats.value_of(name) is Some
            ==> picked_stats(stats@, tracked_stat_names()).contains((name, stats.value_of(name)->0)),
        forall|k: int| 0 <= k < picked_stats(stats@, tracked_stat_names()).len() ==> {
            let (name, value) = #[trigger] picked_stats(stats@, tracked_stat_names())[k];
            &&& name == "CurrentHP"@ || name == "MaxHP"@ || name == "Attack"@ || name == "Defence"@
                || name == "Speed"@ || name == "ActionDelay"@
            &&& stats.value_of(name) == Some(value)
        },
{
    let names = tracked_stat_names();
    lemma_picked_stats(stats@, names);
    assert(names[0] == "CurrentHP"@ && names[1] == "MaxHP"@ && names[2] == "Attack"@);
    assert(names[3] == "Defence"@ && names[4] == "Speed"@ && names[5] == "ActionDelay"@);
    assert forall|name: Seq<char>|
        (name == "CurrentHP"@ || name == "MaxHP"@ || name == "Attack"@ || name == "Defence"@
            || name == "Speed"@ || name == "ActionDelay"@) && #[trigger] stats.value_of(name) is Some
        implies picked_stats(stats@, names).contains((name, stats.value_of(name)->0)) by {
        let j: int = if name == "CurrentHP"@ { 0 } else if name == "MaxHP"@ { 1 } else if name == "Attack"@ { 2 }
            else if name == "Defence"@ { 3 } else if name == "Speed"@ { 4 } else { 5 };
        assert(names[j] == name);
    }
    assert forall|k: int| 0 <= k < picked_stats(stats@, names).len() implies {
        let (name, value) = #[trigger] picked_stats(stats@, names)[k];
        &&& name == "CurrentHP"@ || name == "MaxHP"@ || name == "Attack"@ || name == "Defence"@
            || name == "Speed"@ || name == "ActionDelay"@
        &&& stats.value_of(name) == Some(value)
    } by {
        let e = picked_stats(stats@, names)[k];
        let j = choose|j: int| 0 <= j < names.len() && names[j] == e.0;
        assert(names.len() == 6);
    }
}

/// The export folder is the custom path when one is given, else the local data
/// directory, the package name and "battledata"; a date folder is added after it
/// exactly when date folders are turned on, and nothing else is ever added. With
/// neither a custom path nor a local data directory there is no folder.
pub proof fn law_date_folder_only_when_asked(
    custom_path: Option<Seq<char>>,
    data_local_dir: Option<Seq<char>>,
    auto_create_date_folders: bool,
    timestamp: u64,
    package_name: Seq<char>,
)
    ensures
        ({
            let planned = export_segments(custom_path, data_local_dir, auto_create_date_folders, timestamp, package_name);
            let date = date_folder_text(timestamp);
            &&& custom_path matches Some(c) ==> planned == Some(
                if auto_create_date_folders { seq![c, date] } else { seq![c] },
            )
            &&& custom_path is None ==> (data_local_dir matches Some(d) ==> planned == Some(
                if auto_create_date_folders {
                    seq![d, package_name, "battledata"@, date]
                } else {
                    seq![d, package_name, "battledata"@]
                },
            ))
            &&& (custom_path is None && data_local_dir is None) ==> planned is None
        }),
{
    match custom_path {
        Some(c) => {
            assert(seq![c].push(date_folder_text(timestamp)) =~= seq![c, date_folder_text(timestamp)]);
        },
        None => match data_local_dir {
            Some(d) => {
                assert(seq![d, package_name, "battledata"@].push(date_folder_text(timestamp))
                    =~= seq![d, package_name, "battledata"@, date_folder_text(timestamp)]);
            },
            None => {},
        },
    }
}

/// Where a type's point stands in the breakdown chart: Normal, skill, ultimate,
/// QTE, DoT, pursued, technique, follow-up, break, servant, true damage, elation and
/// assist first, in that order; then the remaining types, unknown before the
/// technique's normal attack.
pub open spec fn chart_place(t: AttackType) -> int {
    match t {
        AttackType::Normal => 0,
        AttackType::BPSkill => 1,
        AttackType::Ultra => 2,
        AttackType::QTE => 3,
        AttackType::DOT => 4,
        AttackType::Pursued => 5,
        AttackType::Maze => 6,
        AttackType::Insert => 7,
        AttackType::ElementDamage => 8,
        AttackType::Servant => 9,
        AttackType::TrueDamage => 10,
        AttackType::ElationDamage => 11,
        AttackType::Assist => 12,
        AttackType::Unknown => 13,
        AttackType::MazeNormal => 14,
    }
}

/// `p` is the point of a type the breakdown lists with positive damage: that type,
/// its label, and its damage.
pub open spec fn listed_point<N, P: Fn(N) -> bool>(row: Map<u32, N>, positive: P, p: (AttackType, Seq<char>, N)) -> bool {
    let r = attack_type_rank(p.0);
    &&& row.contains_key(r)
    &&& call1(positive, row[r])
    &&& p.1 == damage_type_label(p.0)
    &&& p.2 == row[r]
}

proof fn lemma_ordered_places()
    ensures
        ordered_damage_types().len() == 13,
        forall|j: int| 0 <= j < 13 ==> chart_place(#[trigger] ordered_damage_types()[j]) == j,
        forall|t: AttackType| #[trigger] ordered_damage_types().contains(t) <==> chart_place(t) < 13,
{
    let o = ordered_damage_types();
    assert forall|j: int| 0 <= j < 13 implies chart_place(#[trigger] o[j]) == j by {}
    assert forall|t: AttackType| #[trigger] o.contains(t) <==> chart_place(t) < 13 by {
        if chart_place(t) < 13 {
            assert(o[chart_place(t)] == t);
        }
    }
}

proof fn lemma_rank_of_rank(r: u32)
    requires
        r < ATTACK_TYPE_COUNT,
    ensures
        attack_type_rank(attack_type_of_rank(r)) == r,
{
}

proof fn lemma_known_points<N, P: Fn(N) -> bool>(row: Map<u32, N>, positive: P, m: int)
    requires
        0 <= m <= 13,
    ensures
        ({
            let pts = known_points(row, ordered_damage_types().take(m), positive);
            &&& forall|k: int| 0 <= k < pts.len() ==> #[trigger] chart_place(pts[k].0) < m && listed_point(row, positive, pts[k])
            &&& forall|p: int, q: int| 0 <= p < q < pts.len() ==> chart_place(#[trigger] pts[p].0) < chart_place(#[trigger] pts[q].0)
            &&& forall|j: int| 0 <= j < m && row.contains_key(attack_type_rank(#[trigger] ordered_damage_types()[j]))
                && call1(positive, row[attack_type_rank(ordered_damage_types()[j])])
                ==> exists|k: int| 0 <= k < pts.len() && (#[trigger] pts[k]).0 == ordered_damage_types()[j]
        }),
    decreases m,
{
    lemma_ordered_places();
    let o = ordered_damage_types();
    let kinds = o.take(m);
    let pts = known_points(row, kinds, positive);
    if m > 0 {
        lemma_known_points(row, positive, m - 1);
        assert(kinds.drop_last() =~= o.take(m - 1));
        assert(kinds.last() == o[m - 1]);
        let prev = known_points(row, o.take(m - 1), positive);
        let t = o[m - 1];
        assert(chart_place(t) == m - 1);
        assert forall|k: int| 0 <= k < pts.len() implies #[trigger] chart_place(pts[k].0) < m && listed_point(row, positive, pts[k]) by {
            if k < prev.len() {
                assert(pts[k] == prev[k]);
            }
        }
        assert forall|p: int, q: int| 0 <= p < q < pts.len() implies chart_place(#[trigger] pts[p].0) < chart_place(#[trigger] pts[q].0) by {
            if q < prev.len() {
                assert(pts[p] == prev[p] && pts[q] == prev[q]);
            } else {
                assert(pts[p] == prev[p]);
            }
        }
        assert forall|j: int| 0 <= j < m && row.contains_key(attack_type_rank(#[trigger] o[j]))
            && call1(positive, row[attack_type_rank(o[j])])
            implies exists|k: int| 0 <= k < pts.len() && (#[trigger] pts[k]).0 == o[j] by {
            if j < m - 1 {
                let k = choose|k: int| 0 <= k < prev.len() && (#[trigger] prev[k]).0 == o[j];
                assert(pts[k] == prev[k]);
            } else {
                assert(pts[pts.len() - 1].0 == o[j]);
            }
        }
    }
}

proof fn lemma_other_points<N, P: Fn(N) -> bool>(row: Map<u32, N>, positive: P, upto: nat)
    requires
        upto <= ATTACK_TYPE_COUNT,
    ensures
        ({
            let pts = other_points(row, positive, upto);
            &&& forall|k: int| 0 <= k < pts.len() ==> 13 <= #[trigger] chart_place(pts[k].0)
                && attack_type_rank(pts[k].0) < upto && listed_point(row, positive, pts[k])
            &&& forall|p: int, q: int| 0 <= p < q < pts.len() ==> chart_place(#[trigger] pts[p].0) < chart_place(#[trigger] pts[q].0)
            &&& forall|r: u32| r < upto && 13 <= chart_place(attack_type_of_rank(r)) && #[trigger] row.contains_key(r)
                && call1(positive, row[r]) ==> exists|k: int| 0 <= k < pts.len() && attack_type_rank((#[trigger] pts[k]).0) == r
        }),
    decreases upto,
{
    lemma_ordered_places();
    let pts = other_points(row, positive, upto);
    if upto > 0 {
        lemma_other_points(row, positive, (upto - 1) as nat);
        let prev = other_points(row, positive, (upto - 1) as nat);
        let r = (upto - 1) as u32;
        let t = attack_type_of_rank(r);
        lemma_rank_of_rank(r);
        assert forall|k: int| 0 <= k < pts.len() implies 13 <= #[trigger] chart_place(pts[k].0)
            && attack_type_rank(pts[k].0) < upto && listed_point(row, positive, pts[k]) by {
            if k < prev.len() {
                assert(pts[k] == prev[k]);
            }
        }
        assert forall|p: int, q: int| 0 <= p < q < pts.len() implies chart_place(#[trigger] pts[p].0) < chart_place(#[trigger] pts[q].0) by {
            if q < prev.len() {
                assert(pts[p] == prev[p] && pts[q] == prev[q]);
            } else {
                assert(pts[p] == prev[p]);
                assert(pts[q].0 == t);
                assert(attack_type_rank(prev[p].0) < r);
            }
        }
        assert forall|x: u32| x < upto && 13 <= chart_place(attack_type_of_rank(x)) && #[trigger] row.contains_key(x)
            && call1(positive, row[x]) implies exists|k: int| 0 <= k < pts.len() && attack_type_rank((#[trigger] pts[k]).0) == x by {
            if x < r {
                let k = choose|k: int| 0 <= k < prev.len() && attack_type_rank((#[trigger] prev[k]).0) == x;
                assert(pts[k] == prev[k]);
            } else {
                assert(pts[pts.len() - 1].0 == t);
            }
        }
    }
}

/// The breakdown chart shows exactly the types the breakdown lists with positive
/// damage, each once, with its label and damage, in chart order: the types shown
/// first in their fixed order, then the others.
pub proof fn law_breakdown_points_list_every_positive_type<N, P: Fn(N) -> bool>(row: Map<u32, N>, positive: P)
    requires
        breakdown_keys_valid(row),
    ensures
        ({
            let pts = known_points(row, ordered_damage_types(), positive) + other_points(row, positive, ATTACK_TYPE_COUNT as nat);
            &&& forall|k: int| 0 <= k < pts.len() ==> listed_point(row, positive, #[trigger] pts[k])
            &&& forall|r: u32| #[trigger] row.contains_key(r) && call1(positive, row[r])
                ==> exists|k: int| 0 <= k < pts.len() && attack_type_rank((#[trigger] pts[k]).0) == r
            &&& forall|p: int, q: int| 0 <= p < q < pts.len() ==> chart_place(#[trigger] pts[p].0) < chart_place(#[trigger] pts[q].0)
        }),
{
    lemma_ordered_places();
    let o = ordered_damage_types();
    lemma_known_points(row, positive, 13);
    assert(o.take(13) =~= o);
    lemma_other_points(row, positive, ATTACK_TYPE_COUNT as nat);
    let a = known_points(row, o, positive);
    let b = other_points(row, positive, ATTACK_TYPE_COUNT as nat);
    let pts = a + b;
    assert forall|k: int| 0 <= k < pts.len() implies listed_point(row, positive, #[trigger] pts[k]) by {
        if k < a.len() {
            assert(pts[k] == a[k]);
        } else {
            assert(pts[k] == b[k - a.len()]);
        }
    }
    assert forall|r: u32| #[trigger] row.contains_key(r) && call1(positive, row[r])
        implies exists|k: int| 0 <= k < pts.len() && attack_type_rank((#[trigger] pts[k]).0) == r by {
        lemma_rank_of_rank(r);
        let t = attack_type_of_rank(r);
        if chart_place(t) < 13 {
            assert(o[chart_place(t)] == t);
            let k = choose|k: int| 0 <= k < a.len() && (#[trigger] a[k]).0 == o[chart_place(t)];
            assert(pts[k] == a[k]);
        } else {
            let k = choose|k: int| 0 <= k < b.len() && attack_type_rank((#[trigger] b[k]).0) == r;
            assert(pts[a.len() + k] == b[k]);
        }
    }
    assert forall|p: int, q: int| 0 <= p < q < pts.len() implies chart_place(#[trigger] pts[p].0) < chart_place(#[trigger] pts[q].0) by {
        if q < a.len() {
            assert(pts[p] == a[p] && pts[q] == a[q]);
        } else if p >= a.len() {
            assert(pts[p] == b[p - a.len()] && pts[q] == b[q - a.len()]);
        } else {
            assert(pts[p] == a[p] && pts[q] == b[q - a.len()]);
        }
    }
}

proof fn lemma_skill_totals_of_skip<N>(skills: Seq<SkillHistoryEntry<N>>, id: u32, j: int, k: int)
    requires
        0 <= j <= k <= skills.len(),
        forall|m: int| j <= m < k ==> (#[trigger] skills[m]).avatar_id != id,
    ensures
        skill_totals_of(skills.take(k), id) == skill_totals_of(skills.take(j), id),
    decreases k - j,
{
    if k > j {
        assert(skills.take(k).drop_last() =~= skills.take(k - 1));
        assert(skills.take(k).last() == skills[k - 1]);
        lemma_skill_totals_of_skip(skills, id, j, k - 1);
    }
}

/// The chart's running totals add each skill use's damage to the one before: the
/// battle's running total adds it to the previous use's running total (to `zero` for
/// the first use), and the character's running total adds it to that character's
/// previous use's running total (to `zero` for its first use).
pub proof fn law_chart_running_totals_add_up<N, P: Fn(N) -> bool, B: Fn(N, N) -> N, C: Fn(u32) -> N>(
    ctx: BattleContext<N>,
    ops: ChartArith<N, P, B, C>,
    rows: Seq<ComprehensiveData<N>>,
)
    requires
        chart_of(&ctx, ops, rows),
    ensures
        ({
            let n = ctx.avatar_lineup@.len() as int;
            let h = ctx.skill_history@;
            &&& h.len() > 0 ==> rows[n].cumulative_damage == Some(call2(ops.plus, ops.zero, h[0].total_damage))
            &&& forall|k: int| 0 < k < h.len() ==> (#[trigger] rows[n + k]).cumulative_damage
                == Some(call2(ops.plus, rows[n + k - 1].cumulative_damage->0, h[k].total_damage))
            &&& forall|k: int| 0 <= k < h.len() && (forall|m: int| 0 <= m < k ==> (#[trigger] h[m]).avatar_id != h[k].avatar_id)
                ==> (#[trigger] rows[n + k]).cumulative_character_damage == Some(call2(ops.plus, ops.zero, h[k].total_damage))
            &&& forall|j: int, k: int| 0 <= j < k < h.len() && h[j].avatar_id == h[k].avatar_id
                && (forall|m: int| j < m < k ==> (#[trigger] h[m]).avatar_id != h[k].avatar_id)
                ==> (#[trigger] rows[n + k]).cumulative_character_damage
                    == Some(call2(ops.plus, (#[trigger] rows[n + j]).cumulative_character_damage->0, h[k].total_damage))
        }),
{
    let n = ctx.avatar_lineup@.len() as int;
    let h = ctx.skill_history@;
    assert forall|k: int| 0 <= k < h.len() implies {
        &&& (#[trigger] rows[n + k]).cumulative_damage == Some(call2(ops.plus,
            fold_with(ops.plus, ops.zero, skill_totals(h.take(k))), h[k].total_damage))
        &&& rows[n + k].cumulative_character_damage == Some(call2(ops.plus,
            fold_with(ops.plus, ops.zero, skill_totals_of(h.take(k), h[k].avatar_id)), h[k].total_damage))
    } by {
        assert(detail_row_ok(&ctx, ops, k, rows[n + k]));
        assert(skill_totals(h.take(k + 1)) =~= skill_totals(h.take(k)).push(h[k].total_damage));
        lemma_fold_push(ops.plus, ops.zero, skill_totals(h.take(k)), h[k].total_damage);
        assert(h.take(k + 1).drop_last() =~= h.take(k));
        assert(h.take(k + 1).last() == h[k]);
        lemma_fold_push(ops.plus, ops.zero, skill_totals_of(h.take(k), h[k].avatar_id), h[k].total_damage);
    }
    if h.len() > 0 {
        assert(skill_totals(h.take(0)) =~= Seq::<N>::empty());
        assert(rows[n + 0] == rows[n]);
    }
    assert forall|k: int| 0 < k < h.len() implies (#[trigger] rows[n + k]).cumulative_damage
        == Some(call2(ops.plus, rows[n + k - 1].cumulative_damage->0, h[k].total_damage)) by {
        assert(rows[n + (k - 1)] == rows[n + k - 1]);
        assert(rows[n + (k - 1)].cumulative_damage == Some(call2(ops.plus,
            fold_with(ops.plus, ops.zero, skill_totals(h.take(k - 1))), h[k - 1].total_damage)));
        assert(skill_totals(h.take(k)) =~= skill_totals(h.take(k - 1)).push(h[k - 1].total_damage));
        lemma_fold_push(ops.plus, ops.zero, skill_totals(h.take(k - 1)), h[k - 1].total_damage);
    }
    assert forall|k: int| 0 <= k < h.len() && (forall|m: int| 0 <= m < k ==> (#[trigger] h[m]).avatar_id != h[k].avatar_id)
        implies (#[trigger] rows[n + k]).cumulative_character_damage == Some(call2(ops.plus, ops.zero, h[k].total_damage)) by {
        lemma_skill_totals_of_skip(h, h[k].avatar_id, 0, k);
        assert(h.take(0) =~= Seq::<SkillHistoryEntry<N>>::empty());
        assert(skill_totals_of(h.take(0), h[k].avatar_id) =~= Seq::<N>::empty());
    }
    assert forall|j: int, k: int| 0 <= j < k < h.len() && h[j].avatar_id == h[k].avatar_id
        && (forall|m: int| j < m < k ==> (#[trigger] h[m]).avatar_id != h[k].avatar_id)
        implies (#[trigger] rows[n + k]).cumulative_character_damage
            == Some(call2(ops.plus, (#[trigger] rows[n + j]).cumulative_character_damage->0, h[k].total_damage)) by {
        let id = h[k].avatar_id;
        lemma_skill_totals_of_skip(h, id, j + 1, k);
        assert(h.take(j + 1).drop_last() =~= h.take(j));
        assert(h.take(j + 1).last() == h[j]);
        assert(skill_totals_of(h.take(j + 1), id) == skill_totals_of(h.take(j), id).push(h[j].total_damage));
        lemma_fold_push(ops.plus, ops.zero, skill_totals_of(h.take(j), id), h[j].total_damage);
    }
}

} // verus!
