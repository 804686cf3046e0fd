use vstd::prelude::*;
use vstd::string::*;

use crate::arith::{call1, call2, deterministic1, deterministic2, lemma_call1, lemma_call2};
use crate::battle::{first_avatar_at, BattleContext, SkillHistoryEntry};
use crate::export::BattleDataExporter;
use crate::text::str_eq;
use crate::types::{Avatar, TurnInfo};

verus! {

/// The number arithmetic a chart is computed with: zero and one hundred, the test
/// for a positive amount, addition, division, multiplication, the larger of two
/// amounts, and a count as an amount.
pub struct ChartArith<N, P, B, C> {
    pub zero: N,
    pub hundred: N,
    pub positive: P,
    pub plus: B,
    pub div: B,
    pub mul: B,
    pub max: B,
    pub of_count: C,
}

impl<N, P: Fn(N) -> bool, B: Fn(N, N) -> N, C: Fn(u32) -> N> ChartArith<N, P, B, C> {
    /// Every operation is a total function.
    pub open spec fn lawful(&self) -> bool {
        &&& deterministic1(self.positive)
        &&& deterministic2(self.plus)
        &&& deterministic2(self.div)
        &&& deterministic2(self.mul)
        &&& deterministic2(self.max)
        &&& deterministic1(self.of_count)
    }

    /// `x` is positive.
    pub open spec fn pos(&self, x: N) -> bool {
        call1(self.positive, x)
    }

    /// `part` as a percentage of `whole`: (part / whole) * 100.
    pub open spec fn percent(&self, part: N, whole: N) -> N {
        call2(self.mul, call2(self.div, part, whole), self.hundred)
    }

    /// `part` as a percentage of `whole`, or zero when `whole` is not positive.
    pub open spec fn share(&self, part: N, whole: N) -> N {
        if self.pos(whole) {
            self.percent(part, whole)
        } else {
            self.zero
        }
    }

    /// `a / b`, or zero when `b` is not positive.
    pub open spec fn ratio(&self, a: N, b: N) -> N {
        if self.pos(b) {
            call2(self.div, a, b)
        } else {
            self.zero
        }
    }
}

/// `xs` folded from the left onto `start` with `f`.
pub open spec fn fold_with<N, F: Fn(N, N) -> N>(f: F, start: N, xs: Seq<N>) -> N
    decreases xs.len(),
{
    if xs.len() == 0 {
        start
    } else {
        call2(f, fold_with(f, start, xs.drop_last()), xs.last())
    }
}

/// Folding one more value applies `f` once more.
pub proof fn lemma_fold_push<N, F: Fn(N, N) -> N>(f: F, start: N, xs: Seq<N>, x: N)
    ensures
        fold_with(f, start, xs.push(x)) == call2(f, fold_with(f, start, xs), x),
{
    assert(xs.push(x).drop_last() =~= xs);
}

/// The character standing for a decimal digit.
pub open spec fn digit_char(d: nat) -> char {
    if d == 0 { '0' }
    else if d == 1 { '1' }
    else if d == 2 { '2' }
    else if d == 3 { '3' }
    else if d == 4 { '4' }
    else if d == 5 { '5' }
    else if d == 6 { '6' }
    else if d == 7 { '7' }
    else if d == 8 { '8' }
    else { '9' }
}

/// The decimal notation of `n`, without leading zeros.
pub open spec fn decimal_text(n: nat) -> Seq<char>
    decreases n,
{
    if n < 10 {
        seq![digit_char(n)]
    } else {
        decimal_text(n / 10).push(digit_char(n % 10))
    }
}

/// The text of one decimal digit.
fn digit_str(d: u32) -> (s: &'static str)
    requires
        d < 10,
    ensures
        s@ == seq![digit_char(d as nat)],
{
    proof {
        reveal_strlit("0");
        reveal_strlit("1");
        reveal_strlit("2");
        reveal_strlit("3");
        reveal_strlit("4");
        reveal_strlit("5");
        reveal_strlit("6");
        reveal_strlit("7");
        reveal_strlit("8");
        reveal_strlit("9");
    }
    if d == 0 { "0" }
    else if d == 1 { "1" }
    else if d == 2 { "2" }
    else if d == 3 { "3" }
    else if d == 4 { "4" }
    else if d == 5 { "5" }
    else if d == 6 { "6" }
    else if d == 7 { "7" }
    else if d == 8 { "8" }
    else { "9" }
}

/// Writes `n` in decimal.
pub fn decimal_string(n: u32) -> (s: String)
    ensures
        s@ == decimal_text(n as nat),
    decreases n,
{
    if n < 10 {
        String::from_str(digit_str(n))
    } else {
        let mut s = decimal_string(n / 10);
        s.append(digit_str(n % 10));
        s
    }
}

/// How many uses by avatar `id` in `skills` were of the skill named `name`.
pub open spec fn name_count<N>(skills: Seq<SkillHistoryEntry<N>>, id: u32, name: Seq<char>) -> nat
    decreases skills.len(),
{
    if skills.len() == 0 {
        0
    } else {
        let last = skills.last();
        name_count(skills.drop_last(), id, name) + if last.avatar_id == id && last.skill_name@ == name { 1nat } else { 0nat }
    }
}

/// The most uses avatar `id` made of any one skill, among the skills it used in the
/// first `upto` entries of `skills` (counting over all of `skills`); zero if none.
pub open spec fn best_usage<N>(skills: Seq<SkillHistoryEntry<N>>, id: u32, upto: int) -> nat
    decreases upto,
{
    if upto <= 0 {
        0
    } else {
        let prev = best_usage(skills, id, upto - 1);
        let s = skills[upto - 1];
        if s.avatar_id == id && name_count(skills, id, s.skill_name@) > prev {
            name_count(skills, id, s.skill_name@)
        } else {
            prev
        }
    }
}

/// The most uses avatar `id` made of any one of its skills.
pub open spec fn primary_usage<N>(skills: Seq<SkillHistoryEntry<N>>, id: u32) -> nat {
    best_usage(skills, id, skills.len() as int)
}

/// A count never exceeds the number of entries counted.
pub proof fn lemma_name_count_bound<N>(skills: Seq<SkillHistoryEntry<N>>, id: u32, name: Seq<char>)
    ensures
        name_count(skills, id, name) <= skills.len(),
    decreases skills.len(),
{
    if skills.len() > 0 {
        lemma_name_count_bound(skills.drop_last(), id, name);
    }
}

/// Counts the uses by avatar `id` of the skill named `name`.
fn usage_count<N>(skills: &Vec<SkillHistoryEntry<N>>, id: u32, name: &str) -> (r: u32)
    requires
        skills@.len() <= u32::MAX,
    ensures
        r == name_count(skills@, id, name@),
{
    let mut c: u32 = 0;
    let mut k: usize = 0;
    while k < skills.len()
        invariant
            k <= skills@.len(),
            skills@.len() <= u32::MAX,
            c <= k,
            c == name_count(skills@.take(k as int), id, name@),
        decreases skills@.len() - k,
    {
        proof {
            assert(skills@.take(k + 1).drop_last() =~= skills@.take(k as int));
        }
        if skills[k].avatar_id == id && str_eq(skills[k].skill_name.as_str(), name) {
            c = c + 1;
        }
        k = k + 1;
    }
    proof {
        assert(skills@.take(skills@.len() as int) =~= skills@);
    }
    c
}

/// The most uses avatar `id` made of any one of its skills.
fn primary_usage_count<N>(skills: &Vec<SkillHistoryEntry<N>>, id: u32) -> (r: u32)
    requires
        skills@.len() <= u32::MAX,
    ensures
        r == primary_usage(skills@, id),
{
    let mut best: u32 = 0;
    let mut k: usize = 0;
    while k < skills.len()
        invariant
            k <= skills@.len(),
            skills@.len() <= u32::MAX,
            best == best_usage(skills@, id, k as int),
        decreases skills@.len() - k,
    {
        if skills[k].avatar_id == id {
            let c = usage_count(skills, id, skills[k].skill_name.as_str());
            if c > best {
                best = c;
            }
        }
        k = k + 1;
    }
    best
}

/// The amount at slot `i` of `v`, or `zero` past its end.
pub open spec fn slot_damage<N>(v: Seq<N>, i: int, zero: N) -> N {
    if 0 <= i < v.len() {
        v[i]
    } else {
        zero
    }
}

/// The (turn number, damage) hits of avatar `id` in one turn `t` whose per-slot
/// damage is `dmg`, over the first `upto` lineup slots: one for each slot of that
/// avatar whose damage is positive.
pub open spec fn slot_hits<N, P: Fn(N) -> bool, B: Fn(N, N) -> N, C: Fn(u32) -> N>(
    ops: ChartArith<N, P, B, C>,
    dmg: Seq<N>,
    t: int,
    lineup: Seq<Avatar>,
    id: u32,
    upto: int,
) -> Seq<(u32, N)>
    decreases upto,
{
    if upto <= 0 {
        seq![]
    } else {
        let prev = slot_hits(ops, dmg, t, lineup, id, upto - 1);
        let d = slot_damage(dmg, upto - 1, ops.zero);
        if lineup[upto - 1].id == id && ops.pos(d) {
            prev.push(((t + 1) as u32, d))
        } else {
            prev
        }
    }
}

/// The hits of avatar `id` over the first `upto` turns, in turn order.
pub open spec fn turn_hits<N, P: Fn(N) -> bool, B: Fn(N, N) -> N, C: Fn(u32) -> N>(
    ops: ChartArith<N, P, B, C>,
    turns: Seq<TurnInfo<N>>,
    lineup: Seq<Avatar>,
    id: u32,
    upto: int,
) -> Seq<(u32, N)>
    decreases upto,
{
    if upto <= 0 {
        seq![]
    } else {
        turn_hits(ops, turns, lineup, id, upto - 1)
            + slot_hits(ops, turns[upto - 1].avatars_turn_damage@, upto - 1, lineup, id, lineup.len() as int)
    }
}

/// Collects the turns in which avatar `id` dealt positive damage, with that damage.
fn collect_turn_hits<N: Copy, P: Fn(N) -> bool, B: Fn(N, N) -> N, C: Fn(u32) -> N>(
    turns: &Vec<TurnInfo<N>>,
    lineup: &Vec<Avatar>,
    id: u32,
    ops: &ChartArith<N, P, B, C>,
) -> (r: Vec<(u32, N)>)
    requires
        ops.lawful(),
    ensures
        r@ == turn_hits(*ops, turns@, lineup@, id, turns@.len() as int),
{
    let mut hits: Vec<(u32, N)> = Vec::new();
    let n: usize = turns.len();
    let mut t: usize = 0;
    while t < n
        invariant
            n == turns@.len(),
            t <= turns@.len(),
            ops.lawful(),
            hits@ == turn_hits(*ops, turns@, lineup@, id, t as int),
        decreases turns@.len() - t,
    {
        let dmg = &turns[t].avatars_turn_damage;
        let ghost before = hits@;
        let mut a: usize = 0;
        while a < lineup.len()
            invariant
                t < n,
                n == turns@.len(),
                a <= lineup@.len(),
                ops.lawful(),
                *dmg == turns@[t as int].avatars_turn_damage,
                hits@ == before + slot_hits(*ops, dmg@, t as int, lineup@, id, a as int),
            decreases lineup@.len() - a,
        {
            let d = if a < dmg.len() { dmg[a] } else { ops.zero };
            let p = (ops.positive)(d);
            proof {
                lemma_call1(ops.positive, d, p);
            }
            if p && lineup[a].id == id {
                hits.push((#[verifier::truncate] ((t + 1) as u32), d));
                proof {
                    assert(hits@ =~= before + slot_hits(*ops, dmg@, t as int, lineup@, id, a + 1));
                }
            }
            a = a + 1;
        }
        t = t + 1;
    }
    hits
}

/// One row of the chart table: a per-character summary or a per-skill-use detail.
/// Fields that do not apply to the row's kind are `None`.
#[derive(Debug)]
pub struct ComprehensiveData<N> {
    pub data_type: String,
    pub character_name: String,
    pub character_id: u32,
    pub total_damage: Option<N>,
    pub damage_percentage: Option<N>,
    pub dpav: Option<N>,
    pub primary_skill_usage_count: Option<u32>,
    pub turns_taken: Option<u32>,
    pub average_damage_per_turn: Option<N>,
    pub max_single_turn_damage: Option<N>,
    pub first_turn_number: Option<u32>,
    pub last_turn_number: Option<u32>,
    pub turn_order: Option<u32>,
    pub turn_battle_id: Option<u32>,
    pub wave: Option<u32>,
    pub cycle: Option<u32>,
    pub action_value: Option<N>,
    pub skill_name: Option<String>,
    pub skill_type: Option<String>,
    pub skill_type_name: Option<String>,
    pub skill_damage: Option<N>,
    pub cumulative_damage: Option<N>,
    pub cumulative_character_damage: Option<N>,
    pub skill_damage_percentage: Option<N>,
}

/// The damages of a list of hits.
pub open spec fn hit_damages<N>(hits: Seq<(u32, N)>) -> Seq<N> {
    Seq::new(hits.len(), |i: int| hits[i].1)
}

/// `row` is the summary row of lineup slot `i`.
pub open spec fn summary_row_ok<N, P: Fn(N) -> bool, B: Fn(N, N) -> N, C: Fn(u32) -> N>(
    ctx: &BattleContext<N>,
    ops: ChartArith<N, P, B, C>,
    i: int,
    row: ComprehensiveData<N>,
) -> bool {
    let avatar = ctx.avatar_lineup@[i];
    let damage = slot_damage(ctx.real_time_damages@, i, ops.zero);
    let hits = turn_hits(ops, ctx.turn_history@, ctx.avatar_lineup@, avatar.id, ctx.turn_history@.len() as int);
    let taken = hits.len() as u32;
    &&& row.data_type@ == "character_summary"@
    &&& row.character_name@ == avatar.name@
    &&& row.character_id == avatar.id
    &&& row.total_damage == Some(damage)
    &&& row.damage_percentage == Some(ops.share(damage, ctx.total_damage))
    &&& row.dpav == Some(ops.ratio(damage, ctx.action_value))
    &&& row.primary_skill_usage_count == Some(primary_usage(ctx.skill_history@, avatar.id) as u32)
    &&& row.turns_taken == Some(taken)
    &&& row.average_damage_per_turn == Some(
        if taken > 0 { call2(ops.div, damage, call1(ops.of_count, taken)) } else { ops.zero },
    )
    &&& row.max_single_turn_damage == Some(fold_with(ops.max, ops.zero, hit_damages(hits)))
    &&& row.first_turn_number == Some(if hits.len() > 0 { hits[0].0 } else { 0u32 })
    &&& row.last_turn_number == Some(if hits.len() > 0 { hits.last().0 } else { 0u32 })
    &&& row.turn_order is None
    &&& row.turn_battle_id is None
    &&& row.wave is None
    &&& row.cycle is None
    &&& row.action_value is None
    &&& row.skill_name is None
    &&& row.skill_type is None
    &&& row.skill_type_name is None
    &&& row.skill_damage is None
    &&& row.cumulative_damage is None
    &&& row.cumulative_character_damage is None
    &&& row.skill_damage_percentage is None
}

/// Folds `xs` from the left onto `start` with `f`.
pub(crate) fn fold_values<N: Copy, F: Fn(N, N) -> N>(f: &F, start: N, xs: &Vec<N>) -> (r: N)
    requires
        deterministic2(*f),
    ensures
        r == fold_with(*f, start, xs@),
{
    let mut acc = start;
    let mut k: usize = 0;
    while k < xs.len()
        invariant
            k <= xs@.len(),
            deterministic2(*f),
            acc == fold_with(*f, start, xs@.take(k as int)),
        decreases xs@.len() - k,
    {
        let next = f(acc, xs[k]);
        proof {
            lemma_call2(*f, acc, xs@[k as int], next);
            assert(xs@.take(k + 1).drop_last() =~= xs@.take(k as int));
        }
        acc = next;
        k = k + 1;
    }
    proof {
        assert(xs@.take(xs@.len() as int) =~= xs@);
    }
    acc
}

/// `a / b` when `b` is positive, else zero.
pub(crate) fn checked_ratio<N: Copy, P: Fn(N) -> bool, B: Fn(N, N) -> N, C: Fn(u32) -> N>(
    ops: &ChartArith<N, P, B, C>,
    a: N,
    b: N,
) -> (r: N)
    requires
        ops.lawful(),
    ensures
        r == ops.ratio(a, b),
{
    let p = (ops.positive)(b);
    proof {
        lemma_call1(ops.positive, b, p);
    }
    if p {
        let q = (ops.div)(a, b);
        proof {
            lemma_call2(ops.div, a, b, q);
        }
        q
    } else {
        ops.zero
    }
}

/// `part` as a percentage of `whole` when `whole` is positive, else zero.
fn checked_share<N: Copy, P: Fn(N) -> bool, B: Fn(N, N) -> N, C: Fn(u32) -> N>(
    ops: &ChartArith<N, P, B, C>,
    part: N,
    whole: N,
) -> (r: N)
    requires
        ops.lawful(),
    ensures
        r == ops.share(part, whole),
{
    let p = (ops.positive)(whole);
    proof {
        lemma_call1(ops.positive, whole, p);
    }
    if p {
        let q = (ops.div)(part, whole);
        let pct = (ops.mul)(q, ops.hundred);
        proof {
            lemma_call2(ops.div, part, whole, q);
            lemma_call2(ops.mul, q, ops.hundred, pct);
        }
        pct
    } else {
        ops.zero
    }
}

/// The summary row of lineup slot `i`.
fn summary_row<N: Copy, P: Fn(N) -> bool, B: Fn(N, N) -> N, C: Fn(u32) -> N>(
    ctx: &BattleContext<N>,
    ops: &ChartArith<N, P, B, C>,
    i: usize,
) -> (row: ComprehensiveData<N>)
    requires
        ops.lawful(),
        i < ctx.avatar_lineup@.len(),
        ctx.skill_history@.len() <= u32::MAX,
    ensures
        summary_row_ok(ctx, *ops, i as int, row),
{
    let avatar = &ctx.avatar_lineup[i];
    let damage = if i < ctx.real_time_damages.len() { ctx.real_time_damages[i] } else { ops.zero };
    let damage_percentage = checked_share(ops, damage, ctx.total_damage);
    let dpav = checked_ratio(ops, damage, ctx.action_value);
    let usage = primary_usage_count(&ctx.skill_history, avatar.id);
    let hits = collect_turn_hits(&ctx.turn_history, &ctx.avatar_lineup, avatar.id, ops);
    let taken: u32 = #[verifier::truncate] (hits.len() as u32);
    let average = if taken > 0 {
        let count = (ops.of_count)(taken);
        let q = (ops.div)(damage, count);
        proof {
            lemma_call1(ops.of_count, taken, count);
            lemma_call2(ops.div, damage, count, q);
        }
        q
    } else {
        ops.zero
    };
    let mut damages: Vec<N> = Vec::new();
    let mut k: usize = 0;
    while k < hits.len()
        invariant
            k <= hits@.len(),
            damages@ == hit_damages(hits@.take(k as int)),
        decreases hits@.len() - k,
    {
        damages.push(hits[k].1);
        proof {
            assert(damages@ =~= hit_damages(hits@.take(k + 1)));
        }
        k = k + 1;
    }
    proof {
        assert(hits@.take(hits@.len() as int) =~= hits@);
    }
    let max_single = fold_values(&ops.max, ops.zero, &damages);
    let first = if hits.len() > 0 { hits[0].0 } else { 0 };
    let last = if hits.len() > 0 { hits[hits.len() - 1].0 } else { 0 };
    ComprehensiveData {
        data_type: String::from_str("character_summary"),
        character_name: avatar.name.clone(),
        character_id: avatar.id,
        total_damage: Some(damage),
        damage_percentage: Some(damage_percentage),
        dpav: Some(dpav),
        primary_skill_usage_count: Some(usage),
        turns_taken: Some(taken),
        average_damage_per_turn: Some(average),
        max_single_turn_damage: Some(max_single),
        first_turn_number: Some(first),
        last_turn_number: Some(last),
        turn_order: None,
        turn_battle_id: None,
        wave: None,
        cycle: None,
        action_value: None,
        skill_name: None,
        skill_type: None,
        skill_type_name: None,
        skill_damage: None,
        cumulative_damage: None,
        cumulative_character_damage: None,
        skill_damage_percentage: None,
    }
}

/// The damage of each skill use.
pub open spec fn skill_totals<N>(skills: Seq<SkillHistoryEntry<N>>) -> Seq<N> {
    Seq::new(skills.len(), |k: int| skills[k].total_damage)
}

/// The damage of each skill use by avatar `id`, in order.
pub open spec fn skill_totals_of<N>(skills: Seq<SkillHistoryEntry<N>>, id: u32) -> Seq<N>
    decreases skills.len(),
{
    if skills.len() == 0 {
        seq![]
    } else {
        let prev = skill_totals_of(skills.drop_last(), id);
        if skills.last().avatar_id == id {
            prev.push(skills.last().total_damage)
        } else {
            prev
        }
    }
}

/// The name a skill row shows for avatar `id`: that of the first lineup avatar with
/// the id, or "Avatar_" and the id in decimal.
pub open spec fn avatar_label(lineup: Seq<Avatar>, id: u32) -> Seq<char> {
    if exists|i: int| first_avatar_at(lineup, id, i) {
        lineup[choose|i: int| first_avatar_at(lineup, id, i)].name@
    } else {
        "Avatar_"@ + decimal_text(id as nat)
    }
}

/// `o` holds a string whose text is `text`.
pub open spec fn holds_text(o: Option<String>, text: Seq<char>) -> bool {
    match o {
        Some(s) => s@ == text,
        None => false,
    }
}

/// `row` is the detail row of skill use `k`.
pub open spec fn detail_row_ok<N, P: Fn(N) -> bool, B: Fn(N, N) -> N, C: Fn(u32) -> N>(
    ctx: &BattleContext<N>,
    ops: ChartArith<N, P, B, C>,
    k: int,
    row: ComprehensiveData<N>,
) -> bool {
    let skill = ctx.skill_history@[k];
    let turns = ctx.entity_turn_history@;
    let t = skill.turn_battle_id as int;
    let seen = ctx.skill_history@.take(k + 1);
    &&& row.data_type@ == "skill_detail"@
    &&& row.character_name@ == avatar_label(ctx.avatar_lineup@, skill.avatar_id)
    &&& row.character_id == skill.avatar_id
    &&& row.total_damage is None
    &&& row.damage_percentage is None
    &&& row.dpav is None
    &&& row.primary_skill_usage_count is None
    &&& row.turns_taken is None
    &&& row.average_damage_per_turn is None
    &&& row.max_single_turn_damage is None
    &&& row.first_turn_number is None
    &&& row.last_turn_number is None
    &&& row.turn_order == Some((k + 1) as u32)
    &&& row.turn_battle_id == Some(skill.turn_battle_id)
    &&& row.action_value == Some(if t < turns.len() { turns[t].1 } else { ops.zero })
    &&& row.wave == Some(if t < turns.len() { turns[t].2 } else { 1u32 })
    &&& row.cycle == Some(if t < turns.len() { turns[t].3 } else { 1u32 })
    &&& holds_text(row.skill_name, skill.skill_name@)
    &&& holds_text(row.skill_type, skill.skill_type@)
    &&& holds_text(row.skill_type_name, skill.skill_type@)
    &&& row.skill_damage == Some(skill.total_damage)
    &&& row.cumulative_damage == Some(fold_with(ops.plus, ops.zero, skill_totals(seen)))
    &&& row.cumulative_character_damage == Some(fold_with(ops.plus, ops.zero, skill_totals_of(seen, skill.avatar_id)))
    &&& row.skill_damage_percentage == Some(ops.share(skill.total_damage, ctx.total_damage))
}

/// The name a skill row shows for avatar `id`.
fn avatar_name_or_id(lineup: &Vec<Avatar>, id: u32) -> (r: String)
    ensures
        r@ == avatar_label(lineup@, id),
{
    let mut i: usize = 0;
    while i < lineup.len()
        invariant
            i <= lineup@.len(),
            forall|j: int| 0 <= j < i ==> #[trigger] lineup@[j].id != id,
        decreases lineup@.len() - i,
    {
        if lineup[i].id == id {
            proof {
                assert(first_avatar_at(lineup@, id, i as int));
                let c = choose|c: int| first_avatar_at(lineup@, id, c);
                assert(c == i as int) by {
                    if c < i {
                        assert(lineup@[c].id != id);
                    } else if c > i {
                        assert(lineup@[i as int].id != id);
                    }
                }
            }
            return lineup[i].name.clone();
        }
        i = i + 1;
    }
    let mut s = String::from_str("Avatar_");
    let digits = decimal_string(id);
    s.append(digits.as_str());
    s
}

/// The cumulative damage of avatar `id` over the first `upto` skill uses.
fn character_running_damage<N: Copy, P: Fn(N) -> bool, B: Fn(N, N) -> N, C: Fn(u32) -> N>(
    skills: &Vec<SkillHistoryEntry<N>>,
    id: u32,
    upto: usize,
    ops: &ChartArith<N, P, B, C>,
) -> (r: N)
    requires
        ops.lawful(),
        upto <= skills@.len(),
    ensures
        r == fold_with(ops.plus, ops.zero, skill_totals_of(skills@.take(upto as int), id)),
{
    let mut acc = ops.zero;
    let mut j: usize = 0;
    while j < upto
        invariant
            j <= upto <= skills@.len(),
            ops.lawful(),
            acc == fold_with(ops.plus, ops.zero, skill_totals_of(skills@.take(j as int), id)),
        decreases upto - j,
    {
        proof {
            assert(skills@.take(j + 1).drop_last() =~= skills@.take(j as int));
            assert(skills@.take(j + 1).last() == skills@[j as int]);
        }
        if skills[j].avatar_id == id {
            let next = (ops.plus)(acc, skills[j].total_damage);
            proof {
                lemma_call2(ops.plus, acc, skills@[j as int].total_damage, next);
                lemma_fold_push(ops.plus, ops.zero, skill_totals_of(skills@.take(j as int), id), skills@[j as int].total_damage);
            }
            acc = next;
        }
        j = j + 1;
    }
    acc
}

/// The detail row of skill use `k`, given the running total of all damage up to
/// and including it.
fn detail_row<N: Copy, P: Fn(N) -> bool, B: Fn(N, N) -> N, C: Fn(u32) -> N>(
    ctx: &BattleContext<N>,
    ops: &ChartArith<N, P, B, C>,
    k: usize,
    running_total: N,
) -> (row: ComprehensiveData<N>)
    requires
        ops.lawful(),
        k < ctx.skill_history@.len(),
        k < usize::MAX,
        running_total == fold_with(ops.plus, ops.zero, skill_totals(ctx.skill_history@.take(k + 1))),
    ensures
        detail_row_ok(ctx, *ops, k as int, row),
{
    let skill = &ctx.skill_history[k];
    let t = skill.turn_battle_id as usize;
    let (action_value, wave, cycle) = if t < ctx.entity_turn_history.len() {
        let entry = ctx.entity_turn_history[t];
        (entry.1, entry.2, entry.3)
    } else {
        (ops.zero, 1u32, 1u32)
    };
    let name = avatar_name_or_id(&ctx.avatar_lineup, skill.avatar_id);
    let character_total = character_running_damage(&ctx.skill_history, skill.avatar_id, k + 1, ops);
    let percentage = checked_share(ops, skill.total_damage, ctx.total_damage);
    ComprehensiveData {
        data_type: String::from_str("skill_detail"),
        character_name: name,
        character_id: skill.avatar_id,
        total_damage: None,
        damage_percentage: None,
        dpav: None,
        primary_skill_usage_count: None,
        turns_taken: None,
        average_damage_per_turn: None,
        max_single_turn_damage: None,
        first_turn_number: None,
        last_turn_number: None,
        turn_order: Some(#[verifier::truncate] ((k + 1) as u32)),
        turn_battle_id: Some(skill.turn_battle_id),
        wave: Some(wave),
        cycle: Some(cycle),
        action_value: Some(action_value),
        skill_name: Some(skill.skill_name.clone()),
        skill_type: Some(skill.skill_type.clone()),
        skill_type_name: Some(skill.skill_type.clone()),
        skill_damage: Some(skill.total_damage),
        cumulative_damage: Some(running_total),
        cumulative_character_damage: Some(character_total),
        skill_damage_percentage: Some(percentage),
    }
}

/// `rows` is the chart table of `ctx`: one summary row per lineup avatar, in
/// lineup order, then one detail row per skill use, in the order they happened.
pub open spec fn chart_of<N, P: Fn(N) -> bool, B: Fn(N, N) -> N, C: Fn(u32) -> N>(
    ctx: &BattleContext<N>,
    ops: ChartArith<N, P, B, C>,
    rows: Seq<ComprehensiveData<N>>,
) -> bool {
    let n = ctx.avatar_lineup@.len();
    &&& rows.len() == n + ctx.skill_history@.len()
    &&& forall|i: int| 0 <= i < n ==> summary_row_ok(ctx, ops, i, #[trigger] rows[i])
    &&& forall|k: int| 0 <= k < ctx.skill_history@.len() ==> detail_row_ok(ctx, ops, k, #[trigger] rows[n + k])
}

impl BattleDataExporter {
    /// The chart table of a battle: one summary row per lineup avatar, in lineup
    /// order, then one detail row per skill use, in the order they happened.
    pub fn generate_comprehensive_chart_data<N: Copy, P: Fn(N) -> bool, B: Fn(N, N) -> N, C: Fn(u32) -> N>(
        &self,
        battle_context: &BattleContext<N>,
        ops: &ChartArith<N, P, B, C>,
    ) -> (rows: Vec<ComprehensiveData<N>>)
        requires
            ops.lawful(),
            battle_context.skill_history@.len() <= u32::MAX,
        ensures
            chart_of(battle_context, *ops, rows@),
    {
        let ctx = battle_context;
        let n: usize = ctx.avatar_lineup.len();
        let mut rows: Vec<ComprehensiveData<N>> = Vec::new();
        let mut i: usize = 0;
        while i < n
            invariant
                n == ctx.avatar_lineup@.len(),
                i <= n,
                ops.lawful(),
                ctx.skill_history@.len() <= u32::MAX,
                rows@.len() == i,
                forall|q: int| 0 <= q < i ==> summary_row_ok(ctx, *ops, q, #[trigger] rows@[q]),
            decreases n - i,
        {
            let row = summary_row(ctx, ops, i);
            rows.push(row);
            i = i + 1;
        }
        let mut running = ops.zero;
        let mut k: usize = 0;
        while k < ctx.skill_history.len()
            invariant
                n == ctx.avatar_lineup@.len(),
                k <= ctx.skill_history@.len(),
                ops.lawful(),
                rows@.len() == n + k,
                running == fold_with(ops.plus, ops.zero, skill_totals(ctx.skill_history@.take(k as int))),
                forall|q: int| 0 <= q < n ==> summary_row_ok(ctx, *ops, q, #[trigger] rows@[q]),
                forall|q: int| 0 <= q < k ==> detail_row_ok(ctx, *ops, q, #[trigger] rows@[n + q]),
            decreases ctx.skill_history@.len() - k,
        {
            let next = (ops.plus)(running, ctx.skill_history[k].total_damage);
            proof {
                lemma_call2(ops.plus, running, ctx.skill_history@[k as int].total_damage, next);
                assert(skill_totals(ctx.skill_history@.take(k + 1)).drop_last() =~= skill_totals(ctx.skill_history@.take(k as int)));
            }
            running = next;
            let row = detail_row(ctx, ops, k, running);
            rows.push(row);
            k = k + 1;
        }
        rows
    }
}

/// One row of the damage meter: an avatar with its damage and overkill, both per
/// action value, the damage that was not overkill, and its share of the team's damage.
#[derive(Debug)]
pub struct DamagePortraitRow<N> {
    pub avatar: Avatar,
    pub damage: N,
    pub dpav: N,
    pub effective_damage: N,
    pub overkill_damage: N,
    pub overkill_dpav: N,
    pub percentage: N,
}

/// `x` per action value: `x / av` when `av` is positive, else `x` itself.
pub open spec fn per_action_value<N, P: Fn(N) -> bool, B: Fn(N, N) -> N, C: Fn(u32) -> N>(
    ops: ChartArith<N, P, B, C>,
    x: N,
    av: N,
) -> N {
    if ops.pos(av) {
        call2(ops.div, x, av)
    } else {
        x
    }
}

/// `row` is the damage meter row of lineup slot `i`, given the team's damage `total`.
pub open spec fn portrait_row_ok<N, P: Fn(N) -> bool, B: Fn(N, N) -> N, C: Fn(u32) -> N>(
    ops: ChartArith<N, P, B, C>,
    minus: B,
    avatars: Seq<Avatar>,
    damages: Seq<N>,
    overkills: Seq<N>,
    action_value: N,
    total: N,
    i: int,
    row: DamagePortraitRow<N>,
) -> bool {
    let damage = slot_damage(damages, i, ops.zero);
    let overkill = slot_damage(overkills, i, ops.zero);
    &&& row.avatar.id == avatars[i].id
    &&& row.avatar.name@ == avatars[i].name@
    &&& row.damage == damage
    &&& row.dpav == per_action_value(ops, damage, action_value)
    &&& row.effective_damage == call2(ops.max, call2(minus, damage, overkill), ops.zero)
    &&& row.overkill_damage == overkill
    &&& row.overkill_dpav == per_action_value(ops, overkill, action_value)
    &&& row.percentage == ops.share(damage, total)
}

/// `x / av` when `av` is positive, else `x`.
fn checked_per_action_value<N: Copy, P: Fn(N) -> bool, B: Fn(N, N) -> N, C: Fn(u32) -> N>(
    ops: &ChartArith<N, P, B, C>,
    x: N,
    av: N,
) -> (r: N)
    requires
        ops.lawful(),
    ensures
        r == per_action_value(*ops, x, av),
{
    let p = (ops.positive)(av);
    proof {
        lemma_call1(ops.positive, av, p);
    }
    if p {
        let q = (ops.div)(x, av);
        proof {
            lemma_call2(ops.div, x, av, q);
        }
        q
    } else {
        x
    }
}

/// The rows of the damage meter, one per lineup avatar in lineup order; a slot
/// past the end of a tally counts as zero. The team's damage is the tally's sum.
pub fn create_damage_portrait_rows<N: Copy, P: Fn(N) -> bool, B: Fn(N, N) -> N, C: Fn(u32) -> N>(
    avatars: &Vec<Avatar>,
    real_time_damages: &Vec<N>,
    real_time_overkill_damages: &Vec<N>,
    action_value: N,
    ops: &ChartArith<N, P, B, C>,
    minus: &B,
) -> (rows: Vec<DamagePortraitRow<N>>)
    requires
        ops.lawful(),
        deterministic2(*minus),
    ensures
        rows@.len() == avatars@.len(),
        forall|i: int| 0 <= i < avatars@.len() ==> portrait_row_ok(
            *ops,
            *minus,
            avatars@,
            real_time_damages@,
            real_time_overkill_damages@,
            action_value,
            fold_with(ops.plus, ops.zero, real_time_damages@),
            i,
            #[trigger] rows@[i],
        ),
{
    let total = fold_values(&ops.plus, ops.zero, real_time_damages);
    let mut rows: Vec<DamagePortraitRow<N>> = Vec::new();
    let mut i: usize = 0;
    while i < avatars.len()
        invariant
            i <= avatars@.len(),
            ops.lawful(),
            deterministic2(*minus),
            total == fold_with(ops.plus, ops.zero, real_time_damages@),
            rows@.len() == i,
            forall|k: int| 0 <= k < i ==> portrait_row_ok(
                *ops,
                *minus,
                avatars@,
                real_time_damages@,
                real_time_overkill_damages@,
                action_value,
                total,
                k,
                #[trigger] rows@[k],
            ),
        decreases avatars@.len() - i,
    {
        let damage = if i < real_time_damages.len() { real_time_damages[i] } else { ops.zero };
        let overkill = if i < real_time_overkill_damages.len() { real_time_overkill_damages[i] } else { ops.zero };
        let dpav = checked_per_action_value(ops, damage, action_value);
        let overkill_dpav = checked_per_action_value(ops, overkill, action_value);
        let gap = minus(damage, overkill);
        let effective_damage = (ops.max)(gap, ops.zero);
        proof {
            lemma_call2(*minus, damage, overkill, gap);
            lemma_call2(ops.max, gap, ops.zero, effective_damage);
        }
        let percentage = checked_share(ops, damage, total);
        let avatar = Avatar { id: avatars[i].id, name: avatars[i].name.clone() };
        rows.push(DamagePortraitRow {
            avatar,
            damage,
            dpav,
            effective_damage,
            overkill_damage: overkill,
            overkill_dpav,
            percentage,
        });
        i = i + 1;
    }
    rows
}

} // verus!
