use std::collections::BTreeMap;
use vstd::prelude::*;
use vstd::string::*;

use crate::arith::{call1, call2, deterministic1, deterministic2, lemma_call1, lemma_call2};
use crate::attack::{
    attack_type_of_rank, attack_type_rank, damage_type_label, display_damage_type, lemma_attack_type_rank,
    AttackType, ATTACK_TYPE_COUNT,
};
use crate::battle::breakdown_keys_valid;

verus! {

broadcast use vstd::std_specs::btree::group_btree_axioms;

/// `acc` with `d` more damage under rank `r`: added to what it lists there, or to
/// `zero` when it lists nothing there.
pub open spec fn credit_rank<N, A: Fn(N, N) -> N>(acc: Map<u32, N>, r: u32, d: N, zero: N, plus: A) -> Map<u32, N> {
    let base = if acc.contains_key(r) { acc[r] } else { zero };
    acc.insert(r, call2(plus, base, d))
}

/// `acc` with the entries of `row` at ranks below `upto` credited to it, lowest
/// rank first.
pub open spec fn merged_ranks<N, A: Fn(N, N) -> N>(acc: Map<u32, N>, row: Map<u32, N>, upto: nat, zero: N, plus: A) -> Map<u32, N>
    decreases upto,
{
    if upto == 0 {
        acc
    } else {
        let prev = merged_ranks(acc, row, (upto - 1) as nat, zero, plus);
        let r = (upto - 1) as u32;
        if row.contains_key(r) {
            credit_rank(prev, r, row[r], zero, plus)
        } else {
            prev
        }
    }
}

/// The team breakdown: every character's breakdown credited in lineup order, each
/// in ascending attack type order.
pub open spec fn aggregated<N, A: Fn(N, N) -> N>(rows: Seq<Map<u32, N>>, zero: N, plus: A) -> Map<u32, N>
    decreases rows.len(),
{
    if rows.len() == 0 {
        Map::empty()
    } else {
        merged_ranks(aggregated(rows.drop_last(), zero, plus), rows.last(), ATTACK_TYPE_COUNT as nat, zero, plus)
    }
}

/// The views of a list of breakdowns.
pub open spec fn map_views<N>(rows: Seq<BTreeMap<u32, N>>) -> Seq<Map<u32, N>> {
    Seq::new(rows.len(), |i: int| rows[i]@)
}

/// Crediting ranks keeps every key a rank.
proof fn lemma_merged_ranks_valid<N, A: Fn(N, N) -> N>(acc: Map<u32, N>, row: Map<u32, N>, upto: nat, zero: N, plus: A)
    requires
        breakdown_keys_valid(acc),
        upto <= ATTACK_TYPE_COUNT,
    ensures
        breakdown_keys_valid(merged_ranks(acc, row, upto, zero, plus)),
    decreases upto,
{
    if upto > 0 {
        lemma_merged_ranks_valid(acc, row, (upto - 1) as nat, zero, plus);
    }
}

/// Adds up the breakdowns of every character into one team breakdown: each
/// attack type's damage is summed over the characters, in lineup order, and within
/// each character's breakdown in ascending attack type order.
pub fn aggregate_damage_by_category<N: Copy, A: Fn(N, N) -> N>(
    breakdowns: &Vec<BTreeMap<u32, N>>,
    zero: N,
    plus: &A,
) -> (r: BTreeMap<u32, N>)
    requires
        deterministic2(*plus),
        forall|i: int| 0 <= i < breakdowns@.len() ==> breakdown_keys_valid(#[trigger] breakdowns@[i]@),
    ensures
        r@ == aggregated(map_views(breakdowns@), zero, *plus),
        breakdown_keys_valid(r@),
{
    let ghost rows = map_views(breakdowns@);
    let mut total: BTreeMap<u32, N> = BTreeMap::new();
    let mut k: usize = 0;
    while k < breakdowns.len()
        invariant
            k <= breakdowns@.len(),
            rows == map_views(breakdowns@),
            deterministic2(*plus),
            total@ == aggregated(rows.take(k as int), zero, *plus),
            breakdown_keys_valid(total@),
        decreases breakdowns@.len() - k,
    {
        let row = &breakdowns[k];
        let ghost base = total@;
        let mut r: u32 = 0;
        while r < ATTACK_TYPE_COUNT
            invariant
                r <= ATTACK_TYPE_COUNT,
                deterministic2(*plus),
                breakdown_keys_valid(base),
                total@ == merged_ranks(base, row@, r as nat, zero, *plus),
            decreases ATTACK_TYPE_COUNT - r,
        {
            proof {
                lemma_merged_ranks_valid(base, row@, r as nat, zero, *plus);
            }
            match row.get(&r) {
                Some(v) => {
                    let d = *v;
                    let b = match total.get(&r) {
                        Some(x) => *x,
                        None => zero,
                    };
                    let nv = plus(b, d);
                    proof {
                        lemma_call2(*plus, b, d, nv);
                    }
                    total.insert(r, nv);
                },
                None => {},
            }
            r = r + 1;
        }
        proof {
            lemma_merged_ranks_valid(base, row@, ATTACK_TYPE_COUNT as nat, zero, *plus);
            assert(rows.take(k + 1).drop_last() =~= rows.take(k as int));
            assert(rows.take(k + 1).last() == row@);
        }
        k = k + 1;
    }
    proof {
        assert(rows.take(breakdowns@.len() as int) =~= rows);
    }
    total
}

/// The attack types shown first in a breakdown, in this order.
pub open spec fn ordered_damage_types() -> Seq<AttackType> {
    seq![
        AttackType::Normal,
        AttackType::BPSkill,
        AttackType::Ultra,
        AttackType::QTE,
        AttackType::DOT,
        AttackType::Pursued,
        AttackType::Maze,
        AttackType::Insert,
        AttackType::ElementDamage,
        AttackType::Servant,
        AttackType::TrueDamage,
        AttackType::ElationDamage,
        AttackType::Assist,
    ]
}

/// A point of the breakdown chart by its view: type, label, damage.
pub open spec fn point_view<N>(p: (AttackType, String, N)) -> (AttackType, Seq<char>, N) {
    (p.0, p.1@, p.2)
}

/// Whether `t` is one of the types shown first.
fn is_ordered_type(t: AttackType) -> (r: bool)
    ensures
        r == ordered_damage_types().contains(t),
{
    let r = match t {
        AttackType::Unknown | AttackType::MazeNormal => false,
        _ => true,
    };
    proof {
        let kinds = ordered_damage_types();
        if r {
            let i: int = match t {
                AttackType::Normal => 0,
                AttackType::BPSkill => 1,
                AttackType::Ultra => 2,
                AttackType::QTE => 3,
                AttackType::DOT => 4,
                AttackType::Pursued => 5,
                AttackType::Maze => 6,
                AttackType::Insert => 7,
                AttackType::ElementDamage => 8,
                AttackType::Servant => 9,
                AttackType::TrueDamage => 10,
                AttackType::ElationDamage => 11,
                _ => 12,
            };
            assert(kinds[i] == t);
        } else {
            assert forall|j: int| 0 <= j < kinds.len() implies kinds[j] != t by {}
        }
    }
    r
}

/// The points of the types in `kinds`, in that order: one for each type the
/// breakdown lists with positive damage.
pub open spec fn known_points<N, P: Fn(N) -> bool>(row: Map<u32, N>, kinds: Seq<AttackType>, positive: P) -> Seq<(AttackType, Seq<char>, N)>
    decreases kinds.len(),
{
    if kinds.len() == 0 {
        seq![]
    } else {
        let prev = known_points(row, kinds.drop_last(), positive);
        let t = kinds.last();
        let r = attack_type_rank(t);
        if row.contains_key(r) && call1(positive, row[r]) {
            prev.push((t, damage_type_label(t), row[r]))
        } else {
            prev
        }
    }
}

/// The points of the other types at ranks below `upto`, in ascending attack type
/// order: one for each type not shown first that the breakdown lists with positive
/// damage.
pub open spec fn other_points<N, P: Fn(N) -> bool>(row: Map<u32, N>, positive: P, upto: nat) -> Seq<(AttackType, Seq<char>, N)>
    decreases upto,
{
    if upto == 0 {
        seq![]
    } else {
        let prev = other_points(row, positive, (upto - 1) as nat);
        let r = (upto - 1) as u32;
        let t = attack_type_of_rank(r);
        if !ordered_damage_types().contains(t) && row.contains_key(r) && call1(positive, row[r]) {
            prev.push((t, damage_type_label(t), row[r]))
        } else {
            prev
        }
    }
}

/// The positive damage a breakdown lists under rank `r`, if any.
fn positive_damage_at<N: Copy, P: Fn(N) -> bool>(row: &BTreeMap<u32, N>, r: u32, positive: &P) -> (out: Option<N>)
    requires
        deterministic1(*positive),
    ensures
        out == (if row@.contains_key(r) && call1(*positive, row@[r]) { Some(row@[r]) } else { None }),
{
    match row.get(&r) {
        Some(v) => {
            let d = *v;
            let p = positive(d);
            proof {
                lemma_call1(*positive, d, p);
            }
            if p { Some(d) } else { None }
        },
        None => None,
    }
}

/// The points of a breakdown chart: the types shown first, in their fixed order,
/// then the other types in ascending attack type order; only types with positive
/// damage, each with its label.
pub fn collect_damage_category_points<N: Copy, P: Fn(N) -> bool>(
    breakdown: &BTreeMap<u32, N>,
    positive: &P,
) -> (r: Vec<(AttackType, String, N)>)
    requires
        deterministic1(*positive),
        breakdown_keys_valid(breakdown@),
    ensures
        r@.map_values(|p: (AttackType, String, N)| point_view(p))
            == known_points(breakdown@, ordered_damage_types(), *positive)
                + other_points(breakdown@, *positive, ATTACK_TYPE_COUNT as nat),
{
    let kinds: [AttackType; 13] = [
        AttackType::Normal,
        AttackType::BPSkill,
        AttackType::Ultra,
        AttackType::QTE,
        AttackType::DOT,
        AttackType::Pursued,
        AttackType::Maze,
        AttackType::Insert,
        AttackType::ElementDamage,
        AttackType::Servant,
        AttackType::TrueDamage,
        AttackType::ElationDamage,
        AttackType::Assist,
    ];
    proof {
        assert(kinds@ =~= ordered_damage_types());
    }
    let mut points: Vec<(AttackType, String, N)> = Vec::new();
    let mut k: usize = 0;
    while k < 13
        invariant
            k <= 13,
            kinds@ == ordered_damage_types(),
            deterministic1(*positive),
            points@.map_values(|p: (AttackType, String, N)| point_view(p))
                == known_points(breakdown@, kinds@.take(k as int), *positive),
        decreases 13 - k,
    {
        let t = kinds[k];
        let got = positive_damage_at(breakdown, t.rank(), positive);
        let ghost before = points@;
        proof {
            assert(kinds@.take(k + 1).drop_last() =~= kinds@.take(k as int));
            assert(kinds@.take(k + 1).last() == t);
        }
        if let Some(d) = got {
            points.push((t, display_damage_type(&t), d));
            proof {
                assert(points@.map_values(|p: (AttackType, String, N)| point_view(p))
                    =~= before.map_values(|p: (AttackType, String, N)| point_view(p)).push((t, damage_type_label(t), d)));
            }
        }
        k = k + 1;
    }
    proof {
        assert(kinds@.take(13) =~= kinds@);
    }
    let ghost known = points@.map_values(|p: (AttackType, String, N)| point_view(p));
    let mut r: u32 = 0;
    while r < ATTACK_TYPE_COUNT
        invariant
            r <= ATTACK_TYPE_COUNT,
            deterministic1(*positive),
            points@.map_values(|p: (AttackType, String, N)| point_view(p)) == known + other_points(breakdown@, *positive, r as nat),
        decreases ATTACK_TYPE_COUNT - r,
    {
        let t = AttackType::from_rank(r);
        let ghost before = points@;
        if !is_ordered_type(t) {
            let got = positive_damage_at(breakdown, r, positive);
            if let Some(d) = got {
                points.push((t, display_damage_type(&t), d));
                proof {
                    assert(points@.map_values(|p: (AttackType, String, N)| point_view(p))
                        =~= before.map_values(|p: (AttackType, String, N)| point_view(p)).push((t, damage_type_label(t), d)));
                }
            }
        }
        r = r + 1;
    }
    points
}

} // verus!
