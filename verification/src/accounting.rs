use std::collections::BTreeMap;
use vstd::prelude::*;

use crate::arith::{call2, deterministic2};
use crate::attack::ATTACK_TYPE_COUNT;
use crate::battle::BattleContext;
use crate::breakdown::credit_rank;
use crate::chart::fold_with;
use crate::types::TurnInfo;

verus! {

/// `plus` is exact addition with `zero` as its neutral element: a total function,
/// commutative and associative.
pub open spec fn exact_addition<N, A: Fn(N, N) -> N>(plus: A, zero: N) -> bool {
    &&& deterministic2(plus)
    &&& forall|a: N| #[trigger] call2(plus, zero, a) == a
    &&& forall|a: N, b: N| #[trigger] call2(plus, a, b) == call2(plus, b, a)
    &&& forall|a: N, b: N, c: N|
        #![trigger call2(plus, call2(plus, a, b), c)]
        call2(plus, call2(plus, a, b), c) == call2(plus, a, call2(plus, b, c))
}

/// The sum of a breakdown's damage over the ranks below `upto`.
pub open spec fn breakdown_sum<N, A: Fn(N, N) -> N>(plus: A, zero: N, row: Map<u32, N>, upto: nat) -> N
    decreases upto,
{
    if upto == 0 {
        zero
    } else {
        let prev = breakdown_sum(plus, zero, row, (upto - 1) as nat);
        let r = (upto - 1) as u32;
        if row.contains_key(r) {
            call2(plus, prev, row[r])
        } else {
            prev
        }
    }
}

/// The damage lineup slot `i` dealt over the recorded turns.
pub open spec fn turns_sum<N, A: Fn(N, N) -> N>(plus: A, zero: N, turns: Seq<TurnInfo<N>>, i: int) -> N
    decreases turns.len(),
{
    if turns.len() == 0 {
        zero
    } else {
        call2(plus, turns_sum(plus, zero, turns.drop_last(), i), turns.last().avatars_turn_damage@[i])
    }
}

/// The damage tallies agree: the battle total is the sum of the slots' damage, and
/// each slot's damage is both the sum of its breakdown and the sum of its damage
/// over the recorded turns and the current one.
pub open spec fn damage_consistent<N: Copy, A: Fn(N, N) -> N>(ctx: &BattleContext<N>, zero: N, plus: A) -> bool {
    let n = ctx.avatar_lineup@.len();
    &&& ctx.total_damage == fold_with(plus, zero, ctx.real_time_damages@)
    &&& forall|i: int| 0 <= i < n ==> #[trigger] ctx.real_time_damages@[i]
        == breakdown_sum(plus, zero, ctx.damage_by_category@[i]@, ATTACK_TYPE_COUNT as nat)
    &&& forall|i: int| 0 <= i < n ==> #[trigger] ctx.real_time_damages@[i] == call2(
        plus,
        turns_sum(plus, zero, ctx.turn_history@, i),
        ctx.current_turn_info.avatars_turn_damage@[i],
    )
}

/// Adding `d` at one position adds `d` to the sum.
pub proof fn lemma_fold_update<N, A: Fn(N, N) -> N>(plus: A, zero: N, s: Seq<N>, i: int, d: N)
    requires
        exact_addition(plus, zero),
        0 <= i < s.len(),
    ensures
        fold_with(plus, zero, s.update(i, call2(plus, s[i], d))) == call2(plus, fold_with(plus, zero, s), d),
    decreases s.len(),
{
    let t = s.update(i, call2(plus, s[i], d));
    let last = (s.len() - 1) as int;
    if i == last {
        assert(t.drop_last() =~= s.drop_last());
        let p = fold_with(plus, zero, s.drop_last());
        assert(call2(plus, call2(plus, p, s[i]), d) == call2(plus, p, call2(plus, s[i], d)));
    } else {
        assert(t.drop_last() =~= s.drop_last().update(i, call2(plus, s[i], d)));
        lemma_fold_update(plus, zero, s.drop_last(), i, d);
        let p = fold_with(plus, zero, s.drop_last());
        let x = s.last();
        assert(t.last() == x);
        assert(call2(plus, call2(plus, p, d), x) == call2(plus, p, call2(plus, d, x)));
        assert(call2(plus, d, x) == call2(plus, x, d));
        assert(call2(plus, call2(plus, p, x), d) == call2(plus, p, call2(plus, x, d)));
    }
}

/// The sum of zeros is zero.
pub proof fn lemma_fold_zeros<N, A: Fn(N, N) -> N>(plus: A, zero: N, s: Seq<N>)
    requires
        exact_addition(plus, zero),
        forall|k: int| 0 <= k < s.len() ==> #[trigger] s[k] == zero,
    ensures
        fold_with(plus, zero, s) == zero,
    decreases s.len(),
{
    if s.len() > 0 {
        lemma_fold_zeros(plus, zero, s.drop_last());
        assert(call2(plus, zero, zero) == zero);
    }
}

/// An empty breakdown sums to zero.
pub proof fn lemma_breakdown_sum_empty<N, A: Fn(N, N) -> N>(plus: A, zero: N, upto: nat)
    ensures
        breakdown_sum(plus, zero, Map::<u32, N>::empty(), upto) == zero,
    decreases upto,
{
    if upto > 0 {
        lemma_breakdown_sum_empty(plus, zero, (upto - 1) as nat);
    }
}

/// Crediting `d` to a rank adds `d` to the breakdown's sum over the ranks past it.
pub proof fn lemma_breakdown_sum_credit<N, A: Fn(N, N) -> N>(plus: A, zero: N, row: Map<u32, N>, k: u32, d: N, upto: nat)
    requires
        exact_addition(plus, zero),
        upto <= ATTACK_TYPE_COUNT,
    ensures
        upto <= k ==> breakdown_sum(plus, zero, credit_rank(row, k, d, zero, plus), upto) == breakdown_sum(plus, zero, row, upto),
        upto > k ==> breakdown_sum(plus, zero, credit_rank(row, k, d, zero, plus), upto)
            == call2(plus, breakdown_sum(plus, zero, row, upto), d),
    decreases upto,
{
    let out = credit_rank(row, k, d, zero, plus);
    if upto > 0 {
        let r = (upto - 1) as u32;
        lemma_breakdown_sum_credit(plus, zero, row, k, d, (upto - 1) as nat);
        let p = breakdown_sum(plus, zero, row, (upto - 1) as nat);
        if r == k {
            assert(out.contains_key(r));
            if row.contains_key(r) {
                assert(call2(plus, call2(plus, p, row[r]), d) == call2(plus, p, call2(plus, row[r], d)));
            } else {
                assert(call2(plus, zero, d) == d);
            }
        } else if r > k {
            let q = call2(plus, p, d);
            if row.contains_key(r) {
                assert(out.contains_key(r) && out[r] == row[r]);
                assert(call2(plus, call2(plus, p, d), row[r]) == call2(plus, p, call2(plus, d, row[r])));
                assert(call2(plus, d, row[r]) == call2(plus, row[r], d));
                assert(call2(plus, call2(plus, p, row[r]), d) == call2(plus, p, call2(plus, row[r], d)));
            } else {
                assert(!out.contains_key(r));
            }
        } else {
            if row.contains_key(r) {
                assert(out.contains_key(r) && out[r] == row[r]);
            } else {
                assert(!out.contains_key(r));
            }
        }
    }
}

} // verus!
