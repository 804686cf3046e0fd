use vstd::prelude::*;

use crate::arith::{call2, deterministic2, lemma_call2};
use crate::chart::{checked_ratio, fold_values, fold_with, ChartArith, DamagePortraitRow};
use crate::ui_state::DamageBarValue;

verus! {

/// The amount a damage meter row shows for the chosen measure, with its overkill
/// part: damage and overkill, or both per action value.
pub open spec fn bar_amounts<N>(row: DamagePortraitRow<N>, by: DamageBarValue) -> (N, N) {
    match by {
        DamageBarValue::Damage => (row.damage, row.overkill_damage),
        DamageBarValue::Dpav => (row.dpav, row.overkill_dpav),
    }
}

/// `greater` is the "greater than" of a strict weak order: it answers every pair,
/// always the same way, it is transitive, and whatever is below `a` but not below
/// `c` is below `c`'s level too (`a > b` gives `a > c` or `c > b`).
pub open spec fn strict_weak_greater<N, G: Fn(N, N) -> bool>(greater: G) -> bool {
    &&& deterministic2(greater)
    &&& forall|a: N, b: N, c: N|
        #![trigger call2(greater, a, b), call2(greater, b, c)]
        call2(greater, a, b) && call2(greater, b, c) ==> call2(greater, a, c)
    &&& forall|a: N, b: N, c: N|
        #![trigger call2(greater, a, b), call2(greater, c, b)]
        call2(greater, a, b) ==> call2(greater, a, c) || call2(greater, c, b)
}

/// Row `a` of the meter is shown above row `b`: its amount is greater, or neither
/// amount is greater and `a` comes first in the lineup.
pub open spec fn shown_above<N, G: Fn(N, N) -> bool>(greater: G, amounts: Seq<N>, a: int, b: int) -> bool {
    ||| call2(greater, amounts[a], amounts[b])
    ||| (!call2(greater, amounts[b], amounts[a]) && a < b)
}

/// `order` lists the rows `0..n` once each, top to bottom as the meter shows them.
pub open spec fn meter_order_ok<N, G: Fn(N, N) -> bool>(greater: G, amounts: Seq<N>, order: Seq<usize>) -> bool {
    &&& order.len() == amounts.len()
    &&& forall|k: int| 0 <= k < order.len() ==> #[trigger] order[k] < amounts.len()
    &&& forall|p: int, q: int| 0 <= p < q < order.len() ==> #[trigger] order[p] != #[trigger] order[q]
    &&& forall|p: int, q: int|
        0 <= p < q < order.len() ==> shown_above(greater, amounts, #[trigger] order[p] as int, #[trigger] order[q] as int)
}

/// The amount a row shows for the chosen measure, and its overkill part.
pub fn bar_amount<N: Copy>(row: &DamagePortraitRow<N>, by: DamageBarValue) -> (r: (N, N))
    ensures
        r == bar_amounts(*row, by),
{
    match by {
        DamageBarValue::Damage => (row.damage, row.overkill_damage),
        DamageBarValue::Dpav => (row.dpav, row.overkill_dpav),
    }
}

/// The amounts the rows show for the chosen measure, row by row.
pub fn meter_amounts<N: Copy>(rows: &Vec<DamagePortraitRow<N>>, by: DamageBarValue) -> (amounts: Vec<N>)
    ensures
        amounts@.len() == rows@.len(),
        forall|k: int| 0 <= k < rows@.len() ==> #[trigger] amounts@[k] == bar_amounts(rows@[k], by).0,
{
    let mut amounts: Vec<N> = Vec::new();
    let mut k: usize = 0;
    while k < rows.len()
        invariant
            k <= rows@.len(),
            amounts@.len() == k,
            forall|j: int| 0 <= j < k ==> #[trigger] amounts@[j] == bar_amounts(rows@[j], by).0,
        decreases rows@.len() - k,
    {
        let (shown, _) = bar_amount(&rows[k], by);
        amounts.push(shown);
        k = k + 1;
    }
    amounts
}

/// The full length of the meter: the largest amount shown, starting from zero.
pub fn meter_scale<N: Copy, P: Fn(N) -> bool, B: Fn(N, N) -> N, C: Fn(u32) -> N>(
    amounts: &Vec<N>,
    ops: &ChartArith<N, P, B, C>,
) -> (r: N)
    requires
        ops.lawful(),
    ensures
        r == fold_with(ops.max, ops.zero, amounts@),
{
    fold_values(&ops.max, ops.zero, amounts)
}

/// How much of its bar a row fills: its amount over the scale, or nothing when the
/// scale is not positive.
pub fn meter_fill<N: Copy, P: Fn(N) -> bool, B: Fn(N, N) -> N, C: Fn(u32) -> N>(
    amount: N,
    scale: N,
    ops: &ChartArith<N, P, B, C>,
) -> (r: N)
    requires
        ops.lawful(),
    ensures
        r == ops.ratio(amount, scale),
{
    checked_ratio(ops, amount, scale)
}

/// The order the meter shows its rows in: by amount, greatest first, rows with
/// equal amounts in lineup order.
pub fn damage_meter_order<N: Copy, G: Fn(N, N) -> bool>(amounts: &Vec<N>, greater: &G) -> (order: Vec<usize>)
    requires
        strict_weak_greater(*greater),
    ensures
        meter_order_ok(*greater, amounts@, order@),
{
    let mut order: Vec<usize> = Vec::new();
    let mut i: usize = 0;
    while i < amounts.len()
        invariant
            i <= amounts@.len(),
            strict_weak_greater(*greater),
            meter_order_ok(*greater, amounts@.take(i as int), order@),
        decreases amounts@.len() - i,
    {
        let ghost pre = order@;
        let ghost upto = amounts@.take(i as int);
        let ghost next = amounts@.take(i + 1);
        let a = amounts[i];
        let mut p: usize = 0;
        let mut found = false;
        while !found && p < order.len()
            invariant
                i < amounts@.len(),
                order@ == pre,
                p <= pre.len(),
                strict_weak_greater(*greater),
                meter_order_ok(*greater, upto, pre),
                upto == amounts@.take(i as int),
                a == amounts@[i as int],
                found ==> p < pre.len() && call2(*greater, a, amounts@[pre[p as int] as int]),
                forall|k: int| 0 <= k < p ==> !call2(*greater, a, #[trigger] amounts@[pre[k] as int]),
            decreases pre.len() - p + (if found { 0int } else { 1int }),
        {
            let o = order[p];
            let gt = greater(a, amounts[o]);
            proof {
                lemma_call2(*greater, a, amounts@[o as int], gt);
            }
            if gt {
                found = true;
            } else {
                p = p + 1;
            }
        }
        order.insert(p, i);
        proof {
            let s = order@;
            assert(s == pre.insert(p as int, i));
            assert forall|k: int| 0 <= k < pre.len() implies #[trigger] next[pre[k] as int] == amounts@[pre[k] as int]
                && upto[pre[k] as int] == amounts@[pre[k] as int] by {
                assert(pre[k] < upto.len());
            }
            assert(next[i as int] == a);
            assert forall|k: int| 0 <= k < s.len() implies #[trigger] s[k] < next.len() by {
                if k < p {
                    assert(s[k] == pre[k]);
                } else if k > p {
                    assert(s[k] == pre[k - 1]);
                }
            }
            assert forall|x: int, y: int| 0 <= x < y < s.len() implies #[trigger] s[x] != #[trigger] s[y] by {
                if x != p && y != p {
                    let px = if x < p { x } else { x - 1 };
                    let py = if y < p { y } else { y - 1 };
                    assert(s[x] == pre[px] && s[y] == pre[py]);
                    assert(pre[px] != pre[py]);
                } else if x == p {
                    assert(s[y] == pre[y - 1]);
                    assert(pre[y - 1] < upto.len());
                } else {
                    assert(s[x] == pre[x]);
                    assert(pre[x] < upto.len());
                }
            }
            assert forall|x: int, y: int| 0 <= x < y < s.len() implies shown_above(
                *greater,
                next,
                #[trigger] s[x] as int,
                #[trigger] s[y] as int,
            ) by {
                if x != p && y != p {
                    let px = if x < p { x } else { x - 1 };
                    let py = if y < p { y } else { y - 1 };
                    assert(s[x] == pre[px] && s[y] == pre[py]);
                    assert(shown_above(*greater, upto, pre[px] as int, pre[py] as int));
                } else if y == p {
                    assert(s[x] == pre[x]);
                    assert(!call2(*greater, a, amounts@[pre[x] as int]));
                    assert(pre[x] < i);
                } else {
                    let o = pre[y - 1];
                    assert(s[y] == o);
                    assert(o < upto.len());
                    let top = pre[p as int];
                    assert(call2(*greater, a, amounts@[top as int]));
                    if y - 1 > p {
                        assert(shown_above(*greater, upto, top as int, o as int));
                        let vt = amounts@[top as int];
                        let vo = amounts@[o as int];
                        if call2(*greater, vt, vo) {
                            assert(call2(*greater, a, vo));
                        } else {
                            assert(!call2(*greater, vo, vt));
                            assert(call2(*greater, a, vo) || call2(*greater, vo, vt));
                        }
                    }
                    assert(call2(*greater, a, amounts@[o as int]));
                }
            }
        }
        i = i + 1;
    }
    proof {
        assert(amounts@.take(amounts@.len() as int) =~= amounts@);
    }
    order
}

} // verus!
