use vstd::prelude::*;

verus! {

/// `f` accepts every argument and gives one result for each.
pub open spec fn deterministic1<A, R, F: Fn(A) -> R>(f: F) -> bool {
    &&& forall|x: A| #[trigger] f.requires((x,))
    &&& forall|x: A, r1: R, r2: R|
        #![trigger f.ensures((x,), r1), f.ensures((x,), r2)]
        f.ensures((x,), r1) && f.ensures((x,), r2) ==> r1 == r2
}

/// `f` accepts every pair of arguments and gives one result for each.
pub open spec fn deterministic2<A, B, R, F: Fn(A, B) -> R>(f: F) -> bool {
    &&& forall|a: A, b: B| #[trigger] f.requires((a, b))
    &&& forall|a: A, b: B, r1: R, r2: R|
        #![trigger f.ensures((a, b), r1), f.ensures((a, b), r2)]
        f.ensures((a, b), r1) && f.ensures((a, b), r2) ==> r1 == r2
}

/// What `f` gives for `x`.
pub open spec fn call1<A, R, F: Fn(A) -> R>(f: F, x: A) -> R {
    choose|r: R| f.ensures((x,), r)
}

/// What `f` gives for `a` and `b`.
pub open spec fn call2<A, B, R, F: Fn(A, B) -> R>(f: F, a: A, b: B) -> R {
    choose|r: R| f.ensures((a, b), r)
}

/// A result `f` gave for `x` is the one [`call1`] names.
pub proof fn lemma_call1<A, R, F: Fn(A) -> R>(f: F, x: A, r: R)
    requires
        deterministic1(f),
        f.ensures((x,), r),
    ensures
        call1(f, x) == r,
{
}

/// A result `f` gave for `a` and `b` is the one [`call2`] names.
pub proof fn lemma_call2<A, B, R, F: Fn(A, B) -> R>(f: F, a: A, b: B, r: R)
    requires
        deterministic2(f),
        f.ensures((a, b), r),
    ensures
        call2(f, a, b) == r,
{
}

} // verus!
