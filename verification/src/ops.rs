//! Function values as arithmetic.
//!
//! The library leaves arithmetic on samples to its caller, who hands it in as
//! function values. Where a result is one application of such a value, the
//! contract relates argument and result by the value's own postcondition.
//! Where results are folded, the contract names what the value returns; that
//! is meaningful only if the value accepts every argument and its result is
//! determined by its arguments. The predicates and names are defined here,
//! for one, two and three arguments.

use vstd::prelude::*;

verus! {

/// `f` accepts every argument.
pub open spec fn accepts_all1<A, R, F: Fn(A) -> R>(f: F) -> bool {
    forall|a: A| #[trigger] call_requires(f, (a,))
}

/// `f` accepts every argument, and equal arguments give equal results.
pub open spec fn is_function1<A, R, F: Fn(A) -> R>(f: F) -> bool {
    &&& accepts_all1(f)
    &&& forall|a: A, r1: R, r2: R|
        #[trigger] call_ensures(f, (a,), r1) && #[trigger] call_ensures(f, (a,), r2) ==> r1 == r2
}

/// What `f` returns on `a`.
pub open spec fn result1<A, R, F: Fn(A) -> R>(f: F, a: A) -> R {
    choose|r: R| call_ensures(f, (a,), r)
}

/// `result1(f, a)` is a value that `f` can return on `a`. This holds of
/// every argument on which `f` has been called.
pub open spec fn returns1<A, R, F: Fn(A) -> R>(f: F, a: A) -> bool {
    call_ensures(f, (a,), result1(f, a))
}

/// A value that `f` returned on `a` is `result1(f, a)`.
pub proof fn lemma_result1<A, R, F: Fn(A) -> R>(f: F, a: A, r: R)
    requires
        is_function1(f),
        call_ensures(f, (a,), r),
    ensures
        r == result1(f, a),
        returns1(f, a),
{
}

/// `f` accepts every pair of arguments.
pub open spec fn accepts_all2<A, B, R, F: Fn(A, B) -> R>(f: F) -> bool {
    forall|a: A, b: B| #[trigger] call_requires(f, (a, b))
}

/// `f` accepts every pair of arguments, and equal arguments give equal
/// results.
pub open spec fn is_function2<A, B, R, F: Fn(A, B) -> R>(f: F) -> bool {
    &&& accepts_all2(f)
    &&& forall|a: A, b: B, r1: R, r2: R|
        #[trigger] call_ensures(f, (a, b), r1) && #[trigger] call_ensures(f, (a, b), r2) ==> r1
            == r2
}

/// What `f` returns on `a` and `b`.
pub open spec fn result2<A, B, R, F: Fn(A, B) -> R>(f: F, a: A, b: B) -> R {
    choose|r: R| call_ensures(f, (a, b), r)
}

/// `result2(f, a, b)` is a value that `f` can return on `a` and `b`. This
/// holds of all arguments on which `f` has been called.
pub open spec fn returns2<A, B, R, F: Fn(A, B) -> R>(f: F, a: A, b: B) -> bool {
    call_ensures(f, (a, b), result2(f, a, b))
}

/// A value that `f` returned on `a` and `b` is `result2(f, a, b)`.
pub proof fn lemma_result2<A, B, R, F: Fn(A, B) -> R>(f: F, a: A, b: B, r: R)
    requires
        is_function2(f),
        call_ensures(f, (a, b), r),
    ensures
        r == result2(f, a, b),
        returns2(f, a, b),
{
}

/// `f` accepts every triple of arguments.
pub open spec fn accepts_all3<A, B, C, R, F: Fn(A, B, C) -> R>(f: F) -> bool {
    forall|a: A, b: B, c: C| #[trigger] call_requires(f, (a, b, c))
}

/// `f` accepts every triple of arguments, and equal arguments give equal
/// results.
pub open spec fn is_function3<A, B, C, R, F: Fn(A, B, C) -> R>(f: F) -> bool {
    &&& accepts_all3(f)
    &&& forall|a: A, b: B, c: C, r1: R, r2: R|
        #[trigger] call_ensures(f, (a, b, c), r1) && #[trigger] call_ensures(f, (a, b, c), r2)
            ==> r1 == r2
}

/// What `f` returns on `a`, `b` and `c`.
pub open spec fn result3<A, B, C, R, F: Fn(A, B, C) -> R>(f: F, a: A, b: B, c: C) -> R {
    choose|r: R| call_ensures(f, (a, b, c), r)
}

/// `result3(f, a, b, c)` is a value that `f` can return on `a`, `b` and `c`.
/// This holds of all arguments on which `f` has been called.
pub open spec fn returns3<A, B, C, R, F: Fn(A, B, C) -> R>(f: F, a: A, b: B, c: C) -> bool {
    call_ensures(f, (a, b, c), result3(f, a, b, c))
}

/// A value that `f` returned on `a`, `b` and `c` is `result3(f, a, b, c)`.
pub proof fn lemma_result3<A, B, C, R, F: Fn(A, B, C) -> R>(f: F, a: A, b: B, c: C, r: R)
    requires
        is_function3(f),
        call_ensures(f, (a, b, c), r),
    ensures
        r == result3(f, a, b, c),
        returns3(f, a, b, c),
{
}

} // verus!
