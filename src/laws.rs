//! Algebraic laws of the combinators, stated over `pre` and `post`.
//!
//! A function value's postcondition only bounds what a call may return, so the laws
//! are stated as inclusions: a combined computation may be run wherever the other
//! form may, and every result of the one form is a result of the other. For
//! computations whose `post` admits one result per input state, this is equality
//! of the results.
use vstd::prelude::*;

use crate::indexed::{AndThen, Apply, ContramapState, IndexedState, MapValue};

verus! {

/// `function` may be called on every argument and returns that argument.
pub open spec fn is_identity<Value, Function>(function: Function) -> bool where
    Function: FnOnce(Value) -> Value,
 {
    &&& forall|x: Value| #[trigger] function.requires((x,))
    &&& forall|x: Value, y: Value| #[trigger] function.ensures((x,), y) ==> y == x
}

/// `fused` may be called wherever `inner` may be called and `outer` may be called on
/// each of its results, and each result of `fused` is `outer` of a result of `inner`.
pub open spec fn is_composition<A, B, C, Inner, Outer, Fused>(
    fused: Fused,
    inner: Inner,
    outer: Outer,
) -> bool where Inner: FnOnce(A) -> B, Outer: FnOnce(B) -> C, Fused: FnOnce(A) -> C {
    &&& forall|x: A|
        inner.requires((x,)) && (forall|y: B| #[trigger]
            inner.ensures((x,), y) ==> outer.requires((y,))) ==> #[trigger] fused.requires((x,))
    &&& forall|x: A, z: C| #[trigger]
        fused.ensures((x,), z) ==> exists|y: B| #[trigger]
            inner.ensures((x,), y) && outer.ensures((y,), z)
}

/// Mapping the identity function: `c.map(id)` may be run from every state that `c`
/// may be run from, and every result of `c.map(id)` from `s` is a result of `c` from
/// `s`.
pub proof fn lemma_map_identity<Input, Output, Value, First, Function>(
    m: MapValue<First, Function, Value>,
)
    where
        First: IndexedState<Input, Output, Value>,
        Function: FnOnce(Value) -> Value,
    requires
        is_identity::<Value, Function>(m.covariant()),
    ensures
        forall|s: Input| #[trigger] m.pre(s) == m.first().pre(s),
        forall|s: Input, r: (Value, Output)| #[trigger] m.post(s, r) ==> m.first().post(s, r),
{
}

/// Composition of maps: when `h` is `g` composed after `f`, `c.map(f).map(g)` may
/// only be run where `c.map(h)` may, and every result of `c.map(h)` from `s` is a
/// result of `c.map(f).map(g)` from `s`.
pub proof fn lemma_map_composition<Input, Output, Value, Middle, Last, First, F, G, H>(
    chained: MapValue<MapValue<First, F, Value>, G, Middle>,
    fused: MapValue<First, H, Value>,
)
    where
        First: IndexedState<Input, Output, Value>,
        F: FnOnce(Value) -> Middle,
        G: FnOnce(Middle) -> Last,
        H: FnOnce(Value) -> Last,
    requires
        chained.first().first() == fused.first(),
        is_composition::<Value, Middle, Last, F, G, H>(
            fused.covariant(),
            chained.first().covariant(),
            chained.covariant(),
        ),
    ensures
        forall|s: Input| #[trigger] chained.pre(s) ==> fused.pre(s),
        forall|s: Input, r: (Last, Output)| #[trigger] fused.post(s, r) ==> chained.post(s, r),
{
    let c = chained.first().first();
    let f = chained.first().covariant();
    let g = chained.covariant();
    let h = fused.covariant();
    assert forall|s: Input| #[trigger] chained.pre(s) implies fused.pre(s) by {
        assert forall|a: Value, o: Output| #[trigger] c.post(s, (a, o)) implies h.requires(
            (a,),
        ) by {
            assert forall|y: Middle| #[trigger] f.ensures((a,), y) implies g.requires((y,)) by {
                let r = (y, o);
                assert(c.post(s, (a, r.1)));
                assert(chained.first().post(s, (y, o)));
            }
        }
    }
    assert forall|s: Input, r: (Last, Output)| #[trigger] fused.post(s, r) implies chained.post(
        s,
        r,
    ) by {
        let a = choose|a: Value| #[trigger] c.post(s, (a, r.1)) && h.ensures((a,), r.0);
        let y = choose|y: Middle| #[trigger] f.ensures((a,), y) && g.ensures((y,), r.0);
        let mid = (y, r.1);
        assert(c.post(s, (a, mid.1)));
        assert(chained.first().post(s, mid));
    }
}

/// Maps leave the output state alone: every result of `c.map(f)` from `s` carries an
/// output state that `c` may return from `s`.
pub proof fn lemma_map_keeps_output<Input, Output, Value, Next, First, Function>(
    m: MapValue<First, Function, Value>,
)
    where
        First: IndexedState<Input, Output, Value>,
        Function: FnOnce(Value) -> Next,
    ensures
        forall|s: Input, r: (Next, Output)| #[trigger]
            m.post(s, r) ==> exists|a: Value| #[trigger] m.first().post(s, (a, r.1)),
{
}

/// `fused` builds, from each value, the computation that `kleisli` builds from it,
/// sequenced with `next`.
pub open spec fn binds_through<Value, Second, Next, Phantom, Kleisli, Fused>(
    fused: Fused,
    kleisli: Kleisli,
    next: Next,
) -> bool where Kleisli: FnOnce(Value) -> Second, Fused: FnOnce(Value) -> AndThen<Second, Next, Phantom> {
    &&& forall|x: Value| kleisli.requires((x,)) ==> #[trigger] fused.requires((x,))
    &&& forall|x: Value, t: AndThen<Second, Next, Phantom>| #[trigger]
        fused.ensures((x,), t) ==> t.kleisli() == next && kleisli.ensures((x,), t.stateful())
}

/// Associativity of `and_then`: when `h(x)` is `f(x).and_then(g)`,
/// `c.and_then(f).and_then(g)` may only be run where `c.and_then(h)` may, and every
/// result of `c.and_then(h)` from `s` is a result of `c.and_then(f).and_then(g)`
/// from `s`.
pub proof fn lemma_and_then_associative<
    I,
    O,
    P,
    Q,
    V,
    W,
    X,
    First,
    Second,
    Third,
    F,
    G,
    H,
>(
    nested: AndThen<AndThen<First, F, (V, O)>, G, (W, P)>,
    fused: AndThen<First, H, (V, O)>,
)
    where
        First: IndexedState<I, O, V>,
        Second: IndexedState<O, P, W>,
        Third: IndexedState<P, Q, X>,
        F: FnOnce(V) -> Second,
        G: FnOnce(W) -> Third,
        H: FnOnce(V) -> AndThen<Second, G, (W, P)>,
    requires
        nested.stateful().stateful() == fused.stateful(),
        binds_through::<V, Second, G, (W, P), F, H>(
            fused.kleisli(),
            nested.stateful().kleisli(),
            nested.kleisli(),
        ),
    ensures
        forall|s: I| #[trigger] nested.pre(s) ==> fused.pre(s),
        forall|s: I, r: (X, Q)| #[trigger] fused.post(s, r) ==> nested.post(s, r),
{
    let c = fused.stateful();
    let inner = nested.stateful();
    let f = inner.kleisli();
    let g = nested.kleisli();
    let h = fused.kleisli();
    assert forall|s: I| #[trigger] nested.pre(s) implies fused.pre(s) by {
        assert forall|a: V, o: O| #[trigger] c.post(s, (a, o)) implies {
            &&& h.requires((a,))
            &&& forall|t: AndThen<Second, G, (W, P)>| #[trigger] h.ensures((a,), t) ==> t.pre(o)
        } by {
            assert forall|t: AndThen<Second, G, (W, P)>| #[trigger] h.ensures(
                (a,),
                t,
            ) implies t.pre(o) by {
                let second = t.stateful();
                assert(f.ensures((a,), second));
                assert forall|w: W, p: P| #[trigger] second.post(o, (w, p)) implies {
                    &&& g.requires((w,))
                    &&& forall|third: Third| #[trigger] g.ensures((w,), third) ==> third.pre(p)
                } by {
                    assert(inner.post(s, (w, p)));
                }
            }
        }
    }
    assert forall|s: I, r: (X, Q)| #[trigger] fused.post(s, r) implies nested.post(s, r) by {
        let (a, o, t) = choose|a: V, o: O, t: AndThen<Second, G, (W, P)>|
            #[trigger] c.post(s, (a, o)) && #[trigger] h.ensures((a,), t) && t.post(o, r);
        let second = t.stateful();
        let (w, p, third) = choose|w: W, p: P, third: Third|
            #[trigger] second.post(o, (w, p)) && #[trigger] g.ensures((w,), third) && third.post(
                p,
                r,
            );
        assert(f.ensures((a,), second));
        assert(inner.post(s, (w, p)));
    }
}

/// Left identity of `and_then`: when `c` returns exactly `(v, s)` from `s`,
/// `c.and_then(k)` may be run from `s` wherever `k(v)` may be run from `s`, and
/// every result of `c.and_then(k)` from `s` is a result of some `k(v)` from `s`.
pub proof fn lemma_and_then_left_identity<S, P, V, W, First, Second, Kleisli>(
    bound: AndThen<First, Kleisli, (V, S)>,
    v: V,
    s: S,
)
    where
        First: IndexedState<S, S, V>,
        Second: IndexedState<S, P, W>,
        Kleisli: FnOnce(V) -> Second,
    requires
        bound.stateful().pre(s),
        forall|r: (V, S)| #[trigger] bound.stateful().post(s, r) ==> r == (v, s),
    ensures
        ({
            &&& bound.kleisli().requires((v,))
            &&& forall|second: Second| #[trigger]
                bound.kleisli().ensures((v,), second) ==> second.pre(s)
        }) ==> bound.pre(s),
        forall|r: (W, P)| #[trigger]
            bound.post(s, r) ==> exists|second: Second| #[trigger]
                bound.kleisli().ensures((v,), second) && second.post(s, r),
{
}

/// Converting the input state: `c.contramap_state(f)` may be run from `k` exactly
/// when `f` may be called on `k` and `c` may be run from each result of `f(k)`, and
/// its results from `k` are exactly the results of `c` from some result of `f(k)`.
pub proof fn lemma_contramap_state<K, I, O, V, First, Function>(
    adapted: ContramapState<First, Function>,
)
    where
        First: IndexedState<I, O, V>,
        Function: FnOnce(K) -> I,
    ensures
        forall|k: K| #[trigger]
            adapted.pre(k) <==> adapted.contravariant().requires((k,)) && forall|i: I| #[trigger]
                adapted.contravariant().ensures((k,), i) ==> adapted.first().pre(i),
        forall|k: K, r: (V, O)| #[trigger]
            adapted.post(k, r) <==> exists|i: I| #[trigger]
                adapted.contravariant().ensures((k,), i) && adapted.first().post(i, r),
{
}

/// Applying: the results of `first.apply(second)` from `s` are exactly the pairs
/// `(g(a), fin)` where `first` returns `(g, mid)` from `s` and `second` returns
/// `(a, fin)` from `mid`.
pub proof fn lemma_apply<I, O, P, A, B, First, Second, Function>(
    applied: Apply<First, Second, (O, A, Function)>,
)
    where
        First: IndexedState<I, O, Function>,
        Second: IndexedState<O, P, A>,
        Function: FnOnce(A) -> B,
    ensures
        forall|s: I, r: (B, P)| #[trigger]
            applied.post(s, r) <==> exists|g: Function, mid: O, a: A|
                #[trigger] applied.first().post(s, (g, mid)) && #[trigger] applied.second().post(
                    mid,
                    (a, r.1),
                ) && g.ensures((a,), r.0),
{
}

} // verus!
