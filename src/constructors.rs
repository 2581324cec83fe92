use core::marker::PhantomData;
use vstd::prelude::*;

use crate::indexed::IndexedState;

verus! {

/// The computation that yields a copy of the state as its value and leaves the
/// state as it was; built by `new`.
pub struct New<State> {
    phantom: PhantomData<State>,
}

impl<State> IndexedState<State, State, State> for New<State> where State: Clone {
    open spec fn pre(&self, state: State) -> bool {
        true
    }

    open spec fn post(&self, state: State, result: (State, State)) -> bool {
        result.1 == state && cloned(state, result.0)
    }

    fn run(self, state: State) -> (result: (State, State)) {
        (state.clone(), state)
    }
}

/// Creates the computation that observes the state: a run from `s` returns a copy
/// of `s` as the value and `s` itself as the output state.
pub fn new<State>() -> (r: New<State>) where State: Clone
    ensures
        forall|s: State| #[trigger] r.pre(s),
        forall|s: State, res: (State, State)|
            #[trigger] r.post(s, res) <==> res.1 == s && cloned(s, res.0),
{
    New { phantom: PhantomData }
}

/// The computation that derives a new state from the input state by a function and
/// yields a copy of it as the value; built by `gets`.
pub struct Gets<Function> {
    covariant: Function,
}

impl<Function> Gets<Function> {
    /// The function that derives the new state.
    pub closed spec fn covariant(&self) -> Function {
        self.covariant
    }
}

impl<Input, Output, Function> IndexedState<Input, Output, Output> for Gets<Function> where
    Function: FnOnce(Input) -> Output,
    Output: Clone,
 {
    open spec fn pre(&self, state: Input) -> bool {
        self.covariant().requires((state,))
    }

    open spec fn post(&self, state: Input, result: (Output, Output)) -> bool {
        self.covariant().ensures((state,), result.1) && cloned(result.1, result.0)
    }

    fn run(self, state: Input) -> (result: (Output, Output)) {
        let output = (self.covariant)(state);
        (output.clone(), output)
    }
}

/// Creates the computation that installs `covariant(s)` as the new state and also
/// yields a copy of it as the value.
pub fn gets<Input, Output, Function>(covariant: Function) -> (r: Gets<Function>) where
    Function: FnOnce(Input) -> Output,
    Output: Clone,
    ensures
        r.covariant() == covariant,
        forall|s: Input| #[trigger] r.pre(s) <==> covariant.requires((s,)),
        forall|s: Input, res: (Output, Output)| #[trigger]
            r.post(s, res) <==> covariant.ensures((s,), res.1) && cloned(res.1, res.0),
{
    Gets { covariant }
}

/// The computation that yields a value computed by a function from a copy of the
/// state and leaves the state as it was; built by `gots`.
pub struct Gots<Function> {
    covariant: Function,
}

impl<Function> Gots<Function> {
    /// The function that computes the value.
    pub closed spec fn covariant(&self) -> Function {
        self.covariant
    }
}

impl<Input, Value, Function> IndexedState<Input, Input, Value> for Gots<Function> where
    Function: FnOnce(Input) -> Value,
    Input: Clone,
 {
    open spec fn pre(&self, state: Input) -> bool {
        forall|copy: Input| #[trigger] cloned(state, copy) ==> self.covariant().requires((copy,))
    }

    open spec fn post(&self, state: Input, result: (Value, Input)) -> bool {
        &&& result.1 == state
        &&& exists|copy: Input| #[trigger]
            cloned(state, copy) && self.covariant().ensures((copy,), result.0)
    }

    fn run(self, state: Input) -> (result: (Value, Input)) {
        let copy = state.clone();
        assert(cloned(state, copy));
        let ghost argument = copy;
        let value = (self.covariant)(copy);
        assert(cloned(state, argument) && self.covariant().ensures((argument,), value));
        (value, state)
    }
}

/// Creates the computation that yields `covariant` applied to a copy of the state
/// and leaves the state itself as the output state.
pub fn gots<Input, Value, Function>(covariant: Function) -> (r: Gots<Function>) where
    Function: FnOnce(Input) -> Value,
    Input: Clone,
    ensures
        r.covariant() == covariant,
        forall|s: Input| #[trigger]
            r.pre(s) <==> (forall|copy: Input| #[trigger]
                cloned(s, copy) ==> covariant.requires((copy,))),
        forall|s: Input, res: (Value, Input)| #[trigger]
            r.post(s, res) <==> (res.1 == s && exists|copy: Input| #[trigger]
                cloned(s, copy) && covariant.ensures((copy,), res.0)),
{
    Gots { covariant }
}

} // verus!
