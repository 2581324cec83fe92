use core::marker::PhantomData;
use vstd::prelude::*;

verus! {

/// A computation that, given an input state of type `Input`, returns a value of type
/// `Value` together with an output state of type `Output`; the indexed state monad.
///
/// `pre(s)` says that the computation may be run from `s`; `post(s, r)` says that `r`
/// is a result that such a run may return. Running consumes the computation.
pub trait IndexedState<Input, Output, Value>: Sized {
    /// The input states from which the computation may be run.
    spec fn pre(&self, state: Input) -> bool;

    /// The `(value, output)` pairs that a run from `state` may return.
    spec fn post(&self, state: Input, result: (Value, Output)) -> bool;

    /// Runs the computation from `state`, returning the value and the output state.
    fn run(self, state: Input) -> (result: (Value, Output))
        requires
            self.pre(state),
        ensures
            self.post(state, result),
    ;

    /// Runs the computation and keeps only the value.
    fn evaluate(self, state: Input) -> (value: Value)
        requires
            self.pre(state),
        ensures
            exists|output: Output| #[trigger] self.post(state, (value, output)),
    {
        let (value, output) = self.run(state);
        value
    }

    /// Runs the computation and keeps only the output state.
    fn execute(self, state: Input) -> (output: Output)
        requires
            self.pre(state),
        ensures
            exists|value: Value| #[trigger] self.post(state, (value, output)),
    {
        let (value, output) = self.run(state);
        output
    }

    /// Transforms the value with `closure` once the computation has run.
    fn map<Function, ValueNext>(self, closure: Function) -> (r: MapValue<Self, Function, Value>) where
        Function: FnOnce(Value) -> ValueNext,
        ensures
            r.first() == self,
            r.covariant() == closure,
    {
        MapValue { first: self, covariant: closure, phantom: PhantomData }
    }

    /// Sequences this computation with the one that `kleisli` builds from its value;
    /// the second runs from this one's output state (monadic bind).
    fn and_then<Covariant, Second>(self, kleisli: Covariant) -> (r:
        AndThen<Self, Covariant, (Value, Output)>) where
        Covariant: FnOnce(Value) -> Second,
        ensures
            r.stateful() == self,
            r.kleisli() == kleisli,
    {
        AndThen { stateful: self, kleisli, phantom: PhantomData }
    }

    /// Transforms the output state with `closure` once the computation has run.
    fn map_state<Covariant, SecondState>(self, closure: Covariant) -> (r: MapState<
        Self,
        Covariant,
        Output,
    >) where Covariant: FnOnce(Output) -> SecondState,
        ensures
            r.first() == self,
            r.covariant() == closure,
    {
        MapState { first: self, covariant: closure, phantom: PhantomData }
    }

    /// Makes the computation take a `FirstInput`, converted by `contravariant`
    /// before the computation runs.
    fn contramap_state<Covariant, FirstInput>(self, contravariant: Covariant) -> (r:
        ContramapState<Self, Covariant>) where Covariant: FnOnce(FirstInput) -> Input,
        ensures
            r.first() == self,
            r.contravariant() == contravariant,
    {
        ContramapState { first: self, contravariant }
    }

    /// Runs this computation, whose value is a function, then `second` from its output
    /// state, and applies the function to the value of `second`.
    fn apply<Second, SecondInput, Argument>(self, second: Second) -> (r: Apply<
        Self,
        Second,
        (SecondInput, Argument, Value),
    >)
        ensures
            r.first() == self,
            r.second() == second,
    {
        Apply { first: self, second, phantom: PhantomData }
    }
}

/// Every one-shot function from an input state to a `(value, output)` pair is a
/// computation.
impl<FirstInput, SecondInput, FirstValue, Covariant> IndexedState<
    FirstInput,
    SecondInput,
    FirstValue,
> for Covariant where Covariant: FnOnce(FirstInput) -> (FirstValue, SecondInput) {
    open spec fn pre(&self, state: FirstInput) -> bool {
        self.requires((state,))
    }

    open spec fn post(&self, state: FirstInput, result: (FirstValue, SecondInput)) -> bool {
        self.ensures((state,), result)
    }

    fn run(self, state: FirstInput) -> (result: (FirstValue, SecondInput)) {
        self(state)
    }
}

/// A function from an input state to a `(value, output)` pair, held as a computation
/// whose `pre` and `post` are the function's own precondition and postcondition.
///
/// Verified callers that build a computation from a closure wrap it here: the
/// contract of `from_fn` states `pre` and `post` of the result directly, where the
/// predicates of the impl for bare functions are not unfolded for a closure's type.
pub struct FromFn<Function> {
    function: Function,
}

impl<Function> FromFn<Function> {
    /// The function that a run calls.
    pub closed spec fn function(&self) -> Function {
        self.function
    }
}

/// Treats `function` as a computation.
pub fn from_fn<Input, Output, Value, Function>(function: Function) -> (r: FromFn<Function>) where
    Function: FnOnce(Input) -> (Value, Output),
    ensures
        r.function() == function,
        forall|s: Input| #[trigger] r.pre(s) <==> function.requires((s,)),
        forall|s: Input, res: (Value, Output)| #[trigger]
            r.post(s, res) <==> function.ensures((s,), res),
{
    FromFn { function }
}

impl<Input, Output, Value, Function> IndexedState<Input, Output, Value> for FromFn<
    Function,
> where Function: FnOnce(Input) -> (Value, Output) {
    open spec fn pre(&self, state: Input) -> bool {
        self.function().requires((state,))
    }

    open spec fn post(&self, state: Input, result: (Value, Output)) -> bool {
        self.function().ensures((state,), result)
    }

    fn run(self, state: Input) -> (result: (Value, Output)) {
        (self.function)(state)
    }
}

/// A computation whose value is transformed by a function after the inner
/// computation has run; built by `IndexedState::map`.
pub struct MapValue<First, Covariant, Phantom> {
    first: First,
    covariant: Covariant,
    phantom: PhantomData<Phantom>,
}

impl<First, Covariant, Phantom> MapValue<First, Covariant, Phantom> {
    /// The inner computation.
    pub closed spec fn first(&self) -> First {
        self.first
    }

    /// The function applied to the inner computation's value.
    pub closed spec fn covariant(&self) -> Covariant {
        self.covariant
    }
}

impl<FirstInput, SecondInput, SecondValue, First, Covariant, FirstValue> IndexedState<
    FirstInput,
    SecondInput,
    SecondValue,
> for MapValue<First, Covariant, FirstValue> where
    First: IndexedState<FirstInput, SecondInput, FirstValue>,
    Covariant: FnOnce(FirstValue) -> SecondValue,
 {
    open spec fn pre(&self, state: FirstInput) -> bool {
        &&& self.first().pre(state)
        &&& forall|a: FirstValue, o: SecondInput| #[trigger]
            self.first().post(state, (a, o)) ==> self.covariant().requires((a,))
    }

    open spec fn post(&self, state: FirstInput, result: (SecondValue, SecondInput)) -> bool {
        exists|a: FirstValue|
            #[trigger] self.first().post(state, (a, result.1)) && self.covariant().ensures(
                (a,),
                result.0,
            )
    }

    fn run(self, state: FirstInput) -> (result: (SecondValue, SecondInput)) {
        let ghost start = state;
        let MapValue { first, covariant, phantom } = self;
        let (a, o) = first.run(state);
        let b = covariant(a);
        let result = (b, o);
        assert(self.first().post(start, (a, result.1)) && self.covariant().ensures(
            (a,),
            result.0,
        ));
        result
    }
}

/// A computation whose output state is transformed by a function after the inner
/// computation has run; built by `IndexedState::map_state`.
pub struct MapState<First, Covariant, Phantom> {
    first: First,
    covariant: Covariant,
    phantom: PhantomData<Phantom>,
}

impl<First, Covariant, Phantom> MapState<First, Covariant, Phantom> {
    /// The inner computation.
    pub closed spec fn first(&self) -> First {
        self.first
    }

    /// The function applied to the inner computation's output state.
    pub closed spec fn covariant(&self) -> Covariant {
        self.covariant
    }
}

impl<FirstInput, SecondInput, SecondOutput, First, Function, FirstValue> IndexedState<
    FirstInput,
    SecondOutput,
    FirstValue,
> for MapState<First, Function, SecondInput> where
    First: IndexedState<FirstInput, SecondInput, FirstValue>,
    Function: FnOnce(SecondInput) -> SecondOutput,
 {
    open spec fn pre(&self, state: FirstInput) -> bool {
        &&& self.first().pre(state)
        &&& forall|a: FirstValue, o: SecondInput| #[trigger]
            self.first().post(state, (a, o)) ==> self.covariant().requires((o,))
    }

    open spec fn post(&self, state: FirstInput, result: (FirstValue, SecondOutput)) -> bool {
        exists|o: SecondInput|
            #[trigger] self.first().post(state, (result.0, o)) && self.covariant().ensures(
                (o,),
                result.1,
            )
    }

    fn run(self, state: FirstInput) -> (result: (FirstValue, SecondOutput)) {
        let ghost start = state;
        let MapState { first, covariant, phantom } = self;
        let (a, o) = first.run(state);
        let p = covariant(o);
        let ghost mid = o;
        let result = (a, p);
        assert(self.first().post(start, (result.0, mid)) && self.covariant().ensures(
            (mid,),
            result.1,
        ));
        result
    }
}

/// A computation that runs an inner computation, builds a second computation from
/// its value, and runs that from its output state; built by `IndexedState::and_then`.
pub struct AndThen<First, Kleisli, Phantom> {
    stateful: First,
    kleisli: Kleisli,
    phantom: PhantomData<Phantom>,
}

impl<First, Kleisli, Phantom> AndThen<First, Kleisli, Phantom> {
    /// The computation that runs first.
    pub closed spec fn stateful(&self) -> First {
        self.stateful
    }

    /// The function that builds the second computation from the first one's value.
    pub closed spec fn kleisli(&self) -> Kleisli {
        self.kleisli
    }
}

impl<
    FirstInput,
    SecondOutput,
    FirstValue,
    First,
    Kleisli,
    SecondInput,
    Second,
    SecondValue,
> IndexedState<FirstInput, SecondOutput, SecondValue> for AndThen<
    First,
    Kleisli,
    (FirstValue, SecondInput),
> where
    First: IndexedState<FirstInput, SecondInput, FirstValue>,
    Second: IndexedState<SecondInput, SecondOutput, SecondValue>,
    Kleisli: FnOnce(FirstValue) -> Second,
 {
    open spec fn pre(&self, state: FirstInput) -> bool {
        &&& self.stateful().pre(state)
        &&& forall|a: FirstValue, o: SecondInput| #[trigger]
            self.stateful().post(state, (a, o)) ==> {
                &&& self.kleisli().requires((a,))
                &&& forall|second: Second| #[trigger]
                    self.kleisli().ensures((a,), second) ==> second.pre(o)
            }
    }

    open spec fn post(&self, state: FirstInput, result: (SecondValue, SecondOutput)) -> bool {
        exists|a: FirstValue, o: SecondInput, second: Second|
            #[trigger] self.stateful().post(state, (a, o)) && #[trigger] self.kleisli().ensures(
                (a,),
                second,
            ) && second.post(o, result)
    }

    fn run(self, state: FirstInput) -> (result: (SecondValue, SecondOutput)) {
        let ghost start = state;
        let AndThen { stateful, kleisli, phantom } = self;
        let (a, o) = stateful.run(state);
        let second = kleisli(a);
        let ghost mid = o;
        let ghost built = second;
        let result = second.run(o);
        assert(self.stateful().post(start, (a, mid)) && self.kleisli().ensures((a,), built)
            && built.post(mid, result));
        result
    }
}

/// A computation that converts its input state by a function before running the
/// inner computation; built by `IndexedState::contramap_state`.
pub struct ContramapState<First, Contravariant> {
    first: First,
    contravariant: Contravariant,
}

impl<First, Contravariant> ContramapState<First, Contravariant> {
    /// The inner computation.
    pub closed spec fn first(&self) -> First {
        self.first
    }

    /// The function that converts the input state.
    pub closed spec fn contravariant(&self) -> Contravariant {
        self.contravariant
    }
}

impl<Input, Output, Value, PreviousInput, Second, Contravariant> IndexedState<
    PreviousInput,
    Output,
    Value,
> for ContramapState<Second, Contravariant> where
    Second: IndexedState<Input, Output, Value>,
    Contravariant: FnOnce(PreviousInput) -> Input,
 {
    open spec fn pre(&self, state: PreviousInput) -> bool {
        &&& self.contravariant().requires((state,))
        &&& forall|i: Input| #[trigger]
            self.contravariant().ensures((state,), i) ==> self.first().pre(i)
    }

    open spec fn post(&self, state: PreviousInput, result: (Value, Output)) -> bool {
        exists|i: Input|
            #[trigger] self.contravariant().ensures((state,), i) && self.first().post(i, result)
    }

    fn run(self, state: PreviousInput) -> (result: (Value, Output)) {
        let ContramapState { first, contravariant } = self;
        let converted = contravariant(state);
        let ghost i = converted;
        let result = first.run(converted);
        assert(self.contravariant().ensures((state,), i) && self.first().post(i, result));
        result
    }
}

/// A computation that runs a first computation, whose value is a function, then a
/// second from its output state, and applies the function to the second's value;
/// built by `IndexedState::apply`.
pub struct Apply<First, Second, Phantom> {
    first: First,
    second: Second,
    phantom: PhantomData<Phantom>,
}

impl<First, Second, Phantom> Apply<First, Second, Phantom> {
    /// The computation that runs first and yields the function.
    pub closed spec fn first(&self) -> First {
        self.first
    }

    /// The computation that runs second and yields the argument.
    pub closed spec fn second(&self) -> Second {
        self.second
    }
}

impl<
    FirstInput,
    SecondInput,
    SecondOutput,
    FirstValue,
    Covariant,
    First,
    Second,
    SecondValue,
> IndexedState<FirstInput, SecondOutput, SecondValue> for Apply<
    First,
    Second,
    (SecondInput, FirstValue, Covariant),
> where
    First: IndexedState<FirstInput, SecondInput, Covariant>,
    Second: IndexedState<SecondInput, SecondOutput, FirstValue>,
    Covariant: FnOnce(FirstValue) -> SecondValue,
 {
    open spec fn pre(&self, state: FirstInput) -> bool {
        &&& self.first().pre(state)
        &&& forall|f: Covariant, o: SecondInput| #[trigger]
            self.first().post(state, (f, o)) ==> {
                &&& self.second().pre(o)
                &&& forall|a: FirstValue, p: SecondOutput| #[trigger]
                    self.second().post(o, (a, p)) ==> f.requires((a,))
            }
    }

    open spec fn post(&self, state: FirstInput, result: (SecondValue, SecondOutput)) -> bool {
        exists|f: Covariant, o: SecondInput, a: FirstValue|
            #[trigger] self.first().post(state, (f, o)) && #[trigger] self.second().post(
                o,
                (a, result.1),
            ) && f.ensures((a,), result.0)
    }

    fn run(self, state: FirstInput) -> (result: (SecondValue, SecondOutput)) {
        let ghost start = state;
        let Apply { first, second, phantom } = self;
        let (f, state) = first.run(state);
        let ghost function = f;
        let ghost mid = state;
        let (a, p) = second.run(state);
        let ghost argument = a;
        let b = f(a);
        let result = (b, p);
        assert(self.first().post(start, (function, mid)) && self.second().post(
            mid,
            (argument, result.1),
        ) && function.ensures((argument,), result.0));
        result
    }
}

} // verus!
