//! Indexed state computations: values that, given an input state, yield a value
//! together with an output state whose type may differ from the input's.
//!
//! Every computation carries two spec predicates: `pre(s)`, on which input states
//! it may be run, and `post(s, r)`, which results a run from `s` may return. The
//! combinators define both predicates from those of the computations and functions
//! they own, and the `laws` module proves the algebraic laws over them.

mod constructors;
mod indexed;
pub mod laws;

pub use constructors::{gets, gots, new, Gets, Gots, New};
pub use indexed::{
    from_fn, AndThen, Apply, ContramapState, FromFn, IndexedState, MapState, MapValue,
};
