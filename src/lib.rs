//! Scoped context for cooperatively polled computations.
//!
//! A computation lends a value to every computation that it polls, however
//! deeply nested, without passing it as a parameter. `provide_ref` lends a
//! borrow that any number of reads see; `provide_value` lends an owned value
//! that the first `take_value` moves out. Values are offered and asked for
//! under a `TypeKey`, the name of the type they stand for.
//!
//! The lent values form a chain that lives in the `ProviderWaker` of one poll:
//! each wrapper pushes its link before it polls its inner computation and takes
//! it back afterwards, so the chain is rebuilt on every poll and always equals
//! the nesting of the wrappers being polled. Reads walk it nearest first, so an
//! inner value shadows an outer one under the same key. A missing value is an
//! empty result, never an error.
pub mod demand;
pub mod laws;
pub mod provider;
pub mod waker;
pub mod well_known;

pub use demand::{get_value, request_ref_from_context, take_value, with_ref, Demand, TypeKey};
pub use provider::{
    Computation, Frame, Poll, ProvideRef, ProvideValue, ProviderFut, ProviderFutExt, Provision,
};
pub use waker::ProviderWaker;
