//! Consumer-side orchestration for a dynamic-tracing engine.
//!
//! The library models the host side of a tracing session: a handle that owns
//! one engine connection, a string-keyed option store, compilation of tracing
//! programs into statement lists, the periodic buffer-consumption protocol
//! driven by three configured rates, and an aggregation walker with nine
//! ordering policies.  The engine itself is modelled deterministically over
//! plain values, so every transition the library performs is stated in a
//! contract and proved.

pub mod errors;
pub mod opts;
pub mod aggregate;
pub mod engine;
pub mod visit;
pub mod session;
pub mod program;
pub mod consume;
