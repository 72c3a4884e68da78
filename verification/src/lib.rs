//! Synthesis of runtime multiversioning dispatchers.
//!
//! Given one portable reference function and a list of hardware-specific
//! specialisations, this library decides how the function is dispatched and
//! describes every item of the dispatcher: the generic fallback, the
//! variants, the cache cell, the resolver, the dispatch function and the
//! outer routing. What the items do when they run is modelled beside them,
//! so that the rules of selection are stated and proved, not only emitted.
//!
//! - [`arch`]: the registry of architectures.
//! - [`token`], [`specialisation`], [`grammar`]: the list of specialisations
//!   and its grammar.
//! - [`builder`]: the analysis of the reference function.
//! - [`features`], [`item`], [`synth`]: the dispatcher and its synthesis.
//! - [`runtime`], [`laws`]: the protocol at run time and what holds of it.

pub mod arch;
pub mod builder;
pub mod error;
pub mod features;
pub mod grammar;
pub mod item;
pub mod laws;
pub mod runtime;
pub mod specialisation;
pub mod synth;
pub mod text;
pub mod token;

pub use arch::Architecture;
pub use builder::FnBuilder;
pub use specialisation::Specialisation;
pub use synth::make_special;
