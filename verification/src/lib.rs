//! A minimal functional language: expressions are literals, names, calls and
//! lambdas; they are evaluated against a chain of immutable scopes.
//!
//! Two evaluation strategies are offered. [`direct_eval`] walks the tree
//! recursively. [`hmm_eval`] evaluates in small steps, one indivisible unit of
//! work per call, so that a host can bound, pause or interleave a running
//! program.
//!
//! Every executable function states what it computes over a mathematical
//! model of the data ([`model`], [`semantics`], [`machine`]); [`laws`] proves
//! that the two strategies agree. [`show`] gives values, expressions and
//! errors their text.

pub mod base;
pub mod direct_eval;
pub mod hmm_eval;
pub mod laws;
pub mod machine;
pub mod model;
pub mod semantics;
pub mod show;

pub use base::{EvalError, EvalResult, Expr, Items, Ns, Val};
