//! An online, incremental matcher for formal languages, built from
//! composable grammar combinators and generalized over an algebraic
//! weight (a semiring) instead of a plain boolean accept/reject.
//!
//! A grammar is composed once from the combinators in [`grammars`]
//! (match nothing, match one symbol by a predicate, alternation,
//! conjunction, complement, concatenation, repetition, and lazy
//! self-reference), and then driven over an input sequence one symbol
//! at a time; after the last symbol it yields a weight describing how
//! the grammar matched the whole sequence.

pub mod engine;
pub mod grammars;
pub mod laws;
pub mod preds;
pub mod weights;

pub use engine::AnyRegex;
pub use grammars::{empty, is, many, delay};
pub use weights::recognize::{has_match, Match};
