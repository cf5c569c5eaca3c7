//! Weight types for use with the grammar combinators.

pub mod recognize;
