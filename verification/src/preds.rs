//! Ready-made symbol predicates for common symbol types. A predicate
//! maps one input symbol to a weight in whichever semiring the
//! grammar is used with; callers may also supply their own types
//! implementing [`Pred`].

use vstd::prelude::*;
use crate::engine::{Pred, Semiring};

verus! {

/// Predicates over byte symbols.
pub enum BytePred {
    /// Weighs the multiplicative identity for every byte.
    Any,
    /// Weighs the multiplicative identity exactly for this byte.
    Is(u8),
    /// Weighs the multiplicative identity for bytes greater than this.
    Gt(u8),
    /// Weighs the multiplicative identity for even bytes.
    Even,
}

impl<M: Semiring> Pred<M> for BytePred {
    type Sym = u8;

    open spec fn eval_sp(&self, t: u8) -> M {
        match *self {
            BytePred::Any => M::one_sp(),
            BytePred::Is(b) => if t == b {
                M::one_sp()
            } else {
                M::zero_sp()
            },
            BytePred::Gt(b) => if t > b {
                M::one_sp()
            } else {
                M::zero_sp()
            },
            BytePred::Even => if t % 2 == 0 {
                M::one_sp()
            } else {
                M::zero_sp()
            },
        }
    }

    fn eval(&self, t: &u8) -> (r: M) {
        let hit = match *self {
            BytePred::Any => true,
            BytePred::Is(b) => *t == b,
            BytePred::Gt(b) => *t > b,
            BytePred::Even => *t % 2 == 0,
        };
        if hit {
            M::one()
        } else {
            M::zero()
        }
    }

    fn dup(&self) -> (r: BytePred) {
        match *self {
            BytePred::Any => BytePred::Any,
            BytePred::Is(b) => BytePred::Is(b),
            BytePred::Gt(b) => BytePred::Gt(b),
            BytePred::Even => BytePred::Even,
        }
    }
}

/// Predicates over character symbols.
pub enum CharPred {
    /// Weighs the multiplicative identity exactly for this character.
    Is(char),
}

impl<M: Semiring> Pred<M> for CharPred {
    type Sym = char;

    open spec fn eval_sp(&self, t: char) -> M {
        match *self {
            CharPred::Is(c) => if t == c {
                M::one_sp()
            } else {
                M::zero_sp()
            },
        }
    }

    fn eval(&self, t: &char) -> (r: M) {
        let hit = match *self {
            CharPred::Is(c) => *t == c,
        };
        if hit {
            M::one()
        } else {
            M::zero()
        }
    }

    fn dup(&self) -> (r: CharPred) {
        match *self {
            CharPred::Is(c) => CharPred::Is(c),
        }
    }
}

} // verus!
