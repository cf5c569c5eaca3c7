//! Check whether an input sequence matches a specified grammar. This
//! semiring produces only a true or false result, without capturing
//! any information from the input.

use vstd::prelude::*;
use crate::engine::{AnyRegex, IntoWithInput, Pred, Semiring, spec_over};

verus! {

/// The minimal two-valued weight: additive identity is "no match",
/// multiplicative identity is "match", addition is logical or,
/// multiplication is logical and.
#[derive(Clone, Copy, Debug, PartialEq, Eq, Structural)]
pub struct Match(pub bool);

impl Semiring for Match {
    open spec fn zero_sp() -> Match {
        Match(false)
    }

    open spec fn one_sp() -> Match {
        Match(true)
    }

    open spec fn plus_sp(a: Match, b: Match) -> Match {
        Match(a.0 || b.0)
    }

    open spec fn times_sp(a: Match, b: Match) -> Match {
        Match(a.0 && b.0)
    }

    fn zero() -> (r: Match) {
        Match(false)
    }

    fn one() -> (r: Match) {
        Match(true)
    }

    fn plus(self, other: Match) -> (r: Match) {
        Match(self.0 || other.0)
    }

    fn times(self, other: Match) -> (r: Match) {
        Match(self.0 && other.0)
    }

    fn is_zero(&self) -> (r: bool) {
        !self.0
    }

    fn dup(&self) -> (r: Match) {
        Match(self.0)
    }

    proof fn plus_comm(a: Match, b: Match) {
    }

    proof fn plus_assoc(a: Match, b: Match, c: Match) {
    }

    proof fn plus_zero(a: Match) {
    }

    proof fn times_assoc(a: Match, b: Match, c: Match) {
    }

    proof fn times_one(a: Match) {
    }

    proof fn times_zero(a: Match) {
    }

    proof fn distrib(a: Match, b: Match, c: Match) {
    }
}

impl<T> IntoWithInput<T, Match> for Match {
    open spec fn into_sp(self, input: T) -> Match {
        self
    }

    fn into_with_input(self, input: &T) -> (r: Match) {
        self
    }
}

impl<T> IntoWithInput<T, Match> for bool {
    open spec fn into_sp(self, input: T) -> Match {
        Match(self)
    }

    fn into_with_input(self, input: &T) -> (r: Match) {
        Match(self)
    }
}

/// Drives the whole input sequence through the grammar (resetting it
/// afterwards) and reports whether the grammar matched the sequence;
/// `None` when the fuel bound does not cover the lazy instantiations
/// the run requires.
pub fn has_match<P: Pred<Match>>(
    re: &mut AnyRegex<Match, P>,
    defs: &Vec<AnyRegex<Match, P>>,
    over: &Vec<P::Sym>,
    fuel: u64,
) -> (r: Option<bool>)
    ensures
        match spec_over(defs@, old(re).re, over@, fuel as nat) {
            Some(p) => final(re).re == p.0 && r == Some(p.1.0),
            None => r is None,
        },
{
    match re.over(defs, over, fuel) {
        Some(m) => Some(m.0),
        None => None,
    }
}

} // verus!
