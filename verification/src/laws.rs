//! The algebraic laws of the combinators, stated over the
//! specification transition system and proved for every weight
//! semiring (or, where a law genuinely needs it, for semirings with
//! an idempotent addition, which the boolean recognizer has).
//!
//! Driving a grammar may report `None` when its fuel bound does not
//! cover the lazy instantiations a run requires; laws that compare
//! two different grammar shapes are therefore stated for the runs
//! that are defined.

use vstd::prelude::*;
use crate::engine::{AnyRegex, Pred, Semiring, spec_over, spec_run};
use crate::weights::recognize::Match;
use crate::grammars::{
    Empty,
    Node,
    node_and,
    node_many,
    node_not,
    node_or,
    node_seq,
    spec_empty,
    spec_reset,
    spec_shift,
};

verus! {

/// The match-nothing grammar yields the multiplicative identity on
/// the empty input and the additive identity on every other input:
/// it accepts exactly the empty input.
pub proof fn match_nothing_accepts_only_empty<M: Semiring, P: Pred<M>>(
    defs: Seq<AnyRegex<M, P>>,
    w: Seq<P::Sym>,
    fuel: nat,
)
    ensures
        spec_over(defs, Node::<M, P>::Empty(Empty), w, fuel) == Some(
            (
                Node::<M, P>::Empty(Empty),
                if w.len() == 0 {
                    M::one_sp()
                } else {
                    M::zero_sp()
                },
            ),
        ),
{
    if w.len() > 0 {
        lemma_run_match_nothing::<M, P>(defs, M::zero_sp(), w.subrange(1, w.len() as int), fuel);
    }
}

proof fn lemma_run_match_nothing<M: Semiring, P: Pred<M>>(
    defs: Seq<AnyRegex<M, P>>,
    acc: M,
    w: Seq<P::Sym>,
    fuel: nat,
)
    ensures
        spec_run(defs, Node::<M, P>::Empty(Empty), acc, w, fuel) == Some(
            (
                Node::<M, P>::Empty(Empty),
                if w.len() == 0 {
                    acc
                } else {
                    M::zero_sp()
                },
            ),
        ),
    decreases w.len(),
{
    if w.len() > 0 {
        lemma_run_match_nothing::<M, P>(defs, M::zero_sp(), w.subrange(1, w.len() as int), fuel);
    }
}

/// The single-symbol grammar yields the predicate's weight for the
/// symbol on inputs of exactly one symbol, and the additive identity
/// on every other input: it accepts exactly the one-symbol inputs
/// whose symbol the predicate accepts.
pub proof fn single_symbol_weight<M: Semiring, P: Pred<M>>(
    defs: Seq<AnyRegex<M, P>>,
    p: P,
    w: Seq<P::Sym>,
    fuel: nat,
)
    ensures
        spec_over(defs, Node::<M, P>::Symbol(p), w, fuel) == Some(
            (
                Node::<M, P>::Symbol(p),
                if w.len() == 1 {
                    p.eval_sp(w[0])
                } else {
                    M::zero_sp()
                },
            ),
        ),
{
    if w.len() > 0 {
        M::times_one(p.eval_sp(w[0]));
        lemma_run_single_symbol(defs, p, p.eval_sp(w[0]), w.subrange(1, w.len() as int), fuel);
    }
}

proof fn lemma_run_single_symbol<M: Semiring, P: Pred<M>>(
    defs: Seq<AnyRegex<M, P>>,
    p: P,
    acc: M,
    w: Seq<P::Sym>,
    fuel: nat,
)
    ensures
        spec_run(defs, Node::<M, P>::Symbol(p), acc, w, fuel) == Some(
            (
                Node::<M, P>::Symbol(p),
                if w.len() == 0 {
                    acc
                } else {
                    M::zero_sp()
                },
            ),
        ),
    decreases w.len(),
{
    if w.len() > 0 {
        M::times_zero(p.eval_sp(w[0]));
        lemma_run_single_symbol(
            defs,
            p,
            M::times_sp(M::zero_sp(), p.eval_sp(w[0])),
            w.subrange(1, w.len() as int),
            fuel,
        );
    }
}

/// Repetition always accepts the empty input, for any child grammar
/// and in any state: the empty input yields the multiplicative
/// identity.
pub proof fn many_accepts_empty_input<M: Semiring, P: Pred<M>>(
    defs: Seq<AnyRegex<M, P>>,
    n: Node<M, P>,
    marked: M,
    fuel: nat,
)
    ensures
        spec_over(defs, node_many(n, marked), Seq::<P::Sym>::empty(), fuel) == Some(
            (node_many(n, marked), M::one_sp()),
        ),
{
}

/// The hard collapse the complement combinator applies to a shifted
/// weight: the multiplicative identity exactly when the weight is
/// the additive identity.
pub open spec fn collapse<M: Semiring>(m: M) -> M {
    if m == M::zero_sp() {
        M::one_sp()
    } else {
        M::zero_sp()
    }
}

proof fn lemma_run_not<M: Semiring, P: Pred<M>>(
    defs: Seq<AnyRegex<M, P>>,
    n: Node<M, P>,
    acc: M,
    w: Seq<P::Sym>,
    fuel: nat,
)
    ensures
        spec_run(defs, node_not(n), collapse(acc), w, fuel) == (match spec_run(
            defs,
            n,
            acc,
            w,
            fuel,
        ) {
            Some(p) => Some((node_not(p.0), collapse(p.1))),
            None => None,
        }),
    decreases w.len(),
{
    if w.len() > 0 {
        match spec_shift(defs, n, w[0], M::zero_sp(), fuel) {
            Some(p) => {
                lemma_run_not(defs, p.0, p.1, w.subrange(1, w.len() as int), fuel);
            },
            None => {},
        }
    }
}

/// Complement inverts a language: driving any input through the
/// complement yields the collapse of the weight the child yields,
/// which for the boolean recognizer is exactly "accepts when the
/// child does not". Both sides are defined on the same inputs.
pub proof fn complement_inverts<M: Semiring, P: Pred<M>>(
    defs: Seq<AnyRegex<M, P>>,
    n: Node<M, P>,
    w: Seq<P::Sym>,
    fuel: nat,
)
    ensures
        spec_over(defs, node_not(n), w, fuel) == (match spec_over(defs, n, w, fuel) {
            Some(p) => Some((node_not(p.0), collapse(p.1))),
            None => None,
        }),
{
    if w.len() > 0 {
        match spec_shift(defs, n, w[0], M::one_sp(), fuel) {
            Some(p) => {
                lemma_run_not(defs, p.0, p.1, w.subrange(1, w.len() as int), fuel);
            },
            None => {},
        }
    }
}

/// For the boolean recognizer: complement accepts an input exactly
/// when the child does not, on every input where either is defined.
pub proof fn complement_accepts_iff_child_rejects<P: Pred<Match>>(
    defs: Seq<AnyRegex<Match, P>>,
    n: Node<Match, P>,
    w: Seq<P::Sym>,
    fuel: nat,
)
    ensures
        spec_over(defs, node_not(n), w, fuel) == (match spec_over(defs, n, w, fuel) {
            Some(p) => Some((node_not(p.0), Match(!p.1.0))),
            None => None,
        }),
{
    complement_inverts(defs, n, w, fuel);
}

proof fn lemma_run_or<M: Semiring, P: Pred<M>>(
    defs: Seq<AnyRegex<M, P>>,
    l: Node<M, P>,
    r: Node<M, P>,
    accl: M,
    accr: M,
    w: Seq<P::Sym>,
    fuel: nat,
)
    ensures
        spec_run(defs, node_or(l, r), M::plus_sp(accl, accr), w, fuel) == (match (
            spec_run(defs, l, accl, w, fuel),
            spec_run(defs, r, accr, w, fuel),
        ) {
            (Some(pl), Some(pr)) => Some((node_or(pl.0, pr.0), M::plus_sp(pl.1, pr.1))),
            _ => None,
        }),
    decreases w.len(),
{
    if w.len() > 0 {
        match (
            spec_shift(defs, l, w[0], M::zero_sp(), fuel),
            spec_shift(defs, r, w[0], M::zero_sp(), fuel),
        ) {
            (Some(pl), Some(pr)) => {
                lemma_run_or(defs, pl.0, pr.0, pl.1, pr.1, w.subrange(1, w.len() as int), fuel);
            },
            _ => {},
        }
    }
}

/// On any non-empty input, alternation yields exactly the sum of the
/// weights its children yield, and is defined exactly when both
/// children's runs are. (On the empty input the driver answers from
/// can-match-empty alone, so the sum form holds there only for
/// weights where the identities absorb, as in the boolean
/// recognizer; see `alternation_accepts_iff_either_match`.)
pub proof fn alternation_adds_weights<M: Semiring, P: Pred<M>>(
    defs: Seq<AnyRegex<M, P>>,
    l: Node<M, P>,
    r: Node<M, P>,
    w: Seq<P::Sym>,
    fuel: nat,
)
    requires
        w.len() > 0,
    ensures
        spec_over(defs, node_or(l, r), w, fuel) == (match (
            spec_over(defs, l, w, fuel),
            spec_over(defs, r, w, fuel),
        ) {
            (Some(pl), Some(pr)) => Some((node_or(pl.0, pr.0), M::plus_sp(pl.1, pr.1))),
            _ => None,
        }),
{
    match (
        spec_shift(defs, l, w[0], M::one_sp(), fuel),
        spec_shift(defs, r, w[0], M::one_sp(), fuel),
    ) {
        (Some(pl), Some(pr)) => {
            lemma_run_or(defs, pl.0, pr.0, pl.1, pr.1, w.subrange(1, w.len() as int), fuel);
        },
        _ => {},
    }
}

/// For the boolean recognizer: alternation accepts an input exactly
/// when either child accepts it, on every input where both
/// children's runs are defined.
pub proof fn alternation_accepts_iff_either_match<P: Pred<Match>>(
    defs: Seq<AnyRegex<Match, P>>,
    l: Node<Match, P>,
    r: Node<Match, P>,
    w: Seq<P::Sym>,
    fuel: nat,
)
    requires
        spec_over(defs, l, w, fuel) is Some,
        spec_over(defs, r, w, fuel) is Some,
    ensures
        spec_over(defs, node_or(l, r), w, fuel) matches Some(p) && p.1.0 == (
        spec_over(defs, l, w, fuel)->Some_0.1.0 || spec_over(defs, r, w, fuel)->Some_0.1.0),
{
    if w.len() > 0 {
        alternation_adds_weights(defs, l, r, w, fuel);
    }
}

proof fn lemma_run_and<M: Semiring, P: Pred<M>>(
    defs: Seq<AnyRegex<M, P>>,
    l: Node<M, P>,
    r: Node<M, P>,
    accl: M,
    accr: M,
    w: Seq<P::Sym>,
    fuel: nat,
)
    ensures
        spec_run(defs, node_and(l, r), M::times_sp(accl, accr), w, fuel) == (match (
            spec_run(defs, l, accl, w, fuel),
            spec_run(defs, r, accr, w, fuel),
        ) {
            (Some(pl), Some(pr)) => Some((node_and(pl.0, pr.0), M::times_sp(pl.1, pr.1))),
            _ => None,
        }),
    decreases w.len(),
{
    if w.len() > 0 {
        match (
            spec_shift(defs, l, w[0], M::zero_sp(), fuel),
            spec_shift(defs, r, w[0], M::zero_sp(), fuel),
        ) {
            (Some(pl), Some(pr)) => {
                lemma_run_and(defs, pl.0, pr.0, pl.1, pr.1, w.subrange(1, w.len() as int), fuel);
            },
            _ => {},
        }
    }
}

/// On any non-empty input, conjunction yields exactly the product of
/// the weights its children yield, and is defined exactly when both
/// children's runs are. (The same empty-input remark as for
/// alternation applies; see `conjunction_accepts_iff_both_match`.)
pub proof fn conjunction_multiplies_weights<M: Semiring, P: Pred<M>>(
    defs: Seq<AnyRegex<M, P>>,
    l: Node<M, P>,
    r: Node<M, P>,
    w: Seq<P::Sym>,
    fuel: nat,
)
    requires
        w.len() > 0,
    ensures
        spec_over(defs, node_and(l, r), w, fuel) == (match (
            spec_over(defs, l, w, fuel),
            spec_over(defs, r, w, fuel),
        ) {
            (Some(pl), Some(pr)) => Some((node_and(pl.0, pr.0), M::times_sp(pl.1, pr.1))),
            _ => None,
        }),
{
    match (
        spec_shift(defs, l, w[0], M::one_sp(), fuel),
        spec_shift(defs, r, w[0], M::one_sp(), fuel),
    ) {
        (Some(pl), Some(pr)) => {
            lemma_run_and(defs, pl.0, pr.0, pl.1, pr.1, w.subrange(1, w.len() as int), fuel);
        },
        _ => {},
    }
}

/// For the boolean recognizer: conjunction accepts an input exactly
/// when both children accept it, on every input where both
/// children's runs are defined.
pub proof fn conjunction_accepts_iff_both_match<P: Pred<Match>>(
    defs: Seq<AnyRegex<Match, P>>,
    l: Node<Match, P>,
    r: Node<Match, P>,
    w: Seq<P::Sym>,
    fuel: nat,
)
    requires
        spec_over(defs, l, w, fuel) is Some,
        spec_over(defs, r, w, fuel) is Some,
    ensures
        spec_over(defs, node_and(l, r), w, fuel) matches Some(p) && p.1.0 == (
        spec_over(defs, l, w, fuel)->Some_0.1.0 && spec_over(defs, r, w, fuel)->Some_0.1.0),
{
    if w.len() > 0 {
        conjunction_multiplies_weights(defs, l, r, w, fuel);
    }
}

proof fn lemma_run_seq_empty_left<M: Semiring, P: Pred<M>>(
    defs: Seq<AnyRegex<M, P>>,
    n: Node<M, P>,
    acc: M,
    w: Seq<P::Sym>,
    fuel: nat,
)
    requires
        spec_run(defs, node_seq(Node::<M, P>::Empty(Empty), n, M::zero_sp()), acc, w, fuel)
            is Some,
    ensures
        spec_run(defs, node_seq(Node::<M, P>::Empty(Empty), n, M::zero_sp()), acc, w, fuel) == (
        match spec_run(defs, n, acc, w, fuel) {
            Some(p) => Some((node_seq(Node::<M, P>::Empty(Empty), p.0, M::zero_sp()), p.1)),
            None => None,
        }),
    decreases w.len(),
{
    reveal_with_fuel(spec_shift, 2);
    reveal_with_fuel(spec_empty, 2);
    if w.len() > 0 {
        M::plus_zero(M::zero_sp());
        match spec_shift(defs, n, w[0], M::zero_sp(), fuel) {
            Some(p) => {
                M::plus_zero(p.1);
                lemma_run_seq_empty_left(defs, p.0, p.1, w.subrange(1, w.len() as int), fuel);
            },
            None => {},
        }
    }
}

/// Left identity of concatenation: a sequence whose left side is
/// match-nothing yields, on every input where it is defined, exactly
/// the weight its right side yields alone, and leaves the right
/// side's state exactly as a stand-alone run would.
#[verifier::rlimit(50)]
pub proof fn sequence_left_identity<M: Semiring, P: Pred<M>>(
    defs: Seq<AnyRegex<M, P>>,
    n: Node<M, P>,
    w: Seq<P::Sym>,
    fuel: nat,
)
    requires
        spec_over(defs, node_seq(Node::<M, P>::Empty(Empty), n, M::zero_sp()), w, fuel) is Some,
    ensures
        spec_over(defs, node_seq(Node::<M, P>::Empty(Empty), n, M::zero_sp()), w, fuel) == (match
        spec_over(defs, n, w, fuel) {
            Some(p) => Some((node_seq(Node::<M, P>::Empty(Empty), p.0, M::zero_sp()), p.1)),
            None => None,
        }),
{
    reveal_with_fuel(spec_shift, 2);
    reveal_with_fuel(spec_empty, 2);
    reveal_with_fuel(spec_reset, 2);
    if w.len() > 0 {
        M::plus_zero(M::one_sp());
        match spec_shift(defs, n, w[0], M::one_sp(), fuel) {
            Some(p) => {
                M::plus_zero(p.1);
                lemma_run_seq_empty_left(defs, p.0, p.1, w.subrange(1, w.len() as int), fuel);
            },
            None => {},
        }
    }
}

proof fn lemma_run_seq_empty_right<M: Semiring, P: Pred<M>>(
    defs: Seq<AnyRegex<M, P>>,
    n: Node<M, P>,
    pend: M,
    acc: M,
    w: Seq<P::Sym>,
    fuel: nat,
)
    requires
        spec_run(defs, node_seq(n, Node::<M, P>::Empty(Empty), pend), acc, w, fuel) is Some,
    ensures
        spec_run(defs, node_seq(n, Node::<M, P>::Empty(Empty), pend), acc, w, fuel) == (match
        spec_run(defs, n, acc, w, fuel) {
            Some(p) => Some(
                (
                    node_seq(
                        p.0,
                        Node::<M, P>::Empty(Empty),
                        if w.len() == 0 {
                            pend
                        } else {
                            p.1
                        },
                    ),
                    p.1,
                ),
            ),
            None => None,
        }),
    decreases w.len(),
{
    reveal_with_fuel(spec_shift, 2);
    reveal_with_fuel(spec_empty, 2);
    if w.len() > 0 {
        match spec_shift(defs, n, w[0], M::zero_sp(), fuel) {
            Some(p) => {
                M::plus_zero(p.1);
                lemma_run_seq_empty_right(defs, p.0, p.1, p.1, w.subrange(1, w.len() as int), fuel);
            },
            None => {},
        }
    }
}

/// Right identity of concatenation: a sequence whose right side is
/// match-nothing yields, on every input where it is defined, exactly
/// the weight its left side yields alone, and leaves the left side's
/// state exactly as a stand-alone run would.
#[verifier::rlimit(50)]
pub proof fn sequence_right_identity<M: Semiring, P: Pred<M>>(
    defs: Seq<AnyRegex<M, P>>,
    n: Node<M, P>,
    w: Seq<P::Sym>,
    fuel: nat,
)
    requires
        spec_over(defs, node_seq(n, Node::<M, P>::Empty(Empty), M::zero_sp()), w, fuel) is Some,
    ensures
        spec_over(defs, node_seq(n, Node::<M, P>::Empty(Empty), M::zero_sp()), w, fuel) == (match
        spec_over(defs, n, w, fuel) {
            Some(p) => Some((node_seq(p.0, Node::<M, P>::Empty(Empty), M::zero_sp()), p.1)),
            None => None,
        }),
{
    reveal_with_fuel(spec_shift, 2);
    reveal_with_fuel(spec_empty, 2);
    reveal_with_fuel(spec_reset, 2);
    if w.len() > 0 {
        match spec_shift(defs, n, w[0], M::one_sp(), fuel) {
            Some(p) => {
                M::plus_zero(p.1);
                lemma_run_seq_empty_right(defs, p.0, p.1, p.1, w.subrange(1, w.len() as int), fuel);
            },
            None => {},
        }
    }
}

proof fn lemma_run_many_match_nothing<M: Semiring, P: Pred<M>>(
    defs: Seq<AnyRegex<M, P>>,
    mk: M,
    acc: M,
    w: Seq<P::Sym>,
    fuel: nat,
)
    ensures
        spec_run(defs, node_many(Node::<M, P>::Empty(Empty), mk), acc, w, fuel) == Some(
            (
                node_many(
                    Node::<M, P>::Empty(Empty),
                    if w.len() == 0 {
                        mk
                    } else {
                        M::zero_sp()
                    },
                ),
                if w.len() == 0 {
                    acc
                } else {
                    M::zero_sp()
                },
            ),
        ),
    decreases w.len(),
{
    reveal_with_fuel(spec_shift, 2);
    reveal_with_fuel(spec_reset, 2);
    if w.len() > 0 {
        lemma_run_many_match_nothing(
            defs,
            M::zero_sp(),
            M::zero_sp(),
            w.subrange(1, w.len() as int),
            fuel,
        );
    }
}

/// Repetition of match-nothing behaves exactly like match-nothing:
/// it yields the multiplicative identity on the empty input and the
/// additive identity on every other input.
pub proof fn many_match_nothing_accepts_only_empty<M: Semiring, P: Pred<M>>(
    defs: Seq<AnyRegex<M, P>>,
    w: Seq<P::Sym>,
    fuel: nat,
)
    ensures
        spec_over(defs, node_many(Node::<M, P>::Empty(Empty), M::zero_sp()), w, fuel) == Some(
            (
                node_many(Node::<M, P>::Empty(Empty), M::zero_sp()),
                if w.len() == 0 {
                    M::one_sp()
                } else {
                    M::zero_sp()
                },
            ),
        ),
{
    reveal_with_fuel(spec_shift, 2);
    reveal_with_fuel(spec_reset, 2);
    if w.len() > 0 {
        lemma_run_many_match_nothing(
            defs,
            M::zero_sp(),
            M::zero_sp(),
            w.subrange(1, w.len() as int),
            fuel,
        );
    }
}

proof fn lemma_run_many_many<M: Semiring, P: Pred<M>>(
    defs: Seq<AnyRegex<M, P>>,
    n: Node<M, P>,
    mk: M,
    acc: M,
    w: Seq<P::Sym>,
    fuel: nat,
)
    requires
        forall|a: M| #[trigger] M::plus_sp(a, a) == a,
    ensures
        spec_run(defs, node_many(node_many(n, mk), mk), acc, w, fuel) == (match spec_run(
            defs,
            node_many(n, mk),
            acc,
            w,
            fuel,
        ) {
            Some(p) => Some(
                (
                    node_many(
                        p.0,
                        if w.len() == 0 {
                            mk
                        } else {
                            p.1
                        },
                    ),
                    p.1,
                ),
            ),
            None => None,
        }),
    decreases w.len(),
{
    reveal_with_fuel(spec_shift, 3);
    if w.len() > 0 {
        M::plus_assoc(M::plus_sp(M::zero_sp(), mk), mk, M::zero_sp());
        M::plus_assoc(M::zero_sp(), mk, mk);
        M::plus_zero(M::plus_sp(M::zero_sp(), mk));
        M::plus_zero(mk);
        M::plus_zero(M::plus_sp(mk, mk));
        assert(M::plus_sp(M::plus_sp(M::zero_sp(), mk), mk) == M::plus_sp(M::zero_sp(), mk));
        match spec_shift(defs, n, w[0], M::plus_sp(M::zero_sp(), mk), fuel) {
            Some(p) => {
                lemma_run_many_many(defs, p.0, p.1, p.1, w.subrange(1, w.len() as int), fuel);
            },
            None => {},
        }
    }
}

/// Repetition is idempotent for weights whose addition is idempotent
/// (as the boolean recognizer's is): repeating a repetition behaves
/// exactly like the single repetition, yielding the same weight on
/// every input, with both runs defined on the same inputs.
pub proof fn many_many_collapses<M: Semiring, P: Pred<M>>(
    defs: Seq<AnyRegex<M, P>>,
    n: Node<M, P>,
    w: Seq<P::Sym>,
    fuel: nat,
)
    requires
        forall|a: M| #[trigger] M::plus_sp(a, a) == a,
    ensures
        spec_over(defs, node_many(node_many(n, M::zero_sp()), M::zero_sp()), w, fuel) == (match
        spec_over(defs, node_many(n, M::zero_sp()), w, fuel) {
            Some(p) => Some((node_many(p.0, M::zero_sp()), p.1)),
            None => None,
        }),
{
    reveal_with_fuel(spec_shift, 3);
    if w.len() > 0 {
        M::plus_zero(M::one_sp());
        M::plus_zero(M::plus_sp(M::one_sp(), M::zero_sp()));
        match spec_shift(defs, n, w[0], M::plus_sp(M::one_sp(), M::zero_sp()), fuel) {
            Some(p) => {
                lemma_run_many_many(defs, p.0, p.1, p.1, w.subrange(1, w.len() as int), fuel);
            },
            None => {},
        }
    }
}

/// Addition in the boolean recognizer's semiring is idempotent, so
/// `many_many_collapses` applies to it.
pub proof fn match_plus_idempotent()
    ensures
        forall|a: Match|
            #[trigger] Match::plus_sp(a, a) == a,
{
}

/// For the boolean recognizer: repeating a repetition behaves
/// exactly like the single repetition.
pub proof fn many_many_collapses_match<P: Pred<Match>>(
    defs: Seq<AnyRegex<Match, P>>,
    n: Node<Match, P>,
    w: Seq<P::Sym>,
    fuel: nat,
)
    ensures
        spec_over(
            defs,
            node_many(
                node_many(n, Match(false)),
                Match(false),
            ),
            w,
            fuel,
        ) == (match spec_over(
            defs,
            node_many(n, Match(false)),
            w,
            fuel,
        ) {
            Some(p) => Some((node_many(p.0, Match(false)), p.1)),
            None => None,
        }),
{
    match_plus_idempotent();
    many_many_collapses(defs, n, w, fuel);
}

proof fn lemma_shift_preserves_shape<M: Semiring, P: Pred<M>>(
    defs: Seq<AnyRegex<M, P>>,
    n: Node<M, P>,
    c: P::Sym,
    m: M,
    fuel: nat,
)
    ensures
        match spec_shift(defs, n, c, m, fuel) {
            Some(p) => spec_reset(p.0) == spec_reset(n),
            None => true,
        },
    decreases n,
{
    reveal_with_fuel(spec_reset, 2);
    match n {
        Node::Empty(_) => {},
        Node::Symbol(_) => {},
        Node::Not(b) => {
            lemma_shift_preserves_shape(defs, b.0.re, c, m, fuel);
        },
        Node::Or(b) => {
            lemma_shift_preserves_shape(defs, b.left.re, c, m, fuel);
            lemma_shift_preserves_shape(defs, b.right.re, c, m, fuel);
        },
        Node::And(b) => {
            lemma_shift_preserves_shape(defs, b.left.re, c, m, fuel);
            lemma_shift_preserves_shape(defs, b.right.re, c, m, fuel);
        },
        Node::Sequence(b) => {
            match spec_empty(defs, b.left.re, fuel) {
                Some(le) => {
                    lemma_shift_preserves_shape(defs, b.left.re, c, m, fuel);
                    lemma_shift_preserves_shape(
                        defs,
                        b.right.re,
                        c,
                        M::plus_sp(
                            if le {
                                m
                            } else {
                                M::zero_sp()
                            },
                            b.from_left,
                        ),
                        fuel,
                    );
                },
                None => {},
            }
        },
        Node::Many(b) => {
            lemma_shift_preserves_shape(defs, b.re.re, c, M::plus_sp(m, b.marked), fuel);
        },
        Node::Thunk(_) => {},
    }
}

proof fn lemma_run_preserves_shape<M: Semiring, P: Pred<M>>(
    defs: Seq<AnyRegex<M, P>>,
    n: Node<M, P>,
    acc: M,
    w: Seq<P::Sym>,
    fuel: nat,
)
    ensures
        match spec_run(defs, n, acc, w, fuel) {
            Some(q) => spec_reset(q.0) == spec_reset(n),
            None => true,
        },
    decreases w.len(),
{
    if w.len() > 0 {
        match spec_shift(defs, n, w[0], M::zero_sp(), fuel) {
            Some(p) => {
                lemma_shift_preserves_shape(defs, n, w[0], M::zero_sp(), fuel);
                lemma_run_preserves_shape(defs, p.0, p.1, w.subrange(1, w.len() as int), fuel);
            },
            None => {},
        }
    }
}

/// Driving an input sequence through a grammar leaves it in its
/// reset state (the grammar is reset after the last symbol), or
/// untouched when the input was empty.
pub proof fn over_leaves_fresh_state<M: Semiring, P: Pred<M>>(
    defs: Seq<AnyRegex<M, P>>,
    n: Node<M, P>,
    w: Seq<P::Sym>,
    fuel: nat,
)
    ensures
        match spec_over(defs, n, w, fuel) {
            Some(p) => p.0 == if w.len() == 0 {
                n
            } else {
                spec_reset(n)
            },
            None => true,
        },
{
    if w.len() > 0 {
        match spec_shift(defs, n, w[0], M::one_sp(), fuel) {
            Some(p) => {
                lemma_shift_preserves_shape(defs, n, w[0], M::one_sp(), fuel);
                lemma_run_preserves_shape(defs, p.0, p.1, w.subrange(1, w.len() as int), fuel);
            },
            None => {},
        }
    }
}

/// Reset reusability: matching a sequence and then resetting leaves
/// a freshly constructed grammar exactly as it began, so a following
/// match of any second sequence gives the same result as matching it
/// on a fresh, identical grammar.
pub proof fn reset_reusability<M: Semiring, P: Pred<M>>(
    defs: Seq<AnyRegex<M, P>>,
    n: Node<M, P>,
    a: Seq<P::Sym>,
    b: Seq<P::Sym>,
    fuel: nat,
)
    requires
        spec_reset(n) == n,
    ensures
        match spec_over(defs, n, a, fuel) {
            Some(p) => spec_over(defs, spec_reset(p.0), b, fuel) == spec_over(defs, n, b, fuel),
            None => true,
        },
{
    over_leaves_fresh_state(defs, n, a, fuel);
}


/// Whether a grammar contains no lazy self-reference anywhere.
pub open spec fn delay_free<M, P>(n: Node<M, P>) -> bool
    decreases n,
{
    match n {
        Node::Empty(_) => true,
        Node::Symbol(_) => true,
        Node::Not(b) => delay_free(b.0.re),
        Node::Or(b) => delay_free(b.left.re) && delay_free(b.right.re),
        Node::And(b) => delay_free(b.left.re) && delay_free(b.right.re),
        Node::Sequence(b) => delay_free(b.left.re) && delay_free(b.right.re),
        Node::Many(b) => delay_free(b.re.re),
        Node::Thunk(_) => false,
    }
}

proof fn lemma_empty_total<M: Semiring, P: Pred<M>>(
    defs: Seq<AnyRegex<M, P>>,
    n: Node<M, P>,
    fuel: nat,
)
    requires
        delay_free(n),
    ensures
        spec_empty(defs, n, fuel) is Some,
    decreases n,
{
    match n {
        Node::Empty(_) => {},
        Node::Symbol(_) => {},
        Node::Not(b) => {
            lemma_empty_total(defs, b.0.re, fuel);
        },
        Node::Or(b) => {
            lemma_empty_total(defs, b.left.re, fuel);
            lemma_empty_total(defs, b.right.re, fuel);
        },
        Node::And(b) => {
            lemma_empty_total(defs, b.left.re, fuel);
            lemma_empty_total(defs, b.right.re, fuel);
        },
        Node::Sequence(b) => {
            lemma_empty_total(defs, b.left.re, fuel);
            lemma_empty_total(defs, b.right.re, fuel);
        },
        Node::Many(_) => {},
        Node::Thunk(_) => {},
    }
}

proof fn lemma_shift_total<M: Semiring, P: Pred<M>>(
    defs: Seq<AnyRegex<M, P>>,
    n: Node<M, P>,
    c: P::Sym,
    m: M,
    fuel: nat,
)
    requires
        delay_free(n),
    ensures
        spec_shift(defs, n, c, m, fuel) matches Some(p) && delay_free(p.0),
    decreases n,
{
    match n {
        Node::Empty(_) => {},
        Node::Symbol(_) => {},
        Node::Not(b) => {
            lemma_shift_total(defs, b.0.re, c, m, fuel);
        },
        Node::Or(b) => {
            lemma_shift_total(defs, b.left.re, c, m, fuel);
            lemma_shift_total(defs, b.right.re, c, m, fuel);
        },
        Node::And(b) => {
            lemma_shift_total(defs, b.left.re, c, m, fuel);
            lemma_shift_total(defs, b.right.re, c, m, fuel);
        },
        Node::Sequence(b) => {
            lemma_empty_total(defs, b.left.re, fuel);
            lemma_empty_total(defs, b.right.re, fuel);
            lemma_shift_total(defs, b.left.re, c, m, fuel);
            match spec_empty(defs, b.left.re, fuel) {
                Some(le) => {
                    lemma_shift_total(
                        defs,
                        b.right.re,
                        c,
                        M::plus_sp(
                            if le {
                                m
                            } else {
                                M::zero_sp()
                            },
                            b.from_left,
                        ),
                        fuel,
                    );
                },
                None => {},
            }
        },
        Node::Many(b) => {
            lemma_shift_total(defs, b.re.re, c, M::plus_sp(m, b.marked), fuel);
        },
        Node::Thunk(_) => {},
    }
}

proof fn lemma_run_total<M: Semiring, P: Pred<M>>(
    defs: Seq<AnyRegex<M, P>>,
    n: Node<M, P>,
    acc: M,
    w: Seq<P::Sym>,
    fuel: nat,
)
    requires
        delay_free(n),
    ensures
        spec_run(defs, n, acc, w, fuel) is Some,
    decreases w.len(),
{
    if w.len() > 0 {
        lemma_shift_total(defs, n, w[0], M::zero_sp(), fuel);
        match spec_shift(defs, n, w[0], M::zero_sp(), fuel) {
            Some(p) => {
                lemma_run_total(defs, p.0, p.1, w.subrange(1, w.len() as int), fuel);
            },
            None => {},
        }
    }
}

/// A grammar without lazy self-references never runs out of fuel:
/// driving any input through it is defined, whatever the fuel bound.
pub proof fn delay_free_runs_are_defined<M: Semiring, P: Pred<M>>(
    defs: Seq<AnyRegex<M, P>>,
    n: Node<M, P>,
    w: Seq<P::Sym>,
    fuel: nat,
)
    requires
        delay_free(n),
    ensures
        spec_over(defs, n, w, fuel) is Some,
{
    if w.len() == 0 {
        lemma_empty_total(defs, n, fuel);
    } else {
        lemma_shift_total(defs, n, w[0], M::one_sp(), fuel);
        match spec_shift(defs, n, w[0], M::one_sp(), fuel) {
            Some(p) => {
                lemma_run_total(defs, p.0, p.1, w.subrange(1, w.len() as int), fuel);
            },
            None => {},
        }
    }
}


/// Reset is idempotent: a reset grammar is exactly the fresh grammar
/// of its own static shape, so resetting it again changes nothing.
pub proof fn reset_idempotent<M: Semiring, P: Pred<M>>(n: Node<M, P>)
    ensures
        spec_reset(spec_reset(n)) == spec_reset(n),
    decreases n,
{
    reveal_with_fuel(spec_reset, 2);
    match n {
        Node::Empty(_) => {},
        Node::Symbol(_) => {},
        Node::Not(b) => {
            reset_idempotent(b.0.re);
        },
        Node::Or(b) => {
            reset_idempotent(b.left.re);
            reset_idempotent(b.right.re);
        },
        Node::And(b) => {
            reset_idempotent(b.left.re);
            reset_idempotent(b.right.re);
        },
        Node::Sequence(b) => {
            reset_idempotent(b.left.re);
            reset_idempotent(b.right.re);
        },
        Node::Many(b) => {
            reset_idempotent(b.re.re);
        },
        Node::Thunk(_) => {},
    }
}


proof fn lemma_run_two_symbols_drained<M: Semiring, P: Pred<M>>(
    defs: Seq<AnyRegex<M, P>>,
    p: P,
    q: P,
    acc: M,
    w: Seq<P::Sym>,
    fuel: nat,
)
    ensures
        spec_run(
            defs,
            node_seq(Node::<M, P>::Symbol(p), Node::<M, P>::Symbol(q), M::zero_sp()),
            acc,
            w,
            fuel,
        ) == Some(
            (
                node_seq(Node::<M, P>::Symbol(p), Node::<M, P>::Symbol(q), M::zero_sp()),
                if w.len() == 0 {
                    acc
                } else {
                    M::zero_sp()
                },
            ),
        ),
    decreases w.len(),
{
    reveal_with_fuel(spec_shift, 2);
    reveal_with_fuel(spec_empty, 2);
    if w.len() > 0 {
        M::times_zero(p.eval_sp(w[0]));
        M::times_zero(q.eval_sp(w[0]));
        M::plus_zero(M::zero_sp());
        M::plus_zero(M::times_sp(M::plus_sp(M::zero_sp(), M::zero_sp()), q.eval_sp(w[0])));
        lemma_run_two_symbols_drained(
            defs,
            p,
            q,
            M::plus_sp(
                M::zero_sp(),
                M::times_sp(M::plus_sp(M::zero_sp(), M::zero_sp()), q.eval_sp(w[0])),
            ),
            w.subrange(1, w.len() as int),
            fuel,
        );
    }
}

/// Concatenation of two single-symbol grammars accepts exactly the
/// two-symbol inputs, with the product of the two predicates'
/// weights: the one-slot buffer hands the weight that exited the
/// left side to the right side exactly one step later, so each
/// symbol advances each side exactly once.
pub proof fn sequence_of_two_symbols<M: Semiring, P: Pred<M>>(
    defs: Seq<AnyRegex<M, P>>,
    p: P,
    q: P,
    w: Seq<P::Sym>,
    fuel: nat,
)
    ensures
        spec_over(
            defs,
            node_seq(Node::<M, P>::Symbol(p), Node::<M, P>::Symbol(q), M::zero_sp()),
            w,
            fuel,
        ) == Some(
            (
                node_seq(Node::<M, P>::Symbol(p), Node::<M, P>::Symbol(q), M::zero_sp()),
                if w.len() == 2 {
                    M::times_sp(p.eval_sp(w[0]), q.eval_sp(w[1]))
                } else {
                    M::zero_sp()
                },
            ),
        ),
{
    reveal_with_fuel(spec_shift, 2);
    reveal_with_fuel(spec_empty, 2);
    reveal_with_fuel(spec_reset, 2);
    if w.len() > 0 {
        let pw0 = p.eval_sp(w[0]);
        M::times_one(pw0);
        M::times_zero(q.eval_sp(w[0]));
        M::plus_zero(M::zero_sp());
        M::plus_zero(M::times_sp(M::plus_sp(M::zero_sp(), M::zero_sp()), q.eval_sp(w[0])));
        let acc0 = M::plus_sp(
            M::zero_sp(),
            M::times_sp(M::plus_sp(M::zero_sp(), M::zero_sp()), q.eval_sp(w[0])),
        );
        let tail = w.subrange(1, w.len() as int);
        if w.len() == 1 {
            assert(spec_run(
                defs,
                node_seq(Node::<M, P>::Symbol(p), Node::<M, P>::Symbol(q), M::times_sp(M::one_sp(), pw0)),
                acc0,
                tail,
                fuel,
            ) is Some);
        } else {
            let qw1 = q.eval_sp(tail[0]);
            M::times_zero(pw0);
            M::times_zero(p.eval_sp(tail[0]));
            M::plus_zero(M::times_sp(M::one_sp(), pw0));
            M::plus_zero(M::times_sp(pw0, qw1));
            let acc1 = M::plus_sp(
                M::zero_sp(),
                M::times_sp(M::plus_sp(M::zero_sp(), M::times_sp(M::one_sp(), pw0)), qw1),
            );
            assert(acc1 == M::times_sp(pw0, qw1));
            lemma_run_two_symbols_drained(
                defs,
                p,
                q,
                acc1,
                tail.subrange(1, tail.len() as int),
                fuel,
            );
            assert(tail[0] == w[1]);
        }
    }
}


/// Whether every symbol of the input is accepted by the predicate,
/// in the boolean recognizer's terms.
pub open spec fn all_symbols_match<P: Pred<Match>>(
    p: P,
    w: Seq<P::Sym>,
) -> bool {
    forall|i: int| 0 <= i < w.len() ==> (#[trigger] p.eval_sp(w[i])).0
}

proof fn lemma_run_many_symbol<P: Pred<Match>>(
    defs: Seq<AnyRegex<Match, P>>,
    p: P,
    b: bool,
    acc: Match,
    w: Seq<P::Sym>,
    fuel: nat,
)
    ensures
        spec_run(
            defs,
            node_many(Node::Symbol(p), Match(b)),
            acc,
            w,
            fuel,
        ) == Some(
            (
                node_many(
                    Node::Symbol(p),
                    Match(
                        if w.len() == 0 {
                            b
                        } else {
                            b && all_symbols_match(p, w)
                        },
                    ),
                ),
                if w.len() == 0 {
                    acc
                } else {
                    Match(b && all_symbols_match(p, w))
                },
            ),
        ),
    decreases w.len(),
{
    reveal_with_fuel(spec_shift, 2);
    if w.len() > 0 {
        let tail = w.subrange(1, w.len() as int);
        let b2 = b && p.eval_sp(w[0]).0;
        lemma_run_many_symbol(defs, p, b2, Match(b2), tail, fuel);
        assert(forall|i: int| 0 <= i < tail.len() ==> tail[i] == w[i + 1]);
        assert((b && all_symbols_match(p, w)) == (b2 && all_symbols_match(p, tail))) by {
            if b2 && all_symbols_match(p, tail) {
                assert(forall|i: int| 0 <= i < w.len() ==> (#[trigger] p.eval_sp(w[i])).0) by {
                    assert(forall|i: int|
                        1 <= i < w.len() ==> p.eval_sp(w[i]) == p.eval_sp(tail[i - 1]));
                }
            }
        }
    }
}

/// For the boolean recognizer: repetition of a single-symbol grammar
/// accepts exactly the inputs all of whose symbols the predicate
/// accepts (including the empty input).
pub proof fn repetition_of_symbol_matches_all<P: Pred<Match>>(
    defs: Seq<AnyRegex<Match, P>>,
    p: P,
    w: Seq<P::Sym>,
    fuel: nat,
)
    ensures
        spec_over(
            defs,
            node_many(Node::Symbol(p), Match(false)),
            w,
            fuel,
        ) == Some(
            (
                node_many(Node::Symbol(p), Match(false)),
                Match(all_symbols_match(p, w)),
            ),
        ),
{
    reveal_with_fuel(spec_shift, 2);
    reveal_with_fuel(spec_reset, 2);
    if w.len() > 0 {
        let tail = w.subrange(1, w.len() as int);
        let b1 = p.eval_sp(w[0]).0;
        lemma_run_many_symbol(defs, p, b1, Match(b1), tail, fuel);
        assert(forall|i: int| 0 <= i < tail.len() ==> tail[i] == w[i + 1]);
        assert(all_symbols_match(p, w) == (b1 && all_symbols_match(p, tail))) by {
            if b1 && all_symbols_match(p, tail) {
                assert(forall|i: int| 0 <= i < w.len() ==> (#[trigger] p.eval_sp(w[i])).0) by {
                    assert(forall|i: int|
                        1 <= i < w.len() ==> p.eval_sp(w[i]) == p.eval_sp(tail[i - 1]));
                }
            }
        }
    }
}

} // verus!
