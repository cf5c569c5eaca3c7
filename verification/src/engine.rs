//! The shared capability contracts: the semiring of weights, symbol
//! predicates, the uniform grammar operation set, and the `AnyRegex`
//! wrapper that drives a grammar over an input sequence.

use vstd::prelude::*;
use crate::grammars::{Empty, Node};
use crate::grammars::{spec_active, spec_empty, spec_reset, spec_shift};
use crate::grammars::{delay, many};

verus! {

/// The algebraic capability a weight type must supply: an additive
/// identity, a multiplicative identity, addition and multiplication,
/// forming a semiring. The laws are demanded as proof obligations, so
/// every admitted weight type really is a semiring.
pub trait Semiring: Sized {
    /// The additive identity, as a specification-level value.
    spec fn zero_sp() -> Self;

    /// The multiplicative identity, as a specification-level value.
    spec fn one_sp() -> Self;

    /// Addition, as a specification-level function.
    spec fn plus_sp(a: Self, b: Self) -> Self;

    /// Multiplication, as a specification-level function.
    spec fn times_sp(a: Self, b: Self) -> Self;

    /// The additive identity.
    fn zero() -> (r: Self)
        ensures
            r == Self::zero_sp(),
    ;

    /// The multiplicative identity.
    fn one() -> (r: Self)
        ensures
            r == Self::one_sp(),
    ;

    /// Addition of weights.
    fn plus(self, other: Self) -> (r: Self)
        ensures
            r == Self::plus_sp(self, other),
    ;

    /// Multiplication of weights.
    fn times(self, other: Self) -> (r: Self)
        ensures
            r == Self::times_sp(self, other),
    ;

    /// Decides equality with the additive identity.
    fn is_zero(&self) -> (r: bool)
        ensures
            r == (*self == Self::zero_sp()),
    ;

    /// An explicit duplicate of the weight, equal to the original.
    fn dup(&self) -> (r: Self)
        ensures
            r == *self,
    ;

    proof fn plus_comm(a: Self, b: Self)
        ensures
            Self::plus_sp(a, b) == Self::plus_sp(b, a),
    ;

    proof fn plus_assoc(a: Self, b: Self, c: Self)
        ensures
            Self::plus_sp(Self::plus_sp(a, b), c) == Self::plus_sp(a, Self::plus_sp(b, c)),
    ;

    proof fn plus_zero(a: Self)
        ensures
            Self::plus_sp(a, Self::zero_sp()) == a,
            Self::plus_sp(Self::zero_sp(), a) == a,
    ;

    proof fn times_assoc(a: Self, b: Self, c: Self)
        ensures
            Self::times_sp(Self::times_sp(a, b), c) == Self::times_sp(a, Self::times_sp(b, c)),
    ;

    proof fn times_one(a: Self)
        ensures
            Self::times_sp(a, Self::one_sp()) == a,
            Self::times_sp(Self::one_sp(), a) == a,
    ;

    proof fn times_zero(a: Self)
        ensures
            Self::times_sp(a, Self::zero_sp()) == Self::zero_sp(),
            Self::times_sp(Self::zero_sp(), a) == Self::zero_sp(),
    ;

    proof fn distrib(a: Self, b: Self, c: Self)
        ensures
            Self::times_sp(a, Self::plus_sp(b, c)) == Self::plus_sp(
                Self::times_sp(a, b),
                Self::times_sp(a, c),
            ),
            Self::times_sp(Self::plus_sp(a, b), c) == Self::plus_sp(
                Self::times_sp(a, c),
                Self::times_sp(b, c),
            ),
    ;
}

/// A caller-supplied function from one input symbol to a weight; the
/// single-symbol grammar wraps a value of such a type. `Sym` is the
/// type of individual elements of the input.
pub trait Pred<M: Semiring>: Sized {
    type Sym;

    /// The weight this predicate assigns to a symbol, as a
    /// specification-level function.
    spec fn eval_sp(&self, t: Self::Sym) -> M;

    /// The weight this predicate assigns to a symbol.
    fn eval(&self, t: &Self::Sym) -> (r: M)
        ensures
            r == self.eval_sp(*t),
    ;

    /// An explicit duplicate of the predicate, equal to the original.
    fn dup(&self) -> (r: Self)
        ensures
            r == *self,
    ;
}

/// The uniform operation set every grammar combinator implements:
/// can-match-empty, shift-one-symbol, and reset. The meaning of each
/// operation is fixed by the specification transition functions,
/// applied to the combinator's `Node` form.
pub trait Regex<M: Semiring, P: Pred<M>>: Sized {
    /// This combinator as a bare grammar node.
    spec fn to_node(self) -> Node<M, P>;

    /// Converts this combinator into its bare grammar node.
    fn into_node(self) -> (n: Node<M, P>)
        ensures
            n == self.to_node(),
    ;

    /// Whether this combinator currently accepts a zero-length
    /// continuation; `None` when `fuel` does not cover the lazy
    /// instantiations the question requires.
    fn empty(&self, defs: &Vec<AnyRegex<M, P>>, fuel: u64) -> (r: Option<bool>)
        ensures
            r == spec_empty(defs@, self.to_node(), fuel as nat),
    ;

    /// Whether this combinator holds any transient state that a
    /// reset would clear.
    fn active(&self) -> (r: bool)
        ensures
            r == spec_active(self.to_node()),
    ;

    /// The one state transition per symbol; `None` when `fuel` does
    /// not cover the lazy instantiations this step requires.
    fn shift(&mut self, defs: &Vec<AnyRegex<M, P>>, c: &P::Sym, mark: M, fuel: u64) -> (r: Option<
        M,
    >)
        ensures
            match spec_shift(defs@, old(self).to_node(), *c, mark, fuel as nat) {
                Some(p) => final(self).to_node() == p.0 && r == Some(p.1),
                None => r is None,
            },
    ;

    /// Restores this combinator to its initial, reusable state.
    fn reset(&mut self)
        ensures
            final(self).to_node() == spec_reset(old(self).to_node()),
    ;
}

/// Grammar combinators additionally support duplication into a fresh
/// grammar of the same static shape.
pub trait CloneRegex<M: Semiring, P: Pred<M>>: Regex<M, P> {
    /// A fresh grammar of the same static shape as this combinator.
    fn clone_reset(&self) -> (r: AnyRegex<M, P>)
        ensures
            r.re == spec_reset(self.to_node()),
    ;
}

/// Like a plain conversion into a weight, except that the conversion
/// may also use the current item of the input. Weight types should
/// provide a reflexive implementation, and one converting `bool` to
/// a weight, so that grammars can choose which weight to produce.
pub trait IntoWithInput<T, M: Semiring>: Sized {
    /// The weight this value converts to at the given input symbol,
    /// as a specification-level function.
    spec fn into_sp(self, input: T) -> M;

    /// Converts this value to a weight at the given input symbol.
    fn into_with_input(self, input: &T) -> (r: M)
        ensures
            r == self.into_sp(*input),
    ;
}

/// A grammar with its transient matching state. The wrapped `Node` is
/// one combinator variant owning its children exclusively.
pub struct AnyRegex<M, P> {
    pub re: Node<M, P>,
}

/// Wraps a bare grammar node.
pub open spec fn wrap<M, P>(n: Node<M, P>) -> AnyRegex<M, P> {
    AnyRegex { re: n }
}

/// Drives the remaining symbols of `w` through a grammar with the
/// additive identity as each step's seed, carrying `acc`, the weight
/// the latest shift produced; the weight paired with the final state
/// is the one the last shift of the whole sequence produced.
pub open spec fn spec_run<M: Semiring, P: Pred<M>>(
    defs: Seq<AnyRegex<M, P>>,
    n: Node<M, P>,
    acc: M,
    w: Seq<P::Sym>,
    fuel: nat,
) -> Option<(Node<M, P>, M)>
    decreases w.len(),
{
    if w.len() == 0 {
        Some((n, acc))
    } else {
        match spec_shift(defs, n, w[0], M::zero_sp(), fuel) {
            Some(p) => spec_run(defs, p.0, p.1, w.subrange(1, w.len() as int), fuel),
            None => None,
        }
    }
}

/// What driving a whole input sequence through a grammar returns,
/// and the state it leaves behind: an empty input is answered by the
/// zero-length-acceptance question alone; otherwise the first symbol
/// is seeded with the multiplicative identity, every later symbol
/// with the additive identity, and the grammar is reset afterwards.
pub open spec fn spec_over<M: Semiring, P: Pred<M>>(
    defs: Seq<AnyRegex<M, P>>,
    n: Node<M, P>,
    w: Seq<P::Sym>,
    fuel: nat,
) -> Option<(Node<M, P>, M)> {
    if w.len() == 0 {
        match spec_empty(defs, n, fuel) {
            Some(e) => Some(
                (
                    n,
                    if e {
                        M::one_sp()
                    } else {
                        M::zero_sp()
                    },
                ),
            ),
            None => None,
        }
    } else {
        match spec_shift(defs, n, w[0], M::one_sp(), fuel) {
            Some(p) => match spec_run(defs, p.0, p.1, w.subrange(1, w.len() as int), fuel) {
                Some(q) => Some((spec_reset(q.0), q.1)),
                None => None,
            },
            None => None,
        }
    }
}

impl<M: Semiring, P: Pred<M>> AnyRegex<M, P> {
    /// Wraps a grammar combinator for driving and composition.
    pub fn new<R: Regex<M, P>>(re: R) -> (r: Self)
        ensures
            r.re == re.to_node(),
    {
        AnyRegex { re: re.into_node() }
    }

    /// A fresh grammar of the same static shape as this one: buffered
    /// weights cleared, instantiated lazy subtrees discarded.
    pub fn clone_reset(&self) -> (r: Self)
        ensures
            r.re == spec_reset(self.re),
        decreases self.re,
    {
        match &self.re {
            Node::Empty(_) => AnyRegex { re: Node::Empty(Empty) },
            Node::Symbol(p) => AnyRegex { re: Node::Symbol(p.dup()) },
            Node::Not(b) => b.0.clone_reset().not(),
            Node::Or(b) => b.left.clone_reset().or(b.right.clone_reset()),
            Node::And(b) => b.left.clone_reset().and(b.right.clone_reset()),
            Node::Sequence(b) => b.left.clone_reset().seq(b.right.clone_reset()),
            Node::Many(b) => many(b.re.clone_reset()),
            Node::Thunk(b) => delay(b.def),
        }
    }

    /// Whether this grammar currently accepts a zero-length
    /// continuation, given everything consumed so far. `None` when
    /// the fuel bound does not cover the lazy instantiations the
    /// question requires.
    pub fn empty(&self, defs: &Vec<AnyRegex<M, P>>, fuel: u64) -> (r: Option<bool>)
        ensures
            r == spec_empty(defs@, self.re, fuel as nat),
        decreases fuel, self.re,
    {
        match &self.re {
            Node::Empty(_) => Some(true),
            Node::Symbol(_) => Some(false),
            Node::Not(b) => match b.0.empty(defs, fuel) {
                Some(e) => Some(!e),
                None => None,
            },
            Node::Or(b) => match b.left.empty(defs, fuel) {
                Some(true) => Some(true),
                Some(false) => b.right.empty(defs, fuel),
                None => None,
            },
            Node::And(b) => match b.left.empty(defs, fuel) {
                Some(false) => Some(false),
                Some(true) => b.right.empty(defs, fuel),
                None => None,
            },
            Node::Sequence(b) => match b.left.empty(defs, fuel) {
                Some(false) => Some(false),
                Some(true) => b.right.empty(defs, fuel),
                None => None,
            },
            Node::Many(_) => Some(true),
            Node::Thunk(b) => match &b.value {
                Some(child) => child.empty(defs, fuel),
                None => {
                    if fuel == 0 || b.def >= defs.len() {
                        None
                    } else {
                        let inst = defs[b.def].clone_reset();
                        inst.empty(defs, fuel - 1)
                    }
                },
            },
        }
    }

    /// Whether this grammar holds any transient state that a reset
    /// would clear.
    pub fn active(&self) -> (r: bool)
        ensures
            r == spec_active(self.re),
        decreases self.re,
    {
        match &self.re {
            Node::Empty(_) => false,
            Node::Symbol(_) => false,
            Node::Not(_) => true,
            Node::Or(b) => b.left.active() || b.right.active(),
            Node::And(b) => b.left.active() || b.right.active(),
            Node::Sequence(b) => !b.from_left.is_zero() || b.left.active() || b.right.active(),
            Node::Many(b) => !b.marked.is_zero() || b.re.active(),
            Node::Thunk(b) => match &b.value {
                Some(child) => child.active(),
                None => false,
            },
        }
    }

    /// The one state transition per symbol: consumes the symbol `c`
    /// with the weight `mark` flowing in and returns the weight
    /// flowing out. `None` when the fuel bound does not cover the
    /// lazy instantiations this step requires; the grammar should
    /// then be reset before further use.
    pub fn shift(&mut self, defs: &Vec<AnyRegex<M, P>>, c: &P::Sym, mark: M, fuel: u64) -> (r:
        Option<M>)
        ensures
            match spec_shift(defs@, old(self).re, *c, mark, fuel as nat) {
                Some(p) => final(self).re == p.0 && r == Some(p.1),
                None => r is None,
            },
        decreases fuel, old(self).re,
    {
        match &mut self.re {
            Node::Empty(_) => Some(M::zero()),
            Node::Symbol(p) => Some(mark.times(p.eval(c))),
            Node::Not(b) => {
                let r0 = match b.0.shift(defs, c, mark, fuel) {
                    Some(x) => x,
                    None => return None,
                };
                if r0.is_zero() {
                    Some(M::one())
                } else {
                    Some(M::zero())
                }
            },
            Node::Or(b) => {
                let a = match b.left.shift(defs, c, mark.dup(), fuel) {
                    Some(x) => x,
                    None => return None,
                };
                let bb = match b.right.shift(defs, c, mark, fuel) {
                    Some(x) => x,
                    None => return None,
                };
                Some(a.plus(bb))
            },
            Node::And(b) => {
                let a = match b.left.shift(defs, c, mark.dup(), fuel) {
                    Some(x) => x,
                    None => return None,
                };
                let bb = match b.right.shift(defs, c, mark, fuel) {
                    Some(x) => x,
                    None => return None,
                };
                Some(a.times(bb))
            },
            Node::Sequence(b) => {
                let left_could_empty = match b.left.empty(defs, fuel) {
                    Some(x) => x,
                    None => return None,
                };
                let skip_left = if left_could_empty {
                    mark.dup()
                } else {
                    M::zero()
                };
                let new_left = match b.left.shift(defs, c, mark, fuel) {
                    Some(x) => x,
                    None => return None,
                };
                let right_could_empty = match b.right.empty(defs, fuel) {
                    Some(x) => x,
                    None => return None,
                };
                let skip_right = if right_could_empty {
                    new_left.dup()
                } else {
                    M::zero()
                };
                let old_from_left = b.from_left.dup();
                b.from_left = new_left;
                let new_right = match b.right.shift(defs, c, skip_left.plus(old_from_left), fuel) {
                    Some(x) => x,
                    None => return None,
                };
                Some(skip_right.plus(new_right))
            },
            Node::Many(b) => {
                let arg = mark.plus(b.marked.dup());
                let r0 = match b.re.shift(defs, c, arg, fuel) {
                    Some(x) => x,
                    None => return None,
                };
                b.marked = r0.dup();
                Some(r0)
            },
            Node::Thunk(b) => {
                if b.value.is_none() {
                    if mark.is_zero() {
                        return Some(mark);
                    }
                    if fuel == 0 || b.def >= defs.len() {
                        return None;
                    }
                    let mut inst = defs[b.def].clone_reset();
                    let r0 = inst.shift(defs, c, mark, fuel - 1);
                    b.value = Some(inst);
                    r0
                } else {
                    let mut child = match b.value.take() {
                        Some(x) => x,
                        None => return None,
                    };
                    let r0 = child.shift(defs, c, mark, fuel);
                    b.value = Some(child);
                    r0
                }
            },
        }
    }

    /// Feeds every symbol of `input` through this grammar, then
    /// resets it, and returns the weight describing how the grammar
    /// matched the whole sequence: the first symbol is seeded with
    /// the multiplicative identity (one fresh start), every later
    /// symbol with the additive identity (no new starts mid-stream),
    /// and the weight produced by the final shift is the result. An
    /// empty input yields the multiplicative identity exactly when
    /// the grammar accepts a zero-length input.
    #[verifier::loop_isolation(false)]
    pub fn over(&mut self, defs: &Vec<AnyRegex<M, P>>, input: &Vec<P::Sym>, fuel: u64) -> (r:
        Option<M>)
        ensures
            match spec_over(defs@, old(self).re, input@, fuel as nat) {
                Some(p) => final(self).re == p.0 && r == Some(p.1),
                None => r is None,
            },
    {
        if input.len() == 0 {
            let e = match self.empty(defs, fuel) {
                Some(x) => x,
                None => return None,
            };
            return Some(
                if e {
                    M::one()
                } else {
                    M::zero()
                },
            );
        }
        let mut acc = match self.shift(defs, &input[0], M::one(), fuel) {
            Some(x) => x,
            None => return None,
        };
        let ghost n1 = self.re;
        let ghost acc1 = acc;
        let mut i: usize = 1;
        while i < input.len()
            invariant
                1 <= i <= input@.len(),
                spec_run(defs@, self.re, acc, input@.subrange(i as int, input@.len() as int), fuel as nat)
                    == spec_run(defs@, n1, acc1, input@.subrange(1, input@.len() as int), fuel as nat),
            decreases input@.len() - i,
        {
            let ghost pre = self.re;
            let ghost pre_acc = acc;
            let ghost w = input@.subrange(i as int, input@.len() as int);
            acc = match self.shift(defs, &input[i], M::zero(), fuel) {
                Some(x) => x,
                None => {
                    proof {
                        assert(w[0] == input@[i as int]);
                        assert(spec_run(defs@, pre, pre_acc, w, fuel as nat) is None);
                    }
                    return None;
                },
            };
            proof {
                assert(w[0] == input@[i as int]);
                assert(w.subrange(1, w.len() as int) =~= input@.subrange(
                    i + 1,
                    input@.len() as int,
                ));
            }
            i = i + 1;
        }
        proof {
            assert(input@.subrange(i as int, input@.len() as int) =~= Seq::<P::Sym>::empty());
        }
        self.reset();
        Some(acc)
    }

    /// Restores this grammar to its initial, reusable state: buffered
    /// weights cleared, instantiated lazy subtrees discarded.
    pub fn reset(&mut self)
        ensures
            final(self).re == spec_reset(old(self).re),
        decreases old(self).re,
    {
        match &mut self.re {
            Node::Empty(_) => {},
            Node::Symbol(_) => {},
            Node::Not(b) => {
                b.0.reset();
            },
            Node::Or(b) => {
                b.left.reset();
                b.right.reset();
            },
            Node::And(b) => {
                b.left.reset();
                b.right.reset();
            },
            Node::Sequence(b) => {
                b.left.reset();
                b.right.reset();
                b.from_left = M::zero();
            },
            Node::Many(b) => {
                b.re.reset();
                b.marked = M::zero();
            },
            Node::Thunk(b) => {
                b.value = None;
            },
        }
    }
}

} // verus!
