//! The grammar combinators and the per-symbol transition system they
//! share. A grammar is a tree of `Node` values; each combinator
//! variant owns its children exclusively and may hold one buffered
//! weight of transient state.
//!
//! The meaning of every operation is fixed by the specification
//! functions `spec_empty`, `spec_shift`, `spec_reset` and
//! `spec_active`; the executable methods are proved to compute
//! exactly those functions. Because forcing a lazy self-reference may
//! build unboundedly many fresh subtrees (a self-reference whose
//! definition never reaches a non-recursive base case diverges), the
//! operations that force take a fuel bound and report `None` when the
//! bound does not suffice.

use vstd::prelude::*;
use crate::engine::{AnyRegex, CloneRegex, Pred, Regex, Semiring, wrap};

verus! {

/// Language which only matches an empty input.
pub struct Empty;

/// Complement of a language: collapses the child's shifted weight to
/// the multiplicative identity exactly when that weight is the
/// additive identity. Only meaningful for two-valued weight types.
pub struct Not<M, P>(pub AnyRegex<M, P>);

/// Alternation: matches when either child matches; combines the
/// children's weights by addition.
pub struct Or<M, P> {
    pub left: AnyRegex<M, P>,
    pub right: AnyRegex<M, P>,
}

/// Conjunction: matches when both children match; combines the
/// children's weights by multiplication.
pub struct And<M, P> {
    pub left: AnyRegex<M, P>,
    pub right: AnyRegex<M, P>,
}

/// Concatenation. `from_left` buffers the weight that exited the left
/// child on the previous step, so that the right child is shifted
/// exactly once per symbol while every live split position is still
/// accounted for.
pub struct Sequence<M, P> {
    pub left: AnyRegex<M, P>,
    pub right: AnyRegex<M, P>,
    pub from_left: M,
}

/// Repetition (zero or more). `marked` accumulates the weight of one
/// or more completed repeats ending at the current position.
pub struct Many<M, P> {
    pub re: AnyRegex<M, P>,
    pub marked: M,
}

/// Lazy self-reference: holds the index of a definition in a table of
/// grammar definitions supplied at matching time, and the child
/// instantiated from that definition on first use. Reset discards the
/// instantiated child entirely, so the next use builds a fresh one.
pub struct Thunk<M, P> {
    pub def: usize,
    pub value: Option<AnyRegex<M, P>>,
}

/// One grammar node: a closed sum of the combinator variants.
pub enum Node<M, P> {
    Empty(Empty),
    Symbol(P),
    Not(Box<Not<M, P>>),
    Or(Box<Or<M, P>>),
    And(Box<And<M, P>>),
    Sequence(Box<Sequence<M, P>>),
    Many(Box<Many<M, P>>),
    Thunk(Box<Thunk<M, P>>),
}

pub open spec fn node_not<M, P>(n: Node<M, P>) -> Node<M, P> {
    Node::Not(Box::new(Not(wrap(n))))
}

pub open spec fn node_or<M, P>(l: Node<M, P>, r: Node<M, P>) -> Node<M, P> {
    Node::Or(Box::new(Or { left: wrap(l), right: wrap(r) }))
}

pub open spec fn node_and<M, P>(l: Node<M, P>, r: Node<M, P>) -> Node<M, P> {
    Node::And(Box::new(And { left: wrap(l), right: wrap(r) }))
}

pub open spec fn node_seq<M, P>(l: Node<M, P>, r: Node<M, P>, from_left: M) -> Node<M, P> {
    Node::Sequence(Box::new(Sequence { left: wrap(l), right: wrap(r), from_left }))
}

pub open spec fn node_many<M, P>(n: Node<M, P>, marked: M) -> Node<M, P> {
    Node::Many(Box::new(Many { re: wrap(n), marked }))
}

pub open spec fn node_thunk<M, P>(def: usize, value: Option<Node<M, P>>) -> Node<M, P> {
    Node::Thunk(Box::new(Thunk {
        def,
        value: match value {
            Some(n) => Some(wrap(n)),
            None => None,
        },
    }))
}

/// The state a node returns to on reset: buffered weights cleared to
/// the additive identity, instantiated lazy subtrees discarded. This
/// is also the state a fresh node of the same static shape starts in.
pub open spec fn spec_reset<M: Semiring, P: Pred<M>>(n: Node<M, P>) -> Node<M, P>
    decreases n,
{
    match n {
        Node::Empty(_) => n,
        Node::Symbol(_) => n,
        Node::Not(b) => node_not(spec_reset(b.0.re)),
        Node::Or(b) => node_or(spec_reset(b.left.re), spec_reset(b.right.re)),
        Node::And(b) => node_and(spec_reset(b.left.re), spec_reset(b.right.re)),
        Node::Sequence(b) => node_seq(
            spec_reset(b.left.re),
            spec_reset(b.right.re),
            M::zero_sp(),
        ),
        Node::Many(b) => node_many(spec_reset(b.re.re), M::zero_sp()),
        Node::Thunk(b) => node_thunk(b.def, None),
    }
}

/// Whether a node holds any transient state that a reset would clear:
/// a buffered weight other than the additive identity, or an
/// instantiated lazy subtree. Complement nodes always count as
/// active, because shifting the additive identity in may still shift
/// a different weight out.
pub open spec fn spec_active<M: Semiring, P: Pred<M>>(n: Node<M, P>) -> bool
    decreases n,
{
    match n {
        Node::Empty(_) => false,
        Node::Symbol(_) => false,
        Node::Not(_) => true,
        Node::Or(b) => spec_active(b.left.re) || spec_active(b.right.re),
        Node::And(b) => spec_active(b.left.re) || spec_active(b.right.re),
        Node::Sequence(b) => b.from_left != M::zero_sp() || spec_active(b.left.re)
            || spec_active(b.right.re),
        Node::Many(b) => b.marked != M::zero_sp() || spec_active(b.re.re),
        Node::Thunk(b) => match b.value {
            Some(child) => spec_active(child.re),
            None => false,
        },
    }
}

/// Whether the sub-grammar currently accepts a zero-length
/// continuation. A pure query of the current state: an
/// uninstantiated self-reference is answered by asking a fresh
/// instance of its definition, without keeping that instance. `None`
/// when the fuel bound does not cover the instantiations required,
/// or when a self-reference names a definition the table does not
/// have.
pub open spec fn spec_empty<M: Semiring, P: Pred<M>>(
    defs: Seq<AnyRegex<M, P>>,
    n: Node<M, P>,
    fuel: nat,
) -> Option<bool>
    decreases fuel, n,
{
    match n {
        Node::Empty(_) => Some(true),
        Node::Symbol(_) => Some(false),
        Node::Not(b) => match spec_empty(defs, b.0.re, fuel) {
            Some(e) => Some(!e),
            None => None,
        },
        Node::Or(b) => match spec_empty(defs, b.left.re, fuel) {
            Some(true) => Some(true),
            Some(false) => spec_empty(defs, b.right.re, fuel),
            None => None,
        },
        Node::And(b) => match spec_empty(defs, b.left.re, fuel) {
            Some(false) => Some(false),
            Some(true) => spec_empty(defs, b.right.re, fuel),
            None => None,
        },
        Node::Sequence(b) => match spec_empty(defs, b.left.re, fuel) {
            Some(false) => Some(false),
            Some(true) => spec_empty(defs, b.right.re, fuel),
            None => None,
        },
        Node::Many(_) => Some(true),
        Node::Thunk(b) => match b.value {
            Some(child) => spec_empty(defs, child.re, fuel),
            None => {
                if fuel == 0 || b.def >= defs.len() {
                    None
                } else {
                    spec_empty(defs, spec_reset(defs[b.def as int].re), (fuel - 1) as nat)
                }
            },
        },
    }
}

/// The one state transition per symbol: the weight flowing out of a
/// node when `m` flows in while it consumes the symbol `c`, together
/// with the node state afterwards. `None` under the same conditions
/// as `spec_empty`.
pub open spec fn spec_shift<M: Semiring, P: Pred<M>>(
    defs: Seq<AnyRegex<M, P>>,
    n: Node<M, P>,
    c: P::Sym,
    m: M,
    fuel: nat,
) -> Option<(Node<M, P>, M)>
    decreases fuel, n,
{
    match n {
        Node::Empty(_) => Some((n, M::zero_sp())),
        Node::Symbol(p) => Some((Node::Symbol(p), M::times_sp(m, p.eval_sp(c)))),
        Node::Not(b) => match spec_shift(defs, b.0.re, c, m, fuel) {
            Some((n2, r)) => Some((
                node_not(n2),
                if r == M::zero_sp() {
                    M::one_sp()
                } else {
                    M::zero_sp()
                },
            )),
            None => None,
        },
        Node::Or(b) => match spec_shift(defs, b.left.re, c, m, fuel) {
            Some((l, a)) => match spec_shift(defs, b.right.re, c, m, fuel) {
                Some((r, bb)) => Some((node_or(l, r), M::plus_sp(a, bb))),
                None => None,
            },
            None => None,
        },
        Node::And(b) => match spec_shift(defs, b.left.re, c, m, fuel) {
            Some((l, a)) => match spec_shift(defs, b.right.re, c, m, fuel) {
                Some((r, bb)) => Some((node_and(l, r), M::times_sp(a, bb))),
                None => None,
            },
            None => None,
        },
        Node::Sequence(b) => match spec_empty(defs, b.left.re, fuel) {
            Some(left_could_empty) => {
                let skip_left = if left_could_empty {
                    m
                } else {
                    M::zero_sp()
                };
                match spec_shift(defs, b.left.re, c, m, fuel) {
                    Some((l1, new_left)) => match spec_empty(defs, b.right.re, fuel) {
                        Some(right_could_empty) => {
                            let skip_right = if right_could_empty {
                                new_left
                            } else {
                                M::zero_sp()
                            };
                            match spec_shift(
                                defs,
                                b.right.re,
                                c,
                                M::plus_sp(skip_left, b.from_left),
                                fuel,
                            ) {
                                Some((r1, new_right)) => Some((
                                    node_seq(l1, r1, new_left),
                                    M::plus_sp(skip_right, new_right),
                                )),
                                None => None,
                            }
                        },
                        None => None,
                    },
                    None => None,
                }
            },
            None => None,
        },
        Node::Many(b) => match spec_shift(defs, b.re.re, c, M::plus_sp(m, b.marked), fuel) {
            Some((n2, r)) => Some((node_many(n2, r), r)),
            None => None,
        },
        Node::Thunk(b) => match b.value {
            Some(child) => match spec_shift(defs, child.re, c, m, fuel) {
                Some((n2, r)) => Some((node_thunk(b.def, Some(n2)), r)),
                None => None,
            },
            None => {
                if m == M::zero_sp() {
                    // An uninstantiated subtree holds no live match,
                    // so the additive identity flows straight through
                    // without instantiating anything.
                    Some((n, M::zero_sp()))
                } else if fuel == 0 || b.def >= defs.len() {
                    None
                } else {
                    match spec_shift(
                        defs,
                        spec_reset(defs[b.def as int].re),
                        c,
                        m,
                        (fuel - 1) as nat,
                    ) {
                        Some((n2, r)) => Some((node_thunk(b.def, Some(n2)), r)),
                        None => None,
                    }
                }
            },
        },
    }
}

/// Language which only matches an empty input.
pub fn empty<M: Semiring, P: Pred<M>>() -> (r: AnyRegex<M, P>)
    ensures
        r.re == Node::<M, P>::Empty(Empty),
{
    AnyRegex { re: Node::Empty(Empty) }
}

/// Language which only matches inputs containing exactly one symbol,
/// weighted by the given predicate for that symbol.
pub fn is<M: Semiring, P: Pred<M>>(p: P) -> (r: AnyRegex<M, P>)
    ensures
        r.re == Node::<M, P>::Symbol(p),
{
    AnyRegex { re: Node::Symbol(p) }
}

/// Language which matches zero or more copies of another language; in
/// regular expressions this is usually called "Kleene star".
pub fn many<M: Semiring, P: Pred<M>>(re: AnyRegex<M, P>) -> (r: AnyRegex<M, P>)
    ensures
        r.re == node_many(re.re, M::zero_sp()),
{
    let marked = M::zero();
    AnyRegex { re: Node::Many(Box::new(Many { re, marked })) }
}

/// Language which defers to the definition at the given index of the
/// definitions table passed at matching time. The definition may
/// refer to itself (or to any other entry) through further `delay`
/// nodes, which is what makes recursive grammars expressible without
/// building an infinite tree.
pub fn delay<M: Semiring, P: Pred<M>>(def: usize) -> (r: AnyRegex<M, P>)
    ensures
        r.re == node_thunk::<M, P>(def, None),
{
    AnyRegex { re: Node::Thunk(Box::new(Thunk { def, value: None })) }
}

impl<M: Semiring, P: Pred<M>> AnyRegex<M, P> {
    /// Complement of this language.
    pub fn not(self) -> (r: Self)
        ensures
            r.re == node_not(self.re),
    {
        AnyRegex { re: Node::Not(Box::new(Not(self))) }
    }

    /// Alternation of this language with another.
    pub fn or(self, other: Self) -> (r: Self)
        ensures
            r.re == node_or(self.re, other.re),
    {
        AnyRegex { re: Node::Or(Box::new(Or { left: self, right: other })) }
    }

    /// Conjunction of this language with another.
    pub fn and(self, other: Self) -> (r: Self)
        ensures
            r.re == node_and(self.re, other.re),
    {
        AnyRegex { re: Node::And(Box::new(And { left: self, right: other })) }
    }

    /// Concatenation of this language with another.
    pub fn seq(self, other: Self) -> (r: Self)
        ensures
            r.re == node_seq(self.re, other.re, M::zero_sp()),
    {
        let from_left = M::zero();
        AnyRegex { re: Node::Sequence(Box::new(Sequence { left: self, right: other, from_left })) }
    }
}

impl<M: Semiring, P: Pred<M>> Regex<M, P> for Empty {
    open spec fn to_node(self) -> Node<M, P> {
        Node::Empty(self)
    }

    fn into_node(self) -> (n: Node<M, P>) {
        Node::Empty(self)
    }

    fn empty(&self, defs: &Vec<AnyRegex<M, P>>, fuel: u64) -> (r: Option<bool>) {
        Some(true)
    }

    fn active(&self) -> (r: bool) {
        false
    }

    fn shift(&mut self, defs: &Vec<AnyRegex<M, P>>, c: &P::Sym, mark: M, fuel: u64) -> (r: Option<
        M,
    >) {
        Some(M::zero())
    }

    fn reset(&mut self) {
    }
}

impl<M: Semiring, P: Pred<M>> CloneRegex<M, P> for Empty {
    fn clone_reset(&self) -> (r: AnyRegex<M, P>) {
        empty()
    }
}

impl<M: Semiring, P: Pred<M>> Regex<M, P> for Not<M, P> {
    open spec fn to_node(self) -> Node<M, P> {
        Node::Not(Box::new(self))
    }

    fn into_node(self) -> (n: Node<M, P>) {
        Node::Not(Box::new(self))
    }

    fn empty(&self, defs: &Vec<AnyRegex<M, P>>, fuel: u64) -> (r: Option<bool>) {
        match self.0.empty(defs, fuel) {
            Some(e) => Some(!e),
            None => None,
        }
    }

    // Complement grammars always count as active, because shifting
    // the additive identity in may still shift a different weight
    // out.
    fn active(&self) -> (r: bool) {
        true
    }

    fn shift(&mut self, defs: &Vec<AnyRegex<M, P>>, c: &P::Sym, mark: M, fuel: u64) -> (r: Option<
        M,
    >) {
        let r0 = match self.0.shift(defs, c, mark, fuel) {
            Some(x) => x,
            None => return None,
        };
        if r0.is_zero() {
            Some(M::one())
        } else {
            Some(M::zero())
        }
    }

    fn reset(&mut self) {
        self.0.reset();
    }
}

impl<M: Semiring, P: Pred<M>> CloneRegex<M, P> for Not<M, P> {
    fn clone_reset(&self) -> (r: AnyRegex<M, P>) {
        self.0.clone_reset().not()
    }
}

impl<M: Semiring, P: Pred<M>> Regex<M, P> for Or<M, P> {
    open spec fn to_node(self) -> Node<M, P> {
        Node::Or(Box::new(self))
    }

    fn into_node(self) -> (n: Node<M, P>) {
        Node::Or(Box::new(self))
    }

    fn empty(&self, defs: &Vec<AnyRegex<M, P>>, fuel: u64) -> (r: Option<bool>) {
        match self.left.empty(defs, fuel) {
            Some(true) => Some(true),
            Some(false) => self.right.empty(defs, fuel),
            None => None,
        }
    }

    fn active(&self) -> (r: bool) {
        self.left.active() || self.right.active()
    }

    fn shift(&mut self, defs: &Vec<AnyRegex<M, P>>, c: &P::Sym, mark: M, fuel: u64) -> (r: Option<
        M,
    >) {
        let a = match self.left.shift(defs, c, mark.dup(), fuel) {
            Some(x) => x,
            None => return None,
        };
        let b = match self.right.shift(defs, c, mark, fuel) {
            Some(x) => x,
            None => return None,
        };
        Some(a.plus(b))
    }

    fn reset(&mut self) {
        self.left.reset();
        self.right.reset();
    }
}

impl<M: Semiring, P: Pred<M>> CloneRegex<M, P> for Or<M, P> {
    fn clone_reset(&self) -> (r: AnyRegex<M, P>) {
        self.left.clone_reset().or(self.right.clone_reset())
    }
}

impl<M: Semiring, P: Pred<M>> Regex<M, P> for And<M, P> {
    open spec fn to_node(self) -> Node<M, P> {
        Node::And(Box::new(self))
    }

    fn into_node(self) -> (n: Node<M, P>) {
        Node::And(Box::new(self))
    }

    fn empty(&self, defs: &Vec<AnyRegex<M, P>>, fuel: u64) -> (r: Option<bool>) {
        match self.left.empty(defs, fuel) {
            Some(false) => Some(false),
            Some(true) => self.right.empty(defs, fuel),
            None => None,
        }
    }

    fn active(&self) -> (r: bool) {
        self.left.active() || self.right.active()
    }

    fn shift(&mut self, defs: &Vec<AnyRegex<M, P>>, c: &P::Sym, mark: M, fuel: u64) -> (r: Option<
        M,
    >) {
        let a = match self.left.shift(defs, c, mark.dup(), fuel) {
            Some(x) => x,
            None => return None,
        };
        let b = match self.right.shift(defs, c, mark, fuel) {
            Some(x) => x,
            None => return None,
        };
        Some(a.times(b))
    }

    fn reset(&mut self) {
        self.left.reset();
        self.right.reset();
    }
}

impl<M: Semiring, P: Pred<M>> CloneRegex<M, P> for And<M, P> {
    fn clone_reset(&self) -> (r: AnyRegex<M, P>) {
        self.left.clone_reset().and(self.right.clone_reset())
    }
}

impl<M: Semiring, P: Pred<M>> Regex<M, P> for Sequence<M, P> {
    open spec fn to_node(self) -> Node<M, P> {
        Node::Sequence(Box::new(self))
    }

    fn into_node(self) -> (n: Node<M, P>) {
        Node::Sequence(Box::new(self))
    }

    fn empty(&self, defs: &Vec<AnyRegex<M, P>>, fuel: u64) -> (r: Option<bool>) {
        match self.left.empty(defs, fuel) {
            Some(false) => Some(false),
            Some(true) => self.right.empty(defs, fuel),
            None => None,
        }
    }

    fn active(&self) -> (r: bool) {
        !self.from_left.is_zero() || self.left.active() || self.right.active()
    }

    // Each of the buffered weight, the two can-match-empty queries
    // as of before this step, and the two child shifts is used
    // exactly once: the buffer defers the weight that exited the
    // left child to be paired with the right child one step later,
    // so no weight is dropped and none is counted twice.
    fn shift(&mut self, defs: &Vec<AnyRegex<M, P>>, c: &P::Sym, mark: M, fuel: u64) -> (r: Option<
        M,
    >) {
        let left_could_empty = match self.left.empty(defs, fuel) {
            Some(x) => x,
            None => return None,
        };
        let skip_left = if left_could_empty {
            mark.dup()
        } else {
            M::zero()
        };
        let new_left = match self.left.shift(defs, c, mark, fuel) {
            Some(x) => x,
            None => return None,
        };
        let right_could_empty = match self.right.empty(defs, fuel) {
            Some(x) => x,
            None => return None,
        };
        let skip_right = if right_could_empty {
            new_left.dup()
        } else {
            M::zero()
        };
        let old_from_left = self.from_left.dup();
        self.from_left = new_left;
        let new_right = match self.right.shift(defs, c, skip_left.plus(old_from_left), fuel) {
            Some(x) => x,
            None => return None,
        };
        Some(skip_right.plus(new_right))
    }

    fn reset(&mut self) {
        self.left.reset();
        self.right.reset();
        self.from_left = M::zero();
    }
}

impl<M: Semiring, P: Pred<M>> CloneRegex<M, P> for Sequence<M, P> {
    fn clone_reset(&self) -> (r: AnyRegex<M, P>) {
        self.left.clone_reset().seq(self.right.clone_reset())
    }
}

impl<M: Semiring, P: Pred<M>> Regex<M, P> for Many<M, P> {
    open spec fn to_node(self) -> Node<M, P> {
        Node::Many(Box::new(self))
    }

    fn into_node(self) -> (n: Node<M, P>) {
        Node::Many(Box::new(self))
    }

    fn empty(&self, defs: &Vec<AnyRegex<M, P>>, fuel: u64) -> (r: Option<bool>) {
        Some(true)
    }

    fn active(&self) -> (r: bool) {
        !self.marked.is_zero() || self.re.active()
    }

    fn shift(&mut self, defs: &Vec<AnyRegex<M, P>>, c: &P::Sym, mark: M, fuel: u64) -> (r: Option<
        M,
    >) {
        let arg = mark.plus(self.marked.dup());
        let r0 = match self.re.shift(defs, c, arg, fuel) {
            Some(x) => x,
            None => return None,
        };
        self.marked = r0.dup();
        Some(r0)
    }

    fn reset(&mut self) {
        self.re.reset();
        self.marked = M::zero();
    }
}

impl<M: Semiring, P: Pred<M>> CloneRegex<M, P> for Many<M, P> {
    fn clone_reset(&self) -> (r: AnyRegex<M, P>) {
        many(self.re.clone_reset())
    }
}

impl<M: Semiring, P: Pred<M>> Thunk<M, P> {
    /// Instantiates the referenced definition if no instance is
    /// present yet; reports whether an instance is present
    /// afterwards (it is not exactly when the index names a
    /// definition the table does not have).
    pub fn force(&mut self, defs: &Vec<AnyRegex<M, P>>) -> (ok: bool)
        ensures
            final(self).def == old(self).def,
            old(self).value is Some ==> *final(self) == *old(self) && ok,
            old(self).value is None && old(self).def < defs@.len() ==> ok && final(self).value
                == Some(wrap(spec_reset(defs@[old(self).def as int].re))),
            old(self).value is None && old(self).def >= defs@.len() ==> !ok && *final(self) == *old(
                self,
            ),
    {
        if self.value.is_none() {
            if self.def >= defs.len() {
                return false;
            }
            self.value = Some(defs[self.def].clone_reset());
        }
        true
    }
}

impl<M: Semiring, P: Pred<M>> Regex<M, P> for Thunk<M, P> {
    open spec fn to_node(self) -> Node<M, P> {
        Node::Thunk(Box::new(self))
    }

    fn into_node(self) -> (n: Node<M, P>) {
        Node::Thunk(Box::new(self))
    }

    fn empty(&self, defs: &Vec<AnyRegex<M, P>>, fuel: u64) -> (r: Option<bool>) {
        match &self.value {
            Some(child) => child.empty(defs, fuel),
            None => {
                if fuel == 0 || self.def >= defs.len() {
                    None
                } else {
                    let inst = defs[self.def].clone_reset();
                    inst.empty(defs, fuel - 1)
                }
            },
        }
    }

    fn active(&self) -> (r: bool) {
        match &self.value {
            Some(child) => child.active(),
            None => false,
        }
    }

    fn shift(&mut self, defs: &Vec<AnyRegex<M, P>>, c: &P::Sym, mark: M, fuel: u64) -> (r: Option<
        M,
    >) {
        if self.value.is_none() {
            if mark.is_zero() {
                return Some(mark);
            }
            if fuel == 0 || self.def >= defs.len() {
                return None;
            }
            let mut inst = defs[self.def].clone_reset();
            let r0 = inst.shift(defs, c, mark, fuel - 1);
            self.value = Some(inst);
            r0
        } else {
            let mut child = match self.value.take() {
                Some(x) => x,
                None => return None,
            };
            let r0 = child.shift(defs, c, mark, fuel);
            self.value = Some(child);
            r0
        }
    }

    fn reset(&mut self) {
        self.value = None;
    }
}

impl<M: Semiring, P: Pred<M>> CloneRegex<M, P> for Thunk<M, P> {
    fn clone_reset(&self) -> (r: AnyRegex<M, P>) {
        delay(self.def)
    }
}

} // verus!
