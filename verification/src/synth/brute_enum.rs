//! The brute enumerator: a lazy, bounded enumeration of skeleton
//! shapes crossed with hole fillings.
//!
//! Skeletons grow breadth-first: each level replaces every hole of
//! every current skeleton with each operator applied to fresh holes,
//! and drops shapes deeper than the depth limit. For a fixed skeleton
//! with `h` holes, the fillings are counted little-endian in base
//! `k + 1`: digit `0` stands for a constant hole and digit `d + 1`
//! for argument `d`, and the first hole advances fastest.

use vstd::prelude::*;

use crate::expr::{BinopKind, Expr, ExprSkeleton, UnopKind, Variable};
use crate::synth::Synthesizer;

verus! {

/// The leaf payload a digit stands for.
pub open spec fn spec_digit_to_var(d: usize) -> Variable {
    if d == 0 {
        Variable::UnknownConst
    } else {
        Variable::Argument((d - 1) as usize)
    }
}

/// The filling a digit vector stands for.
pub open spec fn spec_digits_to_fill(ds: Seq<usize>) -> Seq<Variable> {
    ds.map_values(|d: usize| spec_digit_to_var(d))
}

/// Value of a little-endian digit vector in base `b`.
pub open spec fn digits_val(ds: Seq<usize>, b: nat) -> nat
    decreases ds.len(),
{
    if ds.len() == 0 {
        0
    } else {
        (ds[0] + b * digits_val(ds.skip(1), b)) as nat
    }
}

/// `b` to the power `n`.
pub open spec fn base_pow(b: nat, n: nat) -> nat
    decreases n,
{
    if n == 0 {
        1
    } else {
        b * base_pow(b, (n - 1) as nat)
    }
}

/// A digit vector in base `b` has a value below `b` to its length,
/// and the all-maximal vector reaches exactly the last value: with
/// `increment` raising the value by one and rolling over exactly at
/// the all-maximal vector, a skeleton's counter passes every value
/// of `0 .. b^h` once.
pub proof fn lemma_digits_val_bound(ds: Seq<usize>, b: nat)
    requires
        b >= 1,
        forall|j: int| 0 <= j < ds.len() ==> #[trigger] ds[j] < b,
    ensures
        digits_val(ds, b) < base_pow(b, ds.len()),
        (forall|j: int| 0 <= j < ds.len() ==> #[trigger] ds[j] == b - 1) ==> digits_val(ds, b)
            == base_pow(b, ds.len()) - 1,
    decreases ds.len(),
{
    if ds.len() > 0 {
        let t = ds.skip(1);
        assert(forall|j: int| 0 <= j < t.len() ==> #[trigger] t[j] == ds[j + 1]);
        lemma_digits_val_bound(t, b);
        let v = digits_val(t, b);
        let p = base_pow(b, t.len());
        assert(v <= p - 1);
        assert(b * v <= b * (p - 1)) by (nonlinear_arith)
            requires
                b >= 1 && v <= p - 1 && p >= 1,
        ;
        assert(b * (p - 1) == b * p - b) by (nonlinear_arith);
        if forall|j: int| 0 <= j < ds.len() ==> #[trigger] ds[j] == b - 1 {
            assert(forall|j: int| 0 <= j < t.len() ==> #[trigger] t[j] == b - 1);
            assert(v == p - 1);
        }
    }
}

/// Two distinct bounded digit vectors of one length have two
/// distinct values: no value of the counter stands for two
/// fillings.
pub proof fn lemma_digits_val_injective(d1: Seq<usize>, d2: Seq<usize>, b: nat)
    requires
        b >= 1,
        d1.len() == d2.len(),
        forall|j: int| 0 <= j < d1.len() ==> #[trigger] d1[j] < b,
        forall|j: int| 0 <= j < d2.len() ==> #[trigger] d2[j] < b,
        d1 != d2,
    ensures
        digits_val(d1, b) != digits_val(d2, b),
    decreases d1.len(),
{
    if d1.len() == 0 {
        assert(d1 =~= d2);
    } else {
        let t1 = d1.skip(1);
        let t2 = d2.skip(1);
        assert(forall|j: int| 0 <= j < t1.len() ==> #[trigger] t1[j] == d1[j + 1]);
        assert(forall|j: int| 0 <= j < t2.len() ==> #[trigger] t2[j] == d2[j + 1]);
        if digits_val(d1, b) == digits_val(d2, b) {
            let v1 = digits_val(t1, b);
            let v2 = digits_val(t2, b);
            assert(d1[0] + b * v1 == d2[0] + b * v2);
            assert(d1[0] == d2[0] && v1 == v2) by (nonlinear_arith)
                requires
                    d1[0] + b * v1 == d2[0] + b * v2 && 0 <= d1[0] < b && 0 <= d2[0] < b && v1 >= 0
                        && v2 >= 0,
            ;
            if t1 != t2 {
                lemma_digits_val_injective(t1, t2, b);
            }
            assert forall|j: int| 0 <= j < d1.len() implies d1[j] == d2[j] by {
                if j > 0 {
                    assert(t1[j - 1] == t2[j - 1]);
                }
            }
            assert(d1 =~= d2);
        }
    }
}

/// Two distinct digit vectors stand for two distinct fillings.
pub proof fn lemma_digits_fill_injective(d1: Seq<usize>, d2: Seq<usize>)
    requires
        d1 != d2,
        d1.len() == d2.len(),
    ensures
        spec_digits_to_fill(d1) != spec_digits_to_fill(d2),
{
    let i = choose|i: int| 0 <= i < d1.len() && d1[i] != d2[i];
    assert(exists|i: int| 0 <= i < d1.len() && d1[i] != d2[i]) by {
        if forall|i: int| 0 <= i < d1.len() ==> #[trigger] d1[i] == d2[i] {
            assert(d1 =~= d2);
        }
    }
    let j = choose|j: int| 0 <= j < d1.len() && d1[j] != d2[j];
    assert(spec_digits_to_fill(d1)[j] != spec_digits_to_fill(d2)[j]);
}

/// Counter-level enumeration novelty: one skeleton fills two
/// distinct digit vectors to two distinct candidates. Together with
/// `increment`, which raises the vector's value by exactly one each
/// step, one skeleton's stream never repeats an expression.
pub proof fn lemma_counter_novelty(s: Expr<()>, d1: Seq<usize>, d2: Seq<usize>)
    requires
        d1.len() == s.spec_holes(),
        d2.len() == d1.len(),
        d1 != d2,
    ensures
        s.spec_fill(spec_digits_to_fill(d1)) != s.spec_fill(spec_digits_to_fill(d2)),
{
    lemma_digits_fill_injective(d1, d2);
    crate::expr::lemma_enumeration_novelty(
        s,
        spec_digits_to_fill(d1),
        s,
        spec_digits_to_fill(d2),
    );
}

/// Carrying increment of a digit vector: the prefix of maximal
/// digits rolls over to zero and the next digit advances, which
/// raises the vector's value by exactly one.
proof fn lemma_inc_val(old_ds: Seq<usize>, new_ds: Seq<usize>, i: int, b: nat)
    requires
        b >= 1,
        0 <= i < old_ds.len(),
        new_ds.len() == old_ds.len(),
        forall|j: int| 0 <= j < i ==> #[trigger] old_ds[j] == b - 1,
        forall|j: int| 0 <= j < i ==> #[trigger] new_ds[j] == 0,
        new_ds[i] == old_ds[i] + 1,
        forall|j: int| i < j < old_ds.len() ==> #[trigger] new_ds[j] == old_ds[j],
    ensures
        digits_val(new_ds, b) == digits_val(old_ds, b) + 1,
    decreases i,
{
    if i == 0 {
        assert(new_ds.skip(1) =~= old_ds.skip(1));
    } else {
        let ot = old_ds.skip(1);
        let nt = new_ds.skip(1);
        assert forall|j: int| 0 <= j < i - 1 implies #[trigger] ot[j] == b - 1 by {
            assert(old_ds[j + 1] == b - 1);
        }
        assert forall|j: int| 0 <= j < i - 1 implies #[trigger] nt[j] == 0 by {
            assert(new_ds[j + 1] == 0);
        }
        assert(nt[i - 1] == old_ds[i] + 1);
        assert forall|j: int| i - 1 < j < ot.len() implies #[trigger] nt[j] == ot[j] by {
            assert(new_ds[j + 1] == old_ds[j + 1]);
        }
        lemma_inc_val(ot, nt, i - 1, b);
        let v = digits_val(ot, b);
        assert(digits_val(nt, b) == v + 1);
        assert(b * (v + 1) == b * v + b) by (nonlinear_arith);
    }
}

/// Enumerates the fillings of one fixed skeleton by counting.
pub struct ExprIdx {
    arg_count: usize,
    limit_reached: bool,
    skele: ExprSkeleton,
    hole_buff: Vec<usize>,
}

impl ExprIdx {
    /// The digit vector currently held.
    pub closed spec fn digits(&self) -> Seq<usize> {
        self.hole_buff@
    }

    /// Whether the fillings of the current skeleton are exhausted.
    pub closed spec fn exhausted(&self) -> bool {
        self.limit_reached
    }

    /// The skeleton whose fillings are being enumerated.
    pub closed spec fn skeleton(&self) -> ExprSkeleton {
        self.skele
    }

    /// The declared number of arguments.
    pub closed spec fn args(&self) -> nat {
        self.arg_count as nat
    }

    /// Internal consistency: one digit per hole, every digit in base
    /// `arg_count + 1`.
    pub closed spec fn inv(&self) -> bool {
        &&& self.hole_buff@.len() == self.skele.spec_holes()
        &&& forall|j: int|
            0 <= j < self.hole_buff@.len() ==> #[trigger] self.hole_buff@[j] <= self.arg_count
    }

    /// An empty enumerator; `reset` gives it a skeleton to work on.
    pub fn new(arg_count: usize) -> (r: Self)
        ensures
            r.inv(),
            r.exhausted(),
            r.args() == arg_count,
    {
        let mut r = ExprIdx {
            skele: Expr::Variable(()),
            limit_reached: true,
            arg_count,
            hole_buff: Vec::new(),
        };
        r.hole_buff.push(0);
        r
    }

    /// Starts enumerating the fillings of `new_skele` from the first
    /// one (every hole a constant hole).
    pub fn reset(&mut self, new_skele: ExprSkeleton)
        requires
            new_skele.spec_holes() <= usize::MAX,
        ensures
            final(self).inv(),
            !final(self).exhausted(),
            final(self).skeleton() == new_skele,
            final(self).args() == old(self).args(),
            digits_val(final(self).digits(), old(self).args() + 1) == 0,
    {
        let h = new_skele.count_holes();
        self.hole_buff.clear();
        self.limit_reached = false;
        self.skele = new_skele;
        while self.hole_buff.len() < h
            invariant
                self.hole_buff@.len() <= h,
                h == new_skele.spec_holes(),
                self.skele == new_skele,
                self.limit_reached == false,
                self.arg_count == old(self).arg_count,
                forall|j: int| 0 <= j < self.hole_buff@.len() ==> #[trigger] self.hole_buff@[j] == 0,
            decreases h - self.hole_buff@.len(),
        {
            self.hole_buff.push(0);
        }
        proof {
            lemma_zero_val(self.hole_buff@, (self.arg_count + 1) as nat);
        }
    }

    /// The leaf payload digit `digit` stands for.
    fn digit_to_var(&self, digit: usize) -> (r: Variable)
        ensures
            r == spec_digit_to_var(digit),
    {
        if digit == 0 {
            Variable::UnknownConst
        } else {
            Variable::Argument(digit - 1)
        }
    }

    /// Whether the fillings of the current skeleton are exhausted.
    pub fn is_empty(&self) -> (r: bool)
        ensures
            r == self.exhausted(),
    {
        self.limit_reached
    }

    /// Advances to the next filling; past the last one, marks the
    /// enumerator exhausted instead. Each step raises the digit
    /// vector's value by exactly one, and the rollover to exhausted
    /// happens exactly when every digit was maximal: together, the
    /// `(k+1)^h` fillings of one skeleton are each counted once.
    pub fn increment(&mut self)
        requires
            old(self).inv(),
        ensures
            final(self).inv(),
            final(self).skeleton() == old(self).skeleton(),
            final(self).args() == old(self).args(),
            final(self).digits().len() == old(self).digits().len(),
            old(self).exhausted() ==> *final(self) == *old(self),
            !old(self).exhausted() ==> (final(self).exhausted() <==> (forall|j: int|
                0 <= j < old(self).digits().len() ==> #[trigger] old(self).digits()[j] == old(
                    self,
                ).args())),
            !old(self).exhausted() && !final(self).exhausted() ==> digits_val(
                final(self).digits(),
                old(self).args() + 1,
            ) == digits_val(old(self).digits(), old(self).args() + 1) + 1,
    {
        if self.limit_reached {
            return ;
        }
        let n = self.hole_buff.len();
        let mut i: usize = 0;
        while i < n
            invariant
                self.inv(),
                n == self.hole_buff@.len(),
                i <= n,
                self.limit_reached == false,
                old(self).limit_reached == false,
                self.skele == old(self).skele,
                self.arg_count == old(self).arg_count,
                self.hole_buff@.len() == old(self).hole_buff@.len(),
                forall|j: int|
                    0 <= j < i ==> #[trigger] old(self).hole_buff@[j] == self.arg_count,
                forall|j: int| 0 <= j < i ==> #[trigger] self.hole_buff@[j] == 0,
                forall|j: int|
                    i <= j < n ==> #[trigger] self.hole_buff@[j] == old(self).hole_buff@[j],
            decreases n - i,
        {
            let d = self.hole_buff[i];
            assert(d == old(self).hole_buff@[i as int]);
            if d < self.arg_count {
                assert(old(self).digits()[i as int] != old(self).args());
                self.hole_buff[i] = d + 1;
                proof {
                    let b = (self.arg_count + 1) as nat;
                    assert(self.hole_buff@[i as int] == old(self).hole_buff@[i as int] + 1);
                    lemma_inc_val(old(self).hole_buff@, self.hole_buff@, i as int, b);
                }
                return ;
            }
            assert(d == self.arg_count);
            self.hole_buff[i] = 0;
            assert(self.hole_buff@[i as int] == 0);
            i = i + 1;
        }
        self.limit_reached = true;
    }

    /// Yields the filling currently counted, as a candidate of the
    /// current skeleton, and advances; `None` once exhausted.
    pub fn next(&mut self) -> (r: Option<Expr>)
        requires
            old(self).inv(),
        ensures
            final(self).inv(),
            final(self).skeleton() == old(self).skeleton(),
            final(self).args() == old(self).args(),
            old(self).exhausted() ==> r is None && *final(self) == *old(self),
            !old(self).exhausted() ==> r == Some(
                old(self).skeleton().spec_fill(spec_digits_to_fill(old(self).digits())),
            ),
            r matches Some(e) ==> e.args_bounded(old(self).args())
                && crate::expr::leaves_in_alphabet(e, old(self).args()) && e.spec_depth() == old(
                self,
            ).skeleton().spec_depth(),
            !old(self).exhausted() && !final(self).exhausted() ==> digits_val(
                final(self).digits(),
                old(self).args() + 1,
            ) == digits_val(old(self).digits(), old(self).args() + 1) + 1,
    {
        if self.limit_reached {
            return None;
        }
        let n = self.hole_buff.len();
        let mut fill: Vec<Variable> = Vec::new();
        let mut i: usize = 0;
        while i < n
            invariant
                self.inv(),
                n == self.hole_buff@.len(),
                i <= n,
                fill@.len() == i,
                forall|j: int|
                    0 <= j < i ==> #[trigger] fill@[j] == spec_digit_to_var(self.hole_buff@[j]),
            decreases n - i,
        {
            let v = self.digit_to_var(self.hole_buff[i]);
            fill.push(v);
            i = i + 1;
        }
        proof {
            assert(fill@ =~= spec_digits_to_fill(self.hole_buff@));
        }
        let res = self.skele.to_expr(&fill);
        proof {
            crate::expr::lemma_fill_shape(self.skele, fill@);
            assert(forall|j: int|
                0 <= j < fill@.len() ==> (#[trigger] fill@[j] matches Variable::Argument(a)
                    ==> (a as nat) < self.args()));
            crate::expr::lemma_fill_args_bounded(self.skele, fill@, self.args());
            assert(forall|j: int|
                0 <= j < fill@.len() ==> match #[trigger] fill@[j] {
                    Variable::UnknownConst => true,
                    Variable::Const(_) => false,
                    Variable::Argument(a) => (a as nat) < self.args(),
                });
            crate::expr::lemma_fill_alphabet(self.skele, fill@, self.args());
        }
        self.increment();
        Some(res)
    }
}

/// The one-operator skeleton of a unary operator.
pub open spec fn spec_unop_skel(k: UnopKind) -> ExprSkeleton {
    Expr::Unop(k, Box::new(Expr::Variable(())))
}

/// The one-operator skeleton of a binary operator.
pub open spec fn spec_binop_skel(k: BinopKind) -> ExprSkeleton {
    Expr::Binop(k, Box::new(Expr::Variable(())), Box::new(Expr::Variable(())))
}

/// The nine one-operator skeletons, in the fixed order in which the
/// enumeration tries them.
pub open spec fn spec_hole_substs() -> Seq<ExprSkeleton> {
    seq![
        spec_unop_skel(UnopKind::Negate),
        spec_unop_skel(UnopKind::Not),
        spec_binop_skel(BinopKind::And),
        spec_binop_skel(BinopKind::Or),
        spec_binop_skel(BinopKind::Xor),
        spec_binop_skel(BinopKind::Plus),
        spec_binop_skel(BinopKind::Minus),
        spec_binop_skel(BinopKind::Shl),
        spec_binop_skel(BinopKind::ShrA),
    ]
}

/// The children of a skeleton at one hole: each operator skeleton
/// substituted there, in the fixed order.
pub open spec fn spec_substs_at(s: ExprSkeleton, h: int) -> Seq<ExprSkeleton> {
    spec_hole_substs().map_values(|sub: ExprSkeleton| s.spec_subst(h, sub))
}

/// The children of a skeleton over its first `h` holes, hole by
/// hole and operator by operator.
pub open spec fn spec_grow_take(s: ExprSkeleton, h: int) -> Seq<ExprSkeleton>
    decreases h,
{
    if h <= 0 {
        Seq::empty()
    } else {
        spec_grow_take(s, h - 1) + spec_substs_at(s, h - 1)
    }
}

/// All the children of a skeleton: every hole substituted by every
/// operator skeleton.
pub open spec fn spec_grow(s: ExprSkeleton) -> Seq<ExprSkeleton> {
    spec_grow_take(s, s.spec_holes() as int)
}

/// All the children of a level's skeletons, in order.
pub open spec fn spec_grow_level(skels: Seq<ExprSkeleton>) -> Seq<ExprSkeleton>
    decreases skels.len(),
{
    if skels.len() == 0 {
        Seq::empty()
    } else {
        spec_grow(skels[0]) + spec_grow_level(skels.drop_first())
    }
}

/// Appending one more skeleton extends the children at the end.
proof fn lemma_grow_level_push(skels: Seq<ExprSkeleton>, x: ExprSkeleton)
    ensures
        spec_grow_level(skels.push(x)) == spec_grow_level(skels) + spec_grow(x),
    decreases skels.len(),
{
    if skels.len() == 0 {
        assert(skels.push(x).drop_first() =~= Seq::<ExprSkeleton>::empty());
        assert(spec_grow_level(skels.push(x).drop_first()) == Seq::<ExprSkeleton>::empty());
        assert(skels.push(x)[0] == x);
        assert(spec_grow_level(skels.push(x)) =~= spec_grow(x));
        assert(spec_grow_level(skels) + spec_grow(x) =~= spec_grow(x));
    } else {
        lemma_grow_level_push(skels.drop_first(), x);
        assert(skels.push(x).drop_first() =~= skels.drop_first().push(x));
        assert(skels.push(x)[0] == skels[0]);
        assert(spec_grow_level(skels.push(x)) =~= spec_grow_level(skels) + spec_grow(x));
    }
}

/// Keeping a skeleton within the depth limit.
pub open spec fn depth_within(limit: nat) -> spec_fn(ExprSkeleton) -> bool {
    |s: ExprSkeleton| s.spec_depth() <= limit
}

/// Enumerates skeleton shapes breadth-first up to a depth limit.
pub struct SkeletonIdx {
    depth_limit: usize,
    skeleton_idx: usize,
    skeletons: Vec<ExprSkeleton>,
}

impl SkeletonIdx {
    /// The configured depth limit.
    pub closed spec fn limit(&self) -> nat {
        self.depth_limit as nat
    }

    /// Internal consistency: a workable depth limit, and no stored
    /// skeleton deeper than it.
    pub closed spec fn inv(&self) -> bool {
        &&& self.depth_limit <= 30
        &&& self.skeleton_idx <= self.skeletons@.len()
        &&& forall|i: int|
            0 <= i < self.skeletons@.len() ==> (#[trigger] self.skeletons@[i]).spec_depth()
                <= self.depth_limit
    }

    /// Starts at the single-hole skeleton.
    pub fn new(depth_limit: usize) -> (r: Self)
        requires
            depth_limit <= 30,
        ensures
            r.inv(),
            r.limit() == depth_limit,
            r.level() == seq![Expr::<()>::Variable(())],
            r.pending() == r.level(),
    {
        let mut skeletons: Vec<ExprSkeleton> = Vec::new();
        skeletons.push(Expr::Variable(()));
        let r = SkeletonIdx { depth_limit, skeleton_idx: 0, skeletons };
        proof {
            assert(r.level() =~= seq![Expr::<()>::Variable(())]);
            assert(r.pending() =~= r.level());
        }
        r
    }

    /// The skeletons of the current level not yet yielded, in order.
    pub closed spec fn pending(&self) -> Seq<ExprSkeleton> {
        self.skeletons@.skip(self.skeleton_idx as int)
    }

    /// Yields the next pending skeleton of the current level, or
    /// `None` when the level is exhausted.
    pub fn next(&mut self) -> (r: Option<ExprSkeleton>)
        requires
            old(self).inv(),
        ensures
            final(self).inv(),
            final(self).limit() == old(self).limit(),
            old(self).pending().len() == 0 ==> r is None && *final(self) == *old(self),
            old(self).pending().len() > 0 ==> r == Some(old(self).pending()[0])
                && final(self).pending() == old(self).pending().drop_first(),
            r matches Some(s) ==> s.spec_depth() <= old(self).limit() && s.spec_holes()
                <= usize::MAX,
    {
        if self.skeleton_idx < self.skeletons.len() {
            let s = self.skeletons[self.skeleton_idx].clone();
            self.skeleton_idx = self.skeleton_idx + 1;
            proof {
                crate::expr::lemma_holes_small(s);
                assert(old(self).pending()[0] == s);
                assert(self.pending() =~= old(self).pending().drop_first());
            }
            Some(s)
        } else {
            proof {
                assert(self.pending().len() == 0);
            }
            None
        }
    }

    /// The nine one-operator skeletons: each operator applied to
    /// fresh holes, in the fixed order.
    fn all_hole_substs() -> (r: Vec<ExprSkeleton>)
        ensures
            r@ == spec_hole_substs(),
            forall|i: int|
                0 <= i < r@.len() ==> (#[trigger] r@[i]).spec_depth() == 1 && r@[i].spec_holes()
                    <= 2,
    {
        let mut r: Vec<ExprSkeleton> = Vec::new();
        r.push(Self::unop_subst(UnopKind::Negate));
        r.push(Self::unop_subst(UnopKind::Not));
        r.push(Self::binop_subst(BinopKind::And));
        r.push(Self::binop_subst(BinopKind::Or));
        r.push(Self::binop_subst(BinopKind::Xor));
        r.push(Self::binop_subst(BinopKind::Plus));
        r.push(Self::binop_subst(BinopKind::Minus));
        r.push(Self::binop_subst(BinopKind::Shl));
        r.push(Self::binop_subst(BinopKind::ShrA));
        proof {
            assert(r@ =~= spec_hole_substs());
        }
        r
    }

    /// The skeleton of one unary operator applied to a hole.
    fn unop_subst(k: UnopKind) -> (r: ExprSkeleton)
        ensures
            r == spec_unop_skel(k),
            r.spec_depth() == 1,
            r.spec_holes() == 1,
    {
        let hole: ExprSkeleton = Expr::Variable(());
        proof {
            assert(hole.spec_depth() == 0);
            assert(hole.spec_holes() == 1);
        }
        Expr::Unop(k, Box::new(hole))
    }

    /// The skeleton of one binary operator applied to two holes.
    fn binop_subst(k: BinopKind) -> (r: ExprSkeleton)
        ensures
            r == spec_binop_skel(k),
            r.spec_depth() == 1,
            r.spec_holes() == 2,
    {
        let hole: ExprSkeleton = Expr::Variable(());
        proof {
            assert(hole.spec_depth() == 0);
            assert(hole.spec_holes() == 1);
        }
        Expr::Binop(k, Box::new(hole.clone()), Box::new(hole))
    }

    /// Pushes onto `out` every skeleton that replaces one hole of
    /// `skele` by one of `substs`: hole by hole, operator by
    /// operator.
    fn grow_skeleton(skele: &ExprSkeleton, substs: &Vec<ExprSkeleton>, out: &mut Vec<ExprSkeleton>)
        requires
            skele.spec_depth() <= 30,
            substs@ == spec_hole_substs(),
            forall|i: int|
                0 <= i < substs@.len() ==> (#[trigger] substs@[i]).spec_depth() == 1
                    && substs@[i].spec_holes() <= 2,
            forall|i: int|
                0 <= i < old(out)@.len() ==> (#[trigger] old(out)@[i]).spec_depth() <= 31,
        ensures
            final(out)@ == old(out)@ + spec_grow(*skele),
            forall|i: int|
                0 <= i < final(out)@.len() ==> (#[trigger] final(out)@[i]).spec_depth() <= 31,
    {
        proof {
            crate::expr::lemma_holes_small(*skele);
        }
        let hole_count = skele.count_holes();
        let mut hole_idx: usize = 0;
        proof {
            assert(out@ =~= old(out)@ + spec_grow_take(*skele, 0));
        }
        while hole_idx < hole_count
            invariant
                skele.spec_depth() <= 30,
                hole_count == skele.spec_holes(),
                hole_idx <= hole_count,
                substs@ == spec_hole_substs(),
                forall|i: int|
                    0 <= i < substs@.len() ==> (#[trigger] substs@[i]).spec_depth() == 1
                        && substs@[i].spec_holes() <= 2,
                out@ == old(out)@ + spec_grow_take(*skele, hole_idx as int),
                forall|i: int| 0 <= i < out@.len() ==> (#[trigger] out@[i]).spec_depth() <= 31,
            decreases hole_count - hole_idx,
        {
            let n_substs = substs.len();
            let mut si: usize = 0;
            while si < n_substs
                invariant
                    skele.spec_depth() <= 30,
                    hole_idx < hole_count,
                    hole_count == skele.spec_holes(),
                    n_substs == substs@.len(),
                    si <= n_substs,
                    substs@ == spec_hole_substs(),
                    forall|i: int|
                        0 <= i < substs@.len() ==> (#[trigger] substs@[i]).spec_depth() == 1
                            && substs@[i].spec_holes() <= 2,
                    out@ == old(out)@ + spec_grow_take(*skele, hole_idx as int) + spec_substs_at(
                        *skele,
                        hole_idx as int,
                    ).take(si as int),
                    forall|i: int| 0 <= i < out@.len() ==> (#[trigger] out@[i]).spec_depth() <= 31,
                decreases n_substs - si,
            {
                proof {
                    crate::expr::lemma_holes_small(*skele);
                    crate::expr::lemma_subst_depth(
                        *skele,
                        hole_idx as int,
                        substs@[si as int],
                    );
                }
                let grown = skele.subst_hole(hole_idx, &substs[si]);
                out.push(grown);
                proof {
                    let at = spec_substs_at(*skele, hole_idx as int);
                    assert(at[si as int] == skele.spec_subst(hole_idx as int, substs@[si as int]));
                    assert(at.take(si as int + 1) =~= at.take(si as int).push(at[si as int]));
                    assert(out@ =~= old(out)@ + spec_grow_take(*skele, hole_idx as int) + at.take(
                        si as int + 1,
                    ));
                }
                si = si + 1;
            }
            proof {
                assert(spec_substs_at(*skele, hole_idx as int).take(n_substs as int)
                    =~= spec_substs_at(*skele, hole_idx as int));
                assert(spec_grow_take(*skele, hole_idx as int + 1) == spec_grow_take(
                    *skele,
                    hole_idx as int,
                ) + spec_substs_at(*skele, hole_idx as int));
                assert(out@ =~= old(out)@ + spec_grow_take(*skele, hole_idx as int + 1));
            }
            hole_idx = hole_idx + 1;
        }
    }

    /// The skeletons of the current level, in order.
    pub closed spec fn level(&self) -> Seq<ExprSkeleton> {
        self.skeletons@
    }

    /// Moves to the next level: replaces every hole of every current
    /// skeleton with each operator applied to fresh holes, in order,
    /// and drops the shapes that exceed the depth limit.
    pub fn expand_holes(&mut self)
        requires
            old(self).inv(),
        ensures
            final(self).inv(),
            final(self).limit() == old(self).limit(),
            final(self).level() == spec_grow_level(old(self).level()).filter(
                depth_within(old(self).limit()),
            ),
            final(self).pending() == final(self).level(),
    {
        self.skeleton_idx = 0;
        let substs = Self::all_hole_substs();
        let mut grown: Vec<ExprSkeleton> = Vec::new();
        let n = self.skeletons.len();
        let mut i: usize = 0;
        proof {
            assert(self.skeletons@.take(0) =~= Seq::<ExprSkeleton>::empty());
        }
        while i < n
            invariant
                self.inv(),
                n == self.skeletons@.len(),
                i <= n,
                self.skeletons@ == old(self).skeletons@,
                self.depth_limit == old(self).depth_limit,
                substs@ == spec_hole_substs(),
                forall|j: int|
                    0 <= j < substs@.len() ==> (#[trigger] substs@[j]).spec_depth() == 1
                        && substs@[j].spec_holes() <= 2,
                grown@ == spec_grow_level(self.skeletons@.take(i as int)),
                forall|j: int| 0 <= j < grown@.len() ==> (#[trigger] grown@[j]).spec_depth() <= 31,
            decreases n - i,
        {
            Self::grow_skeleton(&self.skeletons[i], &substs, &mut grown);
            proof {
                lemma_grow_level_push(
                    self.skeletons@.take(i as int),
                    self.skeletons@[i as int],
                );
                assert(self.skeletons@.take(i as int).push(self.skeletons@[i as int])
                    =~= self.skeletons@.take(i as int + 1));
            }
            i = i + 1;
        }
        proof {
            assert(self.skeletons@.take(n as int) =~= self.skeletons@);
        }
        let ghost pred = depth_within(self.depth_limit as nat);
        let mut retained: Vec<ExprSkeleton> = Vec::new();
        let m = grown.len();
        let mut j: usize = 0;
        proof {
            reveal(Seq::filter);
            assert(retained@ =~= grown@.take(0).filter(pred));
        }
        while j < m
            invariant
                self.inv(),
                self.depth_limit == old(self).depth_limit,
                m == grown@.len(),
                j <= m,
                grown@ == spec_grow_level(old(self).skeletons@),
                pred == depth_within(self.depth_limit as nat),
                forall|t: int| 0 <= t < grown@.len() ==> (#[trigger] grown@[t]).spec_depth() <= 31,
                retained@ == grown@.take(j as int).filter(pred),
                forall|t: int|
                    0 <= t < retained@.len() ==> (#[trigger] retained@[t]).spec_depth()
                        <= self.depth_limit,
            decreases m - j,
        {
            let d = grown[j].expr_depth();
            if d <= self.depth_limit {
                let s = grown[j].clone();
                retained.push(s);
            }
            proof {
                reveal(Seq::filter);
                let prefix = grown@.take(j as int);
                let next = grown@.take(j as int + 1);
                assert(next =~= prefix.push(grown@[j as int]));
                assert(next.drop_last() =~= prefix);
                assert(next.last() == grown@[j as int]);
                assert(next.filter(pred) == if pred(grown@[j as int]) {
                    prefix.filter(pred).push(grown@[j as int])
                } else {
                    prefix.filter(pred)
                });
            }
            j = j + 1;
        }
        proof {
            assert(grown@.take(m as int) =~= grown@);
        }
        self.skeletons = retained;
        proof {
            assert(self.pending() =~= self.skeletons@);
        }
    }
}

/// Couples the two enumerations: every skeleton crossed with every
/// filling, in a deterministic order.
pub struct ExprBreadth {
    expr_iter: ExprIdx,
    skele_iter: SkeletonIdx,
}

impl ExprBreadth {
    /// The declared number of arguments.
    pub closed spec fn args(&self) -> nat {
        self.expr_iter.args()
    }

    /// The configured depth limit.
    pub closed spec fn limit(&self) -> nat {
        self.skele_iter.limit()
    }

    /// Internal consistency; while a skeleton is being filled it
    /// stays within the depth limit.
    pub closed spec fn inv(&self) -> bool {
        &&& self.expr_iter.inv()
        &&& self.skele_iter.inv()
        &&& !self.expr_iter.exhausted() ==> self.expr_iter.skeleton().spec_depth()
            <= self.skele_iter.limit()
    }

    /// Builds the enumerator for `arg_count` arguments and skeletons
    /// up to `depth_limit`.
    pub fn new(arg_count: usize, depth_limit: usize) -> (r: Self)
        requires
            depth_limit <= 30,
        ensures
            r.inv(),
            r.args() == arg_count,
            r.limit() == depth_limit,
    {
        ExprBreadth { expr_iter: ExprIdx::new(arg_count), skele_iter: SkeletonIdx::new(depth_limit) }
    }

    /// The skeleton whose fillings are being enumerated.
    pub closed spec fn current_skeleton(&self) -> ExprSkeleton {
        self.expr_iter.skeleton()
    }

    /// The digit vector of the current filling.
    pub closed spec fn digits(&self) -> Seq<usize> {
        self.expr_iter.digits()
    }

    /// Whether the current skeleton's fillings are exhausted.
    pub closed spec fn filling_exhausted(&self) -> bool {
        self.expr_iter.exhausted()
    }

    /// Yields the next candidate: within its depth limit and over the
    /// declared arguments. While the current skeleton has fillings
    /// left, the yield is exactly the skeleton filled with the
    /// current digit vector. `None` once every skeleton at every
    /// depth within the limit is exhausted.
    pub fn next(&mut self) -> (r: Option<Expr>)
        requires
            old(self).inv(),
        ensures
            final(self).inv(),
            final(self).args() == old(self).args(),
            final(self).limit() == old(self).limit(),
            !old(self).filling_exhausted() ==> r == Some(
                old(self).current_skeleton().spec_fill(spec_digits_to_fill(old(self).digits())),
            ),
            r matches Some(e) ==> e.args_bounded(old(self).args())
                && crate::expr::leaves_in_alphabet(e, old(self).args()) && e.spec_depth() <= old(
                self,
            ).limit(),
    {
        if self.expr_iter.is_empty() {
            let first = self.skele_iter.next();
            let skele = match first {
                Some(s) => Some(s),
                None => {
                    self.skele_iter.expand_holes();
                    self.skele_iter.next()
                },
            };
            match skele {
                Some(s) => self.expr_iter.reset(s),
                None => {
                    return None;
                },
            }
        }
        self.expr_iter.next()
    }
}

/// The exhaustive generator: enumerates every candidate up to the
/// depth limit and ignores counter-example feedback.
pub struct BruteEnum {
    breadth: ExprBreadth,
}

impl Synthesizer for BruteEnum {
    closed spec fn arg_count(&self) -> nat {
        self.breadth.args()
    }

    closed spec fn inv(&self) -> bool {
        self.breadth.inv()
    }

    fn build(var_count: usize, depth_limit: usize) -> (r: Self)
        ensures
            r.depth_limit() == depth_limit,
    {
        BruteEnum { breadth: ExprBreadth::new(var_count, depth_limit) }
    }

    fn bad_cand(&mut self, cand: &Expr, args: Vec<crate::expr::ExprVal>, expected: crate::expr::ExprVal)
        ensures
            *final(self) == *old(self),
    {
        // A brute does not learn: the state is untouched.
    }

    fn next_expr(&mut self) -> (r: Option<Expr>)
        ensures
            r matches Some(e) ==> e.spec_depth() <= old(self).depth_limit()
                && crate::expr::leaves_in_alphabet(e, old(self).arg_count()),
            final(self).depth_limit() == old(self).depth_limit(),
    {
        self.breadth.next()
    }
}

impl BruteEnum {
    /// The configured depth limit.
    pub closed spec fn depth_limit(&self) -> nat {
        self.breadth.limit()
    }
}

/// A vector of zero digits has value zero.
proof fn lemma_zero_val(ds: Seq<usize>, b: nat)
    requires
        forall|j: int| 0 <= j < ds.len() ==> #[trigger] ds[j] == 0,
    ensures
        digits_val(ds, b) == 0,
    decreases ds.len(),
{
    if ds.len() > 0 {
        lemma_zero_val(ds.skip(1), b);
        assert(b * 0 == 0) by (nonlinear_arith);
    }
}

} // verus!
