//! The expression algebra: candidate expressions over a small
//! algebraic/bitwise language, their interpreter, and the skeleton
//! operations used by the enumerating generators.
//!
//! All arithmetic is modular two's-complement at the fixed width of 32
//! bits; `Shl` and `ShrA` take the right operand modulo the width, and
//! `ShrA` is the arithmetic (sign-extending) shift.

use vstd::prelude::*;
use vstd::wrapping::i32_specs;

verus! {

/// Width, in bits, of every value the synthesizer reasons about.
pub const BITS_PER_VAL: u32 = 32;

/// The value domain: fixed-width signed integers.
pub type ExprVal = i32;

/// Leaf payload of a resolved answer: a named argument or a constant.
#[derive(Debug, Clone, PartialEq, Eq, Hash)]
pub enum Value {
    Arg(String),
    Const(ExprVal),
}

/// Leaf payload of a search-time candidate: an unnamed constant hole,
/// a fixed constant, or an argument index.
#[derive(Debug, Clone, Copy, PartialEq, Eq, Hash, Structural)]
pub enum Variable {
    UnknownConst,
    Const(ExprVal),
    Argument(usize),
}

/// The unary operators of the language.
#[derive(Debug, Clone, Copy, PartialEq, Eq, Hash, Structural)]
pub enum UnopKind {
    Not,
    Negate,
}

/// The binary operators of the language.
#[derive(Debug, Clone, Copy, PartialEq, Eq, Hash, Structural)]
pub enum BinopKind {
    And,
    Or,
    Xor,
    Plus,
    Minus,
    Shl,
    ShrA,
}

/// An expression tree, parameterized by its leaf payload `V`.
#[derive(Debug, PartialEq, Eq, Hash)]
pub enum Expr<V = Variable> {
    Variable(V),
    Unop(UnopKind, Box<Expr<V>>),
    Binop(BinopKind, Box<Expr<V>>, Box<Expr<V>>),
}

/// A shape-only expression: every leaf is a hole.
pub type ExprSkeleton = Expr<()>;

/// A resolved answer: every leaf is an argument name or a constant.
pub type AnswerExpr = Expr<Value>;

/// Meaning of a unary operator: `Not` is the bitwise complement,
/// `Negate` the two's-complement negation.
pub open spec fn eval_unop(k: UnopKind, x: i32) -> i32 {
    match k {
        UnopKind::Not => !x,
        UnopKind::Negate => i32_specs::wrapping_sub(0i32, x),
    }
}

/// Meaning of a binary operator, modular at 32 bits; the shifts take
/// the right operand modulo the width.
pub open spec fn eval_binop(k: BinopKind, l: i32, r: i32) -> i32 {
    match k {
        BinopKind::And => l & r,
        BinopKind::Or => l | r,
        BinopKind::Xor => l ^ r,
        BinopKind::Plus => i32_specs::wrapping_add(l, r),
        BinopKind::Minus => i32_specs::wrapping_sub(l, r),
        BinopKind::Shl => i32_specs::wrapping_shl(l, r as u32),
        BinopKind::ShrA => i32_specs::wrapping_shr(l, r as u32),
    }
}

impl<V> Expr<V> {
    /// Depth of the expression: the longest child-to-root chain,
    /// `0` at a leaf.
    pub open spec fn spec_depth(self) -> nat
        decreases self,
    {
        match self {
            Expr::Variable(_) => 0,
            Expr::Unop(_, e) => 1 + e.spec_depth(),
            Expr::Binop(_, l, r) => {
                let dl = l.spec_depth();
                let dr = r.spec_depth();
                1 + if dl >= dr {
                    dl
                } else {
                    dr
                }
            },
        }
    }

    /// Computes the depth of the expression.
    pub fn expr_depth(&self) -> (r: usize)
        requires
            self.spec_depth() <= usize::MAX,
        ensures
            r == self.spec_depth(),
        decreases *self,
    {
        match self {
            Expr::Variable(_) => 0,
            Expr::Unop(_, e) => 1 + e.expr_depth(),
            Expr::Binop(_, l, r) => {
                let dl = l.expr_depth();
                let dr = r.expr_depth();
                1 + if dl >= dr {
                    dl
                } else {
                    dr
                }
            },
        }
    }
}

impl<V: Copy> Clone for Expr<V> {
    /// Structural copy of the tree.
    fn clone(&self) -> (r: Self)
        ensures
            r == *self,
        decreases *self,
    {
        match self {
            Expr::Variable(v) => Expr::Variable(*v),
            Expr::Unop(k, e) => Expr::Unop(*k, Box::new((**e).clone())),
            Expr::Binop(k, l, r) => Expr::Binop(
                *k,
                Box::new((**l).clone()),
                Box::new((**r).clone()),
            ),
        }
    }
}

impl Expr<()> {
    /// Number of holes: every leaf of a skeleton is a hole.
    pub open spec fn spec_holes(self) -> nat
        decreases self,
    {
        match self {
            Expr::Variable(_) => 1,
            Expr::Unop(_, e) => e.spec_holes(),
            Expr::Binop(_, l, r) => l.spec_holes() + r.spec_holes(),
        }
    }

    /// The candidate obtained by filling the holes, in left-to-right
    /// order, with the given leaf payloads.
    pub open spec fn spec_fill(self, fill: Seq<Variable>) -> Expr<Variable>
        recommends
            fill.len() == self.spec_holes(),
        decreases self,
    {
        match self {
            Expr::Variable(_) => Expr::Variable(fill[0]),
            Expr::Unop(k, e) => Expr::Unop(k, Box::new(e.spec_fill(fill))),
            Expr::Binop(k, l, r) => Expr::Binop(
                k,
                Box::new(l.spec_fill(fill.take(l.spec_holes() as int))),
                Box::new(r.spec_fill(fill.skip(l.spec_holes() as int))),
            ),
        }
    }

    /// The skeleton with hole number `t` (counted left to right from
    /// `0`) replaced by `sub`; out-of-range `t` leaves it unchanged.
    pub open spec fn spec_subst(self, t: int, sub: Expr<()>) -> Expr<()>
        decreases self,
    {
        match self {
            Expr::Variable(_) => if t == 0 {
                sub
            } else {
                self
            },
            Expr::Unop(k, e) => Expr::Unop(k, Box::new(e.spec_subst(t, sub))),
            Expr::Binop(k, l, r) => Expr::Binop(
                k,
                Box::new(l.spec_subst(t, sub)),
                Box::new(r.spec_subst(t - l.spec_holes(), sub)),
            ),
        }
    }

    /// Counts the holes of the skeleton.
    pub fn count_holes(&self) -> (r: usize)
        requires
            self.spec_holes() <= usize::MAX,
        ensures
            r == self.spec_holes(),
        decreases *self,
    {
        match self {
            Expr::Variable(_) => 1,
            Expr::Unop(_, e) => e.count_holes(),
            Expr::Binop(_, l, r) => {
                let hl = l.count_holes();
                let hr = r.count_holes();
                proof {
                    lemma_holes_pos(**r);
                }
                hl + hr
            },
        }
    }

    /// Fills the holes of the skeleton, in left-to-right order, with
    /// the leaf payloads of `fill`.
    pub fn to_expr(&self, fill: &Vec<Variable>) -> (r: Expr<Variable>)
        requires
            fill@.len() == self.spec_holes(),
        ensures
            r == self.spec_fill(fill@),
    {
        let (r, consumed) = self.fill_from(fill, 0);
        proof {
            assert(fill@.subrange(0, self.spec_holes() as int) =~= fill@);
        }
        r
    }

    /// Fills this subtree from `fill`, starting at hole `ofs`; returns
    /// the filled subtree and the index one past the last hole used.
    fn fill_from(&self, fill: &Vec<Variable>, ofs: usize) -> (r: (Expr<Variable>, usize))
        requires
            ofs + self.spec_holes() <= fill@.len(),
        ensures
            r.1 == ofs + self.spec_holes(),
            r.0 == self.spec_fill(fill@.subrange(ofs as int, ofs as int + self.spec_holes())),
        decreases *self,
    {
        let n = fill.len();
        match self {
            Expr::Variable(_) => {
                assert(self.spec_holes() == 1);
                (Expr::Variable(fill[ofs]), ofs + 1)
            },
            Expr::Unop(k, e) => {
                let (c, next) = e.fill_from(fill, ofs);
                (Expr::Unop(*k, Box::new(c)), next)
            },
            Expr::Binop(k, l, r) => {
                let (cl, mid) = l.fill_from(fill, ofs);
                let (cr, next) = r.fill_from(fill, mid);
                proof {
                    let whole = fill@.subrange(ofs as int, ofs as int + self.spec_holes());
                    assert(whole.take(l.spec_holes() as int)
                        =~= fill@.subrange(ofs as int, ofs as int + l.spec_holes()));
                    assert(whole.skip(l.spec_holes() as int)
                        =~= fill@.subrange(mid as int, mid as int + r.spec_holes()));
                }
                (Expr::Binop(*k, Box::new(cl), Box::new(cr)), next)
            },
        }
    }

    /// Replaces hole number `target_idx` with `skele`, keeping every
    /// other hole.
    pub fn subst_hole(&self, target_idx: usize, skele: &Expr<()>) -> (r: Self)
        requires
            self.spec_holes() <= usize::MAX,
        ensures
            r == self.spec_subst(target_idx as int, *skele),
    {
        let (r, consumed) = self.subst_from(target_idx, skele, 0);
        r
    }

    /// Substitution on this subtree, whose first hole has global
    /// number `ofs`; returns the new subtree and the number one past
    /// this subtree's last hole.
    fn subst_from(&self, target_idx: usize, skele: &Expr<()>, ofs: usize) -> (r: (Self, usize))
        requires
            ofs + self.spec_holes() <= usize::MAX,
        ensures
            r.1 == ofs + self.spec_holes(),
            r.0 == self.spec_subst(target_idx as int - ofs as int, *skele),
        decreases *self,
    {
        match self {
            Expr::Variable(u) => {
                assert(self.spec_holes() == 1);
                if target_idx == ofs {
                    (skele.clone(), ofs + 1)
                } else {
                    (Expr::Variable(*u), ofs + 1)
                }
            },
            Expr::Unop(k, e) => {
                let (c, next) = e.subst_from(target_idx, skele, ofs);
                (Expr::Unop(*k, Box::new(c)), next)
            },
            Expr::Binop(k, l, r) => {
                let (cl, mid) = l.subst_from(target_idx, skele, ofs);
                let (cr, next) = r.subst_from(target_idx, skele, mid);
                (Expr::Binop(*k, Box::new(cl), Box::new(cr)), next)
            },
        }
    }
}

/// A skeleton always has at least one hole.
pub proof fn lemma_holes_pos(s: Expr<()>)
    ensures
        s.spec_holes() >= 1,
    decreases s,
{
    match s {
        Expr::Variable(_) => {},
        Expr::Unop(_, e) => {
            lemma_holes_pos(*e);
        },
        Expr::Binop(_, l, r) => {
            lemma_holes_pos(*l);
            lemma_holes_pos(*r);
        },
    }
}

impl Expr<Variable> {
    /// Every argument index that occurs in the expression is below `k`.
    pub open spec fn args_bounded(self, k: nat) -> bool
        decreases self,
    {
        match self {
            Expr::Variable(v) => v matches Variable::Argument(i) ==> (i as nat) < k,
            Expr::Unop(_, e) => e.args_bounded(k),
            Expr::Binop(_, l, r) => l.args_bounded(k) && r.args_bounded(k),
        }
    }

    /// Value of the expression under an argument assignment and one
    /// shared value for every constant hole.
    pub open spec fn eval(self, args: Seq<ExprVal>, unknown: ExprVal) -> ExprVal
        decreases self,
    {
        match self {
            Expr::Variable(v) => match v {
                Variable::UnknownConst => unknown,
                Variable::Const(c) => c,
                Variable::Argument(i) => args[i as int],
            },
            Expr::Unop(k, e) => eval_unop(k, e.eval(args, unknown)),
            Expr::Binop(k, l, r) => eval_binop(k, l.eval(args, unknown), r.eval(args, unknown)),
        }
    }

    /// Interprets the expression: arguments are read from `args`, and
    /// every constant hole takes the value `unknown`.
    pub fn compute(&self, args: &Vec<ExprVal>, unknown: ExprVal) -> (r: ExprVal)
        requires
            self.args_bounded(args@.len()),
        ensures
            r == self.eval(args@, unknown),
        decreases *self,
    {
        match self {
            Expr::Variable(v) => match v {
                Variable::UnknownConst => unknown,
                Variable::Const(c) => *c,
                Variable::Argument(i) => args[*i],
            },
            Expr::Unop(k, e) => {
                let x = e.compute(args, unknown);
                match k {
                    UnopKind::Not => !x,
                    UnopKind::Negate => 0i32.wrapping_sub(x),
                }
            },
            Expr::Binop(k, l, r) => {
                let xl = l.compute(args, unknown);
                let xr = r.compute(args, unknown);
                match k {
                    BinopKind::And => xl & xr,
                    BinopKind::Or => xl | xr,
                    BinopKind::Xor => xl ^ xr,
                    BinopKind::Plus => xl.wrapping_add(xr),
                    BinopKind::Minus => xl.wrapping_sub(xr),
                    BinopKind::Shl => xl.wrapping_shl(#[verifier::truncate] (xr as u32)),
                    BinopKind::ShrA => xl.wrapping_shr(#[verifier::truncate] (xr as u32)),
                }
            },
        }
    }
}

impl Expr<Variable> {
    /// Number of constant holes (`UnknownConst` leaves), which are
    /// numbered left to right.
    pub open spec fn spec_unknowns(self) -> nat
        decreases self,
    {
        match self {
            Expr::Variable(v) => if v is UnknownConst {
                1
            } else {
                0
            },
            Expr::Unop(_, e) => e.spec_unknowns(),
            Expr::Binop(_, l, r) => l.spec_unknowns() + r.spec_unknowns(),
        }
    }

    /// Decides whether every argument index of the candidate is
    /// below `k`.
    pub fn check_args_bounded(&self, k: usize) -> (r: bool)
        ensures
            r == self.args_bounded(k as nat),
        decreases *self,
    {
        match self {
            Expr::Variable(v) => match v {
                Variable::Argument(i) => *i < k,
                _ => true,
            },
            Expr::Unop(_, e) => e.check_args_bounded(k),
            Expr::Binop(_, l, r) => l.check_args_bounded(k) && r.check_args_bounded(k),
        }
    }

    /// Counts the constant holes of the candidate.
    pub fn count_unknowns(&self) -> (r: usize)
        requires
            self.spec_unknowns() <= usize::MAX,
        ensures
            r == self.spec_unknowns(),
        decreases *self,
    {
        match self {
            Expr::Variable(v) => match v {
                Variable::UnknownConst => 1,
                _ => 0,
            },
            Expr::Unop(_, e) => e.count_unknowns(),
            Expr::Binop(_, l, r) => {
                let ul = l.count_unknowns();
                let ur = r.count_unknowns();
                ul + ur
            },
        }
    }

    /// The answer obtained by naming every argument index and giving
    /// every constant hole, in left-to-right order, its resolved value.
    pub open spec fn spec_to_ans(self, names: Seq<String>, hole_vals: Seq<ExprVal>) -> AnswerExpr
        recommends
            self.args_bounded(names.len()),
            hole_vals.len() == self.spec_unknowns(),
        decreases self,
    {
        match self {
            Expr::Variable(v) => match v {
                Variable::UnknownConst => Expr::Variable(Value::Const(hole_vals[0])),
                Variable::Const(c) => Expr::Variable(Value::Const(c)),
                Variable::Argument(i) => Expr::Variable(Value::Arg(names[i as int])),
            },
            Expr::Unop(k, e) => Expr::Unop(k, Box::new(e.spec_to_ans(names, hole_vals))),
            Expr::Binop(k, l, r) => Expr::Binop(
                k,
                Box::new(l.spec_to_ans(names, hole_vals.take(l.spec_unknowns() as int))),
                Box::new(r.spec_to_ans(names, hole_vals.skip(l.spec_unknowns() as int))),
            ),
        }
    }

    /// Resolves the candidate into an answer: argument indices become
    /// the corresponding names, and the constant holes take, left to
    /// right, the values of `hole_vals`.
    pub fn to_ans(&self, names: &Vec<String>, hole_vals: &Vec<ExprVal>) -> (r: AnswerExpr)
        requires
            self.args_bounded(names@.len()),
            hole_vals@.len() == self.spec_unknowns(),
        ensures
            r == self.spec_to_ans(names@, hole_vals@),
    {
        let (r, consumed) = self.ans_from(names, hole_vals, 0);
        proof {
            assert(hole_vals@.subrange(0, self.spec_unknowns() as int) =~= hole_vals@);
        }
        r
    }

    /// Resolution of this subtree, whose constant holes start at
    /// number `ofs`; returns the answer subtree and the number one
    /// past this subtree's last hole.
    fn ans_from(&self, names: &Vec<String>, hole_vals: &Vec<ExprVal>, ofs: usize) -> (r: (
        AnswerExpr,
        usize,
    ))
        requires
            self.args_bounded(names@.len()),
            ofs + self.spec_unknowns() <= hole_vals@.len(),
        ensures
            r.1 == ofs + self.spec_unknowns(),
            r.0 == self.spec_to_ans(
                names@,
                hole_vals@.subrange(ofs as int, ofs as int + self.spec_unknowns()),
            ),
        decreases *self,
    {
        let n = hole_vals.len();
        match self {
            Expr::Variable(v) => match v {
                Variable::UnknownConst => {
                    assert(self.spec_unknowns() == 1);
                    (Expr::Variable(Value::Const(hole_vals[ofs])), ofs + 1)
                },
                Variable::Const(c) => (Expr::Variable(Value::Const(*c)), ofs),
                Variable::Argument(i) => (Expr::Variable(Value::Arg(names[*i].clone())), ofs),
            },
            Expr::Unop(k, e) => {
                let (c, next) = e.ans_from(names, hole_vals, ofs);
                (Expr::Unop(*k, Box::new(c)), next)
            },
            Expr::Binop(k, l, r) => {
                let (cl, mid) = l.ans_from(names, hole_vals, ofs);
                let (cr, next) = r.ans_from(names, hole_vals, mid);
                proof {
                    let whole = hole_vals@.subrange(
                        ofs as int,
                        ofs as int + self.spec_unknowns(),
                    );
                    assert(whole.take(l.spec_unknowns() as int)
                        =~= hole_vals@.subrange(ofs as int, ofs as int + l.spec_unknowns()));
                    assert(whole.skip(l.spec_unknowns() as int)
                        =~= hole_vals@.subrange(mid as int, mid as int + r.spec_unknowns()));
                }
                (Expr::Binop(*k, Box::new(cl), Box::new(cr)), next)
            },
        }
    }
}

/// The decimal rendering of a value; it depends on the value alone.
pub uninterp spec fn decimal_of(v: i32) -> Seq<char>;

/// Relies on the standard formatter for the decimal rendering of a
/// fixed-width signed integer.
#[verifier::external_body]
fn i32_decimal(v: i32) -> (r: String)
    ensures
        r@ == decimal_of(v),
{
    format!("{v}")
}

/// The rendering of a unary operator, before its parenthesized
/// operand.
pub open spec fn spec_unop_text(k: UnopKind) -> Seq<char> {
    match k {
        UnopKind::Not => "!("@,
        UnopKind::Negate => "-("@,
    }
}

/// The rendering of a binary operator, between its operands.
pub open spec fn spec_binop_text(k: BinopKind) -> Seq<char> {
    match k {
        BinopKind::And => " & "@,
        BinopKind::Or => " | "@,
        BinopKind::Xor => " ^ "@,
        BinopKind::Plus => " + "@,
        BinopKind::Minus => " - "@,
        BinopKind::Shl => " << "@,
        BinopKind::ShrA => " >> "@,
    }
}

impl AnswerExpr {
    /// The fully parenthesized infix rendering of the answer.
    pub open spec fn spec_display(self) -> Seq<char>
        decreases self,
    {
        match self {
            Expr::Variable(v) => match v {
                Value::Arg(s) => s@,
                Value::Const(c) => decimal_of(c),
            },
            Expr::Unop(k, e) => spec_unop_text(k) + e.spec_display() + ")"@,
            Expr::Binop(k, l, r) => "("@ + l.spec_display() + spec_binop_text(k)
                + r.spec_display() + ")"@,
        }
    }

    /// Renders the answer fully parenthesized, infix, with `!` and
    /// `-` for the unary operators.
    pub fn to_display_string(&self) -> (r: String)
        ensures
            r@ == self.spec_display(),
        decreases *self,
    {
        match self {
            Expr::Variable(v) => match v {
                Value::Arg(s) => s.clone(),
                Value::Const(c) => i32_decimal(*c),
            },
            Expr::Unop(k, e) => {
                let mut s = String::new();
                match k {
                    UnopKind::Not => s.append("!("),
                    UnopKind::Negate => s.append("-("),
                }
                let inner = e.to_display_string();
                s.append(inner.as_str());
                s.append(")");
                proof {
                    assert(s@ =~= self.spec_display());
                }
                s
            },
            Expr::Binop(k, l, r) => {
                let mut s = String::new();
                s.append("(");
                let left = l.to_display_string();
                s.append(left.as_str());
                match k {
                    BinopKind::And => s.append(" & "),
                    BinopKind::Or => s.append(" | "),
                    BinopKind::Xor => s.append(" ^ "),
                    BinopKind::Plus => s.append(" + "),
                    BinopKind::Minus => s.append(" - "),
                    BinopKind::Shl => s.append(" << "),
                    BinopKind::ShrA => s.append(" >> "),
                }
                let right = r.to_display_string();
                s.append(right.as_str());
                s.append(")");
                proof {
                    assert(s@ =~= self.spec_display());
                }
                s
            },
        }
    }
}

/// Position of the first name equal to `x`, or `-1` when absent.
pub open spec fn find_name(names: Seq<String>, x: Seq<char>) -> int
    decreases names.len(),
{
    if names.len() == 0 {
        -1
    } else if names[0]@ == x {
        0
    } else {
        let r = find_name(names.skip(1), x);
        if r == -1 {
            -1
        } else {
            1 + r
        }
    }
}

impl AnswerExpr {
    /// Every argument name of the answer occurs among `names`.
    pub open spec fn names_found(self, names: Seq<String>) -> bool
        decreases self,
    {
        match self {
            Expr::Variable(v) => v matches Value::Arg(s) ==> find_name(names, s@) >= 0,
            Expr::Unop(_, e) => e.names_found(names),
            Expr::Binop(_, l, r) => l.names_found(names) && r.names_found(names),
        }
    }

    /// Value of the answer when each argument name of `names` takes
    /// the value of `vals` at the same position.
    pub open spec fn answer_eval(self, names: Seq<String>, vals: Seq<ExprVal>) -> ExprVal
        decreases self,
    {
        match self {
            Expr::Variable(v) => match v {
                Value::Arg(s) => vals[find_name(names, s@)],
                Value::Const(c) => c,
            },
            Expr::Unop(k, e) => eval_unop(k, e.answer_eval(names, vals)),
            Expr::Binop(k, l, r) => eval_binop(
                k,
                l.answer_eval(names, vals),
                r.answer_eval(names, vals),
            ),
        }
    }

    /// Interprets the answer: each argument name is looked up in
    /// `names` and takes the value of `vals` at the same position.
    pub fn compute_answer(&self, names: &Vec<String>, vals: &Vec<ExprVal>) -> (r: ExprVal)
        requires
            self.names_found(names@),
            vals@.len() == names@.len(),
        ensures
            r == self.answer_eval(names@, vals@),
        decreases *self,
    {
        match self {
            Expr::Variable(v) => match v {
                Value::Arg(s) => {
                    let i = lookup_name(names, s);
                    vals[i]
                },
                Value::Const(c) => *c,
            },
            Expr::Unop(k, e) => {
                let x = e.compute_answer(names, vals);
                match k {
                    UnopKind::Not => !x,
                    UnopKind::Negate => 0i32.wrapping_sub(x),
                }
            },
            Expr::Binop(k, l, r) => {
                let xl = l.compute_answer(names, vals);
                let xr = r.compute_answer(names, vals);
                match k {
                    BinopKind::And => xl & xr,
                    BinopKind::Or => xl | xr,
                    BinopKind::Xor => xl ^ xr,
                    BinopKind::Plus => xl.wrapping_add(xr),
                    BinopKind::Minus => xl.wrapping_sub(xr),
                    BinopKind::Shl => xl.wrapping_shl(#[verifier::truncate] (xr as u32)),
                    BinopKind::ShrA => xl.wrapping_shr(#[verifier::truncate] (xr as u32)),
                }
            },
        }
    }
}

/// Finds the first position of `x` among `names`.
pub fn lookup_name(names: &Vec<String>, x: &String) -> (r: usize)
    requires
        find_name(names@, x@) >= 0,
    ensures
        r == find_name(names@, x@),
        r < names@.len(),
{
    let n = names.len();
    let mut i: usize = 0;
    proof {
        assert(names@.skip(0) =~= names@);
    }
    loop
        invariant
            n == names@.len(),
            i <= names@.len(),
            find_name(names@, x@) >= i,
            find_name(names@, x@) == i + find_name(names@.skip(i as int), x@),
        decreases names@.len() - i,
    {
        proof {
            lemma_find_name_bound(names@, x@);
            assert(names@.skip(i as int).len() > 0);
        }
        if names[i] == *x {
            proof {
                assert(names@.skip(i as int)[0] == names@[i as int]);
            }
            return i;
        }
        proof {
            assert(names@.skip(i as int).skip(1) =~= names@.skip(i as int + 1));
        }
        i = i + 1;
    }
}

impl<V> Expr<V> {
    /// The shape of the expression: the same tree with every leaf
    /// payload erased.
    pub open spec fn spec_shape(self) -> Expr<()>
        decreases self,
    {
        match self {
            Expr::Variable(_) => Expr::Variable(()),
            Expr::Unop(k, e) => Expr::Unop(k, Box::new(e.spec_shape())),
            Expr::Binop(k, l, r) => Expr::Binop(
                k,
                Box::new(l.spec_shape()),
                Box::new(r.spec_shape()),
            ),
        }
    }

    /// The leaf payloads of the expression, left to right.
    pub open spec fn spec_leaves(self) -> Seq<V>
        decreases self,
    {
        match self {
            Expr::Variable(v) => seq![v],
            Expr::Unop(_, e) => e.spec_leaves(),
            Expr::Binop(_, l, r) => l.spec_leaves() + r.spec_leaves(),
        }
    }
}

/// Filling a skeleton keeps its shape and depth, and its leaves are
/// exactly the filling.
pub proof fn lemma_fill_shape(s: Expr<()>, f: Seq<Variable>)
    requires
        f.len() == s.spec_holes(),
    ensures
        s.spec_fill(f).spec_shape() == s,
        s.spec_fill(f).spec_leaves() == f,
        s.spec_fill(f).spec_depth() == s.spec_depth(),
    decreases s,
{
    match s {
        Expr::Variable(u) => {
            assert(u == ());
            assert(s.spec_fill(f).spec_leaves() =~= f);
        },
        Expr::Unop(k, e) => {
            lemma_fill_shape(*e, f);
            assert(s.spec_fill(f).spec_shape() == Expr::<()>::Unop(
                k,
                Box::new(e.spec_fill(f).spec_shape()),
            ));
        },
        Expr::Binop(k, l, r) => {
            let hl = l.spec_holes() as int;
            lemma_fill_shape(*l, f.take(hl));
            lemma_fill_shape(*r, f.skip(hl));
            assert(f.take(hl) + f.skip(hl) =~= f);
        },
    }
}

/// Enumeration novelty: two distinct skeleton-and-filling pairs fill
/// to distinct expressions, so an enumeration that never repeats a
/// pair never repeats an expression.
pub proof fn lemma_enumeration_novelty(
    s1: Expr<()>,
    f1: Seq<Variable>,
    s2: Expr<()>,
    f2: Seq<Variable>,
)
    requires
        f1.len() == s1.spec_holes(),
        f2.len() == s2.spec_holes(),
        s1 != s2 || f1 != f2,
    ensures
        s1.spec_fill(f1) != s2.spec_fill(f2),
{
    lemma_fill_shape(s1, f1);
    lemma_fill_shape(s2, f2);
}

/// A filling whose argument indices are all below `k` fills to a
/// candidate whose argument indices are all below `k`.
pub proof fn lemma_fill_args_bounded(s: Expr<()>, f: Seq<Variable>, k: nat)
    requires
        f.len() == s.spec_holes(),
        forall|i: int|
            0 <= i < f.len() ==> (#[trigger] f[i] matches Variable::Argument(a) ==> (a as nat)
                < k),
    ensures
        s.spec_fill(f).args_bounded(k),
    decreases s,
{
    match s {
        Expr::Variable(_) => {},
        Expr::Unop(_, e) => {
            lemma_fill_args_bounded(*e, f, k);
        },
        Expr::Binop(_, l, r) => {
            let hl = l.spec_holes() as int;
            lemma_fill_args_bounded(*l, f.take(hl), k);
            lemma_fill_args_bounded(*r, f.skip(hl), k);
        },
    }
}

/// Substituting a skeleton into a hole deepens the tree by at most
/// the depth of what is substituted.
pub proof fn lemma_subst_depth(s: Expr<()>, t: int, sub: Expr<()>)
    ensures
        s.spec_subst(t, sub).spec_depth() <= s.spec_depth() + sub.spec_depth(),
    decreases s,
{
    match s {
        Expr::Variable(_) => {},
        Expr::Unop(_, e) => {
            lemma_subst_depth(*e, t, sub);
        },
        Expr::Binop(_, l, r) => {
            lemma_subst_depth(*l, t, sub);
            lemma_subst_depth(*r, t - l.spec_holes(), sub);
        },
    }
}

/// Two to the power `e`.
pub open spec fn two_pow(e: nat) -> nat
    decreases e,
{
    if e == 0 {
        1
    } else {
        2 * two_pow((e - 1) as nat)
    }
}

/// `two_pow` is monotone.
pub proof fn lemma_two_pow_mono(e1: nat, e2: nat)
    requires
        e1 <= e2,
    ensures
        two_pow(e1) <= two_pow(e2),
    decreases e2,
{
    if e1 < e2 {
        lemma_two_pow_mono(e1, (e2 - 1) as nat);
        assert(two_pow((e2 - 1) as nat) >= 1) by {
            lemma_two_pow_mono(0, (e2 - 1) as nat);
        }
    }
}

/// A skeleton of depth `d` has at most `2^d` holes.
pub proof fn lemma_holes_le_two_pow(s: Expr<()>)
    ensures
        s.spec_holes() <= two_pow(s.spec_depth()),
    decreases s,
{
    match s {
        Expr::Variable(_) => {},
        Expr::Unop(_, e) => {
            lemma_holes_le_two_pow(*e);
            lemma_two_pow_mono(e.spec_depth(), s.spec_depth());
        },
        Expr::Binop(_, l, r) => {
            lemma_holes_le_two_pow(*l);
            lemma_holes_le_two_pow(*r);
            lemma_two_pow_mono(l.spec_depth(), (s.spec_depth() - 1) as nat);
            lemma_two_pow_mono(r.spec_depth(), (s.spec_depth() - 1) as nat);
        },
    }
}

/// A skeleton within a depth limit of 30 has holes comfortably below
/// the machine word bound.
pub proof fn lemma_holes_small(s: Expr<()>)
    requires
        s.spec_depth() <= 31,
    ensures
        s.spec_holes() <= 0x8000_0000,
{
    lemma_holes_le_two_pow(s);
    lemma_two_pow_mono(s.spec_depth(), 31);
    assert(two_pow(31) == 0x8000_0000) by {
        reveal_with_fuel(two_pow, 32);
    }
}

/// Every leaf of the candidate is from the enumeration alphabet: a
/// constant hole or an argument index below `k` — never a fixed
/// constant.
pub open spec fn leaves_in_alphabet(e: Expr<Variable>, k: nat) -> bool
    decreases e,
{
    match e {
        Expr::Variable(v) => match v {
            Variable::UnknownConst => true,
            Variable::Const(_) => false,
            Variable::Argument(i) => (i as nat) < k,
        },
        Expr::Unop(_, c) => leaves_in_alphabet(*c, k),
        Expr::Binop(_, l, r) => leaves_in_alphabet(*l, k) && leaves_in_alphabet(*r, k),
    }
}

/// A filling whose payloads are all holes or argument indices below
/// `k` fills to a candidate whose leaves stay in that alphabet.
pub proof fn lemma_fill_alphabet(s: Expr<()>, f: Seq<Variable>, k: nat)
    requires
        f.len() == s.spec_holes(),
        forall|i: int|
            0 <= i < f.len() ==> match #[trigger] f[i] {
                Variable::UnknownConst => true,
                Variable::Const(_) => false,
                Variable::Argument(a) => (a as nat) < k,
            },
    ensures
        leaves_in_alphabet(s.spec_fill(f), k),
    decreases s,
{
    match s {
        Expr::Variable(_) => {},
        Expr::Unop(_, e) => {
            lemma_fill_alphabet(*e, f, k);
        },
        Expr::Binop(_, l, r) => {
            let hl = l.spec_holes() as int;
            lemma_fill_alphabet(*l, f.take(hl), k);
            lemma_fill_alphabet(*r, f.skip(hl), k);
        },
    }
}

/// Argument bounds are monotone in the bound.
pub proof fn lemma_args_bounded_mono(e: Expr<Variable>, k1: nat, k2: nat)
    requires
        e.args_bounded(k1),
        k1 <= k2,
    ensures
        e.args_bounded(k2),
    decreases e,
{
    match e {
        Expr::Variable(_) => {},
        Expr::Unop(_, c) => {
            lemma_args_bounded_mono(*c, k1, k2);
        },
        Expr::Binop(_, l, r) => {
            lemma_args_bounded_mono(*l, k1, k2);
            lemma_args_bounded_mono(*r, k1, k2);
        },
    }
}

/// No two of the names are equal.
pub open spec fn names_distinct(names: Seq<String>) -> bool {
    forall|i: int, j: int| 0 <= i < j < names.len() ==> names[i]@ != names[j]@
}

/// Among distinct names, a name is found at its own position.
pub proof fn lemma_find_name_at(names: Seq<String>, i: int)
    requires
        names_distinct(names),
        0 <= i < names.len(),
    ensures
        find_name(names, names[i]@) == i,
    decreases names.len(),
{
    if i > 0 {
        assert(names[0]@ != names[i]@);
        assert(names_distinct(names.skip(1))) by {
            assert(forall|a: int, b: int|
                0 <= a < b < names.skip(1).len() ==> names.skip(1)[a]@ == names[a + 1]@
                    && names.skip(1)[b]@ == names[b + 1]@);
        }
        lemma_find_name_at(names.skip(1), i - 1);
    }
}

impl Expr<Variable> {
    /// Value of the candidate when each constant hole takes, left to
    /// right, its own value from `hole_vals`.
    pub open spec fn eval_with_holes(self, args: Seq<ExprVal>, hole_vals: Seq<ExprVal>) -> ExprVal
        recommends
            hole_vals.len() == self.spec_unknowns(),
        decreases self,
    {
        match self {
            Expr::Variable(v) => match v {
                Variable::UnknownConst => hole_vals[0],
                Variable::Const(c) => c,
                Variable::Argument(i) => args[i as int],
            },
            Expr::Unop(k, e) => eval_unop(k, e.eval_with_holes(args, hole_vals)),
            Expr::Binop(k, l, r) => eval_binop(
                k,
                l.eval_with_holes(args, hole_vals.take(l.spec_unknowns() as int)),
                r.eval_with_holes(args, hole_vals.skip(l.spec_unknowns() as int)),
            ),
        }
    }
}

/// When every hole takes the same value, the per-hole and the
/// shared-value interpretations agree.
pub proof fn lemma_eval_with_holes_uniform(
    e: Expr<Variable>,
    args: Seq<ExprVal>,
    hole_vals: Seq<ExprVal>,
    u: ExprVal,
)
    requires
        hole_vals.len() == e.spec_unknowns(),
        forall|i: int| 0 <= i < hole_vals.len() ==> #[trigger] hole_vals[i] == u,
    ensures
        e.eval_with_holes(args, hole_vals) == e.eval(args, u),
    decreases e,
{
    match e {
        Expr::Variable(_) => {},
        Expr::Unop(_, c) => {
            lemma_eval_with_holes_uniform(*c, args, hole_vals, u);
        },
        Expr::Binop(_, l, r) => {
            lemma_eval_with_holes_uniform(*l, args, hole_vals.take(l.spec_unknowns() as int), u);
            lemma_eval_with_holes_uniform(*r, args, hole_vals.skip(l.spec_unknowns() as int), u);
        },
    }
}

/// Round trip from candidate to answer: resolving a candidate into an
/// answer and interpreting the answer under distinct argument names
/// gives the candidate's own value, with each hole at its resolved
/// constant.
pub proof fn lemma_to_ans_eval(
    e: Expr<Variable>,
    names: Seq<String>,
    hole_vals: Seq<ExprVal>,
    vals: Seq<ExprVal>,
)
    requires
        e.args_bounded(names.len()),
        hole_vals.len() == e.spec_unknowns(),
        vals.len() == names.len(),
        names_distinct(names),
    ensures
        e.spec_to_ans(names, hole_vals).answer_eval(names, vals) == e.eval_with_holes(
            vals,
            hole_vals,
        ),
    decreases e,
{
    match e {
        Expr::Variable(v) => match v {
            Variable::Argument(i) => {
                lemma_find_name_at(names, i as int);
            },
            _ => {},
        },
        Expr::Unop(_, c) => {
            lemma_to_ans_eval(*c, names, hole_vals, vals);
        },
        Expr::Binop(_, l, r) => {
            lemma_to_ans_eval(*l, names, hole_vals.take(l.spec_unknowns() as int), vals);
            lemma_to_ans_eval(*r, names, hole_vals.skip(l.spec_unknowns() as int), vals);
        },
    }
}

/// A name that occurs in the list is found at a non-negative
/// position.
pub proof fn lemma_find_name_member(names: Seq<String>, i: int)
    requires
        0 <= i < names.len(),
    ensures
        find_name(names, names[i]@) >= 0,
    decreases names.len(),
{
    if names.len() > 0 && names[0]@ != names[i]@ {
        lemma_find_name_member(names.skip(1), i - 1);
    }
}

/// A resolved answer names only declared arguments: every argument
/// name it holds is found among the names it was resolved against.
pub proof fn lemma_to_ans_names_found(
    e: Expr<Variable>,
    names: Seq<String>,
    hole_vals: Seq<ExprVal>,
)
    requires
        e.args_bounded(names.len()),
    ensures
        e.spec_to_ans(names, hole_vals).names_found(names),
    decreases e,
{
    match e {
        Expr::Variable(v) => match v {
            Variable::Argument(i) => {
                lemma_find_name_member(names, i as int);
            },
            _ => {},
        },
        Expr::Unop(_, c) => {
            lemma_to_ans_names_found(*c, names, hole_vals);
        },
        Expr::Binop(_, l, r) => {
            lemma_to_ans_names_found(*l, names, hole_vals.take(l.spec_unknowns() as int));
            lemma_to_ans_names_found(*r, names, hole_vals.skip(l.spec_unknowns() as int));
        },
    }
}

/// `find_name` stays below the length of the name list.
pub proof fn lemma_find_name_bound(names: Seq<String>, x: Seq<char>)
    ensures
        find_name(names, x) < names.len(),
        find_name(names, x) >= -1,
        find_name(names, x) >= 0 ==> names[find_name(names, x)]@ == x,
    decreases names.len(),
{
    if names.len() > 0 && names[0]@ != x {
        lemma_find_name_bound(names.skip(1), x);
    }
}

} // verus!
