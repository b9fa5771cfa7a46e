//! The expression-to-solver converter.
//!
//! Owns the order-preserving argument list, one solver constant per
//! argument, and a growable pool of solver constants for the
//! candidates' holes. The pool is append-only: a hole number keeps
//! its solver constant for the lifetime of a run, so formulas
//! recorded in earlier iterations keep their meaning.

use vstd::prelude::*;
use vstd::string::StringExecFns;

use crate::expr::{AnswerExpr, BinopKind, Expr, ExprVal, UnopKind, Value, Variable, BITS_PER_VAL};
use crate::expr::{find_name, lemma_find_name_bound, lookup_name};
use crate::smt;
use crate::smt::{BvConst, BvTerm, Model};

verus! {

/// One SMT-LIB line declaring `name` as a bit-vector constant.
pub open spec fn spec_decl_line(name: Seq<char>) -> Seq<char> {
    "(declare-const "@ + name + " (_ BitVec 32))"@
}

/// The declaration lines of all the names, each followed by a line
/// break.
pub open spec fn spec_decl_lines(names: Seq<String>) -> Seq<char>
    decreases names.len(),
{
    if names.len() == 0 {
        Seq::empty()
    } else {
        spec_decl_line(names[0]@) + "\n"@ + spec_decl_lines(names.skip(1))
    }
}

/// Appending one more name extends the lines at the end.
proof fn lemma_decl_lines_push(names: Seq<String>, x: String)
    ensures
        spec_decl_lines(names.push(x)) == spec_decl_lines(names) + spec_decl_line(x@)
            + "\n"@,
    decreases names.len(),
{
    if names.len() == 0 {
        assert(names.push(x).skip(1) =~= Seq::<String>::empty());
        assert(spec_decl_lines(names.push(x).skip(1)) == Seq::<char>::empty());
        assert(names.push(x)[0] == x);
        assert(spec_decl_lines(names.push(x)) =~= spec_decl_line(x@) + "\n"@);
        assert(spec_decl_lines(names) + spec_decl_line(x@) + "\n"@ =~= spec_decl_line(x@)
            + "\n"@);
    } else {
        lemma_decl_lines_push(names.skip(1), x);
        assert(names.push(x).skip(1) =~= names.skip(1).push(x));
        assert(spec_decl_lines(names.push(x)) =~= spec_decl_lines(names) + spec_decl_line(x@)
            + "\n"@);
    }
}

/// Maps arguments and holes to solver constants and candidate
/// expressions to solver terms, and decodes models back.
pub struct Z3ToExpr {
    arg_names: Vec<String>,
    z3_args: Vec<BvConst>,
    z3_consts: Vec<BvConst>,
}

impl Z3ToExpr {
    /// The argument names, in declaration order.
    pub closed spec fn names(&self) -> Seq<String> {
        self.arg_names@
    }

    /// The number of arguments.
    pub open spec fn arg_count(&self) -> nat {
        self.names().len()
    }

    /// The solver constants of the arguments.
    pub closed spec fn args_terms(&self) -> Seq<BvConst> {
        self.z3_args@
    }

    /// The solver constants of the holes allocated so far.
    pub closed spec fn consts_terms(&self) -> Seq<BvConst> {
        self.z3_consts@
    }

    /// The number of hole constants allocated so far.
    pub open spec fn const_count(&self) -> nat {
        self.consts_terms().len()
    }

    /// One solver constant per argument.
    pub open spec fn inv(&self) -> bool {
        self.args_terms().len() == self.names().len()
    }

    /// Builds the converter: one solver constant per argument, in
    /// the given order, and an empty hole pool.
    pub fn new(arguments: Vec<String>) -> (r: Self)
        requires
            smt::names_ok(arguments@),
        ensures
            r.inv(),
            r.names() == arguments@,
            r.const_count() == 0,
    {
        let mut z3_args: Vec<BvConst> = Vec::new();
        let n = arguments.len();
        let mut i: usize = 0;
        while i < n
            invariant
                smt::names_ok(arguments@),
                n == arguments@.len(),
                i <= n,
                z3_args@.len() == i,
            decreases n - i,
        {
            z3_args.push(smt::bv_new_const(arguments[i].as_str(), BITS_PER_VAL));
            i = i + 1;
        }
        Z3ToExpr { arg_names: arguments, z3_args, z3_consts: Vec::new() }
    }

    /// The solver constants of the arguments.
    pub fn z3_args(&self) -> (r: &Vec<BvConst>)
        ensures
            r@ == self.args_terms(),
    {
        &self.z3_args
    }

    /// The solver constants of the holes allocated so far.
    pub fn z3_consts(&self) -> (r: &Vec<BvConst>)
        ensures
            r@ == self.consts_terms(),
    {
        &self.z3_consts
    }

    /// The SMT-LIB preamble declaring every argument and `res` as a
    /// bit-vector of the fixed width.
    pub fn declaration(&self) -> (r: String)
        ensures
            r@ == spec_decl_lines(self.names()) + spec_decl_line("res"@),
    {
        let mut s = String::new();
        let n = self.arg_names.len();
        let mut i: usize = 0;
        proof {
            assert(self.names().take(0) =~= Seq::<String>::empty());
        }
        while i < n
            invariant
                n == self.names().len(),
                i <= n,
                s@ == spec_decl_lines(self.names().take(i as int)),
            decreases n - i,
        {
            s.append("(declare-const ");
            s.append(self.arg_names[i].as_str());
            s.append(" (_ BitVec 32))");
            s.append("\n");
            proof {
                lemma_decl_lines_push(self.names().take(i as int), self.names()[i as int]);
                assert(self.names().take(i as int).push(self.names()[i as int])
                    =~= self.names().take(i as int + 1));
                assert(s@ =~= spec_decl_lines(self.names().take(i as int + 1)));
            }
            i = i + 1;
        }
        proof {
            assert(self.names().take(n as int) =~= self.names());
        }
        s.append("(declare-const ");
        s.append("res");
        s.append(" (_ BitVec 32))");
        proof {
            assert(s@ =~= spec_decl_lines(self.names()) + spec_decl_line("res"@));
        }
        s
    }

    /// The solver constant of the named argument, if the name is
    /// declared.
    pub fn get_argument(&self, x: &str) -> (r: Option<&BvConst>)
        requires
            self.inv(),
        ensures
            r is Some <==> find_name(self.names(), x@) >= 0,
            r matches Some(b) ==> *b == self.args_terms()[find_name(self.names(), x@)],
    {
        proof {
            lemma_find_name_bound(self.names(), x@);
        }
        let key = x.to_owned();
        let n = self.arg_names.len();
        let mut i: usize = 0;
        proof {
            assert(self.names().skip(0) =~= self.names());
        }
        while i < n
            invariant
                self.inv(),
                n == self.names().len(),
                i <= n,
                key@ == x@,
                find_name(self.names(), x@) >= 0 ==> find_name(self.names(), x@) >= i,
                find_name(self.names(), x@) == if find_name(self.names().skip(i as int), x@) == -1 {
                    -1int
                } else {
                    i + find_name(self.names().skip(i as int), x@)
                },
            decreases n - i,
        {
            proof {
                assert(self.names().skip(i as int)[0] == self.names()[i as int]);
            }
            if self.arg_names[i] == key {
                return Some(&self.z3_args[i]);
            }
            proof {
                lemma_find_name_bound(self.names().skip(i as int + 1), x@);
                assert(self.names().skip(i as int).skip(1) =~= self.names().skip(i as int + 1));
                assert(self.names().skip(i as int)[0]@ != x@);
                assert(find_name(self.names().skip(i as int), x@) == (if find_name(
                    self.names().skip(i as int + 1),
                    x@,
                ) == -1 {
                    -1int
                } else {
                    1 + find_name(self.names().skip(i as int + 1), x@)
                }));
            }
            i = i + 1;
        }
        proof {
            assert(self.names().skip(n as int) =~= Seq::<String>::empty());
        }
        None
    }

    /// The hole pool after a lift that needed `need` constants: it
    /// never shrinks, existing constants stay, and it reaches at
    /// least `need`.
    pub open spec fn consts_extended(before: Seq<BvConst>, after: Seq<BvConst>, need: nat) -> bool {
        if need <= before.len() {
            after == before
        } else {
            after.len() == need && after.take(before.len() as int) == before
        }
    }

    /// Lifts a candidate to a solver term: holes take, in left-to-
    /// right order, the pool constants starting at index `0`, and
    /// the pool grows by exactly the constants the candidate needs.
    pub fn expr_to_z3(&mut self, expr: &Expr) -> (r: BvTerm)
        requires
            old(self).inv(),
            expr.args_bounded(old(self).arg_count()),
        ensures
            final(self).inv(),
            final(self).names() == old(self).names(),
            final(self).args_terms() == old(self).args_terms(),
            Self::consts_extended(
                old(self).consts_terms(),
                final(self).consts_terms(),
                expr.spec_unknowns(),
            ),
            expr.spec_unknowns() <= final(self).const_count(),
    {
        let (r, end) = self.lift_from(expr, 0);
        r
    }

    /// Lifts one subtree whose first hole has number `ofs`; returns
    /// the term and the number one past the subtree's last hole.
    fn lift_from(&mut self, expr: &Expr, ofs: usize) -> (r: (BvTerm, usize))
        requires
            old(self).inv(),
            expr.args_bounded(old(self).arg_count()),
            ofs <= old(self).const_count(),
        ensures
            final(self).inv(),
            final(self).names() == old(self).names(),
            final(self).args_terms() == old(self).args_terms(),
            r.1 == ofs + expr.spec_unknowns(),
            r.1 <= final(self).const_count(),
            Self::consts_extended(old(self).consts_terms(), final(self).consts_terms(), r.1 as nat),
        decreases *expr,
    {
        match expr {
            Expr::Variable(v) => match v {
                Variable::UnknownConst => {
                    if ofs < self.z3_consts.len() {
                        (smt::const_to_term(&self.z3_consts[ofs]), ofs + 1)
                    } else {
                        proof {
                            reveal_strlit("c");
                        }
                        let c = smt::bv_indexed_const("c", ofs, BITS_PER_VAL);
                        self.z3_consts.push(c);
                        let nl = self.z3_consts.len();
                        proof {
                            assert(ofs + 1 == nl);
                            assert(self.z3_consts@.take(old(self).z3_consts@.len() as int)
                                =~= old(self).z3_consts@);
                        }
                        (smt::const_to_term(&self.z3_consts[ofs]), ofs + 1)
                    }
                },
                Variable::Const(x) => (smt::bv_from_i64(*x as i64, BITS_PER_VAL), ofs),
                Variable::Argument(i) => (smt::const_to_term(&self.z3_args[*i]), ofs),
            },
            Expr::Unop(k, e) => {
                let (t, next) = self.lift_from(e, ofs);
                let r = match k {
                    UnopKind::Not => smt::bv_not(&t),
                    UnopKind::Negate => smt::bv_neg(&t),
                };
                (r, next)
            },
            Expr::Binop(k, l, rr) => {
                let ghost consts0 = self.z3_consts@;
                let (tl, mid) = self.lift_from(l, ofs);
                let ghost consts1 = self.z3_consts@;
                let (tr, next) = self.lift_from(rr, mid);
                proof {
                    if next as nat > consts1.len() {
                        assert(self.z3_consts@.take(consts0.len() as int)
                            =~= consts1.take(consts0.len() as int));
                    }
                }
                let r = match k {
                    BinopKind::And => smt::bv_and(&tl, &tr),
                    BinopKind::Or => smt::bv_or(&tl, &tr),
                    BinopKind::Xor => smt::bv_xor(&tl, &tr),
                    BinopKind::Plus => smt::bv_add(&tl, &tr),
                    BinopKind::Minus => smt::bv_sub(&tl, &tr),
                    BinopKind::Shl => smt::bv_shl_mod(&tl, &tr, BITS_PER_VAL),
                    BinopKind::ShrA => smt::bv_ashr_mod(&tl, &tr, BITS_PER_VAL),
                };
                (r, next)
            },
        }
    }

    /// Resolves a candidate against a model: every hole takes the
    /// model's value of its pool constant, signed at the fixed
    /// width, and a hole the model leaves open takes zero (such a
    /// hole can take any value). Argument indices take their names.
    pub fn build_answer(&self, expr: &Expr, model: &Model) -> (r: AnswerExpr)
        requires
            self.inv(),
            expr.args_bounded(self.arg_count()),
            expr.spec_unknowns() <= self.const_count(),
        ensures
            r.names_found(self.names()),
            exists|vals: Seq<ExprVal>|
                vals.len() == expr.spec_unknowns() && r == expr.spec_to_ans(self.names(), vals),
    {
        let total = self.z3_consts.len();
        let n = expr.count_unknowns();
        let mut hole_vals: Vec<ExprVal> = Vec::new();
        let mut i: usize = 0;
        while i < n
            invariant
                n <= self.consts_terms().len(),
                i <= n,
                hole_vals@.len() == i,
                self.inv(),
            decreases n - i,
        {
            let v: ExprVal = match smt::model_bv_interp(model, &self.z3_consts[i]) {
                Some(b) => match smt::bv_as_i64(&b) {
                    Some(x) => #[verifier::truncate] (x as i32),
                    None => 0,
                },
                None => 0,
            };
            hole_vals.push(v);
            i = i + 1;
        }
        let r = expr.to_ans(&self.arg_names, &hole_vals);
        proof {
            let vals = hole_vals@;
            assert(vals.len() == expr.spec_unknowns() && r == expr.spec_to_ans(
                self.names(),
                vals,
            ));
            crate::expr::lemma_to_ans_names_found(*expr, self.names(), vals);
        }
        r
    }

    /// Reads the model's value of every argument, in declaration
    /// order; an argument the model leaves open reads as zero (such
    /// an argument can take any value).
    pub fn build_counter_example(&self, model: &Model) -> (r: Vec<ExprVal>)
        requires
            self.inv(),
        ensures
            r@.len() == self.arg_count(),
    {
        let n = self.z3_args.len();
        let mut out: Vec<ExprVal> = Vec::new();
        let mut i: usize = 0;
        while i < n
            invariant
                self.inv(),
                n == self.args_terms().len(),
                i <= n,
                out@.len() == i,
            decreases n - i,
        {
            let v: ExprVal = match smt::model_bv_interp(model, &self.z3_args[i]) {
                Some(b) => match smt::bv_as_i64(&b) {
                    Some(x) => #[verifier::truncate] (x as i32),
                    None => 0,
                },
                None => 0,
            };
            out.push(v);
            i = i + 1;
        }
        out
    }

    /// Lifts a resolved answer to a solver term; every argument name
    /// of the answer must be declared.
    pub fn ans_expr_to_z3(&self, expr: &AnswerExpr) -> (r: BvTerm)
        requires
            self.inv(),
            expr.names_found(self.names()),
        decreases *expr,
    {
        match expr {
            Expr::Variable(v) => match v {
                Value::Arg(s) => {
                    proof {
                        lemma_find_name_bound(self.names(), s@);
                    }
                    let i = lookup_name(&self.arg_names, s);
                    smt::const_to_term(&self.z3_args[i])
                },
                Value::Const(x) => smt::bv_from_i64(*x as i64, BITS_PER_VAL),
            },
            Expr::Unop(k, e) => {
                let t = self.ans_expr_to_z3(e);
                match k {
                    UnopKind::Not => smt::bv_not(&t),
                    UnopKind::Negate => smt::bv_neg(&t),
                }
            },
            Expr::Binop(k, l, rr) => {
                let tl = self.ans_expr_to_z3(l);
                let tr = self.ans_expr_to_z3(rr);
                match k {
                    BinopKind::And => smt::bv_and(&tl, &tr),
                    BinopKind::Or => smt::bv_or(&tl, &tr),
                    BinopKind::Xor => smt::bv_xor(&tl, &tr),
                    BinopKind::Plus => smt::bv_add(&tl, &tr),
                    BinopKind::Minus => smt::bv_sub(&tl, &tr),
                    BinopKind::Shl => smt::bv_shl_mod(&tl, &tr, BITS_PER_VAL),
                    BinopKind::ShrA => smt::bv_ashr_mod(&tl, &tr, BITS_PER_VAL),
                }
            },
        }
    }
}

} // verus!
