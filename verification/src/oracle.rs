//! The verification oracle: a thin wrapper around one persistent
//! solver, a distinguished result variable `res`, and the list of
//! constraint formulas parsed from the specification.
//!
//! Every query runs in its own push/pop scope, so the persistent
//! assertion stack stays empty between queries. A solver verdict of
//! `Unknown` counts as unsatisfiable: the oracle never claims
//! success, and never claims a counter-example, on `Unknown`.

use vstd::prelude::*;
use vstd::std_specs::iter::IteratorSpec;

use crate::expr::{ExprVal, BITS_PER_VAL};
use crate::smt;
use crate::smt::{BoolTerm, BvConst, BvTerm, Model, SatKind, Solver};

verus! {

/// The parsed specification held no constraint: a syntax error,
/// fatal to the run.
#[derive(Debug, Clone, Copy, PartialEq, Eq, Structural)]
pub struct SpecSyntaxError;

/// The data the last query was built from, recorded so each query's
/// contract pins what it ranges over. The intended formula of each
/// variant, with `conj` the conjunction of `constraints` (true when
/// empty):
/// - `CandidateCheck`: `forall args, res. (res = cand) ==> conj`,
///   satisfiable iff some hole assignment makes the candidate meet
///   the specification everywhere;
/// - `CounterExample`: `forall consts, res. (res = cand) ==> !conj`,
///   satisfiable iff some input defeats every hole assignment;
/// - `SuitableValue`: `conj` with each argument pinned to its value.
/// The formulas themselves are opaque solver terms; the wrappers of
/// the solver module are trusted to build exactly these shapes.
pub enum OracleQuery {
    CandidateCheck { cand: BvTerm, args: Seq<BvConst>, res: BvConst, constraints: Seq<BoolTerm> },
    CounterExample { cand: BvTerm, consts: Seq<BvConst>, res: BvConst, constraints: Seq<BoolTerm> },
    SuitableValue { args: Seq<BvConst>, vals: Seq<ExprVal>, constraints: Seq<BoolTerm> },
}

/// The verification oracle.
pub struct Oracle {
    solver: Solver,
    result_var: BvConst,
    constraints: Vec<BoolTerm>,
    last_query: Ghost<Option<OracleQuery>>,
}

impl Oracle {
    /// The constraint formulas currently held.
    pub closed spec fn constraints_seq(&self) -> Seq<BoolTerm> {
        self.constraints@
    }

    /// The data the last query was built from, if one has run.
    pub closed spec fn last_query(&self) -> Option<OracleQuery> {
        self.last_query@
    }

    /// Builds an oracle with an empty constraint list and the result
    /// variable `res`.
    pub fn new() -> (r: Self)
        ensures
            r.constraints_seq().len() == 0,
            r.last_query() is None,
    {
        proof {
            reveal_strlit("res");
        }
        Oracle {
            solver: smt::solver_new(),
            result_var: smt::bv_new_const("res", BITS_PER_VAL),
            constraints: Vec::new(),
            last_query: Ghost(None),
        }
    }

    /// The distinguished result variable's constant.
    pub closed spec fn result_term(&self) -> BvConst {
        self.result_var
    }

    /// The distinguished result variable.
    pub fn result_var(&self) -> (r: &BvConst)
        ensures
            *r == self.result_term(),
    {
        &self.result_var
    }

    /// Adds one constraint formula.
    pub fn add_constraint(&mut self, constraint: BoolTerm)
        ensures
            final(self).constraints_seq() == old(self).constraints_seq().push(constraint),
    {
        self.constraints.push(constraint);
    }

    /// Loads constraints from SMT-LIB text: resets the solver,
    /// parses, and takes the resulting assertion set as the new
    /// constraint list. An empty assertion set is a syntax error and
    /// leaves the oracle without constraints; so is text holding a
    /// NUL byte, which no SMT-LIB input does.
    pub fn parse(&mut self, text: String) -> (r: Result<(), SpecSyntaxError>)
        ensures
            r is Ok <==> final(self).constraints_seq().len() > 0,
            !smt::text_ok(text@) ==> r is Err,
            final(self).result_term() == old(self).result_term(),
    {
        broadcast use vstd::string::axiom_spec_iter, vstd::string::next_postcondition;

        let t = text.as_str();
        let mut it = t.chars();
        let ghost mut seen: int = 0;
        let mut done = false;
        while !done
            invariant
                self.result_var == old(self).result_var,
                0 <= seen <= t@.len(),
                it.remaining() == t@.skip(seen),
                forall|j: int| 0 <= j < seen ==> t@[j] != '\0',
                done ==> seen == t@.len(),
            decreases t@.len() - seen + if done {
                0int
            } else {
                1int
            },
        {
            match it.next() {
                None => {
                    done = true;
                },
                Some(c) => {
                    if c == '\0' {
                        self.constraints = Vec::new();
                        return Err(SpecSyntaxError);
                    }
                    proof {
                        assert(t@.skip(seen).drop_first() =~= t@.skip(seen + 1));
                        seen = seen + 1;
                    }
                },
            }
        }
        smt::solver_reset(&self.solver);
        smt::solver_from_string(&self.solver, t);
        let parsed = smt::solver_get_assertions(&self.solver);
        smt::solver_reset(&self.solver);
        let ok = parsed.len() > 0;
        self.constraints = parsed;
        if ok {
            Ok(())
        } else {
            Err(SpecSyntaxError)
        }
    }

    /// The conjunction of the constraint list; the empty conjunction
    /// is the true formula.
    fn conjunction(&self) -> BoolTerm {
        if self.constraints.len() >= 1 {
            smt::bool_and_all(&self.constraints)
        } else {
            smt::bool_literal(true)
        }
    }

    /// Asks whether some assignment to the hole constants makes the
    /// candidate meet the specification on every input: checks
    /// `exists c. forall args res. (res = cand) ==> spec`. Returns
    /// the model that pins the constants if the solver shows one,
    /// and `None` on an unsatisfiable or unknown verdict.
    pub fn check_candidate(&mut self, z3_cand: &BvTerm, z3_args: &Vec<BvConst>) -> (r: Option<
        Model,
    >)
        ensures
            final(self).constraints_seq() == old(self).constraints_seq(),
            final(self).result_term() == old(self).result_term(),
            final(self).last_query() == Some(
                OracleQuery::CandidateCheck {
                    cand: *z3_cand,
                    args: z3_args@,
                    res: old(self).result_term(),
                    constraints: old(self).constraints_seq(),
                },
            ),
    {
        self.last_query = Ghost(
            Some(
                OracleQuery::CandidateCheck {
                    cand: *z3_cand,
                    args: z3_args@,
                    res: self.result_var,
                    constraints: self.constraints@,
                },
            ),
        );
        let candeq = smt::bv_eq(z3_cand, &smt::const_to_term(&self.result_var));
        let specif = self.conjunction();
        let body = smt::bool_implies(&candeq, &specif);
        let quantified = smt::forall_bvs_and(z3_args, &self.result_var, &body);
        smt::solver_push(&self.solver);
        smt::solver_assert(&self.solver, &quantified);
        let verdict = smt::solver_check(&self.solver);
        let answer = if verdict == SatKind::Sat {
            smt::solver_get_model(&self.solver)
        } else {
            None
        };
        smt::solver_pop(&self.solver);
        answer
    }

    /// Asks for an input on which every choice of hole constants
    /// fails: checks `exists args. forall c res. (res = cand) ==>
    /// !spec`. Returns the model binding the arguments if the solver
    /// shows one, and `None` on an unsatisfiable or unknown verdict.
    pub fn counterexample(&mut self, z3_cand: &BvTerm, z3_consts: &Vec<BvConst>) -> (r: Option<
        Model,
    >)
        ensures
            final(self).constraints_seq() == old(self).constraints_seq(),
            final(self).result_term() == old(self).result_term(),
            final(self).last_query() == Some(
                OracleQuery::CounterExample {
                    cand: *z3_cand,
                    consts: z3_consts@,
                    res: old(self).result_term(),
                    constraints: old(self).constraints_seq(),
                },
            ),
    {
        self.last_query = Ghost(
            Some(
                OracleQuery::CounterExample {
                    cand: *z3_cand,
                    consts: z3_consts@,
                    res: self.result_var,
                    constraints: self.constraints@,
                },
            ),
        );
        let candeq = smt::bv_eq(z3_cand, &smt::const_to_term(&self.result_var));
        let specif = self.conjunction();
        let negated = smt::bool_not(&specif);
        let body = smt::bool_implies(&candeq, &negated);
        let quantified = smt::forall_bvs_and(z3_consts, &self.result_var, &body);
        smt::solver_push(&self.solver);
        smt::solver_assert(&self.solver, &quantified);
        let verdict = smt::solver_check(&self.solver);
        let answer = if verdict == SatKind::Sat {
            smt::solver_get_model(&self.solver)
        } else {
            None
        };
        smt::solver_pop(&self.solver);
        answer
    }

    /// Computes one admissible output for the given concrete inputs:
    /// checks the specification with the arguments pinned and reads
    /// `res` from the model. `None` when the specification admits no
    /// output there, when the solver answers unknown, or when the
    /// model does not pin `res`.
    pub fn suitable_value(&mut self, z3_args: &Vec<BvConst>, z3_arg_values: &Vec<ExprVal>) -> (r:
        Option<ExprVal>)
        requires
            z3_args@.len() == z3_arg_values@.len(),
        ensures
            final(self).constraints_seq() == old(self).constraints_seq(),
            final(self).result_term() == old(self).result_term(),
            final(self).last_query() == Some(
                OracleQuery::SuitableValue {
                    args: z3_args@,
                    vals: z3_arg_values@,
                    constraints: old(self).constraints_seq(),
                },
            ),
    {
        self.last_query = Ghost(
            Some(
                OracleQuery::SuitableValue {
                    args: z3_args@,
                    vals: z3_arg_values@,
                    constraints: self.constraints@,
                },
            ),
        );
        smt::solver_push(&self.solver);
        let specif = self.conjunction();
        smt::solver_assert(&self.solver, &specif);
        let n = z3_args.len();
        let mut i: usize = 0;
        while i < n
            invariant
                n == z3_args@.len(),
                z3_args@.len() == z3_arg_values@.len(),
                i <= n,
            decreases n - i,
        {
            let lit = smt::bv_from_i64(z3_arg_values[i] as i64, BITS_PER_VAL);
            let pinned = smt::bv_eq(&smt::const_to_term(&z3_args[i]), &lit);
            smt::solver_assert(&self.solver, &pinned);
            i = i + 1;
        }
        let verdict = smt::solver_check(&self.solver);
        let mut answer: Option<ExprVal> = None;
        if verdict == SatKind::Sat {
            match smt::solver_get_model(&self.solver) {
                Some(model) => {
                    match smt::model_bv_interp(&model, &self.result_var) {
                        Some(b) => {
                            match smt::bv_as_i64(&b) {
                                Some(x) => {
                                    answer = Some(#[verifier::truncate] (x as i32));
                                },
                                None => {},
                            }
                        },
                        None => {},
                    }
                },
                None => {},
            }
        }
        smt::solver_pop(&self.solver);
        answer
    }
}

} // verus!
