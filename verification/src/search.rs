//! The search driver: couples a candidate generator, the
//! verification oracle, and the converter, and drives the
//! counter-example guided refinement loop.

use vstd::prelude::*;

use crate::conv::Z3ToExpr;
use crate::expr::{AnswerExpr, Expr, ExprVal};
use crate::oracle::{Oracle, SpecSyntaxError};
use crate::synth::Synthesizer;

verus! {

/// The report of one search step.
#[derive(Debug)]
pub enum SearchStep {
    /// The generator offered `cand` and it does not meet the
    /// specification. The flag is set when a counter-example showed
    /// it wrong for every choice of hole constants.
    IncorrectSample { cand: Expr, is_universally_wrong: bool },
    /// The generator offered `cand` and it meets the specification;
    /// `answer` is the resolved expression.
    CorrectSample { cand: Expr, answer: AnswerExpr },
}

/// The search: a generator, the oracle, and the converter.
pub struct BithackSearch<S> {
    should_learn: bool,
    synth: S,
    oracle: Oracle,
    converter: Z3ToExpr,
}

impl<S: Synthesizer> BithackSearch<S> {
    /// The declared argument names, in order.
    pub closed spec fn names(&self) -> Seq<String> {
        self.converter.names()
    }

    /// Whether counter-examples are sought and fed back.
    pub closed spec fn learning(&self) -> bool {
        self.should_learn
    }

    /// The oracle as the search holds it.
    pub closed spec fn oracle_part(&self) -> Oracle {
        self.oracle
    }

    /// Internal consistency: generator and converter agree on the
    /// number of arguments.
    pub closed spec fn wf(&self) -> bool {
        &&& self.synth.inv()
        &&& self.converter.inv()
        &&& self.synth.arg_count() == self.converter.arg_count()
    }

    /// Builds the searcher over the given argument names. With
    /// `should_learn`, invalid candidates are checked for a
    /// counter-example, which is fed back to the generator.
    pub fn new(should_learn: bool, arguments: Vec<String>, depth_limit: usize) -> (r: Self)
        requires
            depth_limit <= 30,
            crate::smt::names_ok(arguments@),
        ensures
            r.wf(),
            r.names() == arguments@,
            r.learning() == should_learn,
    {
        let k = arguments.len();
        let synth = S::build(k, depth_limit);
        Self::with_synthesizer(should_learn, synth, arguments)
    }

    /// Builds the searcher around a caller-built generator, which
    /// must be set up for exactly the given arguments.
    pub fn with_synthesizer(should_learn: bool, synth: S, arguments: Vec<String>) -> (r: Self)
        requires
            synth.inv(),
            synth.arg_count() == arguments@.len(),
            crate::smt::names_ok(arguments@),
        ensures
            r.wf(),
            r.names() == arguments@,
            r.learning() == should_learn,
    {
        BithackSearch {
            should_learn,
            synth,
            converter: Z3ToExpr::new(arguments),
            oracle: Oracle::new(),
        }
    }

    /// Forwards an SMT-LIB prompt to the oracle, prefixed with the
    /// declarations of every argument and of `res`. An empty
    /// resulting constraint list is a syntax error.
    pub fn parse_prompt(&mut self, prompt: &str) -> (r: Result<(), SpecSyntaxError>)
        requires
            old(self).wf(),
        ensures
            final(self).wf(),
            final(self).names() == old(self).names(),
            final(self).learning() == old(self).learning(),
            r is Ok <==> final(self).oracle_part().constraints_seq().len() > 0,
    {
        let mut text = self.converter.declaration();
        text.append("\n");
        text.append(prompt);
        self.oracle.parse(text)
    }

    /// The generator as the search holds it.
    pub closed spec fn synth_part(&self) -> S {
        self.synth
    }

    /// The generator, for inspection after the search has run.
    pub fn synthesizer(&self) -> (r: &S)
        ensures
            *r == self.synth_part(),
    {
        &self.synth
    }

    /// The converter as the search holds it.
    pub closed spec fn converter_part(&self) -> Z3ToExpr {
        self.converter
    }

    /// The converter.
    pub fn converter(&self) -> (r: &Z3ToExpr)
        ensures
            *r == self.converter_part(),
            r.names() == self.names(),
    {
        &self.converter
    }

    /// The oracle, for adding constraints directly.
    pub fn oracle(&mut self) -> (r: &mut Oracle)
        requires
            old(self).wf(),
        ensures
            *r == old(self).oracle_part(),
            final(self).oracle_part() == *final(r),
            final(self).wf(),
            final(self).names() == old(self).names(),
            final(self).learning() == old(self).learning(),
    {
        &mut self.oracle
    }

    /// Takes one search step; `None` means the generator is
    /// exhausted and the search has terminated.
    ///
    /// A correct sample's answer is the candidate itself with its
    /// argument indices named and its holes resolved to constants.
    /// Without learning, no sample is ever reported universally
    /// wrong.
    pub fn step(&mut self) -> (r: Option<SearchStep>)
        requires
            old(self).wf(),
        ensures
            final(self).wf(),
            final(self).names() == old(self).names(),
            final(self).learning() == old(self).learning(),
            r is None ==> final(self).converter_part() == old(self).converter_part()
                && final(self).oracle_part() == old(self).oracle_part(),
            r matches Some(SearchStep::IncorrectSample { is_universally_wrong, .. })
                ==> (is_universally_wrong ==> old(self).learning()),
            r matches Some(SearchStep::CorrectSample { cand, answer }) ==> cand.args_bounded(
                old(self).names().len(),
            ) && answer.names_found(old(self).names()) && exists|vals: Seq<ExprVal>|
                vals.len() == cand.spec_unknowns() && answer == cand.spec_to_ans(
                    old(self).names(),
                    vals,
                ),
    {
        let cand = match self.synth.next_expr() {
            None => {
                return None;
            },
            Some(c) => c,
        };
        let z3_cand = self.converter.expr_to_z3(&cand);
        match self.oracle.check_candidate(&z3_cand, self.converter.z3_args()) {
            Some(model) => {
                let answer = self.converter.build_answer(&cand, &model);
                Some(SearchStep::CorrectSample { cand, answer })
            },
            None => {
                if !self.should_learn {
                    return Some(SearchStep::IncorrectSample { is_universally_wrong: false, cand });
                }
                let counterexample = self.oracle.counterexample(
                    &z3_cand,
                    self.converter.z3_consts(),
                );
                match counterexample {
                    Some(model) => {
                        let args = self.converter.build_counter_example(&model);
                        match self.oracle.suitable_value(self.converter.z3_args(), &args) {
                            Some(val) => {
                                self.synth.bad_cand(&cand, args, val);
                            },
                            None => {
                                // The specification admits no output at
                                // this input: the example is not fed to
                                // the generator.
                            },
                        }
                        Some(SearchStep::IncorrectSample { is_universally_wrong: true, cand })
                    },
                    None => Some(
                        SearchStep::IncorrectSample { is_universally_wrong: false, cand },
                    ),
                }
            },
        }
    }
}

} // verus!
