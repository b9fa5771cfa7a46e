use bitsynth::expr::{AnswerExpr, BinopKind, Expr, Value, Variable, BITS_PER_VAL};
use bitsynth::search::{BithackSearch, SearchStep};
use bitsynth::smt;
use bitsynth::smt::SatKind;
use bitsynth::synth::brute_enum::BruteEnum;
use bitsynth::synth::circuit_enum::{CircuitEnum, ComponentTemplate, Library};
use bitsynth::synth::Synthesizer;

/// Runs the search until a correct sample, the generator's end, or
/// the step limit; returns the answer and the number of steps taken.
fn run_search<S: Synthesizer>(
    should_learn: bool,
    args: Vec<String>,
    depth_limit: usize,
    constraint: &str,
    step_limit: usize,
) -> (Option<AnswerExpr>, usize) {
    let mut search = BithackSearch::<S>::new(should_learn, args, depth_limit);
    search.parse_prompt(constraint).expect("constraint should parse");

    let mut steps = 0;
    while let Some(step) = search.step() {
        steps += 1;
        match step {
            SearchStep::CorrectSample { answer, .. } => return (Some(answer), steps),
            SearchStep::IncorrectSample { .. } => {}
        }
        if steps >= step_limit {
            break;
        }
    }
    (None, steps)
}

fn eval_x(ans: &AnswerExpr, x: i32) -> i32 {
    ans.compute_answer(&vec!["x".to_string()], &vec![x])
}

#[test]
fn e1_identity() {
    let (ans, steps) = run_search::<BruteEnum>(
        false,
        vec!["x".to_string()],
        3,
        "(assert (= res x))",
        1_000,
    );
    let ans = ans.expect("a correct sample within the step budget");
    assert!(steps <= 1_000);
    for v in [-1, 0, 1, i32::MAX] {
        assert_eq!(eval_x(&ans, v), v);
    }
}

#[test]
fn e2_mask_low_bit() {
    let (ans, _steps) = run_search::<BruteEnum>(
        false,
        vec!["x".to_string()],
        3,
        "(assert (= res (bvand x #x00000002)))",
        1_000,
    );
    let ans = ans.expect("a correct sample within the step budget");
    for v in [-1, 0, 1, i32::MAX] {
        assert_eq!(eval_x(&ans, v), v & 2);
    }
}

#[test]
fn e3_fixed_constant() {
    let (ans, _steps) = run_search::<BruteEnum>(
        false,
        vec!["x".to_string()],
        3,
        "(assert (= res #x0000007B))",
        1_000,
    );
    let ans = ans.expect("a correct sample within the step budget");
    for v in [-1, 0, 1, i32::MAX] {
        assert_eq!(eval_x(&ans, v), 123);
    }
}

const ABS_CONSTRAINT: &str =
    "(assert (and (=> (bvsle x #x00000000) (= res (bvneg x))) (=> (bvsgt x #x00000000) (= res x))))";

/// A library with an arithmetic shift-right by an unknown constant,
/// an XOR gate, and a subtraction: enough for the absolute value.
fn abs_library() -> Library {
    let xor = ComponentTemplate(Expr::Binop(
        BinopKind::Xor,
        Box::new(Expr::Variable(Variable::Argument(0))),
        Box::new(Expr::Variable(Variable::Argument(1))),
    ));
    let minus = ComponentTemplate(Expr::Binop(
        BinopKind::Minus,
        Box::new(Expr::Variable(Variable::Argument(0))),
        Box::new(Expr::Variable(Variable::Argument(1))),
    ));
    let shra = ComponentTemplate(Expr::Binop(
        BinopKind::ShrA,
        Box::new(Expr::Variable(Variable::Argument(0))),
        Box::new(Expr::Variable(Variable::UnknownConst)),
    ));
    Library::new(vec![xor, minus, shra], vec![0, 1, 2]).expect("a well-formed library")
}

/// Runs the circuit generator on the absolute-value problem.
fn abs_search(should_learn: bool, step_limit: usize) -> (Option<AnswerExpr>, usize) {
    let synth = CircuitEnum::with_library(1, abs_library());
    let mut search = BithackSearch::with_synthesizer(should_learn, synth, vec!["x".to_string()]);
    search.parse_prompt(ABS_CONSTRAINT).expect("constraint should parse");
    let mut steps = 0;
    while let Some(step) = search.step() {
        steps += 1;
        match step {
            SearchStep::CorrectSample { answer, .. } => return (Some(answer), steps),
            SearchStep::IncorrectSample { .. } => {}
        }
        if steps >= step_limit {
            break;
        }
    }
    (None, steps)
}

#[test]
fn e4_absolute_value_with_circuit() {
    let (ans, _steps) = abs_search(true, 40);
    let ans = ans.expect("the circuit generator should deliver a correct sample");
    for v in [-5, -1, 0, 1, 5] {
        assert_eq!(eval_x(&ans, v), v.abs());
    }
}

#[test]
fn e5_learning_reduces_work() {
    let (with_learning, learn_steps) = abs_search(true, 40);
    assert!(with_learning.is_some());
    let (_without, nolearn_steps) = abs_search(false, 40);
    assert!(learn_steps <= nolearn_steps);
}

#[test]
fn e6_contradictory_spec_terminates_without_answer() {
    let mut search = BithackSearch::<BruteEnum>::new(
        false,
        vec!["x".to_string()],
        1,
    );
    search
        .parse_prompt("(assert (and (= res x) (= res (bvadd x #x00000001))))")
        .expect("constraint should parse");

    let mut steps = 0;
    while let Some(step) = search.step() {
        steps += 1;
        assert!(steps < 100_000, "the enumerator should exhaust its depth bound");
        match step {
            SearchStep::CorrectSample { .. } => {
                panic!("a contradictory specification admits no correct sample")
            }
            SearchStep::IncorrectSample { is_universally_wrong, .. } => {
                assert!(!is_universally_wrong);
            }
        }
    }
    assert!(steps > 0);
}

#[test]
fn step_before_parse_treats_the_spec_as_empty() {
    // With no constraints parsed the specification is the empty
    // conjunction, which everything satisfies: the first candidate
    // is reported correct, and nothing crashes.
    let mut search = BithackSearch::<BruteEnum>::new(false, vec!["x".to_string()], 1);
    match search.step() {
        Some(SearchStep::CorrectSample { .. }) => {}
        other => panic!("an unconstrained candidate should be correct: {other:?}"),
    }
}

#[test]
fn inconsistent_examples_are_a_circuit_failure() {
    let mut synth = CircuitEnum::with_library(1, abs_library());
    assert!(!synth.has_failed());
    // Two contradictory examples at the same input: no wiring can
    // satisfy both, so the attempt fails hard instead of exhausting.
    let cand = Expr::Variable(Variable::Argument(0));
    synth.bad_cand(&cand, vec![1], 0);
    synth.bad_cand(&cand, vec![1], 1);
    assert!(synth.next_expr().is_none());
    assert!(synth.has_failed());
}

#[test]
fn empty_prompt_is_a_syntax_error() {
    let mut search = BithackSearch::<BruteEnum>::new(false, vec!["x".to_string()], 2);
    assert!(search.parse_prompt("").is_err());
    assert!(search.parse_prompt("not smt-lib at all").is_err());
    assert!(search.parse_prompt("(assert (= res x\u{0}))").is_err());
    assert!(search.parse_prompt("(assert (= res x))").is_ok());
}

#[test]
fn answer_round_trip_matches_interpreter() {
    // Lifting an answer to a solver term and evaluating the term in
    // a model where `x` is pinned gives the interpreter's value.
    let ans: AnswerExpr = Expr::Binop(
        BinopKind::Plus,
        Box::new(Expr::Binop(
            BinopKind::Xor,
            Box::new(Expr::Variable(Value::Arg("x".to_string()))),
            Box::new(Expr::Variable(Value::Const(3))),
        )),
        Box::new(Expr::Binop(
            BinopKind::ShrA,
            Box::new(Expr::Variable(Value::Arg("x".to_string()))),
            Box::new(Expr::Variable(Value::Const(1))),
        )),
    );
    for x in [-9, -1, 0, 1, 5, i32::MAX] {
        let conv = bitsynth::conv::Z3ToExpr::new(vec!["x".to_string()]);
        let term = conv.ans_expr_to_z3(&ans);
        let probe = smt::bv_fresh_const("probe", BITS_PER_VAL);
        let solver = smt::solver_new();
        smt::solver_assert(&solver, &smt::bv_eq(&smt::const_to_term(&probe), &term));
        let x_term = smt::const_to_term(conv.get_argument("x").unwrap());
        let x_lit = smt::bv_from_i64(x as i64, BITS_PER_VAL);
        smt::solver_assert(&solver, &smt::bv_eq(&x_term, &x_lit));
        assert_eq!(smt::solver_check(&solver), SatKind::Sat);
        let model = smt::solver_get_model(&solver).expect("a model after sat");
        let read = smt::model_bv_interp(&model, &probe).expect("probe is pinned");
        let got = smt::bv_as_i64(&read).expect("a numeral") as i32;
        assert_eq!(got, ans.compute_answer(&vec!["x".to_string()], &vec![x]));
    }
}

/// A generator that offers the constant zero once and records what
/// it is taught.
struct RecordingSynth {
    offered: bool,
    taught: std::rc::Rc<std::cell::RefCell<Vec<(Vec<i32>, i32)>>>,
}

impl Synthesizer for RecordingSynth {
    fn build(_var_count: usize, _depth_limit: usize) -> Self {
        RecordingSynth { offered: false, taught: Default::default() }
    }

    fn bad_cand(&mut self, _cand: &Expr, args: Vec<i32>, expected: i32) {
        self.taught.borrow_mut().push((args, expected));
    }

    fn next_expr(&mut self) -> Option<Expr> {
        if self.offered {
            None
        } else {
            self.offered = true;
            Some(Expr::Variable(Variable::Const(0)))
        }
    }
}

#[test]
fn counter_examples_satisfy_the_spec_and_refute_the_candidate() {
    let taught = std::rc::Rc::new(std::cell::RefCell::new(Vec::new()));
    let synth = RecordingSynth { offered: false, taught: taught.clone() };
    let mut search = BithackSearch::with_synthesizer(true, synth, vec!["x".to_string()]);
    search.parse_prompt("(assert (= res x))").expect("constraint should parse");

    match search.step() {
        Some(SearchStep::IncorrectSample { is_universally_wrong, .. }) => {
            assert!(is_universally_wrong);
        }
        other => panic!("the zero candidate must be universally wrong: {other:?}"),
    }
    let log = taught.borrow();
    assert_eq!(log.len(), 1);
    let (input, output) = &log[0];
    assert_eq!(input.len(), 1);
    // The suitable output satisfies `res = x` at the counter-example
    // input, and the candidate's value (zero) differs from it there.
    assert_eq!(*output, input[0]);
    assert_ne!(*output, 0);
}

#[test]
fn search_without_learning_never_reports_universally_wrong() {
    let mut search = BithackSearch::<BruteEnum>::new(false, vec!["x".to_string()], 1);
    search.parse_prompt("(assert (= res #x00000001))").expect("constraint should parse");
    let mut steps = 0;
    while let Some(step) = search.step() {
        if let SearchStep::IncorrectSample { is_universally_wrong, .. } = step {
            assert!(!is_universally_wrong);
        }
        steps += 1;
        if steps > 200 {
            break;
        }
    }
}
