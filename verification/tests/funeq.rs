use std::collections::HashSet;

use bitsynth::conv::Z3ToExpr;
use bitsynth::search::BithackSearch;
use bitsynth::smt;
use bitsynth::smt::{BvTerm, SatKind};
use bitsynth::synth::brute_enum::BruteEnum;
use bitsynth::synth::simple_search::SimpleSearch;
use bitsynth::synth::Synthesizer;

pub const EASY_DEPTH_LIMIT: usize = 5;
pub const EASY_SEARCH_LIMIT: usize = 100;
pub const EASY_Z3_TIMEOUT: u64 = 200;

pub struct FuneqChallenge {
    args: Vec<String>,
    builder: Box<dyn Fn(&Z3ToExpr) -> BvTerm>,
}

impl FuneqChallenge {
    pub fn perform_tests<S: Synthesizer>(
        should_learn: bool,
        tests: impl IntoIterator<Item = FuneqChallenge>,
    ) {
        let solver = smt::solver_new();
        let tester = move |l: &BvTerm, r: &BvTerm| {
            smt::solver_push(&solver);
            let eq = smt::bv_eq(l, r);
            let ne = smt::bool_not(&eq);
            smt::solver_assert(&solver, &ne);
            let verdict = smt::solver_check(&solver);
            smt::solver_pop(&solver);

            verdict == SatKind::Unsat
        };

        tests
            .into_iter()
            .for_each(|x| x.perform::<S, _>(should_learn, &tester));
    }

    fn perform<S, O>(self, should_learn: bool, mut tester: O)
    where
        S: Synthesizer,
        O: FnMut(&BvTerm, &BvTerm) -> bool,
    {
        let mut search = BithackSearch::<S>::new(should_learn, self.args.clone(), EASY_DEPTH_LIMIT);
        let fun = (self.builder)(search.converter());
        let mut memory = HashSet::new();

        let res_var = smt::const_to_term(search.oracle().result_var());
        search.oracle().add_constraint(smt::bv_eq(&res_var, &fun));

        let mut found = false;
        let mut step_cnt = 0;
        while let Some(step) = search.step() {
            if step_cnt >= EASY_SEARCH_LIMIT {
                println!("searcher took too many steps");
                break;
            }
            match step {
                bitsynth::search::SearchStep::IncorrectSample { cand, .. } => {
                    let is_new = memory.insert(cand);
                    assert!(is_new);
                }
                bitsynth::search::SearchStep::CorrectSample { answer, cand } => {
                    let res = search.converter().ans_expr_to_z3(&answer);
                    assert!(tester(&fun, &res));
                    found = true;
                    let is_new = memory.insert(cand);
                    assert!(is_new);
                }
            }

            step_cnt += 1;
        }

        assert!(found)
    }
}

pub fn run_tests_with_z3<F>(f: F)
where
    F: FnOnce() + Send + Sync,
{
    let _ = colog::default_builder()
        .filter_level(log::LevelFilter::Debug)
        .try_init();

    let mut cfg = z3::Config::new();
    cfg.set_timeout_msec(EASY_Z3_TIMEOUT);

    z3::with_z3_config(&cfg, f)
}

pub fn simple_funeq_challenges() -> Vec<FuneqChallenge> {
    vec![
        FuneqChallenge {
            args: vec!["x".to_string()],
            builder: Box::new(|conv| {
                let x = smt::const_to_term(conv.get_argument("x").unwrap());

                smt::bv_and(&x, &smt::bv_from_i64(0x2, bitsynth::expr::BITS_PER_VAL))
            }),
        },
        FuneqChallenge {
            args: vec!["x".to_string()],
            builder: Box::new(|conv| {
                smt::const_to_term(conv.get_argument("x").unwrap())
            }),
        },
        FuneqChallenge {
            args: vec!["x".to_string()],
            builder: Box::new(|_conv| smt::bv_from_i64(123, bitsynth::expr::BITS_PER_VAL)),
        },
    ]
}

#[test]
fn test_simple_search_simple_funeq() {
    run_tests_with_z3(|| {
        let tests = simple_funeq_challenges();
        FuneqChallenge::perform_tests::<SimpleSearch>(false, tests);
    });
}

#[test]
fn test_brute_enum_search_simple_funeq() {
    run_tests_with_z3(|| {
        let tests = simple_funeq_challenges();
        FuneqChallenge::perform_tests::<BruteEnum>(false, tests);
    });
}
