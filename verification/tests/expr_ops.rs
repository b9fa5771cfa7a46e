use std::collections::HashSet;

use bitsynth::conv::Z3ToExpr;
use bitsynth::expr::{AnswerExpr, BinopKind, Expr, ExprSkeleton, UnopKind, Value, Variable};
use bitsynth::synth::brute_enum::ExprBreadth;
use bitsynth::synth::simple_search::SimpleSearch;
use bitsynth::synth::Synthesizer;

fn var(v: Variable) -> Expr {
    Expr::Variable(v)
}

fn arg(i: usize) -> Expr {
    var(Variable::Argument(i))
}

fn lit(c: i32) -> Expr {
    var(Variable::Const(c))
}

fn unop(k: UnopKind, e: Expr) -> Expr {
    Expr::Unop(k, Box::new(e))
}

fn binop(k: BinopKind, l: Expr, r: Expr) -> Expr {
    Expr::Binop(k, Box::new(l), Box::new(r))
}

fn eval1(e: &Expr, x: i32) -> i32 {
    e.compute(&vec![x], 0)
}

#[test]
fn compute_basic_ops() {
    let x = 11;
    assert_eq!(eval1(&binop(BinopKind::And, arg(0), lit(6)), x), 11 & 6);
    assert_eq!(eval1(&binop(BinopKind::Or, arg(0), lit(6)), x), 11 | 6);
    assert_eq!(eval1(&binop(BinopKind::Xor, arg(0), lit(6)), x), 11 ^ 6);
    assert_eq!(eval1(&binop(BinopKind::Plus, arg(0), lit(6)), x), 17);
    assert_eq!(eval1(&binop(BinopKind::Minus, arg(0), lit(6)), x), 5);
}

#[test]
fn compute_unops_have_mathematical_meaning() {
    // `Not` is the bitwise complement, `Negate` the arithmetic one.
    assert_eq!(eval1(&unop(UnopKind::Not, arg(0)), 5), !5);
    assert_eq!(eval1(&unop(UnopKind::Not, arg(0)), 0), -1);
    assert_eq!(eval1(&unop(UnopKind::Negate, arg(0)), 5), -5);
    assert_eq!(eval1(&unop(UnopKind::Negate, arg(0)), i32::MIN), i32::MIN);
}

#[test]
fn compute_wraps_at_32_bits() {
    assert_eq!(eval1(&binop(BinopKind::Plus, arg(0), lit(1)), i32::MAX), i32::MIN);
    assert_eq!(eval1(&binop(BinopKind::Minus, arg(0), lit(1)), i32::MIN), i32::MAX);
}

#[test]
fn compute_shifts_take_rhs_modulo_width() {
    assert_eq!(eval1(&binop(BinopKind::Shl, arg(0), lit(1)), 3), 6);
    assert_eq!(eval1(&binop(BinopKind::Shl, arg(0), lit(33)), 3), 6);
    assert_eq!(eval1(&binop(BinopKind::Shl, arg(0), lit(-31)), 3), 6);
    // The arithmetic shift extends the sign bit.
    assert_eq!(eval1(&binop(BinopKind::ShrA, arg(0), lit(1)), -8), -4);
    assert_eq!(eval1(&binop(BinopKind::ShrA, arg(0), lit(31)), -8), -1);
    assert_eq!(eval1(&binop(BinopKind::ShrA, arg(0), lit(33)), 8), 4);
    // A hole takes the shared `unknown` value.
    let e = binop(BinopKind::ShrA, arg(0), var(Variable::UnknownConst));
    assert_eq!(e.compute(&vec![-32], 2), -8);
}

#[test]
fn depth_and_hole_counts() {
    let hole: ExprSkeleton = Expr::Variable(());
    let u = Expr::Unop(UnopKind::Not, Box::new(Expr::Variable(())));
    let b: ExprSkeleton = Expr::Binop(
        BinopKind::Plus,
        Box::new(u.clone()),
        Box::new(Expr::Variable(())),
    );
    assert_eq!(hole.expr_depth(), 0);
    assert_eq!(u.expr_depth(), 1);
    assert_eq!(b.expr_depth(), 2);
    assert_eq!(hole.count_holes(), 1);
    assert_eq!(u.count_holes(), 1);
    assert_eq!(b.count_holes(), 2);

    let cand = binop(BinopKind::Plus, var(Variable::UnknownConst), var(Variable::UnknownConst));
    assert_eq!(cand.count_unknowns(), 2);
    assert_eq!(cand.expr_depth(), 1);
}

#[test]
fn to_expr_fills_holes_left_to_right() {
    let skele: ExprSkeleton = Expr::Binop(
        BinopKind::Minus,
        Box::new(Expr::Variable(())),
        Box::new(Expr::Variable(())),
    );
    let filled = skele.to_expr(&vec![Variable::Argument(0), Variable::Const(7)]);
    assert_eq!(filled, binop(BinopKind::Minus, arg(0), lit(7)));
}

#[test]
fn subst_hole_replaces_only_the_target() {
    let skele: ExprSkeleton = Expr::Binop(
        BinopKind::Xor,
        Box::new(Expr::Variable(())),
        Box::new(Expr::Variable(())),
    );
    let sub: ExprSkeleton = Expr::Unop(UnopKind::Negate, Box::new(Expr::Variable(())));
    let grown = skele.subst_hole(1, &sub);
    let expected: ExprSkeleton = Expr::Binop(
        BinopKind::Xor,
        Box::new(Expr::Variable(())),
        Box::new(Expr::Unop(UnopKind::Negate, Box::new(Expr::Variable(())))),
    );
    assert_eq!(grown, expected);
    assert_eq!(grown.count_holes(), 2);
}

#[test]
fn to_ans_resolves_names_and_holes() {
    let cand = binop(BinopKind::And, arg(0), var(Variable::UnknownConst));
    let names = vec!["x".to_string()];
    let ans = cand.to_ans(&names, &vec![7]);
    let expected: AnswerExpr = Expr::Binop(
        BinopKind::And,
        Box::new(Expr::Variable(Value::Arg("x".to_string()))),
        Box::new(Expr::Variable(Value::Const(7))),
    );
    assert_eq!(ans, expected);
    assert_eq!(ans.compute_answer(&names, &vec![3]), 3 & 7);
    assert_eq!(ans.compute_answer(&names, &vec![-1]), -1 & 7);
}

#[test]
fn display_is_fully_parenthesized_infix() {
    let ans: AnswerExpr = Expr::Binop(
        BinopKind::Plus,
        Box::new(Expr::Binop(
            BinopKind::Xor,
            Box::new(Expr::Variable(Value::Arg("x".to_string()))),
            Box::new(Expr::Variable(Value::Const(3))),
        )),
        Box::new(Expr::Unop(
            UnopKind::Negate,
            Box::new(Expr::Variable(Value::Const(-17))),
        )),
    );
    assert_eq!(ans.to_display_string(), "((x ^ 3) + -(-17))");
    let shifted: AnswerExpr = Expr::Binop(
        BinopKind::ShrA,
        Box::new(Expr::Variable(Value::Arg("x".to_string()))),
        Box::new(Expr::Unop(
            UnopKind::Not,
            Box::new(Expr::Variable(Value::Const(0))),
        )),
    );
    assert_eq!(shifted.to_display_string(), "(x >> !(0))");
}

#[test]
fn declaration_lists_arguments_then_res() {
    let conv = Z3ToExpr::new(vec!["x".to_string(), "y".to_string()]);
    assert_eq!(
        conv.declaration(),
        "(declare-const x (_ BitVec 32))\n(declare-const y (_ BitVec 32))\n(declare-const res (_ BitVec 32))"
    );
}

#[test]
fn breadth_enumeration_is_novel_and_bounded() {
    let mut breadth = ExprBreadth::new(1, 2);
    let mut seen: HashSet<Expr> = HashSet::new();
    let mut produced = 0;
    while let Some(e) = breadth.next() {
        assert!(e.expr_depth() <= 2);
        assert!(e.check_args_bounded(1));
        assert!(seen.insert(e), "an expression was produced twice");
        produced += 1;
        if produced >= 300 {
            break;
        }
    }
    assert!(produced >= 100);
}

#[test]
fn breadth_enumeration_order_is_deterministic() {
    // One argument: the single hole fills as a constant hole, then
    // as the argument; then each level-one skeleton in the fixed
    // operator order, with the first hole advancing fastest.
    let mut breadth = ExprBreadth::new(1, 2);
    let hole = var(Variable::UnknownConst);
    let x = arg(0);
    let expected = vec![
        hole.clone(),
        x.clone(),
        unop(UnopKind::Negate, hole.clone()),
        unop(UnopKind::Negate, x.clone()),
        unop(UnopKind::Not, hole.clone()),
        unop(UnopKind::Not, x.clone()),
        binop(BinopKind::And, hole.clone(), hole.clone()),
        binop(BinopKind::And, x.clone(), hole.clone()),
        binop(BinopKind::And, hole.clone(), x.clone()),
        binop(BinopKind::And, x.clone(), x.clone()),
        binop(BinopKind::Or, hole.clone(), hole.clone()),
    ];
    for e in expected {
        assert_eq!(breadth.next(), Some(e));
    }
}

#[test]
fn breadth_enumeration_terminates() {
    let mut breadth = ExprBreadth::new(1, 1);
    let mut produced = 0;
    while let Some(_e) = breadth.next() {
        produced += 1;
        assert!(produced < 10_000);
    }
    // One skeleton of depth zero and nine of depth one, with one or
    // two holes each over the two-letter alphabet.
    assert_eq!(produced, 2 + 2 * 2 + 7 * 4);
}

#[test]
fn simple_search_yields_its_database_once() {
    let mut s = SimpleSearch::new(1);
    let first = s.next_expr().unwrap();
    assert_eq!(first, var(Variable::UnknownConst));
    let second = s.next_expr().unwrap();
    assert_eq!(second, arg(0));
    let third = s.next_expr().unwrap();
    assert_eq!(third, binop(BinopKind::And, arg(0), var(Variable::UnknownConst)));
    assert!(s.next_expr().is_none());

    let mut none_args = SimpleSearch::new(0);
    assert!(none_args.next_expr().is_none());
}
