//! The trusted boundary to the SMT solver.
//!
//! Everything the library asks of the solver goes through the small
//! wrappers of this module. Each handle type holds one solver object
//! and is opaque to the rest of the crate: the wrappers build terms,
//! hand them around, and read integers back out of models. Nothing
//! is assumed of a solver verdict or of a model's contents; callers
//! state what holds of every possible outcome.
//!
//! Two conventions keep the underlying calls within their documented
//! preconditions. Every bit-vector term is 32 bits wide: the
//! constructors require the fixed width, so no operator can ever see
//! operands of different sorts. And a solver constant gets its own
//! handle type, `BvConst`, produced only by the constant
//! constructors: quantification, which the solver accepts over
//! constants alone, takes that type.

use vstd::prelude::*;

verus! {

/// Handle to one solver instance (z3::Solver).
#[verifier::external_body]
pub struct Solver {
    h: z3::Solver,
}

/// Handle to a model returned by a satisfiable check (z3::Model).
#[verifier::external_body]
pub struct Model {
    h: z3::Model,
}

/// Handle to a bit-vector term (z3::ast::BV).
#[verifier::external_body]
pub struct BvTerm {
    h: z3::ast::BV,
}

/// Handle to a bit-vector solver constant (z3::ast::BV). Only the
/// constant constructors produce one, so a value of this type is
/// always a named or fresh constant, never a compound term: what
/// quantification and model lookup require.
#[verifier::external_body]
pub struct BvConst {
    h: z3::ast::BV,
}

/// Handle to a boolean term (z3::ast::Bool).
#[verifier::external_body]
pub struct BoolTerm {
    h: z3::ast::Bool,
}

/// Handle to an integer term (z3::ast::Int).
#[verifier::external_body]
pub struct IntTerm {
    h: z3::ast::Int,
}

/// The text holds no NUL character. What reaches the solver's C
/// interface goes through a C string, which no NUL may interrupt.
pub open spec fn text_ok(s: Seq<char>) -> bool {
    forall|i: int| 0 <= i < s.len() ==> s[i] != '\0'
}

/// Every name holds no NUL character.
pub open spec fn names_ok(names: Seq<String>) -> bool {
    forall|i: int| 0 <= i < names.len() ==> text_ok((#[trigger] names[i])@)
}

/// A solver verdict.
#[derive(Debug, Clone, Copy, PartialEq, Eq, Structural)]
pub enum SatKind {
    Sat,
    Unsat,
    Unknown,
}

/// Relies on z3::ast::BV::new_const: a named bit-vector constant at
/// the fixed width (the sort size must be positive, and one width
/// for every term keeps all sorts equal). The name must hold no
/// NUL: the underlying symbol is a C string.
#[verifier::external_body]
pub fn bv_new_const(name: &str, bits: u32) -> BvConst
    requires
        text_ok(name@),
        bits == 32,
{
    BvConst { h: z3::ast::BV::new_const(name, bits) }
}

/// Relies on z3::ast::BV::fresh_const: a bit-vector constant, at
/// the fixed width, whose name is fresh for the solver context. The
/// prefix must hold no NUL: the underlying call takes a C string.
#[verifier::external_body]
pub fn bv_fresh_const(prefix: &str, bits: u32) -> BvConst
    requires
        text_ok(prefix@),
        bits == 32,
{
    BvConst { h: z3::ast::BV::fresh_const(prefix, bits) }
}

/// Relies on z3::ast::BV::new_const: a bit-vector constant, at the
/// fixed width, named by the prefix followed by the decimal index.
/// The prefix must hold no NUL: the underlying symbol is a C string.
#[verifier::external_body]
pub fn bv_indexed_const(prefix: &str, idx: usize, bits: u32) -> BvConst
    requires
        text_ok(prefix@),
        bits == 32,
{
    BvConst { h: z3::ast::BV::new_const(format!("{prefix}{idx}"), bits) }
}

/// Relies on z3::ast::BV::from_i64: a bit-vector literal at the
/// fixed width (the sort size must be positive, and one width for
/// every term keeps all sorts equal).
#[verifier::external_body]
pub fn bv_from_i64(v: i64, bits: u32) -> BvTerm
    requires
        bits == 32,
{
    BvTerm { h: z3::ast::BV::from_i64(v, bits) }
}

/// Relies on z3::ast::BV's Clone: the constant as a term, for use
/// inside compound terms.
#[verifier::external_body]
pub fn const_to_term(x: &BvConst) -> BvTerm {
    BvTerm { h: x.h.clone() }
}

/// Relies on z3::ast::BV's Clone: another handle to the same
/// constant.
#[verifier::external_body]
pub fn bv_const_dup(x: &BvConst) -> BvConst {
    BvConst { h: x.h.clone() }
}

/// Relies on z3::ast::BV::as_i64: the numeral's value, if it is one.
#[verifier::external_body]
pub fn bv_as_i64(x: &BvTerm) -> Option<i64> {
    x.h.as_i64()
}

/// Relies on z3::ast::BV::bvnot: bitwise complement.
#[verifier::external_body]
pub fn bv_not(x: &BvTerm) -> BvTerm {
    BvTerm { h: x.h.bvnot() }
}

/// Relies on z3::ast::BV::bvneg: two's-complement negation.
#[verifier::external_body]
pub fn bv_neg(x: &BvTerm) -> BvTerm {
    BvTerm { h: x.h.bvneg() }
}

/// Relies on z3::ast::BV::bvand: bitwise and.
#[verifier::external_body]
pub fn bv_and(l: &BvTerm, r: &BvTerm) -> BvTerm {
    BvTerm { h: l.h.bvand(&r.h) }
}

/// Relies on z3::ast::BV::bvor: bitwise or.
#[verifier::external_body]
pub fn bv_or(l: &BvTerm, r: &BvTerm) -> BvTerm {
    BvTerm { h: l.h.bvor(&r.h) }
}

/// Relies on z3::ast::BV::bvxor: bitwise exclusive or.
#[verifier::external_body]
pub fn bv_xor(l: &BvTerm, r: &BvTerm) -> BvTerm {
    BvTerm { h: l.h.bvxor(&r.h) }
}

/// Relies on z3::ast::BV::bvadd: modular addition.
#[verifier::external_body]
pub fn bv_add(l: &BvTerm, r: &BvTerm) -> BvTerm {
    BvTerm { h: l.h.bvadd(&r.h) }
}

/// Relies on z3::ast::BV::bvsub: modular subtraction.
#[verifier::external_body]
pub fn bv_sub(l: &BvTerm, r: &BvTerm) -> BvTerm {
    BvTerm { h: l.h.bvsub(&r.h) }
}

/// Relies on z3::ast::BV::bvshl: shift left.
#[verifier::external_body]
pub fn bv_shl(l: &BvTerm, r: &BvTerm) -> BvTerm {
    BvTerm { h: l.h.bvshl(&r.h) }
}

/// Relies on z3::ast::BV::bvashr: arithmetic shift right.
#[verifier::external_body]
pub fn bv_ashr(l: &BvTerm, r: &BvTerm) -> BvTerm {
    BvTerm { h: l.h.bvashr(&r.h) }
}

/// The shift-left of the language: the right operand is taken
/// modulo the width, by masking its low bits, so that the solver
/// term means exactly what the interpreter computes.
pub fn bv_shl_mod(l: &BvTerm, r: &BvTerm, bits: u32) -> BvTerm
    requires
        bits == 32,
{
    let mask = bv_from_i64((bits - 1) as i64, bits);
    bv_shl(l, &bv_and(r, &mask))
}

/// The arithmetic shift-right of the language: the right operand is
/// taken modulo the width, by masking its low bits, so that the
/// solver term means exactly what the interpreter computes.
pub fn bv_ashr_mod(l: &BvTerm, r: &BvTerm, bits: u32) -> BvTerm
    requires
        bits == 32,
{
    let mask = bv_from_i64((bits - 1) as i64, bits);
    bv_ashr(l, &bv_and(r, &mask))
}

/// Relies on z3::ast::BV::eq: the formula equating two bit-vector
/// terms. Both operands are 32 bits wide, as every term this module
/// constructs is, so the sorts always agree.
#[verifier::external_body]
pub fn bv_eq(l: &BvTerm, r: &BvTerm) -> BoolTerm {
    BoolTerm { h: l.h.eq(&r.h) }
}

/// Relies on z3::ast::Bool::and: conjunction of all the formulas.
/// At least one formula must be given: the underlying call takes a
/// positive number of arguments.
#[verifier::external_body]
pub fn bool_and_all(xs: &Vec<BoolTerm>) -> BoolTerm
    requires
        xs@.len() >= 1,
{
    let inner: Vec<z3::ast::Bool> = xs.iter().map(|x| x.h.clone()).collect();
    BoolTerm { h: z3::ast::Bool::and(inner.as_slice()) }
}

/// Relies on z3::ast::Bool::from_bool: a boolean literal.
#[verifier::external_body]
pub fn bool_literal(b: bool) -> BoolTerm {
    BoolTerm { h: z3::ast::Bool::from_bool(b) }
}

/// Relies on z3::ast::Bool::not: negation.
#[verifier::external_body]
pub fn bool_not(x: &BoolTerm) -> BoolTerm {
    BoolTerm { h: x.h.not() }
}

/// Relies on z3::ast::Bool::implies: implication.
#[verifier::external_body]
pub fn bool_implies(a: &BoolTerm, b: &BoolTerm) -> BoolTerm {
    BoolTerm { h: a.h.implies(&b.h) }
}

/// Relies on z3::ast::forall_const: universal quantification over
/// the given bit-vector constants and one further constant. The
/// bounds are genuine solver constants, which the underlying call
/// requires: only the constant constructors produce a `BvConst`.
#[verifier::external_body]
pub fn forall_bvs_and(bounds: &Vec<BvConst>, extra: &BvConst, body: &BoolTerm) -> BoolTerm {
    let mut refs: Vec<&dyn z3::ast::Ast> = Vec::new();
    for b in bounds.iter() {
        refs.push(&b.h);
    }
    refs.push(&extra.h);
    BoolTerm { h: z3::ast::forall_const(refs.as_slice(), &[], &body.h) }
}

/// Relies on z3::Solver::new: a fresh solver.
#[verifier::external_body]
pub fn solver_new() -> Solver {
    Solver { h: z3::Solver::new() }
}

/// Relies on z3::Solver::push: opens one backtracking scope.
#[verifier::external_body]
pub fn solver_push(s: &Solver) {
    s.h.push()
}

/// Relies on z3::Solver::pop: closes one backtracking scope.
#[verifier::external_body]
pub fn solver_pop(s: &Solver) {
    s.h.pop(1)
}

/// Relies on z3::Solver::assert: adds a formula to the current scope.
#[verifier::external_body]
pub fn solver_assert(s: &Solver, c: &BoolTerm) {
    s.h.assert(&c.h)
}

/// Relies on z3::Solver::check: the verdict on the current
/// assertions. Nothing is assumed of which verdict comes back.
#[verifier::external_body]
pub fn solver_check(s: &Solver) -> SatKind {
    match s.h.check() {
        z3::SatResult::Sat => SatKind::Sat,
        z3::SatResult::Unsat => SatKind::Unsat,
        z3::SatResult::Unknown => SatKind::Unknown,
    }
}

/// Relies on z3::Solver::get_model: the model of the last check, if
/// the solver kept one.
#[verifier::external_body]
pub fn solver_get_model(s: &Solver) -> Option<Model> {
    s.h.get_model().map(|h| Model { h })
}

/// Relies on z3::Solver::reset: removes every assertion.
#[verifier::external_body]
pub fn solver_reset(s: &Solver) {
    s.h.reset()
}

/// Relies on z3::Solver::from_string: parses SMT-LIB text into the
/// solver's assertion set. The text must hold no NUL: the
/// underlying call builds a C string and does not return on one.
#[verifier::external_body]
pub fn solver_from_string(s: &Solver, text: &str)
    requires
        text_ok(text@),
{
    s.h.from_string(text)
}

/// Relies on z3::Solver::get_assertions: the solver's current
/// assertion set.
#[verifier::external_body]
pub fn solver_get_assertions(s: &Solver) -> Vec<BoolTerm> {
    s.h.get_assertions().into_iter().map(|h| BoolTerm { h }).collect()
}

/// Relies on z3::Model::get_const_interp: the model's value for a
/// bit-vector constant, if the model mentions it.
#[verifier::external_body]
pub fn model_bv_interp(m: &Model, x: &BvConst) -> Option<BvTerm> {
    m.h.get_const_interp(&x.h).map(|h| BvTerm { h })
}

/// Relies on z3::Model::get_const_interp: the model's value for an
/// integer constant, if the model mentions it.
#[verifier::external_body]
pub fn model_int_interp(m: &Model, x: &IntTerm) -> Option<IntTerm> {
    m.h.get_const_interp(&x.h).map(|h| IntTerm { h })
}

/// Relies on z3::ast::Int::fresh_const: an integer constant whose
/// name is fresh for the solver context. The prefix must hold no
/// NUL: the underlying call takes a C string.
#[verifier::external_body]
pub fn int_fresh_const(prefix: &str) -> IntTerm
    requires
        text_ok(prefix@),
{
    IntTerm { h: z3::ast::Int::fresh_const(prefix) }
}

/// Relies on z3::ast::Int::from_u64: an integer literal.
#[verifier::external_body]
pub fn int_from_u64(v: u64) -> IntTerm {
    IntTerm { h: z3::ast::Int::from_u64(v) }
}

/// Relies on z3::ast::Int's Clone: another handle to the same term.
#[verifier::external_body]
pub fn int_dup(x: &IntTerm) -> IntTerm {
    IntTerm { h: x.h.clone() }
}

/// Relies on z3::ast::Int::as_u64: the numeral's value, if it is a
/// non-negative one in range.
#[verifier::external_body]
pub fn int_as_u64(x: &IntTerm) -> Option<u64> {
    x.h.as_u64()
}

/// Relies on z3::ast::Int::lt: strictly-less-than over integers.
#[verifier::external_body]
pub fn int_lt(a: &IntTerm, b: &IntTerm) -> BoolTerm {
    BoolTerm { h: a.h.lt(&b.h) }
}

/// Relies on z3::ast::Int::le: less-than-or-equal over integers.
#[verifier::external_body]
pub fn int_le(a: &IntTerm, b: &IntTerm) -> BoolTerm {
    BoolTerm { h: a.h.le(&b.h) }
}

/// Relies on z3::ast::Int::eq: the formula equating two integer
/// terms.
#[verifier::external_body]
pub fn int_eq(a: &IntTerm, b: &IntTerm) -> BoolTerm {
    BoolTerm { h: a.h.eq(&b.h) }
}

} // verus!
