//! The candidate generators.
//!
//! A synthesizer is an iterator-like structure: it yields candidate
//! expressions and can additionally be taught counter-examples, which
//! lets a learning generator narrow its search.

use vstd::prelude::*;

use crate::expr::{Expr, ExprVal};

pub mod brute_enum;
pub mod circuit_enum;
pub mod simple_search;

verus! {

/// A generator of candidate expressions.
///
/// Every candidate a synthesizer yields refers only to argument
/// indices below its declared argument count.
pub trait Synthesizer: Sized {
    /// The declared number of arguments of the sought function.
    open spec fn arg_count(&self) -> nat {
        0
    }

    /// The generator's internal consistency.
    open spec fn inv(&self) -> bool {
        true
    }

    /// Constructs the generator for `var_count` arguments and, for
    /// generators that bound their search, the given depth limit.
    fn build(var_count: usize, depth_limit: usize) -> (r: Self)
        requires
            depth_limit <= 30,
        ensures
            r.inv(),
            r.arg_count() == var_count,
    ;

    /// Reports that `cand` is universally wrong, together with an
    /// input on which it fails and an output the specification
    /// admits there. A learning generator narrows its search with it.
    fn bad_cand(&mut self, cand: &Expr, args: Vec<ExprVal>, expected: ExprVal)
        requires
            old(self).inv(),
        ensures
            final(self).inv(),
            final(self).arg_count() == old(self).arg_count(),
    ;

    /// Yields the next candidate, or `None` when the generator can
    /// offer no further one.
    fn next_expr(&mut self) -> (r: Option<Expr>)
        requires
            old(self).inv(),
        ensures
            final(self).inv(),
            final(self).arg_count() == old(self).arg_count(),
            r matches Some(e) ==> e.args_bounded(old(self).arg_count()),
    ;
}

} // verus!
