//! A toy generator that tries a few common one-argument shapes.

use vstd::prelude::*;

use crate::expr::{BinopKind, Expr, ExprVal, Variable};
use crate::synth::Synthesizer;

verus! {

/// The fixed candidate database, in the order it is tried: a lone
/// constant hole, the first argument, and the first argument masked
/// by a constant hole.
pub open spec fn spec_simple_db() -> Seq<Expr> {
    seq![
        Expr::Variable(Variable::UnknownConst),
        Expr::Variable(Variable::Argument(0)),
        Expr::Binop(
            BinopKind::And,
            Box::new(Expr::Variable(Variable::Argument(0))),
            Box::new(Expr::Variable(Variable::UnknownConst)),
        ),
    ]
}

/// Tries a fixed database of common candidates; works only for
/// single-variable functions and does not learn.
pub struct SimpleSearch {
    arg_cnt: usize,
    db: Vec<Expr>,
    last_tried: usize,
}

impl SimpleSearch {
    /// The candidate database, in order.
    pub closed spec fn db_seq(&self) -> Seq<Expr> {
        self.db@
    }

    /// How many candidates have been yielded.
    pub closed spec fn cursor(&self) -> nat {
        self.last_tried as nat
    }

    /// Builds the database: a lone constant hole, the first argument,
    /// and the first argument masked by a constant hole.
    pub fn new(arg_cnt: usize) -> (r: Self)
        ensures
            r.inv(),
            r.arg_count() == arg_cnt,
            r.db_seq() == spec_simple_db(),
            r.cursor() == 0,
    {
        let mut db: Vec<Expr> = Vec::new();
        db.push(Expr::Variable(Variable::UnknownConst));
        db.push(Expr::Variable(Variable::Argument(0)));
        db.push(
            Expr::Binop(
                BinopKind::And,
                Box::new(Expr::Variable(Variable::Argument(0))),
                Box::new(Expr::Variable(Variable::UnknownConst)),
            ),
        );
        let r = SimpleSearch { arg_cnt, last_tried: 0, db };
        proof {
            assert(r.db@[0].args_bounded(1) && r.db@[0].spec_depth() == 0);
            assert(r.db@[1].args_bounded(1) && r.db@[1].spec_depth() == 0);
            assert(r.db@[2] matches Expr::Binop(_, l, rr) && l.args_bounded(1)
                && rr.args_bounded(1) && l.spec_depth() == 0 && rr.spec_depth() == 0);
            assert(forall|i: int|
                0 <= i < r.db@.len() ==> (#[trigger] r.db@[i]).args_bounded(1)
                    && r.db@[i].spec_depth() <= 1);
            assert(r.db@ =~= spec_simple_db());
        }
        r
    }
}

impl Synthesizer for SimpleSearch {
    closed spec fn arg_count(&self) -> nat {
        self.arg_cnt as nat
    }

    closed spec fn inv(&self) -> bool {
        forall|i: int|
            0 <= i < self.db@.len() ==> (#[trigger] self.db@[i]).args_bounded(1)
                && self.db@[i].spec_depth() <= 1
    }

    fn build(var_count: usize, depth_limit: usize) -> (r: Self) {
        Self::new(var_count)
    }

    fn bad_cand(&mut self, cand: &Expr, args: Vec<ExprVal>, expected: ExprVal)
        ensures
            *final(self) == *old(self),
    {
        // This generator does not learn: the state is untouched.
    }

    fn next_expr(&mut self) -> (r: Option<Expr>)
        ensures
            r matches Some(e) ==> e.spec_depth() <= 1,
            final(self).db_seq() == old(self).db_seq(),
            old(self).arg_count() == 0 ==> r is None && *final(self) == *old(self),
            old(self).arg_count() >= 1 && old(self).cursor() < old(self).db_seq().len() ==> r
                == Some(old(self).db_seq()[old(self).cursor() as int]) && final(self).cursor()
                == old(self).cursor() + 1,
            old(self).arg_count() >= 1 && old(self).cursor() >= old(self).db_seq().len() ==> r
                is None && *final(self) == *old(self),
    {
        if self.arg_cnt < 1 {
            return None;
        }
        if self.last_tried < self.db.len() {
            let e = &self.db[self.last_tried];
            self.last_tried = self.last_tried + 1;
            let c = e.clone();
            proof {
                crate::expr::lemma_args_bounded_mono(c, 1, self.arg_cnt as nat);
            }
            Some(c)
        } else {
            None
        }
    }
}

} // verus!
