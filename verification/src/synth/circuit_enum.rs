//! Component-based circuit synthesis.
//!
//! The instance is fixed at construction: a library of component
//! templates (each a small expression with input ports and optional
//! constant holes) and a multiset stating how many of each template
//! one program may place. Line numbers label connection points:
//! `0 .. k` for the arguments and `k .. k + n` for the component
//! outputs, and equal line numbers mean "wired together". Each
//! synthesis attempt asserts, in a fresh solver scope, the library
//! semantics, acyclicity, distinctness of line numbers, the location
//! domains, the connection semantics, and one data-flow replica per
//! training example; a satisfying model is decoded back into an
//! expression.

use vstd::prelude::*;

use crate::expr::{BinopKind, Expr, ExprVal, UnopKind, Variable, BITS_PER_VAL};
use crate::smt;
use crate::smt::{BvConst, BvTerm, IntTerm, Model, SatKind, Solver};
use crate::synth::Synthesizer;

verus! {

/// One connection point: its value and its line number.
pub struct Connection {
    val: BvConst,
    loc: IntTerm,
}

/// A fresh connection point.
fn new_connection(val_prefix: &str, loc_prefix: &str) -> Connection
    requires
        smt::text_ok(val_prefix@),
        smt::text_ok(loc_prefix@),
{
    Connection {
        val: smt::bv_fresh_const(val_prefix, BITS_PER_VAL),
        loc: smt::int_fresh_const(loc_prefix),
    }
}

/// A per-example copy of a connection point: a fresh value at the
/// same line number.
fn new_case_connection(c: &Connection) -> Connection {
    proof {
        reveal_strlit("cv");
    }
    Connection { val: smt::bv_fresh_const("cv", BITS_PER_VAL), loc: smt::int_dup(&c.loc) }
}

/// Number of input ports a template expression reads.
pub open spec fn spec_input_count(e: Expr) -> nat
    decreases e,
{
    match e {
        Expr::Variable(v) => if v is Argument {
            1
        } else {
            0
        },
        Expr::Unop(_, c) => spec_input_count(*c),
        Expr::Binop(_, l, r) => spec_input_count(*l) + spec_input_count(*r),
    }
}

/// Counts the input ports, or `None` past the machine word.
fn count_inputs_checked(e: &Expr) -> (r: Option<usize>)
    ensures
        r matches Some(n) ==> n == spec_input_count(*e),
        r is None ==> spec_input_count(*e) > usize::MAX,
    decreases *e,
{
    match e {
        Expr::Variable(v) => match v {
            Variable::Argument(_) => Some(1),
            _ => Some(0),
        },
        Expr::Unop(_, c) => count_inputs_checked(c),
        Expr::Binop(_, l, r) => {
            let nl = count_inputs_checked(l);
            let nr = count_inputs_checked(r);
            match (nl, nr) {
                (Some(a), Some(b)) => a.checked_add(b),
                _ => None,
            }
        },
    }
}

/// Counts the constant holes, or `None` past the machine word.
fn count_unknowns_checked(e: &Expr) -> (r: Option<usize>)
    ensures
        r matches Some(n) ==> n == e.spec_unknowns(),
        r is None ==> e.spec_unknowns() > usize::MAX,
    decreases *e,
{
    match e {
        Expr::Variable(v) => match v {
            Variable::UnknownConst => Some(1),
            _ => Some(0),
        },
        Expr::Unop(_, c) => count_unknowns_checked(c),
        Expr::Binop(_, l, r) => {
            let nl = count_unknowns_checked(l);
            let nr = count_unknowns_checked(r);
            match (nl, nr) {
                (Some(a), Some(b)) => a.checked_add(b),
                _ => None,
            }
        },
    }
}

/// One component template: an expression whose `Argument(i)` leaves
/// are its input ports and whose constant holes the solver may fill.
pub struct ComponentTemplate(pub Expr);

impl ComponentTemplate {
    /// Every input port index is in range and the port and hole
    /// counts fit the machine word.
    pub open spec fn wf(&self) -> bool {
        &&& self.0.args_bounded(spec_input_count(self.0))
        &&& spec_input_count(self.0) <= usize::MAX
        &&& self.0.spec_unknowns() <= usize::MAX
    }

    /// Accepts the expression as a template if its port indices are
    /// in range.
    pub fn new(e: Expr) -> (r: Option<ComponentTemplate>)
        ensures
            r matches Some(t) ==> t.wf() && t.0 == e,
    {
        let inputs = match count_inputs_checked(&e) {
            Some(n) => n,
            None => {
                return None;
            },
        };
        match count_unknowns_checked(&e) {
            Some(_) => {},
            None => {
                return None;
            },
        }
        if e.check_args_bounded(inputs) {
            Some(ComponentTemplate(e))
        } else {
            None
        }
    }

    /// Number of input ports of the template.
    pub fn input_count(&self) -> (r: usize)
        requires
            self.wf(),
        ensures
            r == spec_input_count(self.0),
    {
        match count_inputs_checked(&self.0) {
            Some(n) => n,
            None => vstd::pervasive::unreached(),
        }
    }

    /// Number of constant holes of the template.
    pub fn const_count(&self) -> (r: usize)
        requires
            self.wf(),
        ensures
            r == self.0.spec_unknowns(),
    {
        self.0.count_unknowns()
    }
}

/// The component library: the template shapes, and one entry per
/// placeable component naming its template.
pub struct Library {
    template: Vec<ComponentTemplate>,
    components: Vec<usize>,
}

impl Library {
    /// Number of placeable components.
    pub closed spec fn comp_count(&self) -> nat {
        self.components@.len()
    }

    /// The template of component `i`.
    pub closed spec fn template_of(&self, i: int) -> ComponentTemplate {
        self.template@[self.components@[i] as int]
    }

    /// Every component names a template, and every template is well
    /// formed.
    pub closed spec fn wf(&self) -> bool {
        &&& forall|i: int|
            0 <= i < self.components@.len() ==> (#[trigger] self.components@[i])
                < self.template@.len()
        &&& forall|t: int| 0 <= t < self.template@.len() ==> (#[trigger] self.template@[t]).wf()
    }

    /// Accepts the library if every component names a template.
    pub fn new(template: Vec<ComponentTemplate>, components: Vec<usize>) -> (r: Option<Library>)
        ensures
            r matches Some(l) ==> l.wf() && l.comp_count() == components@.len(),
            r matches Some(l) ==> forall|i: int|
                0 <= i < components@.len() ==> #[trigger] l.template_of(i) == template@[
                    components@[i] as int
                ],
            (forall|t: int| 0 <= t < template@.len() ==> (#[trigger] template@[t]).wf())
                && (forall|i: int|
                0 <= i < components@.len() ==> (#[trigger] components@[i]) < template@.len())
                ==> r is Some,
    {
        let mut t: usize = 0;
        while t < template.len()
            invariant
                t <= template@.len(),
                forall|j: int| 0 <= j < t ==> (#[trigger] template@[j]).wf(),
            decreases template@.len() - t,
        {
            let e = &template[t].0;
            let inputs = match count_inputs_checked(e) {
                Some(n) => n,
                None => {
                    return None;
                },
            };
            match count_unknowns_checked(e) {
                Some(_) => {},
                None => {
                    return None;
                },
            }
            if !e.check_args_bounded(inputs) {
                return None;
            }
            t = t + 1;
        }
        let mut i: usize = 0;
        while i < components.len()
            invariant
                i <= components@.len(),
                forall|j: int| 0 <= j < template@.len() ==> (#[trigger] template@[j]).wf(),
                forall|j: int|
                    0 <= j < i ==> (#[trigger] components@[j]) < template@.len(),
            decreases components@.len() - i,
        {
            if components[i] >= template.len() {
                return None;
            }
            i = i + 1;
        }
        Some(Library { template, components })
    }

    /// The template of the given component.
    pub fn template_for(&self, comp_idx: usize) -> (r: &ComponentTemplate)
        requires
            self.wf(),
            comp_idx < self.comp_count(),
        ensures
            *r == self.template_of(comp_idx as int),
            r.wf(),
    {
        &self.template[self.components[comp_idx]]
    }
}

/// One placed component: its constant terms, its input points, and
/// its output point.
pub struct Component {
    constants: Vec<BvConst>,
    inputs: Vec<Connection>,
    output: Connection,
}

/// The connection points of one synthesis attempt: one component per
/// library entry, one point per argument, and the result point.
pub struct LibrarySpec {
    components: Vec<Component>,
    args: Vec<Connection>,
    result: Connection,
}

impl LibrarySpec {
    /// The number of argument points.
    pub closed spec fn arg_len(&self) -> nat {
        self.args@.len()
    }

    /// The points fit the library: one component per entry, with as
    /// many inputs and constants as its template has ports and
    /// holes.
    pub closed spec fn fits(&self, lib: Library) -> bool {
        &&& self.components@.len() == lib.comp_count()
        &&& forall|i: int|
            0 <= i < self.components@.len() ==> (#[trigger] self.components@[i]).inputs@.len()
                == spec_input_count(lib.template_of(i).0) && self.components@[i].constants@.len()
                == lib.template_of(i).0.spec_unknowns()
    }
}

/// Lifts a template subtree to a term: ports read the input points'
/// values, holes take, left to right, the constant terms from `ofs`.
fn template_to_term(e: &Expr, inputs: &Vec<Connection>, consts: &Vec<BvConst>, ofs: usize) -> (r: (
    BvTerm,
    usize,
))
    requires
        e.args_bounded(inputs@.len()),
        ofs + e.spec_unknowns() <= consts@.len(),
    ensures
        r.1 == ofs + e.spec_unknowns(),
    decreases *e,
{
    let n = consts.len();
    match e {
        Expr::Variable(v) => match v {
            Variable::UnknownConst => {
                assert(e.spec_unknowns() == 1);
                (smt::const_to_term(&consts[ofs]), ofs + 1)
            },
            Variable::Const(x) => (smt::bv_from_i64(*x as i64, BITS_PER_VAL), ofs),
            Variable::Argument(i) => (smt::const_to_term(&inputs[*i].val), ofs),
        },
        Expr::Unop(k, c) => {
            let (t, next) = template_to_term(c, inputs, consts, ofs);
            let r = match k {
                UnopKind::Not => smt::bv_not(&t),
                UnopKind::Negate => smt::bv_neg(&t),
            };
            (r, next)
        },
        Expr::Binop(k, l, rr) => {
            let (tl, mid) = template_to_term(l, inputs, consts, ofs);
            let (tr, next) = template_to_term(rr, inputs, consts, mid);
            let r = match k {
                BinopKind::And => smt::bv_and(&tl, &tr),
                BinopKind::Or => smt::bv_or(&tl, &tr),
                BinopKind::Xor => smt::bv_xor(&tl, &tr),
                BinopKind::Plus => smt::bv_add(&tl, &tr),
                BinopKind::Minus => smt::bv_sub(&tl, &tr),
                BinopKind::Shl => smt::bv_shl_mod(&tl, &tr, BITS_PER_VAL),
                BinopKind::ShrA => smt::bv_ashr_mod(&tl, &tr, BITS_PER_VAL),
            };
            (r, next)
        },
    }
}

/// Another handle to a connection point's terms.
fn dup_connection(c: &Connection) -> Connection {
    Connection { val: smt::bv_const_dup(&c.val), loc: smt::int_dup(&c.loc) }
}

impl Library {
    /// Number of placeable components.
    fn comp_len(&self) -> (r: usize)
        ensures
            r == self.comp_count(),
    {
        self.components.len()
    }

    /// Builds the well-formedness constraints of one synthesis
    /// attempt in the solver's current scope: fresh connection
    /// points, acyclicity of every component's wiring, distinct
    /// line numbers for outputs and arguments, and the location
    /// domains. Returns the points.
    pub fn wf_spec(&self, arg_count: usize, solver: &Solver) -> (r: LibrarySpec)
        requires
            self.wf(),
            arg_count + self.comp_count() <= usize::MAX,
        ensures
            r.fits(*self),
            r.arg_len() == arg_count,
    {
        proof {
            reveal_strlit("cr");
            reveal_strlit("crl");
        }
        let n_comp = self.components.len();
        let loc_total = arg_count + n_comp;
        let result = new_connection("cr", "crl");
        let mut args: Vec<Connection> = Vec::new();
        while args.len() < arg_count
            invariant
                args@.len() <= arg_count,
            decreases arg_count - args@.len(),
        {
            proof {
                reveal_strlit("ca");
                reveal_strlit("cal");
            }
            args.push(new_connection("ca", "cal"));
        }
        let zero = smt::int_from_u64(0);
        let loc_count = smt::int_from_u64(loc_total as u64);
        let arg_count_t = smt::int_from_u64(arg_count as u64);
        let mut components: Vec<Component> = Vec::new();
        let mut ci: usize = 0;
        while ci < n_comp
            invariant
                self.wf(),
                n_comp == self.comp_count(),
                ci <= n_comp,
                components@.len() == ci,
                forall|i: int|
                    0 <= i < ci ==> (#[trigger] components@[i]).inputs@.len() == spec_input_count(
                        self.template_of(i).0,
                    ) && components@[i].constants@.len() == self.template_of(i).0.spec_unknowns(),
            decreases n_comp - ci,
        {
            proof {
                reveal_strlit("co");
                reveal_strlit("col");
            }
            let template = self.template_for(ci);
            let n_in = template.input_count();
            let n_c = template.const_count();
            let output = new_connection("co", "col");
            let mut inputs: Vec<Connection> = Vec::new();
            while inputs.len() < n_in
                invariant
                    inputs@.len() <= n_in,
                decreases n_in - inputs@.len(),
            {
                proof {
                    reveal_strlit("ci");
                    reveal_strlit("cil");
                }
                inputs.push(new_connection("ci", "cil"));
            }
            let mut constants: Vec<BvConst> = Vec::new();
            while constants.len() < n_c
                invariant
                    constants@.len() <= n_c,
                decreases n_c - constants@.len(),
            {
                proof {
                    reveal_strlit("cc");
                }
                constants.push(smt::bv_fresh_const("cc", BITS_PER_VAL));
            }
            let mut j: usize = 0;
            let n_in_now = inputs.len();
            while j < n_in_now
                invariant
                    n_in_now == inputs@.len(),
                    j <= n_in_now,
                decreases n_in_now - j,
            {
                let acyc = smt::int_lt(&inputs[j].loc, &output.loc);
                smt::solver_assert(solver, &acyc);
                j = j + 1;
            }
            components.push(Component { constants, inputs, output });
            ci = ci + 1;
        }
        let mut i: usize = 0;
        while i < n_comp
            invariant
                n_comp == components@.len(),
                i <= n_comp,
            decreases n_comp - i,
        {
            let mut j: usize = i + 1;
            while j < n_comp
                invariant
                    n_comp == components@.len(),
                    i < j || j == i + 1,
                    i < n_comp,
                    j <= n_comp,
                decreases n_comp - j,
            {
                let eq = smt::int_eq(&components[i].output.loc, &components[j].output.loc);
                let distinct = smt::bool_not(&eq);
                smt::solver_assert(solver, &distinct);
                j = j + 1;
            }
            i = i + 1;
        }
        let n_args = args.len();
        let mut i: usize = 0;
        while i < n_args
            invariant
                n_args == args@.len(),
                i <= n_args,
            decreases n_args - i,
        {
            let mut j: usize = i + 1;
            while j < n_args
                invariant
                    n_args == args@.len(),
                    i < n_args,
                    j <= n_args,
                decreases n_args - j,
            {
                let eq = smt::int_eq(&args[i].loc, &args[j].loc);
                let distinct = smt::bool_not(&eq);
                smt::solver_assert(solver, &distinct);
                j = j + 1;
            }
            i = i + 1;
        }
        let mut i: usize = 0;
        while i < n_args
            invariant
                n_args == args@.len(),
                n_comp == components@.len(),
                i <= n_args,
            decreases n_args - i,
        {
            let mut j: usize = 0;
            while j < n_comp
                invariant
                    n_args == args@.len(),
                    n_comp == components@.len(),
                    i < n_args,
                    j <= n_comp,
                decreases n_comp - j,
            {
                let eq = smt::int_eq(&args[i].loc, &components[j].output.loc);
                let distinct = smt::bool_not(&eq);
                smt::solver_assert(solver, &distinct);
                j = j + 1;
            }
            i = i + 1;
        }
        let mut i: usize = 0;
        while i < n_comp
            invariant
                n_comp == components@.len(),
                i <= n_comp,
            decreases n_comp - i,
        {
            let lo = smt::int_le(&arg_count_t, &components[i].output.loc);
            smt::solver_assert(solver, &lo);
            let hi = smt::int_lt(&components[i].output.loc, &loc_count);
            smt::solver_assert(solver, &hi);
            let n_in_now = components[i].inputs.len();
            let mut j: usize = 0;
            while j < n_in_now
                invariant
                    n_comp == components@.len(),
                    i < n_comp,
                    n_in_now == components@[i as int].inputs@.len(),
                    j <= n_in_now,
                decreases n_in_now - j,
            {
                let lo2 = smt::int_le(&zero, &components[i].inputs[j].loc);
                smt::solver_assert(solver, &lo2);
                let hi2 = smt::int_lt(&components[i].inputs[j].loc, &loc_count);
                smt::solver_assert(solver, &hi2);
                j = j + 1;
            }
            i = i + 1;
        }
        let mut i: usize = 0;
        while i < n_args
            invariant
                n_args == args@.len(),
                i <= n_args,
            decreases n_args - i,
        {
            let lo = smt::int_le(&zero, &args[i].loc);
            smt::solver_assert(solver, &lo);
            let hi = smt::int_lt(&args[i].loc, &arg_count_t);
            smt::solver_assert(solver, &hi);
            i = i + 1;
        }
        let lo = smt::int_le(&zero, &result.loc);
        smt::solver_assert(solver, &lo);
        let hi = smt::int_lt(&result.loc, &loc_count);
        smt::solver_assert(solver, &hi);
        LibrarySpec { args, components, result }
    }

    /// Asserts one training example in the solver's current scope: a
    /// fresh data-flow replica over the shared line numbers, the
    /// library semantics on it, value equality wherever line numbers
    /// coincide, and the example's inputs and output pinned.
    pub fn func_spec(
        &self,
        solver: &Solver,
        lib_spec: &LibrarySpec,
        values: &Vec<ExprVal>,
        expected: ExprVal,
    )
        requires
            self.wf(),
            lib_spec.fits(*self),
    {
        let n_comp = lib_spec.components.len();
        let n_args = lib_spec.args.len();
        let mut args2: Vec<Connection> = Vec::new();
        let mut i: usize = 0;
        while i < n_args
            invariant
                n_args == lib_spec.args@.len(),
                i <= n_args,
                args2@.len() == i,
            decreases n_args - i,
        {
            args2.push(new_case_connection(&lib_spec.args[i]));
            i = i + 1;
        }
        let result2 = new_case_connection(&lib_spec.result);
        let mut components2: Vec<Component> = Vec::new();
        let mut ci: usize = 0;
        while ci < n_comp
            invariant
                self.wf(),
                lib_spec.fits(*self),
                n_comp == lib_spec.components@.len(),
                ci <= n_comp,
                components2@.len() == ci,
                forall|t: int|
                    0 <= t < ci ==> (#[trigger] components2@[t]).inputs@.len()
                        == lib_spec.components@[t].inputs@.len() && components2@[t].constants@.len()
                        == lib_spec.components@[t].constants@.len(),
            decreases n_comp - ci,
        {
            let base = &lib_spec.components[ci];
            let n_in = base.inputs.len();
            let n_c = base.constants.len();
            let mut inputs: Vec<Connection> = Vec::new();
            let mut j: usize = 0;
            while j < n_in
                invariant
                    n_in == base.inputs@.len(),
                    j <= n_in,
                    inputs@.len() == j,
                decreases n_in - j,
            {
                inputs.push(new_case_connection(&base.inputs[j]));
                j = j + 1;
            }
            let mut constants: Vec<BvConst> = Vec::new();
            let mut j2: usize = 0;
            while j2 < n_c
                invariant
                    n_c == base.constants@.len(),
                    j2 <= n_c,
                    constants@.len() == j2,
                decreases n_c - j2,
            {
                constants.push(smt::bv_const_dup(&base.constants[j2]));
                j2 = j2 + 1;
            }
            let output = new_case_connection(&base.output);
            components2.push(Component { constants, inputs, output });
            ci = ci + 1;
        }
        let mut ci: usize = 0;
        while ci < n_comp
            invariant
                self.wf(),
                lib_spec.fits(*self),
                n_comp == lib_spec.components@.len(),
                components2@.len() == n_comp,
                ci <= n_comp,
                forall|t: int|
                    0 <= t < n_comp ==> (#[trigger] components2@[t]).inputs@.len()
                        == lib_spec.components@[t].inputs@.len() && components2@[t].constants@.len()
                        == lib_spec.components@[t].constants@.len(),
            decreases n_comp - ci,
        {
            let template = self.template_for(ci);
            let comp = &components2[ci];
            let (term, used) = template_to_term(&template.0, &comp.inputs, &comp.constants, 0);
            let sem = smt::bv_eq(&smt::const_to_term(&comp.output.val), &term);
            smt::solver_assert(solver, &sem);
            ci = ci + 1;
        }
        let mut points: Vec<Connection> = Vec::new();
        let mut ci: usize = 0;
        while ci < n_comp
            invariant
                components2@.len() == n_comp,
                ci <= n_comp,
            decreases n_comp - ci,
        {
            let n_in = components2[ci].inputs.len();
            let mut j: usize = 0;
            while j < n_in
                invariant
                    components2@.len() == n_comp,
                    ci < n_comp,
                    n_in == components2@[ci as int].inputs@.len(),
                    j <= n_in,
                decreases n_in - j,
            {
                points.push(dup_connection(&components2[ci].inputs[j]));
                j = j + 1;
            }
            points.push(dup_connection(&components2[ci].output));
            ci = ci + 1;
        }
        let mut ai: usize = 0;
        while ai < args2.len()
            invariant
                ai <= args2@.len(),
            decreases args2@.len() - ai,
        {
            points.push(dup_connection(&args2[ai]));
            ai = ai + 1;
        }
        points.push(dup_connection(&result2));
        let n_points = points.len();
        let mut i: usize = 0;
        while i < n_points
            invariant
                n_points == points@.len(),
                i <= n_points,
            decreases n_points - i,
        {
            let mut j: usize = i + 1;
            while j < n_points
                invariant
                    n_points == points@.len(),
                    i < n_points,
                    j <= n_points,
                decreases n_points - j,
            {
                let same_loc = smt::int_eq(&points[i].loc, &points[j].loc);
                let same_val = smt::bv_eq(
                    &smt::const_to_term(&points[i].val),
                    &smt::const_to_term(&points[j].val),
                );
                let wired = smt::bool_implies(&same_loc, &same_val);
                smt::solver_assert(solver, &wired);
                j = j + 1;
            }
            i = i + 1;
        }
        let expected_t = smt::bv_from_i64(expected as i64, BITS_PER_VAL);
        let pinned = smt::bv_eq(&smt::const_to_term(&result2.val), &expected_t);
        smt::solver_assert(solver, &pinned);
        let n_vals = if values.len() < args2.len() {
            values.len()
        } else {
            args2.len()
        };
        let mut i: usize = 0;
        while i < n_vals
            invariant
                n_vals <= values@.len(),
                n_vals <= args2@.len(),
                i <= n_vals,
            decreases n_vals - i,
        {
            let lit = smt::bv_from_i64(values[i] as i64, BITS_PER_VAL);
            let pin = smt::bv_eq(&smt::const_to_term(&args2[i].val), &lit);
            smt::solver_assert(solver, &pin);
            i = i + 1;
        }
    }
}

/// The training examples fed back by the search.
pub struct TestStorage {
    tests: Vec<(Vec<ExprVal>, ExprVal)>,
}

impl TestStorage {
    /// The stored examples.
    pub closed spec fn examples(&self) -> Seq<(Vec<ExprVal>, ExprVal)> {
        self.tests@
    }

    /// No examples yet.
    pub fn new() -> (r: Self)
        ensures
            r.examples().len() == 0,
    {
        TestStorage { tests: Vec::new() }
    }

    /// Records one example.
    pub fn add_test(&mut self, args: Vec<ExprVal>, expected: ExprVal)
        ensures
            final(self).examples() == old(self).examples().push((args, expected)),
    {
        self.tests.push((args, expected));
    }

    /// Asserts every stored example in the solver's current scope.
    fn assert_examples(&self, library: &Library, lib_spec: &LibrarySpec, solver: &Solver)
        requires
            library.wf(),
            lib_spec.fits(*library),
    {
        let n = self.tests.len();
        let mut i: usize = 0;
        while i < n
            invariant
                library.wf(),
                lib_spec.fits(*library),
                n == self.tests@.len(),
                i <= n,
            decreases n - i,
        {
            let (values, expected) = &self.tests[i];
            library.func_spec(solver, lib_spec, values, *expected);
            i = i + 1;
        }
    }
}

/// The template of a two-port gate: the operator applied to ports
/// `0` and `1`.
pub open spec fn spec_gate2(k: BinopKind) -> Expr {
    Expr::Binop(
        k,
        Box::new(Expr::Variable(Variable::Argument(0))),
        Box::new(Expr::Variable(Variable::Argument(1))),
    )
}

/// The template of a one-port gate: the operator applied to port
/// `0` and a fixed constant.
pub open spec fn spec_gate_const(k: BinopKind, c: ExprVal) -> Expr {
    Expr::Binop(
        k,
        Box::new(Expr::Variable(Variable::Argument(0))),
        Box::new(Expr::Variable(Variable::Const(c))),
    )
}

/// The template of an arithmetic shift right of port `0` by an
/// unknown constant.
pub open spec fn spec_shra_hole() -> Expr {
    Expr::Binop(
        BinopKind::ShrA,
        Box::new(Expr::Variable(Variable::Argument(0))),
        Box::new(Expr::Variable(Variable::UnknownConst)),
    )
}

/// The default library's fifteen slots, in order: three each of
/// and, or, xor and subtraction, then decrement, increment, and the
/// arithmetic shift right by an unknown constant.
pub open spec fn spec_default_slots() -> Seq<Expr> {
    seq![
        spec_gate2(BinopKind::And),
        spec_gate2(BinopKind::And),
        spec_gate2(BinopKind::And),
        spec_gate2(BinopKind::Or),
        spec_gate2(BinopKind::Or),
        spec_gate2(BinopKind::Or),
        spec_gate2(BinopKind::Xor),
        spec_gate2(BinopKind::Xor),
        spec_gate2(BinopKind::Xor),
        spec_gate2(BinopKind::Minus),
        spec_gate2(BinopKind::Minus),
        spec_gate2(BinopKind::Minus),
        spec_gate_const(BinopKind::Minus, 1),
        spec_gate_const(BinopKind::Plus, 1),
        spec_shra_hole(),
    ]
}

/// The default library: three of each two-port gate (and, or, xor,
/// subtraction), decrement, increment, and an arithmetic shift right
/// by an unknown constant.
pub fn default_lib() -> (r: Library)
    ensures
        r.wf(),
        r.comp_count() == 15,
        forall|i: int| 0 <= i < 15 ==> (#[trigger] r.template_of(i)).0 == spec_default_slots()[i],
{
    let mut template: Vec<ComponentTemplate> = Vec::new();
    template.push(binop_args_template(BinopKind::And));
    template.push(binop_args_template(BinopKind::Or));
    template.push(binop_args_template(BinopKind::Xor));
    template.push(binop_args_template(BinopKind::Minus));
    template.push(binop_const_template(BinopKind::Minus, 1));
    template.push(binop_const_template(BinopKind::Plus, 1));
    template.push(shra_unknown_template());
    let mut components: Vec<usize> = Vec::new();
    components.push(0);
    components.push(0);
    components.push(0);
    components.push(1);
    components.push(1);
    components.push(1);
    components.push(2);
    components.push(2);
    components.push(2);
    components.push(3);
    components.push(3);
    components.push(3);
    components.push(4);
    components.push(5);
    components.push(6);
    proof {
        assert(template@.len() == 7);
        assert(template@[0].wf() && template@[1].wf() && template@[2].wf() && template@[3].wf()
            && template@[4].wf() && template@[5].wf() && template@[6].wf());
        assert(forall|t: int| 0 <= t < template@.len() ==> (#[trigger] template@[t]).wf());
        assert(components@.len() == 15);
        assert(forall|i: int|
            0 <= i < components@.len() ==> (#[trigger] components@[i]) < template@.len());
    }
    match Library::new(template, components) {
        Some(l) => {
            proof {
                assert forall|i: int| 0 <= i < 15 implies (#[trigger] l.template_of(i)).0
                    == spec_default_slots()[i] by {
                    assert(l.template_of(i) == template@[components@[i] as int]);
                }
            }
            l
        },
        None => vstd::pervasive::unreached(),
    }
}

/// A two-port template: the operator applied to ports `0` and `1`.
fn binop_args_template(k: BinopKind) -> (r: ComponentTemplate)
    ensures
        r.wf(),
        r.0 == spec_gate2(k),
{
    let p0 = Expr::Variable(Variable::Argument(0));
    let p1 = Expr::Variable(Variable::Argument(1));
    proof {
        assert(spec_input_count(p0) == 1 && spec_input_count(p1) == 1);
        assert(p0.args_bounded(2) && p1.args_bounded(2));
        assert(p0.spec_unknowns() == 0 && p1.spec_unknowns() == 0);
    }
    let e = Expr::Binop(k, Box::new(p0), Box::new(p1));
    ComponentTemplate(e)
}

/// A one-port template: the operator applied to port `0` and a fixed
/// constant.
fn binop_const_template(k: BinopKind, c: ExprVal) -> (r: ComponentTemplate)
    ensures
        r.wf(),
        r.0 == spec_gate_const(k, c),
{
    let p0 = Expr::Variable(Variable::Argument(0));
    let lit = Expr::Variable(Variable::Const(c));
    proof {
        assert(spec_input_count(p0) == 1 && spec_input_count(lit) == 0);
        assert(p0.args_bounded(1) && lit.args_bounded(1));
        assert(p0.spec_unknowns() == 0 && lit.spec_unknowns() == 0);
    }
    let e = Expr::Binop(k, Box::new(p0), Box::new(lit));
    ComponentTemplate(e)
}

/// The arithmetic shift right of port `0` by an unknown constant.
fn shra_unknown_template() -> (r: ComponentTemplate)
    ensures
        r.wf(),
        r.0 == spec_shra_hole(),
{
    let p0 = Expr::Variable(Variable::Argument(0));
    let hole = Expr::Variable(Variable::UnknownConst);
    proof {
        assert(spec_input_count(p0) == 1 && spec_input_count(hole) == 0);
        assert(p0.args_bounded(1) && hole.args_bounded(1));
        assert(p0.spec_unknowns() == 0 && hole.spec_unknowns() == 1);
    }
    let e = Expr::Binop(BinopKind::ShrA, Box::new(p0), Box::new(hole));
    ComponentTemplate(e)
}

/// `e` is an instance of `template`: the same operator tree, with
/// every constant leaf kept, every constant hole resolved to some
/// constant, and every input port replaced by some subexpression.
pub open spec fn instantiates(e: Expr, template: Expr) -> bool
    decreases template,
{
    match template {
        Expr::Variable(v) => match v {
            Variable::UnknownConst => e matches Expr::Variable(Variable::Const(_)),
            Variable::Const(x) => e == Expr::Variable(Variable::Const(x)),
            Variable::Argument(_) => true,
        },
        Expr::Unop(k, t) => e matches Expr::Unop(k2, e2) && k2 == k && instantiates(*e2, *t),
        Expr::Binop(k, l, r) => e matches Expr::Binop(k2, el, er) && k2 == k && instantiates(
            *el,
            *l,
        ) && instantiates(*er, *r),
    }
}

/// What a line number resolves to: a placed component or an
/// argument.
#[derive(Debug, Clone, Copy, PartialEq, Eq, Structural)]
enum ComponentIdx {
    Common(usize),
    Argument(usize),
}

/// Every resolved line points at a real component or argument.
spec fn table_ok(table: Seq<Option<ComponentIdx>>, n_comp: nat, n_args: nat) -> bool {
    forall|i: int|
        0 <= i < table.len() ==> match #[trigger] table[i] {
            Some(ComponentIdx::Common(c)) => (c as nat) < n_comp,
            Some(ComponentIdx::Argument(a)) => (a as nat) < n_args,
            None => true,
        }
}

/// The learning generator: encodes component placement as one solver
/// query per example set and decodes the model into an expression.
pub struct CircuitEnum {
    arg_count: usize,
    solver: Solver,
    library: Library,
    tests: TestStorage,
    failed: bool,
}

impl CircuitEnum {
    /// The training examples accumulated so far, in order.
    pub closed spec fn examples(&self) -> Seq<(Vec<ExprVal>, ExprVal)> {
        self.tests.examples()
    }

    /// Number of placeable components of the generator's library.
    pub closed spec fn places(&self) -> nat {
        self.library.comp_count()
    }

    /// Whether an attempt has failed: the encoding was unsatisfiable
    /// or unknown, or its model could not be decoded. For this
    /// generator that is a hard failure — the library is too weak or
    /// the examples are inconsistent — not an exhausted search.
    pub closed spec fn attempt_failed(&self) -> bool {
        self.failed
    }

    /// Whether an attempt has failed; see [`Self::attempt_failed`].
    pub fn has_failed(&self) -> (r: bool)
        ensures
            r == self.attempt_failed(),
    {
        self.failed
    }

    /// Builds the generator over a caller-chosen component library.
    pub fn with_library(var_count: usize, library: Library) -> (r: Self)
        requires
            library.wf(),
        ensures
            r.inv(),
            r.arg_count() == var_count,
            r.examples().len() == 0,
            !r.attempt_failed(),
    {
        CircuitEnum {
            arg_count: var_count,
            solver: smt::solver_new(),
            library,
            tests: TestStorage::new(),
            failed: false,
        }
    }

    /// Reads a line number out of the model, or `None` when the
    /// model does not pin it or it is out of range.
    fn read_loc(model: &Model, loc: &IntTerm, limit: usize) -> (r: Option<usize>)
        ensures
            r matches Some(l) ==> l < limit,
    {
        match smt::model_int_interp(model, loc) {
            Some(t) => match smt::int_as_u64(&t) {
                Some(v) => {
                    if v < limit as u64 {
                        Some(#[verifier::truncate] (v as usize))
                    } else {
                        None
                    }
                },
                None => None,
            },
            None => None,
        }
    }

    /// Decodes the model of one satisfiable attempt into an
    /// expression, starting from the result's line. `None` when the
    /// model leaves a needed line open, points it out of range, or
    /// wires a cycle.
    fn decode(&self, lib_spec: &LibrarySpec, model: &Model) -> (r: Option<Expr>)
        requires
            self.library.wf(),
            lib_spec.fits(self.library),
            lib_spec.arg_len() == self.arg_count,
            self.arg_count + self.library.comp_count() <= usize::MAX,
        ensures
            r matches Some(e) ==> e.args_bounded(self.arg_count as nat),
    {
        let n_comp = lib_spec.components.len();
        let n_args = lib_spec.args.len();
        let total = n_args + n_comp;
        let mut table: Vec<Option<ComponentIdx>> = Vec::new();
        while table.len() < total
            invariant
                table@.len() <= total,
                table_ok(table@, n_comp as nat, n_args as nat),
            decreases total - table@.len(),
        {
            table.push(None);
        }
        let mut i: usize = 0;
        while i < n_comp
            invariant
                n_comp == lib_spec.components@.len(),
                table@.len() == total,
                i <= n_comp,
                table_ok(table@, n_comp as nat, n_args as nat),
            decreases n_comp - i,
        {
            let loc = match Self::read_loc(model, &lib_spec.components[i].output.loc, total) {
                Some(l) => l,
                None => {
                    return None;
                },
            };
            table[loc] = Some(ComponentIdx::Common(i));
            i = i + 1;
        }
        let mut a: usize = 0;
        while a < n_args
            invariant
                n_args == lib_spec.args@.len(),
                table@.len() == total,
                a <= n_args,
                table_ok(table@, n_comp as nat, n_args as nat),
            decreases n_args - a,
        {
            let loc = match Self::read_loc(model, &lib_spec.args[a].loc, total) {
                Some(l) => l,
                None => {
                    return None;
                },
            };
            table[loc] = Some(ComponentIdx::Argument(a));
            a = a + 1;
        }
        let start = match Self::read_loc(model, &lib_spec.result.loc, total) {
            Some(l) => l,
            None => {
                return None;
            },
        };
        if total == usize::MAX {
            return None;
        }
        self.decode_rec(start, &table, lib_spec, model, total + 1)
    }

    /// Decodes the point at line `loc`: an argument becomes a leaf,
    /// a component becomes its template with each port decoded
    /// recursively. The fuel bounds the recursion; a cyclically
    /// wired model runs out of it.
    fn decode_rec(
        &self,
        loc: usize,
        table: &Vec<Option<ComponentIdx>>,
        lib_spec: &LibrarySpec,
        model: &Model,
        fuel: usize,
    ) -> (r: Option<Expr>)
        requires
            self.library.wf(),
            lib_spec.fits(self.library),
            lib_spec.arg_len() == self.arg_count,
            loc < table@.len(),
            table_ok(table@, self.library.comp_count(), self.arg_count as nat),
        ensures
            r matches Some(e) ==> e.args_bounded(self.arg_count as nat),
            r matches Some(e) ==> match table@[loc as int] {
                Some(ComponentIdx::Argument(a)) => e == Expr::Variable(Variable::Argument(a)),
                Some(ComponentIdx::Common(ci)) => instantiates(
                    e,
                    self.library.template_of(ci as int).0,
                ),
                None => false,
            },
        decreases fuel, 1int, 0int,
    {
        if fuel == 0 {
            return None;
        }
        match &table[loc] {
            None => None,
            Some(ComponentIdx::Argument(a)) => Some(Expr::Variable(Variable::Argument(*a))),
            Some(ComponentIdx::Common(ci)) => {
                let template = self.library.template_for(*ci);
                match self.decode_template(&template.0, *ci, table, lib_spec, model, fuel, 0) {
                    Some((e, used)) => Some(e),
                    None => None,
                }
            },
        }
    }

    /// Decodes one template subtree of component `ci`: ports follow
    /// the model's wiring of the component's input points, and the
    /// holes from `ofs` take the model's constants (an open constant
    /// takes zero; any value satisfies the examples then).
    fn decode_template(
        &self,
        e: &Expr,
        ci: usize,
        table: &Vec<Option<ComponentIdx>>,
        lib_spec: &LibrarySpec,
        model: &Model,
        fuel: usize,
        ofs: usize,
    ) -> (r: Option<(Expr, usize)>)
        requires
            fuel >= 1,
            self.library.wf(),
            lib_spec.fits(self.library),
            lib_spec.arg_len() == self.arg_count,
            table_ok(table@, self.library.comp_count(), self.arg_count as nat),
            ci < self.library.comp_count(),
            e.args_bounded(lib_spec.components@[ci as int].inputs@.len()),
            ofs + e.spec_unknowns() <= lib_spec.components@[ci as int].constants@.len(),
        ensures
            r matches Some((expr, next)) ==> next == ofs + e.spec_unknowns()
                && expr.args_bounded(self.arg_count as nat) && instantiates(expr, *e),
        decreases fuel, 0int, e.spec_depth(),
    {
        let comp = &lib_spec.components[ci];
        let n_c = comp.constants.len();
        match e {
            Expr::Variable(v) => match v {
                Variable::UnknownConst => {
                    assert(e.spec_unknowns() == 1);
                    let val: ExprVal = match smt::model_bv_interp(model, &comp.constants[ofs]) {
                        Some(b) => match smt::bv_as_i64(&b) {
                            Some(x) => #[verifier::truncate] (x as i32),
                            None => 0,
                        },
                        None => 0,
                    };
                    Some((Expr::Variable(Variable::Const(val)), ofs + 1))
                },
                Variable::Const(x) => Some((Expr::Variable(Variable::Const(*x)), ofs)),
                Variable::Argument(inp) => {
                    let loc2 = match Self::read_loc(
                        model,
                        &comp.inputs[*inp].loc,
                        table.len(),
                    ) {
                        Some(l) => l,
                        None => {
                            return None;
                        },
                    };
                    match self.decode_rec(loc2, table, lib_spec, model, fuel - 1) {
                        Some(sub) => Some((sub, ofs)),
                        None => None,
                    }
                },
            },
            Expr::Unop(k, c) => {
                match self.decode_template(c, ci, table, lib_spec, model, fuel, ofs) {
                    Some((s, next)) => Some((Expr::Unop(*k, Box::new(s)), next)),
                    None => None,
                }
            },
            Expr::Binop(k, l, rr) => {
                match self.decode_template(l, ci, table, lib_spec, model, fuel, ofs) {
                    Some((sl, mid)) => {
                        match self.decode_template(rr, ci, table, lib_spec, model, fuel, mid) {
                            Some((sr, next)) => Some(
                                (Expr::Binop(*k, Box::new(sl), Box::new(sr)), next),
                            ),
                            None => None,
                        }
                    },
                    None => None,
                }
            },
        }
    }
}

impl Synthesizer for CircuitEnum {
    closed spec fn arg_count(&self) -> nat {
        self.arg_count as nat
    }

    closed spec fn inv(&self) -> bool {
        self.library.wf()
    }

    fn build(var_count: usize, depth_limit: usize) -> (r: Self)
        ensures
            r.examples().len() == 0,
            !r.attempt_failed(),
    {
        CircuitEnum {
            arg_count: var_count,
            solver: smt::solver_new(),
            library: default_lib(),
            tests: TestStorage::new(),
            failed: false,
        }
    }

    fn bad_cand(&mut self, cand: &Expr, args: Vec<ExprVal>, expected: ExprVal)
        ensures
            final(self).examples() == old(self).examples().push((args, expected)),
            final(self).attempt_failed() == old(self).attempt_failed(),
    {
        self.tests.add_test(args, expected);
    }

    /// One synthesis attempt over the accumulated examples. `None`
    /// is a hard failure for this generator (the encoding was
    /// unsatisfiable or unknown, its model could not be decoded, or
    /// the line numbers would overflow the machine word), recorded
    /// by `attempt_failed`: unlike an enumerator, the circuit never
    /// merely runs out of candidates.
    fn next_expr(&mut self) -> (r: Option<Expr>)
        ensures
            final(self).examples() == old(self).examples(),
            r is None <==> final(self).attempt_failed(),
            old(self).arg_count() + old(self).places() > usize::MAX ==> r is None,
    {
        let n_comp = self.library.comp_len();
        if self.arg_count > usize::MAX - n_comp {
            self.failed = true;
            return None;
        }
        smt::solver_push(&self.solver);
        let lib_spec = self.library.wf_spec(self.arg_count, &self.solver);
        self.tests.assert_examples(&self.library, &lib_spec, &self.solver);
        let verdict = smt::solver_check(&self.solver);
        let mut result: Option<Expr> = None;
        if verdict == SatKind::Sat {
            match smt::solver_get_model(&self.solver) {
                Some(model) => {
                    result = self.decode(&lib_spec, &model);
                },
                None => {},
            }
        }
        smt::solver_pop(&self.solver);
        self.failed = result.is_none();
        result
    }
}

} // verus!
