//! The per-pass verification context: the scope stack, the diagnostics sink
//! and the deferral bookkeeping, with the expression checks that feed them.
use vstd::prelude::*;
use crate::ast::{Expr, Location, wf_expr};
use crate::types::{Database, DeferError, TypeKind};

verus! {

#[derive(Clone, Copy, Debug, PartialEq, Eq, Structural)]
pub enum DiagnosticKind {
    /// Wrong number of arguments: exactly this many were expected.
    IncorrectNumArguments(usize),
    /// Too many arguments: no more than this many were expected.
    IncorrectNumArgumentsNoMoreThan(usize),
    /// A check stayed undecided after the last pass the budget allows.
    ReachedMaximumCycles,
    /// A value of type `from` does not implicitly convert to type `to`.
    ImplicitCoercionToUnrelatedType { from: usize, to: usize },
}

#[derive(Clone, Copy, Debug, PartialEq, Eq, Structural)]
pub struct Diagnostic {
    pub location: Location,
    pub kind: DiagnosticKind,
}

/// The mutable state of one pass. `scopes` is the scope stack (its last
/// entry is the current scope); `deferred` records that some check was put
/// off to a later pass; `cycle_limit_reached` is set by the driver on the
/// last pass the cycle budget allows.
pub struct Subverifier {
    pub scopes: Vec<usize>,
    pub diagnostics: Vec<Diagnostic>,
    pub deferred: bool,
    pub cycle_limit_reached: bool,
}

/// What verifying a piece of the tree does to the context: the diagnostics
/// it appends, and whether it defers a check to a later pass.
pub struct Effect {
    pub diags: Seq<Diagnostic>,
    pub defers: bool,
}

pub open spec fn no_effect() -> Effect {
    Effect { diags: Seq::empty(), defers: false }
}

pub open spec fn report(location: Location, kind: DiagnosticKind) -> Effect {
    Effect { diags: seq![Diagnostic { location, kind }], defers: false }
}

/// `a`, then `b`.
pub open spec fn chain(a: Effect, b: Effect) -> Effect {
    Effect { diags: a.diags + b.diags, defers: a.defers || b.defers }
}

/// An undecided check: put off to the next pass, or reported once the
/// cycle budget is spent.
pub open spec fn deferral(limit: bool, location: Location) -> Effect {
    if limit {
        report(location, DiagnosticKind::ReachedMaximumCycles)
    } else {
        Effect { diags: Seq::empty(), defers: true }
    }
}

/// `post` is `pre` after `e`, with the same scope stack.
pub open spec fn applied(pre: Subverifier, post: Subverifier, e: Effect) -> bool {
    &&& post.scopes@ == pre.scopes@
    &&& post.diagnostics@ == pre.diagnostics@ + e.diags
    &&& post.deferred == (pre.deferred || e.defers)
    &&& post.cycle_limit_reached == pre.cycle_limit_reached
}

pub proof fn lemma_applied_chain(
    pre: Subverifier,
    mid: Subverifier,
    post: Subverifier,
    a: Effect,
    b: Effect,
)
    requires
        applied(pre, mid, a),
        applied(mid, post, b),
    ensures
        applied(pre, post, chain(a, b)),
{
    assert(post.diagnostics@ =~= pre.diagnostics@ + (a.diags + b.diags));
}

pub proof fn lemma_applied_none(pre: Subverifier)
    ensures
        applied(pre, pre, no_effect()),
{
    assert(pre.diagnostics@ =~= pre.diagnostics@ + Seq::<Diagnostic>::empty());
}

/// Whether a value of type `from` implicitly converts to type `to`: the same
/// type, `*` on either side, `Object` as the target, or a base class.
pub open spec fn coercible(db: &Database, from: usize, to: usize) -> Result<bool, DeferError> {
    if from == to || db.kind(to) is Any || db.kind(from) is Any || db.builtins.object == Some(to) {
        Ok(true)
    } else {
        db.spec_is_subtype(from, to)
    }
}

/// The static type an expression verifies to, if any.
pub open spec fn expr_type(db: &Database, e: Expr) -> Option<usize> {
    match db.exprs@[e.id as int] {
        crate::types::ExprInfo::Typed(t) => Some(t),
        _ => None,
    }
}

pub open spec fn expr_defers(db: &Database, e: Expr) -> bool {
    db.exprs@[e.id as int] is Deferred
}

/// Verifying an expression with no expected type.
pub open spec fn expr_effect(db: &Database, limit: bool, e: Expr) -> Effect {
    if expr_defers(db, e) {
        deferral(limit, e.location)
    } else {
        no_effect()
    }
}

/// Checking an expression against an expected type.
pub enum Coercion {
    Fits,
    Mismatch(usize),
    Undecided,
}

/// How expression `e` fares against the expected type `to`; an expression
/// without a static type has nothing to convert.
pub open spec fn coercion(db: &Database, e: Expr, to: usize) -> Coercion {
    if expr_defers(db, e) {
        Coercion::Undecided
    } else {
        match expr_type(db, e) {
            Some(from) => match coercible(db, from, to) {
                Ok(true) => Coercion::Fits,
                Ok(false) => Coercion::Mismatch(from),
                Err(_) => Coercion::Undecided,
            },
            None => Coercion::Fits,
        }
    }
}

/// The diagnostic of a coercion mismatch, if there is one.
pub open spec fn mismatch_diags(e: Expr, to: usize, c: Coercion) -> Seq<Diagnostic> {
    match c {
        Coercion::Mismatch(from) => seq![
            Diagnostic {
                location: e.location,
                kind: DiagnosticKind::ImplicitCoercionToUnrelatedType { from, to },
            },
        ],
        _ => Seq::empty(),
    }
}

/// Checking an expression against an expected type, an undecided check
/// being handled as a deferral.
pub open spec fn coerce_effect(db: &Database, limit: bool, e: Expr, to: usize) -> Effect {
    let c = coercion(db, e, to);
    if c is Undecided {
        deferral(limit, e.location)
    } else {
        Effect { diags: mismatch_diags(e, to, c), defers: false }
    }
}

impl Subverifier {
    pub open spec fn current(&self) -> usize {
        self.scopes@.last()
    }

    /// A context positioned in the scope `root`.
    pub fn new(root: usize, cycle_limit_reached: bool) -> (r: Subverifier)
        ensures
            r.scopes@ == seq![root],
            r.diagnostics@ == Seq::<Diagnostic>::empty(),
            !r.deferred,
            r.cycle_limit_reached == cycle_limit_reached,
    {
        Subverifier { scopes: vec![root], diagnostics: Vec::new(), deferred: false, cycle_limit_reached }
    }

    pub fn scope(&self) -> (r: usize)
        requires
            self.scopes.len() > 0,
        ensures
            r == self.current(),
    {
        self.scopes[self.scopes.len() - 1]
    }

    pub fn enter_scope(&mut self, scope: usize)
        ensures
            final(self).scopes@ == old(self).scopes@.push(scope),
            final(self).diagnostics == old(self).diagnostics,
            final(self).deferred == old(self).deferred,
            final(self).cycle_limit_reached == old(self).cycle_limit_reached,
    {
        self.scopes.push(scope);
    }

    pub fn exit_scope(&mut self)
        requires
            old(self).scopes.len() > 0,
        ensures
            final(self).scopes@ == old(self).scopes@.drop_last(),
            final(self).diagnostics == old(self).diagnostics,
            final(self).deferred == old(self).deferred,
            final(self).cycle_limit_reached == old(self).cycle_limit_reached,
    {
        self.scopes.pop();
    }

    pub fn add_verify_error(&mut self, location: Location, kind: DiagnosticKind)
        ensures
            applied(*old(self), *final(self), report(location, kind)),
    {
        self.diagnostics.push(Diagnostic { location, kind });
        assert(self.diagnostics@ =~= old(self).diagnostics@ + report(location, kind).diags);
    }

    fn defer_or_max_cycles_error(&mut self, location: Location)
        ensures
            applied(*old(self), *final(self), deferral(old(self).cycle_limit_reached, location)),
    {
        if self.cycle_limit_reached {
            self.add_verify_error(location, DiagnosticKind::ReachedMaximumCycles);
        } else {
            self.deferred = true;
            assert(self.diagnostics@ =~= old(self).diagnostics@ + Seq::<Diagnostic>::empty());
        }
    }

    /// Verifies an expression with no expected type, and returns its static
    /// type.
    pub fn verify_expression_or_max_cycles_error(&mut self, db: &Database, e: &Expr) -> (r: Option<
        usize,
    >)
        requires
            db.wf(),
            wf_expr(db, *e),
        ensures
            r == expr_type(db, *e),
            r matches Some(t) ==> t < db.types.len(),
            applied(*old(self), *final(self), expr_effect(db, old(self).cycle_limit_reached, *e)),
    {
        match db.exprs[e.id] {
            crate::types::ExprInfo::Typed(t) => {
                assert(self.diagnostics@ =~= old(self).diagnostics@ + Seq::<Diagnostic>::empty());
                Some(t)
            },
            crate::types::ExprInfo::Untyped => {
                assert(self.diagnostics@ =~= old(self).diagnostics@ + Seq::<Diagnostic>::empty());
                None
            },
            crate::types::ExprInfo::Deferred => {
                self.defer_or_max_cycles_error(e.location);
                None
            },
        }
    }
}

pub fn is_coercible(db: &Database, from: usize, to: usize) -> (r: Result<bool, DeferError>)
    requires
        db.wf(),
        from < db.types.len(),
        to < db.types.len(),
    ensures
        r == coercible(db, from, to),
{
    let to_any = match &db.types[to] {
        TypeKind::Any => true,
        _ => false,
    };
    let from_any = match &db.types[from] {
        TypeKind::Any => true,
        _ => false,
    };
    let to_object = match db.builtins.object {
        Some(o) => o == to,
        None => false,
    };
    if from == to || to_any || from_any || to_object {
        Ok(true)
    } else {
        db.is_subtype_of(from, to)
    }
}

/// Checks an expression against an expected type without touching the
/// context.
pub fn check_coercion(db: &Database, e: &Expr, to: usize) -> (r: Coercion)
    requires
        db.wf(),
        wf_expr(db, *e),
        to < db.types.len(),
    ensures
        r == coercion(db, *e, to),
{
    match db.exprs[e.id] {
        crate::types::ExprInfo::Typed(from) => match is_coercible(db, from, to) {
            Ok(true) => Coercion::Fits,
            Ok(false) => Coercion::Mismatch(from),
            Err(_) => Coercion::Undecided,
        },
        crate::types::ExprInfo::Untyped => Coercion::Fits,
        crate::types::ExprInfo::Deferred => Coercion::Undecided,
    }
}

impl Subverifier {
    /// Checks that an expression implicitly converts to `to`, reporting a
    /// mismatch; an undecided check is a deferral.
    pub fn imp_coerce_exp_or_max_cycles_error(&mut self, db: &Database, e: &Expr, to: usize)
        requires
            db.wf(),
            wf_expr(db, *e),
            to < db.types.len(),
        ensures
            applied(*old(self), *final(self), coerce_effect(db, old(self).cycle_limit_reached, *e, to)),
    {
        match check_coercion(db, e, to) {
            Coercion::Fits => {
                assert(self.diagnostics@ =~= old(self).diagnostics@ + Seq::<Diagnostic>::empty());
            },
            Coercion::Mismatch(from) => {
                self.add_verify_error(
                    e.location,
                    DiagnosticKind::ImplicitCoercionToUnrelatedType { from, to },
                );
            },
            Coercion::Undecided => {
                self.defer_or_max_cycles_error(e.location);
            },
        }
    }
}

} // verus!
