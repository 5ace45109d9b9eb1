//! Checking a call's arguments against a signature: arity first, then each
//! argument against its parameter's type.
use vstd::prelude::*;
use crate::ast::{Expr, wf_exprs};
use crate::context::{Coercion, Diagnostic, Subverifier, check_coercion, coercion, mismatch_diags};
use crate::types::{Database, Param, Signature, params_ok};

verus! {

#[derive(Clone, Copy, Debug, PartialEq, Eq, Structural)]
pub enum ArgumentsError {
    /// Exactly this many arguments were expected.
    Expected(usize),
    /// No more than this many arguments were expected.
    ExpectedNoMoreThan(usize),
    /// Some argument could not be checked yet.
    Defer,
}

/// How many of the parameters must be given.
pub open spec fn required_params(params: Seq<Param>) -> nat
    decreases params.len(),
{
    if params.len() == 0 {
        0
    } else {
        required_params(params.drop_last()) + if params.last().optional {
            0nat
        } else {
            1nat
        }
    }
}

/// The arity error for `n` arguments, if any. Too few arguments ask for the
/// required count; too many, without a rest parameter, ask for exactly the
/// parameter count when none is optional, and for no more than it otherwise.
pub open spec fn arity_error(params: Seq<Param>, rest: bool, n: nat) -> Option<ArgumentsError> {
    let req = required_params(params);
    if n < req {
        Some(ArgumentsError::Expected(req as usize))
    } else if !rest && n > params.len() {
        if req == params.len() {
            Some(ArgumentsError::Expected(params.len() as usize))
        } else {
            Some(ArgumentsError::ExpectedNoMoreThan(params.len() as usize))
        }
    } else {
        None
    }
}

/// The type the `i`-th argument must convert to: its parameter's, or `*`
/// for rest arguments.
pub open spec fn arg_target(db: &Database, params: Seq<Param>, i: int) -> usize {
    if i < params.len() {
        params[i].ty
    } else {
        db.builtins.any
    }
}

/// The diagnostics and outcome of checking the first `k` arguments against
/// their types; the first undecided argument stops the check.
pub open spec fn args_typed(db: &Database, args: Seq<Expr>, params: Seq<Param>, k: nat) -> (
    Seq<Diagnostic>,
    Result<(), ArgumentsError>,
)
    decreases k,
{
    if k == 0 {
        (Seq::empty(), Ok(()))
    } else {
        let (d, r) = args_typed(db, args, params, (k - 1) as nat);
        if r is Err {
            (d, r)
        } else {
            let i = k - 1;
            let to = arg_target(db, params, i);
            let c = coercion(db, args[i], to);
            if c is Undecided {
                (d, Err(ArgumentsError::Defer))
            } else {
                (d + mismatch_diags(args[i], to, c), Ok(()))
            }
        }
    }
}

/// The diagnostics and outcome of checking `args` against a signature.
pub open spec fn args_check(db: &Database, args: Seq<Expr>, params: Seq<Param>, rest: bool) -> (
    Seq<Diagnostic>,
    Result<(), ArgumentsError>,
) {
    match arity_error(params, rest, args.len()) {
        Some(e) => (Seq::empty(), Err(e)),
        None => args_typed(db, args, params, args.len()),
    }
}

proof fn lemma_args_typed_stops(db: &Database, args: Seq<Expr>, params: Seq<Param>, k: nat, m: nat)
    requires
        k <= m,
        args_typed(db, args, params, k).1 is Err,
    ensures
        args_typed(db, args, params, m) == args_typed(db, args, params, k),
    decreases m,
{
    if k < m {
        lemma_args_typed_stops(db, args, params, k, (m - 1) as nat);
    }
}

proof fn lemma_required_params_bound(params: Seq<Param>)
    ensures
        required_params(params) <= params.len(),
    decreases params.len(),
{
    if params.len() > 0 {
        lemma_required_params_bound(params.drop_last());
    }
}

fn count_required(params: &Vec<Param>) -> (r: usize)
    ensures
        r == required_params(params@),
{
    let mut count: usize = 0;
    let mut i: usize = 0;
    while i < params.len()
        invariant
            i <= params.len(),
            count == required_params(params@.subrange(0, i as int)),
            count <= i,
        decreases params.len() - i,
    {
        let ghost before = params@.subrange(0, i as int);
        assert(params@.subrange(0, i as int + 1).drop_last() =~= before);
        if !params[i].optional {
            count = count + 1;
        }
        i = i + 1;
    }
    assert(params@.subrange(0, i as int) =~= params@);
    count
}

/// Checks `args` against `sig`: appends a diagnostic for each argument that
/// does not convert to its parameter's type, and returns the arity error,
/// or `Defer` when an argument could not be checked yet.
pub fn verify_arguments(ctx: &mut Subverifier, db: &Database, args: &Vec<Expr>, sig: &Signature) -> (r:
    Result<(), ArgumentsError>)
    requires
        db.wf(),
        wf_exprs(db, args@),
        params_ok(db.types@, sig.params@),
    ensures
        r == args_check(db, args@, sig.params@, sig.rest).1,
        final(ctx).diagnostics@ == old(ctx).diagnostics@ + args_check(
            db,
            args@,
            sig.params@,
            sig.rest,
        ).0,
        final(ctx).scopes@ == old(ctx).scopes@,
        final(ctx).deferred == old(ctx).deferred,
        final(ctx).cycle_limit_reached == old(ctx).cycle_limit_reached,
{
    proof {
        lemma_required_params_bound(sig.params@);
    }
    let req = count_required(&sig.params);
    let n = args.len();
    if n < req {
        assert(old(ctx).diagnostics@ =~= old(ctx).diagnostics@ + Seq::<Diagnostic>::empty());
        return Err(ArgumentsError::Expected(req));
    }
    if !sig.rest && n > sig.params.len() {
        assert(old(ctx).diagnostics@ =~= old(ctx).diagnostics@ + Seq::<Diagnostic>::empty());
        if req == sig.params.len() {
            return Err(ArgumentsError::Expected(sig.params.len()));
        } else {
            return Err(ArgumentsError::ExpectedNoMoreThan(sig.params.len()));
        }
    }
    let mut i: usize = 0;
    assert(old(ctx).diagnostics@ =~= old(ctx).diagnostics@ + args_typed(db, args@, sig.params@, 0).0);
    while i < n
        invariant
            db.wf(),
            wf_exprs(db, args@),
            params_ok(db.types@, sig.params@),
            n == args.len(),
            i <= n,
            arity_error(sig.params@, sig.rest, n as nat) is None,
            args_typed(db, args@, sig.params@, i as nat).1 is Ok,
            ctx.diagnostics@ == old(ctx).diagnostics@ + args_typed(db, args@, sig.params@, i as nat).0,
            ctx.scopes@ == old(ctx).scopes@,
            ctx.deferred == old(ctx).deferred,
            ctx.cycle_limit_reached == old(ctx).cycle_limit_reached,
        decreases n - i,
    {
        let to = if i < sig.params.len() {
            sig.params[i].ty
        } else {
            db.builtins.any
        };
        assert(to == arg_target(db, sig.params@, i as int));
        let e = &args[i];
        assert(wf_exprs(db, args@) ==> crate::ast::wf_expr(db, args@[i as int]));
        let ghost prev = ctx.diagnostics@;
        match check_coercion(db, e, to) {
            Coercion::Fits => {
                assert(ctx.diagnostics@ =~= old(ctx).diagnostics@ + args_typed(db, args@, sig.params@, i as nat + 1).0);
            },
            Coercion::Mismatch(from) => {
                ctx.add_verify_error(
                    e.location,
                    crate::context::DiagnosticKind::ImplicitCoercionToUnrelatedType { from, to },
                );
                assert(ctx.diagnostics@ =~= old(ctx).diagnostics@ + args_typed(db, args@, sig.params@, i as nat + 1).0);
            },
            Coercion::Undecided => {
                proof {
                    lemma_args_typed_stops(db, args@, sig.params@, i as nat + 1, n as nat);
                    assert(ctx.diagnostics@ =~= old(ctx).diagnostics@ + args_typed(db, args@, sig.params@, i as nat + 1).0);
                }
                return Err(ArgumentsError::Defer);
            },
        }
        i = i + 1;
    }
    Ok(())
}

} // verus!
