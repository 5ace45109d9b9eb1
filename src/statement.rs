//! The statement verifier: the dispatcher over statement kinds, the
//! super-call check and the for-in key/value classifier.
use vstd::prelude::*;
use crate::arguments::{ArgumentsError, args_check, verify_arguments};
use crate::ast::{
    Block, CaseLabel, Expr, ForInit, Location, Statement, SuperStatement, SwitchCase, wf_block,
    wf_blocks, wf_cases, wf_expr, wf_exprs, wf_labels, wf_stmt, wf_stmts,
};
use crate::context::{
    Diagnostic, DiagnosticKind, Effect, Subverifier, applied, chain, coerce_effect, expr_effect,
    expr_type, lemma_applied_chain, lemma_applied_none, no_effect, report,
};
use crate::types::{Database, DeferError, Param, ScopeKind, Signature, TypeKind, params_ok};

verus! {

pub struct StatementSubverifier;

pub open spec fn opt_expr_effect(db: &Database, limit: bool, e: Option<Expr>) -> Effect {
    match e {
        Some(x) => expr_effect(db, limit, x),
        None => no_effect(),
    }
}

/// The expression of an expression-style for initializer.
pub open spec fn init_expr(init: Option<ForInit>) -> Option<Expr> {
    match init {
        Some(ForInit::Expression(e)) => Some(e),
        _ => None,
    }
}

/// Checking one case label: against the discriminant's type when it has
/// one, else standalone.
pub open spec fn label_effect(db: &Database, limit: bool, disc: Option<usize>, label: CaseLabel) -> Effect {
    match label {
        CaseLabel::Case(e) => match disc {
            Some(t) => coerce_effect(db, limit, e, t),
            None => expr_effect(db, limit, e),
        },
        CaseLabel::Default => no_effect(),
    }
}

pub open spec fn labels_effect(db: &Database, limit: bool, disc: Option<usize>, labels: Seq<CaseLabel>) -> Effect
    decreases labels.len(),
{
    if labels.len() == 0 {
        no_effect()
    } else {
        chain(
            labels_effect(db, limit, disc, labels.drop_last()),
            label_effect(db, limit, disc, labels.last()),
        )
    }
}

/// What verifying statement `s` in scope `scope` does to the context, on a
/// pass where `limit` says whether the cycle budget is spent.
pub open spec fn stmt_effect(db: &Database, scope: usize, limit: bool, s: Statement) -> Effect
    decreases s,
{
    match s {
        Statement::Expression(e) => expr_effect(db, limit, e),
        Statement::Super(sup) => super_effect(db, scope, sup),
        Statement::Block(b) => block_effect(db, limit, b),
        Statement::Labeled { body, .. } => stmt_effect(db, scope, limit, *body),
        Statement::If { test, consequent, alternative } => chain(
            chain(expr_effect(db, limit, test), stmt_effect(db, scope, limit, *consequent)),
            match alternative {
                Some(a) => stmt_effect(db, scope, limit, *a),
                None => no_effect(),
            },
        ),
        Statement::Switch { discriminant, cases } => chain(
            expr_effect(db, limit, discriminant),
            cases_effect(db, scope, limit, expr_type(db, discriminant), cases@),
        ),
        Statement::SwitchType { discriminant, cases } => chain(
            expr_effect(db, limit, discriminant),
            blocks_effect(db, limit, cases@),
        ),
        Statement::Do { body, test } => chain(
            stmt_effect(db, scope, limit, *body),
            expr_effect(db, limit, test),
        ),
        Statement::While { test, body } => chain(
            expr_effect(db, limit, test),
            stmt_effect(db, scope, limit, *body),
        ),
        Statement::For { node, init, test, update, body } => chain(
            chain(
                chain(
                    opt_expr_effect(db, limit, init_expr(init)),
                    opt_expr_effect(db, limit, test),
                ),
                opt_expr_effect(db, limit, update),
            ),
            stmt_effect(db, db.node_scopes@[node as int], limit, *body),
        ),
        Statement::Other => no_effect(),
    }
}

/// The statements of `list` verified in order.
pub open spec fn stmts_effect(db: &Database, scope: usize, limit: bool, list: Seq<Statement>) -> Effect
    decreases list,
{
    if list.len() == 0 {
        no_effect()
    } else {
        chain(
            stmts_effect(db, scope, limit, list.subrange(0, list.len() - 1)),
            stmt_effect(db, scope, limit, list[list.len() - 1]),
        )
    }
}

/// A block's statements, verified in the block's own scope.
pub open spec fn block_effect(db: &Database, limit: bool, b: Block) -> Effect
    decreases b,
{
    stmts_effect(db, db.node_scopes@[b.node as int], limit, b.body@)
}

pub open spec fn blocks_effect(db: &Database, limit: bool, blocks: Seq<Block>) -> Effect
    decreases blocks,
{
    if blocks.len() == 0 {
        no_effect()
    } else {
        chain(
            blocks_effect(db, limit, blocks.subrange(0, blocks.len() - 1)),
            block_effect(db, limit, blocks[blocks.len() - 1]),
        )
    }
}

/// The cases of a switch whose discriminant has type `disc`: each case's
/// labels, then its statements.
pub open spec fn cases_effect(
    db: &Database,
    scope: usize,
    limit: bool,
    disc: Option<usize>,
    cases: Seq<SwitchCase>,
) -> Effect
    decreases cases,
{
    if cases.len() == 0 {
        no_effect()
    } else {
        let last = cases[cases.len() - 1];
        chain(
            cases_effect(db, scope, limit, disc, cases.subrange(0, cases.len() - 1)),
            chain(
                labels_effect(db, limit, disc, last.labels@),
                stmts_effect(db, scope, limit, last.body@),
            ),
        )
    }
}

/// `(number, v)`, deferred while `Number` is unresolved.
pub open spec fn numbered(db: &Database, v: usize) -> Result<Option<(usize, usize)>, DeferError> {
    match db.builtins.number {
        Some(n) => Ok(Some((n, v))),
        None => Err(DeferError),
    }
}

/// The key and value types that iterating a value of static type
/// `candidate` with for-in yields, by the first of these rules that
/// matches the type with any nullable wrapper stripped: `*` or `Object`
/// give `(*, *)`; `[T]` and `Vector.<T>` give `(Number, T)`; `ByteArray`
/// gives `(Number, Number)`; `Dictionary` gives `(*, *)`; `Proxy` and its
/// subclasses give `(String, *)`; `XML` and `XMLList` give `(Number, XML)`.
/// `None` when no rule matches; a deferral as soon as a query the rules
/// make cannot be decided yet.
pub open spec fn kv_types(db: &Database, candidate: usize) -> Result<
    Option<(usize, usize)>,
    DeferError,
> {
    let t = db.spec_non_nullable(candidate);
    let any = db.builtins.any;
    if db.kind(t) is Unresolved || db.builtins.object is None {
        Err(DeferError)
    } else if t == any || Some(t) == db.builtins.object {
        Ok(Some((any, any)))
    } else {
        match db.spec_array_element(t) {
            Err(e) => Err(e),
            Ok(Some(elem)) => numbered(db, elem),
            Ok(None) => match db.spec_vector_element(t) {
                Err(e) => Err(e),
                Ok(Some(elem)) => numbered(db, elem),
                Ok(None) => kv_types_of_classes(db, t),
            },
        }
    }
}

/// The rules of `kv_types` from `ByteArray` on.
pub open spec fn kv_types_of_classes(db: &Database, t: usize) -> Result<
    Option<(usize, usize)>,
    DeferError,
> {
    let any = db.builtins.any;
    match (db.builtins.byte_array, db.builtins.dictionary) {
        (Some(b), _) if t == b => match db.builtins.number {
            Some(n) => Ok(Some((n, n))),
            None => Err(DeferError),
        },
        (Some(_), Some(d)) => if t == d {
            Ok(Some((any, any)))
        } else {
            match db.builtins.proxy {
                None => Err(DeferError),
                Some(p) => match (if t == p {
                    Ok(true)
                } else {
                    db.spec_is_subtype(t, p)
                }) {
                    Err(e) => Err(e),
                    Ok(true) => match db.builtins.string {
                        Some(s) => Ok(Some((s, any))),
                        None => Err(DeferError),
                    },
                    Ok(false) => match (db.builtins.xml, db.builtins.xml_list) {
                        (Some(x), _) if t == x => numbered(db, x),
                        (Some(x), Some(l)) => if t == l {
                            numbered(db, x)
                        } else {
                            Ok(None)
                        },
                        _ => Err(DeferError),
                    },
                },
            }
        },
        _ => Err(DeferError),
    }
}

fn resolved(b: Option<usize>) -> (r: Result<usize, DeferError>)
    ensures
        r == (match b {
            Some(t) => Ok::<usize, DeferError>(t),
            None => Err(DeferError),
        }),
{
    match b {
        Some(t) => Ok(t),
        None => Err(DeferError),
    }
}

/// The class of the nearest class scope at or above `scope`, following
/// parent links.
pub open spec fn enclosing_class(db: &Database, scope: usize) -> Option<usize>
    decreases scope,
{
    if scope >= db.scopes.len() {
        None
    } else {
        match db.scopes@[scope as int].kind {
            ScopeKind::Class { class } => Some(class),
            ScopeKind::Plain => match db.scopes@[scope as int].parent {
                Some(p) => if p < scope {
                    enclosing_class(db, p)
                } else {
                    None
                },
                None => None,
            },
        }
    }
}

pub open spec fn base_class(db: &Database, class: usize) -> Option<usize> {
    match db.kind(class) {
        TypeKind::Class { base, .. } => base,
        _ => None,
    }
}

/// The parameters of a class's constructor; a class that declares none has
/// an implicit one without parameters.
pub open spec fn ctor_params(db: &Database, class: usize) -> Seq<Param> {
    match db.kind(class) {
        TypeKind::Class { ctor: Some(sig), .. } => sig.params@,
        _ => Seq::empty(),
    }
}

pub open spec fn ctor_rest(db: &Database, class: usize) -> bool {
    match db.kind(class) {
        TypeKind::Class { ctor: Some(sig), .. } => sig.rest,
        _ => false,
    }
}

/// The diagnostic a super-call gets for the arguments check's outcome.
pub open spec fn outcome_diags(location: Location, r: Result<(), ArgumentsError>) -> Seq<Diagnostic> {
    match r {
        Ok(()) => Seq::empty(),
        Err(ArgumentsError::Expected(n)) => seq![
            Diagnostic { location, kind: DiagnosticKind::IncorrectNumArguments(n) },
        ],
        Err(ArgumentsError::ExpectedNoMoreThan(n)) => seq![
            Diagnostic { location, kind: DiagnosticKind::IncorrectNumArgumentsNoMoreThan(n) },
        ],
        Err(ArgumentsError::Defer) => seq![
            Diagnostic { location, kind: DiagnosticKind::ReachedMaximumCycles },
        ],
    }
}

/// Verifying a super-call made in `scope`: nothing outside a class or in a
/// class without a base; a cycle-limit diagnostic while the base class is
/// unresolved; else the arguments checked against the base constructor.
pub open spec fn super_effect(db: &Database, scope: usize, sup: SuperStatement) -> Effect {
    match enclosing_class(db, scope) {
        None => no_effect(),
        Some(class) => match base_class(db, class) {
            None => no_effect(),
            Some(base) => if db.kind(base) is Unresolved {
                report(sup.location, DiagnosticKind::ReachedMaximumCycles)
            } else {
                let (d, r) = args_check(db, sup.arguments@, ctor_params(db, base), ctor_rest(db, base));
                Effect { diags: d + outcome_diags(sup.location, r), defers: false }
            },
        },
    }
}

fn enclosing_class_of(db: &Database, scope: usize) -> (r: Option<usize>)
    requires
        db.wf(),
        scope < db.scopes.len(),
    ensures
        r == enclosing_class(db, scope),
        r matches Some(c) ==> c < db.types.len(),
{
    let mut cur = scope;
    loop
        invariant
            db.wf(),
            cur < db.scopes.len(),
            enclosing_class(db, cur) == enclosing_class(db, scope),
        decreases cur,
    {
        let s = db.scopes[cur];
        match s.kind {
            ScopeKind::Class { class } => {
                return Some(class);
            },
            ScopeKind::Plain => match s.parent {
                Some(p) => {
                    cur = p;
                },
                None => {
                    return None;
                },
            },
        }
    }
}

impl StatementSubverifier {
    /// Verifies each statement of `list` in order; a diagnostic on one never
    /// stops the others from being verified.
    pub fn verify_statements(ctx: &mut Subverifier, db: &Database, list: &Vec<Statement>)
        requires
            db.wf(),
            wf_stmts(db, list@),
            old(ctx).scopes.len() > 0,
            old(ctx).current() < db.scopes.len(),
        ensures
            applied(
                *old(ctx),
                *final(ctx),
                stmts_effect(db, old(ctx).current(), old(ctx).cycle_limit_reached, list@),
            ),
        decreases list@,
    {
        let ghost scope = ctx.current();
        let ghost limit = ctx.cycle_limit_reached;
        proof {
            lemma_applied_none(*ctx);
            assert(list@.subrange(0, 0) =~= Seq::<Statement>::empty());
        }
        let mut i: usize = 0;
        while i < list.len()
            invariant
                db.wf(),
                wf_stmts(db, list@),
                i <= list.len(),
                scope == old(ctx).current(),
                limit == old(ctx).cycle_limit_reached,
                old(ctx).scopes.len() > 0,
                old(ctx).current() < db.scopes.len(),
                applied(*old(ctx), *ctx, stmts_effect(db, scope, limit, list@.subrange(0, i as int))),
            decreases list.len() - i,
        {
            let ghost mid = *ctx;
            assert(wf_stmt(db, list@[i as int]));
            Self::verify_statement(ctx, db, &list[i]);
            proof {
                lemma_applied_chain(
                    *old(ctx),
                    mid,
                    *ctx,
                    stmts_effect(db, scope, limit, list@.subrange(0, i as int)),
                    stmt_effect(db, scope, limit, list@[i as int]),
                );
                assert(list@.subrange(0, i as int + 1).subrange(0, i as int) =~= list@.subrange(0, i as int));
            }
            i = i + 1;
        }
        assert(list@.subrange(0, i as int) =~= list@);
    }

    /// Verifies one statement, entering and leaving the scopes of blocks and
    /// for loops, so that the scope stack ends as it began.
    pub fn verify_statement(ctx: &mut Subverifier, db: &Database, stmt: &Statement)
        requires
            db.wf(),
            wf_stmt(db, *stmt),
            old(ctx).scopes.len() > 0,
            old(ctx).current() < db.scopes.len(),
        ensures
            applied(
                *old(ctx),
                *final(ctx),
                stmt_effect(db, old(ctx).current(), old(ctx).cycle_limit_reached, *stmt),
            ),
        decreases *stmt,
    {
        let ghost scope = ctx.current();
        let ghost limit = ctx.cycle_limit_reached;
        match stmt {
            Statement::Expression(e) => {
                ctx.verify_expression_or_max_cycles_error(db, e);
            },
            Statement::Super(supstmt) => {
                Self::verify_super_stmt(ctx, db, supstmt);
            },
            Statement::Block(block) => {
                Self::verify_block(ctx, db, block);
            },
            Statement::Labeled { body, .. } => {
                Self::verify_statement(ctx, db, body);
            },
            Statement::If { test, consequent, alternative } => {
                let ghost s0 = *ctx;
                ctx.verify_expression_or_max_cycles_error(db, test);
                let ghost s1 = *ctx;
                Self::verify_statement(ctx, db, consequent);
                let ghost s2 = *ctx;
                if let Some(alt) = alternative {
                    Self::verify_statement(ctx, db, alt);
                } else {
                    proof {
                        lemma_applied_none(*ctx);
                    }
                }
                proof {
                    let e0 = expr_effect(db, limit, *test);
                    let e1 = stmt_effect(db, scope, limit, **consequent);
                    lemma_applied_chain(s0, s1, s2, e0, e1);
                    lemma_applied_chain(
                        s0,
                        s2,
                        *ctx,
                        chain(e0, e1),
                        match alternative {
                            Some(a) => stmt_effect(db, scope, limit, **a),
                            None => no_effect(),
                        },
                    );
                }
            },
            Statement::Switch { discriminant, cases } => {
                let ghost s0 = *ctx;
                let disc = ctx.verify_expression_or_max_cycles_error(db, discriminant);
                let ghost s1 = *ctx;
                Self::verify_cases(ctx, db, disc, cases);
                proof {
                    lemma_applied_chain(
                        s0,
                        s1,
                        *ctx,
                        expr_effect(db, limit, *discriminant),
                        cases_effect(db, scope, limit, disc, cases@),
                    );
                }
            },
            Statement::SwitchType { discriminant, cases } => {
                let ghost s0 = *ctx;
                ctx.verify_expression_or_max_cycles_error(db, discriminant);
                let ghost s1 = *ctx;
                Self::verify_type_cases(ctx, db, cases);
                proof {
                    lemma_applied_chain(
                        s0,
                        s1,
                        *ctx,
                        expr_effect(db, limit, *discriminant),
                        blocks_effect(db, limit, cases@),
                    );
                }
            },
            Statement::Do { body, test } => {
                let ghost s0 = *ctx;
                Self::verify_statement(ctx, db, body);
                let ghost s1 = *ctx;
                ctx.verify_expression_or_max_cycles_error(db, test);
                proof {
                    lemma_applied_chain(
                        s0,
                        s1,
                        *ctx,
                        stmt_effect(db, scope, limit, **body),
                        expr_effect(db, limit, *test),
                    );
                }
            },
            Statement::While { test, body } => {
                let ghost s0 = *ctx;
                ctx.verify_expression_or_max_cycles_error(db, test);
                let ghost s1 = *ctx;
                Self::verify_statement(ctx, db, body);
                proof {
                    lemma_applied_chain(
                        s0,
                        s1,
                        *ctx,
                        expr_effect(db, limit, *test),
                        stmt_effect(db, scope, limit, **body),
                    );
                }
            },
            Statement::For { node, init, test, update, body } => {
                let ghost s0 = *ctx;
                let inner = db.node_scopes[*node];
                ctx.enter_scope(inner);
                let ghost s1 = *ctx;
                let init_e = match init {
                    Some(ForInit::Expression(e)) => Some(*e),
                    _ => None,
                };
                Self::verify_opt_expression(ctx, db, &init_e);
                let ghost s2 = *ctx;
                Self::verify_opt_expression(ctx, db, test);
                let ghost s3 = *ctx;
                Self::verify_opt_expression(ctx, db, update);
                let ghost s4 = *ctx;
                Self::verify_statement(ctx, db, body);
                let ghost s5 = *ctx;
                ctx.exit_scope();
                proof {
                    let e1 = opt_expr_effect(db, limit, init_expr(*init));
                    let e2 = opt_expr_effect(db, limit, *test);
                    let e3 = opt_expr_effect(db, limit, *update);
                    let e4 = stmt_effect(db, inner, limit, **body);
                    lemma_applied_chain(s1, s2, s3, e1, e2);
                    lemma_applied_chain(s1, s3, s4, chain(e1, e2), e3);
                    lemma_applied_chain(s1, s4, s5, chain(chain(e1, e2), e3), e4);
                    assert(ctx.scopes@ =~= s0.scopes@);
                    assert(ctx.diagnostics@ =~= s0.diagnostics@ + chain(chain(chain(e1, e2), e3), e4).diags);
                }
            },
            Statement::Other => {
                proof {
                    lemma_applied_none(*ctx);
                }
            },
        }
    }

    fn verify_opt_expression(ctx: &mut Subverifier, db: &Database, e: &Option<Expr>)
        requires
            db.wf(),
            *e matches Some(x) ==> wf_expr(db, x),
        ensures
            applied(*old(ctx), *final(ctx), opt_expr_effect(db, old(ctx).cycle_limit_reached, *e)),
    {
        match e {
            Some(x) => {
                ctx.verify_expression_or_max_cycles_error(db, x);
            },
            None => {
                proof {
                    lemma_applied_none(*ctx);
                }
            },
        }
    }

    /// Verifies a block's statements inside the block's own scope.
    fn verify_block(ctx: &mut Subverifier, db: &Database, block: &Block)
        requires
            db.wf(),
            wf_block(db, *block),
            old(ctx).scopes.len() > 0,
        ensures
            applied(*old(ctx), *final(ctx), block_effect(db, old(ctx).cycle_limit_reached, *block)),
        decreases *block,
    {
        let ghost s0 = *ctx;
        let scope = db.node_scopes[block.node];
        ctx.enter_scope(scope);
        Self::verify_statements(ctx, db, &block.body);
        ctx.exit_scope();
        assert(ctx.scopes@ =~= s0.scopes@);
    }

    fn verify_type_cases(ctx: &mut Subverifier, db: &Database, cases: &Vec<Block>)
        requires
            db.wf(),
            wf_blocks(db, cases@),
            old(ctx).scopes.len() > 0,
        ensures
            applied(*old(ctx), *final(ctx), blocks_effect(db, old(ctx).cycle_limit_reached, cases@)),
        decreases cases@,
    {
        let ghost limit = ctx.cycle_limit_reached;
        proof {
            lemma_applied_none(*ctx);
            assert(cases@.subrange(0, 0) =~= Seq::<Block>::empty());
        }
        let mut i: usize = 0;
        while i < cases.len()
            invariant
                db.wf(),
                wf_blocks(db, cases@),
                i <= cases.len(),
                limit == old(ctx).cycle_limit_reached,
                old(ctx).scopes.len() > 0,
                applied(*old(ctx), *ctx, blocks_effect(db, limit, cases@.subrange(0, i as int))),
            decreases cases.len() - i,
        {
            let ghost mid = *ctx;
            assert(wf_block(db, cases@[i as int]));
            Self::verify_block(ctx, db, &cases[i]);
            proof {
                lemma_applied_chain(
                    *old(ctx),
                    mid,
                    *ctx,
                    blocks_effect(db, limit, cases@.subrange(0, i as int)),
                    block_effect(db, limit, cases@[i as int]),
                );
                assert(cases@.subrange(0, i as int + 1).subrange(0, i as int) =~= cases@.subrange(0, i as int));
            }
            i = i + 1;
        }
        assert(cases@.subrange(0, i as int) =~= cases@);
    }

    fn verify_labels(ctx: &mut Subverifier, db: &Database, disc: Option<usize>, labels: &Vec<CaseLabel>)
        requires
            db.wf(),
            wf_labels(db, labels@),
            disc matches Some(t) ==> t < db.types.len(),
        ensures
            applied(*old(ctx), *final(ctx), labels_effect(db, old(ctx).cycle_limit_reached, disc, labels@)),
    {
        let ghost limit = ctx.cycle_limit_reached;
        proof {
            lemma_applied_none(*ctx);
            assert(labels@.subrange(0, 0) =~= Seq::<CaseLabel>::empty());
        }
        let mut i: usize = 0;
        while i < labels.len()
            invariant
                db.wf(),
                wf_labels(db, labels@),
                disc matches Some(t) ==> t < db.types.len(),
                i <= labels.len(),
                limit == old(ctx).cycle_limit_reached,
                applied(*old(ctx), *ctx, labels_effect(db, limit, disc, labels@.subrange(0, i as int))),
            decreases labels.len() - i,
        {
            let ghost mid = *ctx;
            let label = labels[i];
            assert(label matches CaseLabel::Case(e) ==> wf_expr(db, e));
            match label {
                CaseLabel::Case(e) => {
                    if let Some(t) = disc {
                        ctx.imp_coerce_exp_or_max_cycles_error(db, &e, t);
                    } else {
                        ctx.verify_expression_or_max_cycles_error(db, &e);
                    }
                },
                CaseLabel::Default => {
                    proof {
                        lemma_applied_none(*ctx);
                    }
                },
            }
            proof {
                lemma_applied_chain(
                    *old(ctx),
                    mid,
                    *ctx,
                    labels_effect(db, limit, disc, labels@.subrange(0, i as int)),
                    label_effect(db, limit, disc, label),
                );
                assert(labels@.subrange(0, i as int + 1).drop_last() =~= labels@.subrange(0, i as int));
            }
            i = i + 1;
        }
        assert(labels@.subrange(0, i as int) =~= labels@);
    }

    fn verify_cases(ctx: &mut Subverifier, db: &Database, disc: Option<usize>, cases: &Vec<SwitchCase>)
        requires
            db.wf(),
            wf_cases(db, cases@),
            disc matches Some(t) ==> t < db.types.len(),
            old(ctx).scopes.len() > 0,
            old(ctx).current() < db.scopes.len(),
        ensures
            applied(
                *old(ctx),
                *final(ctx),
                cases_effect(db, old(ctx).current(), old(ctx).cycle_limit_reached, disc, cases@),
            ),
        decreases cases@,
    {
        let ghost scope = ctx.current();
        let ghost limit = ctx.cycle_limit_reached;
        proof {
            lemma_applied_none(*ctx);
            assert(cases@.subrange(0, 0) =~= Seq::<SwitchCase>::empty());
        }
        let mut i: usize = 0;
        while i < cases.len()
            invariant
                db.wf(),
                wf_cases(db, cases@),
                disc matches Some(t) ==> t < db.types.len(),
                i <= cases.len(),
                scope == old(ctx).current(),
                limit == old(ctx).cycle_limit_reached,
                old(ctx).scopes.len() > 0,
                old(ctx).current() < db.scopes.len(),
                applied(*old(ctx), *ctx, cases_effect(db, scope, limit, disc, cases@.subrange(0, i as int))),
            decreases cases.len() - i,
        {
            let ghost s0 = *ctx;
            let case = &cases[i];
            assert(wf_labels(db, case.labels@) && wf_stmts(db, case.body@));
            Self::verify_labels(ctx, db, disc, &case.labels);
            let ghost s1 = *ctx;
            Self::verify_statements(ctx, db, &case.body);
            proof {
                let e1 = labels_effect(db, limit, disc, case.labels@);
                let e2 = stmts_effect(db, scope, limit, case.body@);
                lemma_applied_chain(s0, s1, *ctx, e1, e2);
                lemma_applied_chain(
                    *old(ctx),
                    s0,
                    *ctx,
                    cases_effect(db, scope, limit, disc, cases@.subrange(0, i as int)),
                    chain(e1, e2),
                );
                assert(cases@.subrange(0, i as int + 1).subrange(0, i as int) =~= cases@.subrange(0, i as int));
            }
            i = i + 1;
        }
        assert(cases@.subrange(0, i as int) =~= cases@);
    }

    fn verify_super_stmt(ctx: &mut Subverifier, db: &Database, supstmt: &SuperStatement)
        requires
            db.wf(),
            wf_exprs(db, supstmt.arguments@),
            old(ctx).scopes.len() > 0,
            old(ctx).current() < db.scopes.len(),
        ensures
            applied(*old(ctx), *final(ctx), super_effect(db, old(ctx).current(), *supstmt)),
    {
        proof {
            crate::context::lemma_applied_none(*ctx);
        }
        let class_t = match enclosing_class_of(db, ctx.scope()) {
            Some(c) => c,
            None => {
                return;
            },
        };
        assert(crate::types::type_ok(db.types@, db.types@[class_t as int]));
        let base_t = match &db.types[class_t] {
            TypeKind::Class { base: Some(b), .. } => *b,
            _ => {
                return;
            },
        };
        if let TypeKind::Unresolved = &db.types[base_t] {
            ctx.add_verify_error(supstmt.location, DiagnosticKind::ReachedMaximumCycles);
            return;
        }
        assert(crate::types::type_ok(db.types@, db.types@[base_t as int]));
        let implicit = Signature { params: Vec::new(), rest: false };
        let signature = match &db.types[base_t] {
            TypeKind::Class { ctor: Some(sig), .. } => sig,
            _ => &implicit,
        };
        assert(signature.params@ == ctor_params(db, base_t));
        assert(params_ok(db.types@, signature.params@));
        let ghost mid = *ctx;
        let r = verify_arguments(ctx, db, &supstmt.arguments, signature);
        match r {
            Ok(()) => {},
            Err(ArgumentsError::Expected(n)) => {
                ctx.add_verify_error(supstmt.location, DiagnosticKind::IncorrectNumArguments(n));
            },
            Err(ArgumentsError::ExpectedNoMoreThan(n)) => {
                ctx.add_verify_error(
                    supstmt.location,
                    DiagnosticKind::IncorrectNumArgumentsNoMoreThan(n),
                );
            },
            Err(ArgumentsError::Defer) => {
                ctx.add_verify_error(supstmt.location, DiagnosticKind::ReachedMaximumCycles);
            },
        }
        assert(ctx.diagnostics@ =~= old(ctx).diagnostics@ + super_effect(db, old(ctx).current(), *supstmt).diags);
    }

    /// Classifies the static type `candidate` for for-in iteration.
    pub fn for_in_kv_types(db: &Database, candidate: usize) -> (r: Result<
        Option<(usize, usize)>,
        DeferError,
    >)
        requires
            db.wf(),
            candidate < db.types.len(),
        ensures
            r == kv_types(db, candidate),
    {
        let t = db.non_nullable(candidate);
        if let TypeKind::Unresolved = &db.types[t] {
            return Err(DeferError);
        }
        let any = db.builtins.any;
        let obj_t = resolved(db.builtins.object)?;
        // * or Object
        if t == any || t == obj_t {
            return Ok(Some((any, any)));
        }
        // [T]
        if let Some(elem_t) = db.array_element_type(t)? {
            return Ok(Some((resolved(db.builtins.number)?, elem_t)));
        }
        // Vector.<T>
        if let Some(elem_t) = db.vector_element_type(t)? {
            return Ok(Some((resolved(db.builtins.number)?, elem_t)));
        }
        // ByteArray
        if t == resolved(db.builtins.byte_array)? {
            let num_t = resolved(db.builtins.number)?;
            return Ok(Some((num_t, num_t)));
        }
        // Dictionary
        if t == resolved(db.builtins.dictionary)? {
            return Ok(Some((any, any)));
        }
        // Proxy
        let proxy_t = resolved(db.builtins.proxy)?;
        if t == proxy_t || db.is_subtype_of(t, proxy_t)? {
            return Ok(Some((resolved(db.builtins.string)?, any)));
        }
        // XML or XMLList
        let xml_t = resolved(db.builtins.xml)?;
        if t == xml_t || t == resolved(db.builtins.xml_list)? {
            return Ok(Some((resolved(db.builtins.number)?, xml_t)));
        }
        Ok(None)
    }
}

} // verus!
