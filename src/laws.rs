//! Properties of the statement verifier, stated over its effects and
//! proved.
use vstd::prelude::*;
use crate::arguments::arity_error;
use crate::ast::{CaseLabel, Expr, Statement, SuperStatement};
use crate::context::{Coercion, DiagnosticKind, coercion, mismatch_diags, no_effect};
use crate::statement::{
    base_class, enclosing_class, kv_types, label_effect, labels_effect, stmt_effect, super_effect,
};
use crate::types::{Database, DeferError, ExprInfo, Param, TypeKind};

verus! {

/// A statement kind this pass does not know appends no diagnostic and
/// defers nothing (and, as for every statement, leaves the scope stack as
/// it was).
pub proof fn lemma_unknown_statement_is_silent(db: &Database, scope: usize, limit: bool)
    ensures
        stmt_effect(db, scope, limit, Statement::Other) == no_effect(),
{
}

pub open spec fn is_coercion_diag(d: crate::context::Diagnostic) -> bool {
    d.kind is ImplicitCoercionToUnrelatedType
}

/// While a switch's discriminant has no static type, its case labels are
/// verified standalone and never produce a coercion diagnostic.
pub proof fn lemma_untyped_discriminant_no_coercion(
    db: &Database,
    limit: bool,
    labels: Seq<CaseLabel>,
)
    ensures
        forall|i: int|
            0 <= i < labels_effect(db, limit, None, labels).diags.len() ==> !is_coercion_diag(
                #[trigger] labels_effect(db, limit, None, labels).diags[i],
            ),
    decreases labels.len(),
{
    if labels.len() > 0 {
        lemma_untyped_discriminant_no_coercion(db, limit, labels.drop_last());
        let prev = labels_effect(db, limit, None, labels.drop_last());
        let last = label_effect(db, limit, None, labels.last());
        assert(labels_effect(db, limit, None, labels).diags == prev.diags + last.diags);
        assert forall|i: int|
            0 <= i < last.diags.len() implies !is_coercion_diag(#[trigger] last.diags[i]) by {
        }
        assert forall|i: int|
            0 <= i < prev.diags.len() + last.diags.len() implies !is_coercion_diag(
                #[trigger] (prev.diags + last.diags)[i],
            ) by {
            if i < prev.diags.len() {
                assert((prev.diags + last.diags)[i] == prev.diags[i]);
            } else {
                assert((prev.diags + last.diags)[i] == last.diags[i - prev.diags.len()]);
            }
        }
    }
}

/// A case label whose type is the discriminant's own type gets no
/// diagnostic; one whose type does not convert to it gets exactly the
/// coercion diagnostic.
pub proof fn lemma_typed_discriminant_label(db: &Database, limit: bool, disc: usize, e: Expr)
    requires
        db.exprs@[e.id as int] matches ExprInfo::Typed(_),
    ensures
        db.exprs@[e.id as int] == ExprInfo::Typed(disc) ==> label_effect(
            db,
            limit,
            Some(disc),
            CaseLabel::Case(e),
        ) == no_effect(),
        coercion(db, e, disc) matches Coercion::Mismatch(from) ==> label_effect(
            db,
            limit,
            Some(disc),
            CaseLabel::Case(e),
        ).diags == seq![
            crate::context::Diagnostic {
                location: e.location,
                kind: DiagnosticKind::ImplicitCoercionToUnrelatedType { from, to: disc },
            },
        ],
{
    if db.exprs@[e.id as int] == ExprInfo::Typed(disc) {
        assert(mismatch_diags(e, disc, Coercion::Fits) =~= Seq::empty());
    }
}

/// A super-call outside any class, or in a class without a base class, has
/// no effect.
pub proof fn lemma_super_without_base_is_silent(db: &Database, scope: usize, sup: SuperStatement)
    requires
        enclosing_class(db, scope) is None || base_class(db, enclosing_class(db, scope)->0) is None,
    ensures
        super_effect(db, scope, sup) == no_effect(),
{
}

/// Without optional or rest parameters, any other argument count than the
/// parameter count asks for exactly that count; with optional trailing
/// parameters, too many arguments ask for no more than the parameter
/// count, and any count from the required count up passes arity.
pub proof fn lemma_arity(params: Seq<Param>, n: nat)
    ensures
        crate::arguments::required_params(params) == params.len() && n != params.len()
            ==> arity_error(params, false, n) == Some(
            crate::arguments::ArgumentsError::Expected(params.len() as usize),
        ),
        crate::arguments::required_params(params) < params.len() && n > params.len()
            ==> arity_error(params, false, n) == Some(
            crate::arguments::ArgumentsError::ExpectedNoMoreThan(params.len() as usize),
        ),
        crate::arguments::required_params(params) <= n <= params.len() ==> arity_error(
            params,
            false,
            n,
        ) is None,
{
}

/// Classifying a type depends on nothing but the database and the type:
/// two snapshots that are equal classify it alike.
pub proof fn lemma_kv_types_deterministic(db1: &Database, db2: &Database, t: usize)
    requires
        db1 == db2,
    ensures
        kv_types(db1, t) == kv_types(db2, t),
{
}

/// A vector whose element type is an unresolved forward declaration is
/// never classified as not enumerable: classifying it defers.
pub proof fn lemma_vector_of_unresolved_defers(db: &Database, t: usize, elem: usize)
    requires
        db.wf(),
        t < db.types.len(),
        db.kind(t) == (TypeKind::Vector { elem }),
        db.kind(elem) is Unresolved,
    ensures
        kv_types(db, t) == Err::<Option<(usize, usize)>, DeferError>(DeferError),
{
}

/// An array whose element type `elem` is resolved iterates as
/// `(Number, elem)` once `Object` and `Number` are resolved.
pub proof fn lemma_array_kv(db: &Database, t: usize, elem: usize)
    requires
        db.wf(),
        t < db.types.len(),
        db.kind(t) == (TypeKind::Array { elem }),
        !(db.kind(elem) is Unresolved),
        db.builtins.object is Some,
        db.builtins.number is Some,
    ensures
        kv_types(db, t) == Ok::<Option<(usize, usize)>, DeferError>(
            Some((db.builtins.number->0, elem)),
        ),
{
}

/// Once `Object`, `Number`, `ByteArray` and `Dictionary` are resolved and
/// distinct from `Object`, `ByteArray` iterates as `(Number, Number)` and
/// `Dictionary` as `(*, *)`.
pub proof fn lemma_byte_array_and_dictionary_kv(db: &Database)
    requires
        db.wf(),
        db.builtins.object is Some,
        db.builtins.number is Some,
        db.builtins.byte_array is Some,
        db.builtins.dictionary is Some,
        db.builtins.byte_array != db.builtins.object,
        db.builtins.dictionary != db.builtins.object,
        db.builtins.dictionary != db.builtins.byte_array,
    ensures
        kv_types(db, db.builtins.byte_array->0) == Ok::<Option<(usize, usize)>, DeferError>(
            Some((db.builtins.number->0, db.builtins.number->0)),
        ),
        kv_types(db, db.builtins.dictionary->0) == Ok::<Option<(usize, usize)>, DeferError>(
            Some((db.builtins.any, db.builtins.any)),
        ),
{
}

/// A class that `Proxy` is an ancestor of iterates as `(String, *)` once
/// the built-ins the earlier rules consult are resolved and it is none of
/// them.
pub proof fn lemma_proxy_subclass_kv(db: &Database, t: usize)
    requires
        db.wf(),
        t < db.types.len(),
        db.kind(t) is Class,
        db.builtins.object is Some && Some(t) != db.builtins.object,
        db.builtins.byte_array is Some && Some(t) != db.builtins.byte_array,
        db.builtins.dictionary is Some && Some(t) != db.builtins.dictionary,
        db.builtins.proxy is Some,
        db.builtins.string is Some,
        db.spec_is_subtype(t, db.builtins.proxy->0) == Ok::<bool, DeferError>(true),
    ensures
        kv_types(db, t) == Ok::<Option<(usize, usize)>, DeferError>(
            Some((db.builtins.string->0, db.builtins.any)),
        ),
{
}

} // verus!
