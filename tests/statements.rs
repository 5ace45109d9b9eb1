use statement_verifier::arguments::ArgumentsError;
use statement_verifier::ast::{Block, CaseLabel, Expr, ForInit, Location, Statement, SuperStatement, SwitchCase};
use statement_verifier::context::{Diagnostic, DiagnosticKind, Subverifier};
use statement_verifier::statement::StatementSubverifier;
use statement_verifier::types::{Builtins, Database, DeferError, ExprInfo, Param, Scope, ScopeKind, Signature, TypeKind};

const ANY: usize = 0;
const OBJECT: usize = 1;
const NUMBER: usize = 2;
const STRING: usize = 3;
const BYTE_ARRAY: usize = 4;
const DICTIONARY: usize = 5;
const PROXY: usize = 6;
const XML: usize = 7;
const XML_LIST: usize = 8;
const ARRAY_OF_STRING: usize = 9;
const VECTOR_OF_PENDING: usize = 10;
const PENDING: usize = 11;
const EXACT_BASE: usize = 12;
const EXACT_DERIVED: usize = 13;
const OPTIONAL_BASE: usize = 14;
const OPTIONAL_DERIVED: usize = 15;
const MY_PROXY: usize = 16;
const UNRELATED: usize = 17;
const NULLABLE_DICTIONARY: usize = 18;
const PENDING_DERIVED: usize = 19;
const VECTOR_OF_NUMBER: usize = 20;
const CYCLE_A: usize = 21;
const CYCLE_B: usize = 22;
const REST_BASE: usize = 23;
const REST_DERIVED: usize = 24;

// scopes
const PACKAGE: usize = 0;
const IN_EXACT_CTOR: usize = 2;
const IN_OPTIONAL_CTOR: usize = 4;
const IN_OBJECT_CTOR: usize = 6;
const IN_PENDING_CTOR: usize = 8;
const IN_REST_CTOR: usize = 10;

// expressions
const E_NUMBER: usize = 0;
const E_STRING: usize = 1;
const E_UNTYPED: usize = 2;
const E_DEFERRED: usize = 3;
const E_EXACT_DERIVED: usize = 4;

fn class(base: Option<usize>) -> TypeKind {
    TypeKind::Class { base, ctor: None }
}

fn class_with_ctor(base: Option<usize>, params: Vec<Param>, rest: bool) -> TypeKind {
    TypeKind::Class { base, ctor: Some(Signature { params, rest }) }
}

fn param(ty: usize, optional: bool) -> Param {
    Param { ty, optional }
}

fn scope(parent: Option<usize>, kind: ScopeKind) -> Scope {
    Scope { parent, kind }
}

fn database() -> Database {
    let types = vec![
        TypeKind::Any,
        class(None),
        class(Some(OBJECT)),
        class(Some(OBJECT)),
        class(Some(OBJECT)),
        class(Some(OBJECT)),
        class(Some(OBJECT)),
        class(Some(OBJECT)),
        class(Some(OBJECT)),
        TypeKind::Array { elem: STRING },
        TypeKind::Vector { elem: PENDING },
        TypeKind::Unresolved,
        class_with_ctor(Some(OBJECT), vec![param(NUMBER, false), param(STRING, false)], false),
        class(Some(EXACT_BASE)),
        class_with_ctor(
            Some(OBJECT),
            vec![param(NUMBER, false), param(STRING, true), param(NUMBER, true)],
            false,
        ),
        class(Some(OPTIONAL_BASE)),
        class(Some(PROXY)),
        class(Some(OBJECT)),
        TypeKind::Nullable { inner: DICTIONARY },
        class(Some(PENDING)),
        TypeKind::Vector { elem: NUMBER },
        class(Some(CYCLE_B)),
        class(Some(CYCLE_A)),
        class_with_ctor(Some(OBJECT), vec![param(STRING, false)], true),
        class(Some(REST_BASE)),
    ];
    let scopes = vec![
        scope(None, ScopeKind::Plain),
        scope(Some(0), ScopeKind::Class { class: EXACT_DERIVED }),
        scope(Some(1), ScopeKind::Plain),
        scope(Some(0), ScopeKind::Class { class: OPTIONAL_DERIVED }),
        scope(Some(3), ScopeKind::Plain),
        scope(Some(0), ScopeKind::Class { class: OBJECT }),
        scope(Some(5), ScopeKind::Plain),
        scope(Some(0), ScopeKind::Class { class: PENDING_DERIVED }),
        scope(Some(7), ScopeKind::Plain),
        scope(Some(0), ScopeKind::Class { class: REST_DERIVED }),
        scope(Some(9), ScopeKind::Plain),
        scope(Some(0), ScopeKind::Plain),
        scope(Some(0), ScopeKind::Plain),
        scope(Some(0), ScopeKind::Plain),
    ];
    Database {
        types,
        scopes,
        node_scopes: vec![11, 12, 13],
        exprs: vec![
            ExprInfo::Typed(NUMBER),
            ExprInfo::Typed(STRING),
            ExprInfo::Untyped,
            ExprInfo::Deferred,
            ExprInfo::Typed(EXACT_DERIVED),
        ],
        builtins: Builtins {
            any: ANY,
            object: Some(OBJECT),
            number: Some(NUMBER),
            string: Some(STRING),
            byte_array: Some(BYTE_ARRAY),
            dictionary: Some(DICTIONARY),
            proxy: Some(PROXY),
            xml: Some(XML),
            xml_list: Some(XML_LIST),
        },
    }
}

fn at(line: usize) -> Location {
    Location { line, column: 1 }
}

fn expr(id: usize, line: usize) -> Expr {
    Expr { id, location: at(line) }
}

fn exprs(ids: &[usize]) -> Vec<Expr> {
    ids.iter().enumerate().map(|(i, id)| expr(*id, 100 + i)).collect()
}

fn super_call(ids: &[usize]) -> Statement {
    Statement::Super(SuperStatement { location: at(7), arguments: exprs(ids) })
}

fn run(db: &Database, scope: usize, limit: bool, stmt: &Statement) -> Subverifier {
    let mut ctx = Subverifier::new(scope, limit);
    StatementSubverifier::verify_statement(&mut ctx, db, stmt);
    ctx
}

fn switch(disc: usize, labels: &[usize]) -> Statement {
    Statement::Switch {
        discriminant: expr(disc, 1),
        cases: vec![
            SwitchCase {
                labels: labels.iter().enumerate().map(|(i, id)| CaseLabel::Case(expr(*id, 10 + i))).collect(),
                body: vec![Statement::Expression(expr(E_NUMBER, 20))],
            },
            SwitchCase { labels: vec![CaseLabel::Default], body: vec![] },
        ],
    }
}

fn coercion(from: usize, to: usize, line: usize) -> Diagnostic {
    Diagnostic { location: at(line), kind: DiagnosticKind::ImplicitCoercionToUnrelatedType { from, to } }
}

fn every_kind() -> Vec<Statement> {
    vec![
        Statement::Expression(expr(E_NUMBER, 1)),
        super_call(&[E_NUMBER, E_STRING, E_NUMBER]),
        Statement::Block(Block { node: 0, body: vec![super_call(&[E_NUMBER])] }),
        Statement::Labeled { label: String::from("outer"), body: Box::new(Statement::Other) },
        Statement::If {
            test: expr(E_DEFERRED, 2),
            consequent: Box::new(Statement::Other),
            alternative: Some(Box::new(Statement::Expression(expr(E_STRING, 3)))),
        },
        switch(E_NUMBER, &[E_STRING, E_NUMBER]),
        Statement::SwitchType {
            discriminant: expr(E_NUMBER, 4),
            cases: vec![Block { node: 1, body: vec![] }, Block { node: 2, body: vec![Statement::Other] }],
        },
        Statement::Do { body: Box::new(Statement::Other), test: expr(E_NUMBER, 5) },
        Statement::While { test: expr(E_NUMBER, 6), body: Box::new(Statement::Other) },
        Statement::For {
            node: 0,
            init: Some(ForInit::Expression(expr(E_NUMBER, 8))),
            test: Some(expr(E_DEFERRED, 9)),
            update: None,
            body: Box::new(Statement::Block(Block { node: 1, body: vec![] })),
        },
        Statement::Other,
    ]
}

#[test]
fn scope_depth_is_restored_for_every_kind() {
    let db = database();
    for stmt in every_kind() {
        for limit in [false, true] {
            let mut ctx = Subverifier::new(IN_EXACT_CTOR, limit);
            ctx.enter_scope(PACKAGE);
            ctx.enter_scope(IN_EXACT_CTOR);
            StatementSubverifier::verify_statement(&mut ctx, &db, &stmt);
            assert_eq!(ctx.scopes, vec![IN_EXACT_CTOR, PACKAGE, IN_EXACT_CTOR]);
        }
    }
}

#[test]
fn statement_list_verifies_every_sibling() {
    let db = database();
    let mut ctx = Subverifier::new(IN_EXACT_CTOR, true);
    let list = every_kind();
    StatementSubverifier::verify_statements(&mut ctx, &db, &list);
    assert_eq!(ctx.scopes, vec![IN_EXACT_CTOR]);
    assert_eq!(
        ctx.diagnostics,
        vec![
            Diagnostic { location: at(7), kind: DiagnosticKind::IncorrectNumArguments(2) },
            Diagnostic { location: at(2), kind: DiagnosticKind::ReachedMaximumCycles },
            coercion(STRING, NUMBER, 10),
            Diagnostic { location: at(9), kind: DiagnosticKind::ReachedMaximumCycles },
        ]
    );
}

#[test]
fn switch_on_number_reports_string_label_only() {
    let db = database();
    let ctx = run(&db, PACKAGE, false, &switch(E_NUMBER, &[E_STRING]));
    assert_eq!(ctx.diagnostics, vec![coercion(STRING, NUMBER, 10)]);
    let ctx = run(&db, PACKAGE, false, &switch(E_NUMBER, &[E_NUMBER]));
    assert!(ctx.diagnostics.is_empty());
    let ctx = run(&db, PACKAGE, false, &switch(E_NUMBER, &[E_NUMBER, E_STRING, E_UNTYPED]));
    assert_eq!(ctx.diagnostics, vec![coercion(STRING, NUMBER, 11)]);
}

#[test]
fn switch_on_untyped_discriminant_checks_labels_standalone() {
    let db = database();
    let ctx = run(&db, PACKAGE, false, &switch(E_UNTYPED, &[E_STRING, E_NUMBER]));
    assert!(ctx.diagnostics.is_empty());
    assert!(!ctx.deferred);
    let ctx = run(&db, PACKAGE, false, &switch(E_DEFERRED, &[E_STRING, E_DEFERRED]));
    assert!(ctx.diagnostics.is_empty());
    assert!(ctx.deferred);
    let ctx = run(&db, PACKAGE, true, &switch(E_DEFERRED, &[E_STRING, E_DEFERRED]));
    assert_eq!(
        ctx.diagnostics,
        vec![
            Diagnostic { location: at(1), kind: DiagnosticKind::ReachedMaximumCycles },
            Diagnostic { location: at(11), kind: DiagnosticKind::ReachedMaximumCycles },
        ]
    );
}

#[test]
fn super_call_with_exact_arity() {
    let db = database();
    let ctx = run(&db, IN_EXACT_CTOR, false, &super_call(&[E_NUMBER, E_STRING, E_NUMBER]));
    assert_eq!(
        ctx.diagnostics,
        vec![Diagnostic { location: at(7), kind: DiagnosticKind::IncorrectNumArguments(2) }]
    );
    let ctx = run(&db, IN_EXACT_CTOR, false, &super_call(&[E_NUMBER, E_STRING]));
    assert!(ctx.diagnostics.is_empty());
    let ctx = run(&db, IN_EXACT_CTOR, false, &super_call(&[E_NUMBER]));
    assert_eq!(
        ctx.diagnostics,
        vec![Diagnostic { location: at(7), kind: DiagnosticKind::IncorrectNumArguments(2) }]
    );
}

#[test]
fn super_call_with_optional_parameters() {
    let db = database();
    let ctx = run(&db, IN_OPTIONAL_CTOR, false, &super_call(&[E_NUMBER]));
    assert!(ctx.diagnostics.is_empty());
    let ctx = run(&db, IN_OPTIONAL_CTOR, false, &super_call(&[E_NUMBER, E_STRING, E_NUMBER, E_NUMBER]));
    assert_eq!(
        ctx.diagnostics,
        vec![Diagnostic { location: at(7), kind: DiagnosticKind::IncorrectNumArgumentsNoMoreThan(3) }]
    );
}

#[test]
fn super_call_without_class_or_base_is_silent() {
    let db = database();
    let ctx = run(&db, PACKAGE, true, &super_call(&[E_NUMBER, E_NUMBER, E_NUMBER]));
    assert!(ctx.diagnostics.is_empty());
    let ctx = run(&db, IN_OBJECT_CTOR, true, &super_call(&[E_NUMBER, E_NUMBER, E_NUMBER]));
    assert!(ctx.diagnostics.is_empty());
    assert_eq!(ctx.scopes, vec![IN_OBJECT_CTOR]);
}

#[test]
fn super_call_argument_types_and_deferral() {
    let db = database();
    let ctx = run(&db, IN_EXACT_CTOR, false, &super_call(&[E_STRING, E_STRING]));
    assert_eq!(ctx.diagnostics, vec![coercion(STRING, NUMBER, 100)]);
    let ctx = run(&db, IN_EXACT_CTOR, false, &super_call(&[E_NUMBER, E_DEFERRED]));
    assert_eq!(
        ctx.diagnostics,
        vec![Diagnostic { location: at(7), kind: DiagnosticKind::ReachedMaximumCycles }]
    );
    assert!(!ctx.deferred);
    let ctx = run(&db, IN_PENDING_CTOR, false, &super_call(&[]));
    assert_eq!(
        ctx.diagnostics,
        vec![Diagnostic { location: at(7), kind: DiagnosticKind::ReachedMaximumCycles }]
    );
}

#[test]
fn super_call_with_rest_parameter() {
    let db = database();
    let ctx = run(&db, IN_REST_CTOR, false, &super_call(&[E_STRING, E_NUMBER, E_UNTYPED, E_EXACT_DERIVED]));
    assert!(ctx.diagnostics.is_empty());
    let ctx = run(&db, IN_REST_CTOR, false, &super_call(&[]));
    assert_eq!(
        ctx.diagnostics,
        vec![Diagnostic { location: at(7), kind: DiagnosticKind::IncorrectNumArguments(1) }]
    );
}

#[test]
fn for_in_kv_types_is_deterministic() {
    let db = database();
    for t in 0..db.types.len() {
        assert_eq!(StatementSubverifier::for_in_kv_types(&db, t), StatementSubverifier::for_in_kv_types(&db, t));
    }
}

#[test]
fn for_in_kv_types_coverage() {
    let db = database();
    let kv = |t| StatementSubverifier::for_in_kv_types(&db, t);
    assert_eq!(kv(ARRAY_OF_STRING), Ok(Some((NUMBER, STRING))));
    assert_eq!(kv(DICTIONARY), Ok(Some((ANY, ANY))));
    assert_eq!(kv(BYTE_ARRAY), Ok(Some((NUMBER, NUMBER))));
    assert_eq!(kv(MY_PROXY), Ok(Some((STRING, ANY))));
    assert_eq!(kv(PROXY), Ok(Some((STRING, ANY))));
    assert_eq!(kv(UNRELATED), Ok(None));
    assert_eq!(kv(ANY), Ok(Some((ANY, ANY))));
    assert_eq!(kv(OBJECT), Ok(Some((ANY, ANY))));
    assert_eq!(kv(VECTOR_OF_NUMBER), Ok(Some((NUMBER, NUMBER))));
    assert_eq!(kv(XML), Ok(Some((NUMBER, XML))));
    assert_eq!(kv(XML_LIST), Ok(Some((NUMBER, XML))));
    assert_eq!(kv(NULLABLE_DICTIONARY), Ok(Some((ANY, ANY))));
    assert_eq!(kv(STRING), Ok(None));
}

#[test]
fn for_in_kv_types_defers_on_unresolved() {
    let db = database();
    assert_eq!(StatementSubverifier::for_in_kv_types(&db, VECTOR_OF_PENDING), Err(DeferError));
    assert_eq!(StatementSubverifier::for_in_kv_types(&db, PENDING), Err(DeferError));
    assert_eq!(StatementSubverifier::for_in_kv_types(&db, PENDING_DERIVED), Err(DeferError));
    assert_eq!(StatementSubverifier::for_in_kv_types(&db, CYCLE_A), Err(DeferError));
    let mut db = database();
    db.builtins.proxy = None;
    assert_eq!(StatementSubverifier::for_in_kv_types(&db, UNRELATED), Err(DeferError));
    assert_eq!(StatementSubverifier::for_in_kv_types(&db, DICTIONARY), Ok(Some((ANY, ANY))));
    db.builtins.object = None;
    assert_eq!(StatementSubverifier::for_in_kv_types(&db, ANY), Err(DeferError));
}

#[test]
fn unknown_statement_kind_is_silent() {
    let db = database();
    let mut ctx = Subverifier::new(PACKAGE, true);
    ctx.enter_scope(IN_EXACT_CTOR);
    StatementSubverifier::verify_statement(&mut ctx, &db, &Statement::Other);
    assert!(ctx.diagnostics.is_empty());
    assert!(!ctx.deferred);
    assert_eq!(ctx.scopes.len(), 2);
}

#[test]
fn deferred_expression_is_put_off_or_reported() {
    let db = database();
    let stmt = Statement::While { test: expr(E_DEFERRED, 3), body: Box::new(Statement::Other) };
    let ctx = run(&db, PACKAGE, false, &stmt);
    assert!(ctx.diagnostics.is_empty());
    assert!(ctx.deferred);
    let ctx = run(&db, PACKAGE, true, &stmt);
    assert_eq!(ctx.diagnostics, vec![Diagnostic { location: at(3), kind: DiagnosticKind::ReachedMaximumCycles }]);
    assert!(!ctx.deferred);
}

#[test]
fn blocks_verify_in_their_own_scope() {
    let db = database();
    // The block's scope has no class above it, so the super-call inside is silent
    // even though the enclosing scope is a constructor body.
    let stmt = Statement::Block(Block { node: 0, body: vec![super_call(&[E_NUMBER])] });
    let ctx = run(&db, IN_EXACT_CTOR, false, &stmt);
    assert!(ctx.diagnostics.is_empty());
    let ctx = run(&db, IN_EXACT_CTOR, false, &super_call(&[E_NUMBER]));
    assert_eq!(ctx.diagnostics.len(), 1);
}

#[test]
fn subclass_converts_to_base_class() {
    let db = database();
    let ctx = run(&db, PACKAGE, false, &switch(E_NUMBER, &[E_EXACT_DERIVED]));
    assert_eq!(ctx.diagnostics, vec![coercion(EXACT_DERIVED, NUMBER, 10)]);
    let ctx = run(&db, IN_OPTIONAL_CTOR, false, &super_call(&[E_EXACT_DERIVED]));
    assert_eq!(ctx.diagnostics, vec![coercion(EXACT_DERIVED, NUMBER, 100)]);
    let mut db = database();
    db.exprs.push(ExprInfo::Typed(EXACT_BASE));
    let ctx = run(&db, PACKAGE, false, &Statement::Switch {
        discriminant: expr(5, 1),
        cases: vec![SwitchCase { labels: vec![CaseLabel::Case(expr(E_EXACT_DERIVED, 2))], body: vec![] }],
    });
    assert!(ctx.diagnostics.is_empty());
}

#[test]
fn arguments_error_variants_are_distinct() {
    assert_ne!(ArgumentsError::Expected(2), ArgumentsError::ExpectedNoMoreThan(2));
    assert_ne!(ArgumentsError::Defer, ArgumentsError::Expected(0));
}
