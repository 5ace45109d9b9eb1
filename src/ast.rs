//! The statement tree that the parser produced; the verifier only reads it.
use vstd::prelude::*;
use crate::types::Database;

verus! {

#[derive(Clone, Copy, Debug, PartialEq, Eq, Structural)]
pub struct Location {
    pub line: usize,
    pub column: usize,
}

/// An expression node; `id` keys its outcome in the database.
#[derive(Clone, Copy, Debug, PartialEq, Eq, Structural)]
pub struct Expr {
    pub id: usize,
    pub location: Location,
}

#[derive(Clone, Copy, Debug, PartialEq, Eq, Structural)]
pub enum CaseLabel {
    Case(Expr),
    Default,
}

#[derive(Debug)]
pub struct SwitchCase {
    pub labels: Vec<CaseLabel>,
    pub body: Vec<Statement>,
}

/// A block; `node` keys its scope in the database.
#[derive(Debug)]
pub struct Block {
    pub node: usize,
    pub body: Vec<Statement>,
}

#[derive(Clone, Debug)]
pub struct SuperStatement {
    pub location: Location,
    pub arguments: Vec<Expr>,
}

#[derive(Clone, Copy, Debug, PartialEq, Eq, Structural)]
pub enum ForInit {
    Expression(Expr),
    /// A variable declaration, which an earlier pass handles.
    Declaration,
}

#[derive(Debug)]
#[allow(inconsistent_fields)]
pub enum Statement {
    Expression(Expr),
    Super(SuperStatement),
    Block(Block),
    Labeled { label: String, body: Box<Statement> },
    If { test: Expr, consequent: Box<Statement>, alternative: Option<Box<Statement>> },
    Switch { discriminant: Expr, cases: Vec<SwitchCase> },
    SwitchType { discriminant: Expr, cases: Vec<Block> },
    Do { body: Box<Statement>, test: Expr },
    While { test: Expr, body: Box<Statement> },
    /// `node` keys the loop's own scope.
    For {
        node: usize,
        init: Option<ForInit>,
        test: Option<Expr>,
        update: Option<Expr>,
        body: Box<Statement>,
    },
    /// Any other statement kind; this pass has nothing to check in it.
    Other,
}

pub open spec fn wf_expr(db: &Database, e: Expr) -> bool {
    e.id < db.exprs.len()
}

pub open spec fn wf_opt_expr(db: &Database, e: Option<Expr>) -> bool {
    e matches Some(x) ==> wf_expr(db, x)
}

pub open spec fn wf_exprs(db: &Database, es: Seq<Expr>) -> bool {
    forall|i: int| 0 <= i < es.len() ==> wf_expr(db, #[trigger] es[i])
}

pub open spec fn wf_labels(db: &Database, labels: Seq<CaseLabel>) -> bool {
    forall|i: int|
        0 <= i < labels.len() ==> (#[trigger] labels[i] matches CaseLabel::Case(e) ==> wf_expr(
            db,
            e,
        ))
}

/// Every expression of the tree has an outcome in the database, and every
/// block and loop has a scope.
pub open spec fn wf_stmt(db: &Database, s: Statement) -> bool
    decreases s,
{
    match s {
        Statement::Expression(e) => wf_expr(db, e),
        Statement::Super(sup) => wf_exprs(db, sup.arguments@),
        Statement::Block(b) => wf_block(db, b),
        Statement::Labeled { body, .. } => wf_stmt(db, *body),
        Statement::If { test, consequent, alternative } => wf_expr(db, test) && wf_stmt(
            db,
            *consequent,
        ) && (alternative matches Some(a) ==> wf_stmt(db, *a)),
        Statement::Switch { discriminant, cases } => wf_expr(db, discriminant) && wf_cases(
            db,
            cases@,
        ),
        Statement::SwitchType { discriminant, cases } => wf_expr(db, discriminant) && wf_blocks(
            db,
            cases@,
        ),
        Statement::Do { body, test } => wf_expr(db, test) && wf_stmt(db, *body),
        Statement::While { test, body } => wf_expr(db, test) && wf_stmt(db, *body),
        Statement::For { node, init, test, update, body } => node < db.node_scopes.len() && (
        init matches Some(ForInit::Expression(e)) ==> wf_expr(db, e)) && wf_opt_expr(db, test)
            && wf_opt_expr(db, update) && wf_stmt(db, *body),
        Statement::Other => true,
    }
}

pub open spec fn wf_stmts(db: &Database, list: Seq<Statement>) -> bool
    decreases list,
{
    forall|i: int| 0 <= i < list.len() ==> wf_stmt(db, #[trigger] list[i])
}

pub open spec fn wf_block(db: &Database, b: Block) -> bool
    decreases b,
{
    b.node < db.node_scopes.len() && wf_stmts(db, b.body@)
}

pub open spec fn wf_blocks(db: &Database, blocks: Seq<Block>) -> bool
    decreases blocks,
{
    forall|i: int| 0 <= i < blocks.len() ==> wf_block(db, #[trigger] blocks[i])
}

pub open spec fn wf_cases(db: &Database, cases: Seq<SwitchCase>) -> bool
    decreases cases,
{
    forall|i: int|
        0 <= i < cases.len() ==> wf_labels(db, (#[trigger] cases[i]).labels@) && wf_stmts(
            db,
            cases[i].body@,
        )
}

} // verus!
