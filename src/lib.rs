//! Statement-level semantic verification for an ECMAScript-like language:
//! scope-balanced traversal of statement trees, super-call arity checks and
//! for-in key/value classification, with deferral for what cannot be decided
//! before a later pass.
pub mod arguments;
pub mod ast;
pub mod context;
pub mod laws;
pub mod statement;
pub mod types;
