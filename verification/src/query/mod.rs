//! The backend-agnostic query AST and its builders.
pub mod ast;
pub mod lower;
pub mod select;
pub mod insert;
pub mod delete;
pub mod update;
