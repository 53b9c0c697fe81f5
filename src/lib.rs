//! A parser for a key-remapping configuration language: sections of
//! `key = expression` bindings, where an expression is a key name or a call
//! of an action such as `layer(nav)`, `overloadt(nav,esc,200)` or
//! `layerm(nav,macro(C-a b))`.
//!
//! Every parser here is stated against a specification function over the
//! characters of its input, and proved to meet it.
pub mod action;
pub mod canonical;
pub mod document;
pub mod error;
pub mod expr;
pub mod grammar;
pub mod macros;
pub mod text;
pub mod token;

pub use action::{Action, Param};
pub use document::{parse_document, read_line, CommentPolicy, KeydSection, KeydStatement, Line};
pub use error::ParseError;
pub use expr::KeydExpr;
pub use grammar::{ActionName, ParamKind};
pub use macros::parse_macro;
pub use token::{classify, is_valid_ident, MacroToken};
