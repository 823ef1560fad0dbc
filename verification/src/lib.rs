//! The core of a command-line calculator: the grammar of one input line, the
//! syntax tree it produces, and the evaluation of that tree against a session's
//! bindings.
//!
//! Numbers are carried as IEEE-754 bit patterns ([`models::Value`]); the
//! arithmetic on them is supplied by the caller of [`eval::eval`].
pub mod context;
pub mod eval;
pub mod models;
pub mod parser;
pub mod table;
pub mod text;
pub mod types;

pub use context::{AngleUnit, Context};
pub use eval::{eval, EvalError, Operation};
pub use models::{Value, Variable};
pub use parser::{parser, ParseError, ParseErrorKind};
pub use types::{BinaryOp, Expr, PostfixOp, PrefixOp, Stmt};
