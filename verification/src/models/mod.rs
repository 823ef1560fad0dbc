//! The values that a session binds.
pub mod value;
pub mod variable;

pub use value::Value;
pub use variable::Variable;
