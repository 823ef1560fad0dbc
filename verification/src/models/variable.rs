use vstd::prelude::*;
use super::Value;

verus! {

/// A bound variable. An external binding comes from the environment and is
/// never replaced by a definition; an internal one was defined in the session.
#[derive(Clone, Copy, Debug, PartialEq, Eq, Structural)]
pub enum Variable {
    External(Value),
    Internal(Value),
}

impl Variable {
    /// The number that the variable holds.
    pub open spec fn value(&self) -> Value {
        match self {
            Variable::External(n) => *n,
            Variable::Internal(n) => *n,
        }
    }

    /// The number that the variable holds.
    pub fn get(&self) -> (v: Value)
        ensures
            v == self.value(),
    {
        match self {
            Variable::External(n) => *n,
            Variable::Internal(n) => *n,
        }
    }

    /// Whether the environment provides the variable.
    pub fn is_external(&self) -> (b: bool)
        ensures
            b == (self is External),
    {
        match self {
            Variable::External(_) => true,
            Variable::Internal(_) => false,
        }
    }
}

} // verus!
