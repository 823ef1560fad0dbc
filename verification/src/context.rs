//! The session: its settings, what its names are bound to, and its last
//! answer.
use vstd::prelude::*;
use crate::models::{Value, Variable};
use crate::table::Table;
use crate::types::{names_view, Expr, ExprView};

verus! {

/// The unit in which angles are given to the trigonometric functions.
#[derive(Debug, Clone, Copy, PartialEq, Eq, Structural)]
pub enum AngleUnit {
    Radian,
    Degree,
}

/// A function defined in the session: its parameter names and its body,
/// which is evaluated anew at every call.
#[derive(Debug, PartialEq)]
pub struct Function {
    pub params: Vec<String>,
    pub body: Expr,
}

/// The mathematical value of a [`Function`].
pub struct FunctionView {
    pub params: Seq<Seq<char>>,
    pub body: ExprView,
}

impl View for Function {
    type V = FunctionView;

    open spec fn view(&self) -> FunctionView {
        FunctionView { params: names_view(self.params@), body: self.body@ }
    }
}

/// What a session holds: its settings, its variables and functions by name,
/// the number of arguments of each function that the environment provides,
/// and the last answer, if there was one.
pub struct ContextView {
    pub fix: u8,
    pub base: u8,
    pub angle_unit: AngleUnit,
    pub variables: Map<Seq<char>, Variable>,
    pub functions: Map<Seq<char>, FunctionView>,
    pub builtins: Map<Seq<char>, usize>,
    pub prev_answer: Option<Value>,
}

impl ContextView {
    /// The number bound to `name`, if any.
    pub open spec fn variable(self, name: Seq<char>) -> Option<Value> {
        if self.variables.contains_key(name) {
            Some(self.variables[name].value())
        } else {
            None
        }
    }

    /// These bindings after the definition of `name` as `value`. A variable
    /// of the environment keeps what it had.
    pub open spec fn define(self, name: Seq<char>, value: Value) -> ContextView {
        if self.variables.contains_key(name) && self.variables[name] is External {
            self
        } else {
            ContextView { variables: self.variables.insert(name, Variable::Internal(value)), ..self }
        }
    }
}

/// A session of the calculator.
pub struct Context {
    /// Number of decimal places in output.
    pub fix: u8,
    /// Radix of output.
    pub base: u8,
    /// Angle unit.
    pub angle_unit: AngleUnit,
    variables: Table<Variable>,
    functions: Table<Function>,
    builtins: Table<usize>,
    prev_answer: Option<Value>,
}

impl View for Context {
    type V = ContextView;

    closed spec fn view(&self) -> ContextView {
        ContextView {
            fix: self.fix,
            base: self.base,
            angle_unit: self.angle_unit,
            variables: self.variables.map(),
            functions: self.functions.map().map_values(|f: Function| f@),
            builtins: self.builtins.map(),
            prev_answer: self.prev_answer,
        }
    }
}

impl Context {
    /// A session with these settings that binds nothing yet.
    pub fn new(fix: u8, base: u8, angle_unit: AngleUnit) -> (c: Context)
        ensures
            c@.fix == fix,
            c@.base == base,
            c@.angle_unit == angle_unit,
            c@.variables == Map::<Seq<char>, Variable>::empty(),
            c@.functions == Map::<Seq<char>, FunctionView>::empty(),
            c@.builtins == Map::<Seq<char>, usize>::empty(),
            c@.prev_answer is None,
    {
        let c = Context {
            fix,
            base,
            angle_unit,
            variables: Table::new(),
            functions: Table::new(),
            builtins: Table::new(),
            prev_answer: None,
        };
        assert(c@.functions =~= Map::<Seq<char>, FunctionView>::empty());
        c
    }

    /// The binding of the variable `name`, if it has one.
    pub fn variable(&self, name: &String) -> (r: Option<Variable>)
        ensures
            match r {
                Some(v) => self@.variables.contains_key(name@) && self@.variables[name@] == v,
                None => !self@.variables.contains_key(name@),
            },
    {
        match self.variables.get(name) {
            Some(v) => Some(*v),
            None => None,
        }
    }

    /// The number bound to the variable `name`, if any.
    pub fn get_variable(&self, name: &str) -> (r: Option<Value>)
        ensures
            r == self@.variable(name@),
    {
        let key = name.to_owned();
        match self.variable(&key) {
            Some(v) => Some(v.get()),
            None => None,
        }
    }

    /// Defines the variable `name` as `value`, unless the environment
    /// provides a variable of that name, which then stays as it is.
    pub fn set_variable(&mut self, name: String, value: Value)
        ensures
            final(self)@ == old(self)@.define(name@, value),
    {
        let protected = match self.variable(&name) {
            Some(v) => v.is_external(),
            None => false,
        };
        if !protected {
            self.variables.set(name, Variable::Internal(value));
        }
    }

    /// Provides the variable `name` from the environment, in place of any
    /// variable of that name.
    pub fn set_external(&mut self, name: String, value: Value)
        ensures
            final(self)@ == (ContextView {
                variables: old(self)@.variables.insert(name@, Variable::External(value)),
                ..old(self)@
            }),
    {
        self.variables.set(name, Variable::External(value));
    }

    /// The function defined as `name`, if there is one.
    pub fn function(&self, name: &String) -> (r: Option<&Function>)
        ensures
            match r {
                Some(f) => self@.functions.contains_key(name@) && self@.functions[name@] == f@,
                None => !self@.functions.contains_key(name@),
            },
    {
        self.functions.get(name)
    }

    /// The function defined as `name`, if there is one.
    pub fn get_function(&self, name: &str) -> (r: Option<&Function>)
        ensures
            match r {
                Some(f) => self@.functions.contains_key(name@) && self@.functions[name@] == f@,
                None => !self@.functions.contains_key(name@),
            },
    {
        let key = name.to_owned();
        self.function(&key)
    }

    /// Defines the function `name`, in place of any function of that name.
    pub fn set_function(&mut self, name: String, params: Vec<String>, body: Expr)
        ensures
            final(self)@ == (ContextView {
                functions: old(self)@.functions.insert(
                    name@,
                    FunctionView { params: names_view(params@), body: body@ },
                ),
                ..old(self)@
            }),
    {
        let ghost before = self.functions.map();
        let f = Function { params, body };
        self.functions.set(name, f);
        assert(before.insert(name@, f).map_values(|f: Function| f@) =~= before.map_values(
            |f: Function| f@,
        ).insert(name@, f@));
    }

    /// The number of arguments of the function `name` of the environment, if
    /// the environment provides one.
    pub fn builtin(&self, name: &String) -> (r: Option<usize>)
        ensures
            match r {
                Some(n) => self@.builtins.contains_key(name@) && self@.builtins[name@] == n,
                None => !self@.builtins.contains_key(name@),
            },
    {
        match self.builtins.get(name) {
            Some(n) => Some(*n),
            None => None,
        }
    }

    /// The number of arguments of the function `name` of the environment, if
    /// the environment provides one.
    pub fn lookup_builtin(&self, name: &str) -> (r: Option<usize>)
        ensures
            match r {
                Some(n) => self@.builtins.contains_key(name@) && self@.builtins[name@] == n,
                None => !self@.builtins.contains_key(name@),
            },
    {
        let key = name.to_owned();
        self.builtin(&key)
    }

    /// Provides the function `name` of `arity` arguments from the environment.
    pub fn set_builtin(&mut self, name: String, arity: usize)
        ensures
            final(self)@ == (ContextView {
                builtins: old(self)@.builtins.insert(name@, arity),
                ..old(self)@
            }),
    {
        self.builtins.set(name, arity);
    }

    /// The last answer, if there was one.
    pub fn get_prev_answer(&self) -> (r: Option<Value>)
        ensures
            r == self@.prev_answer,
    {
        self.prev_answer
    }

    /// Records `value` as the last answer.
    pub fn set_prev_answer(&mut self, value: Value)
        ensures
            final(self)@ == (ContextView { prev_answer: Some(value), ..old(self)@ }),
    {
        self.prev_answer = Some(value);
    }
}

} // verus!
