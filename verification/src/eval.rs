//! The evaluator: what a statement yields and what it leaves behind.
//!
//! The library decides everything about an evaluation but the arithmetic on
//! doubles, which it asks of its caller one operation at a time. Its contracts
//! are therefore stated for every model of that arithmetic: whatever function
//! the caller's answers follow, the result is what [`evaluate`] and
//! [`outcome`] give for that function.
//!
//! An evaluation descends no deeper than [`MAX_DEPTH`] steps, from an
//! expression to its operands and from a call to the body of its function. A
//! function that calls itself therefore ends in an error, and no session makes
//! the evaluator descend further than a thread's stack holds.
use vstd::prelude::*;
use vstd::string::StringExecFns;
use crate::context::{Context, ContextView, FunctionView};
use crate::models::value::{count_bits, NAN_BITS};
use crate::models::Value;
use crate::types::{names_view, BinaryOp, Expr, ExprView, PostfixOp, PrefixOp, Stmt, StmtView};

verus! {

/// How deep an evaluation descends. Every line that the parser reads is less
/// deep than this; only functions of the session that call one another reach
/// it.
pub const MAX_DEPTH: usize = 2048;

/// The greatest operand of a factorial: the factorial of 171 is no double.
pub const FACTORIAL_MAX: u32 = 170;

/// Why a statement has no value.
#[derive(Debug, PartialEq, Eq)]
pub enum EvalError {
    /// The name is bound to nothing. The name of the last answer is `_`.
    Undefined(String),
    /// The function takes `expected` arguments and was given `got`.
    ArityMismatch { name: String, expected: usize, got: usize },
    /// The operation is not defined on what it was given.
    DomainError { operation: String, detail: String },
}

/// The mathematical value of an [`EvalError`].
pub enum EvalErrorView {
    Undefined(Seq<char>),
    ArityMismatch { name: Seq<char>, expected: nat, got: nat },
    DomainError { operation: Seq<char>, detail: Seq<char> },
}

impl View for EvalError {
    type V = EvalErrorView;

    open spec fn view(&self) -> EvalErrorView {
        match self {
            EvalError::Undefined(name) => EvalErrorView::Undefined(name@),
            EvalError::ArityMismatch { name, expected, got } => EvalErrorView::ArityMismatch {
                name: name@,
                expected: *expected as nat,
                got: *got as nat,
            },
            EvalError::DomainError { operation, detail } => EvalErrorView::DomainError {
                operation: operation@,
                detail: detail@,
            },
        }
    }
}

/// One operation on doubles that the evaluator asks of its caller.
///
/// The caller is expected to answer with IEEE-754 arithmetic: a literal by
/// the double nearest to it; `Add`, `Sub`, `Mul` and `Div` by the operation
/// of that name, so that a division by zero is an infinity or not-a-number
/// and no error; `Rem` by the Euclidean remainder, which is never negative and
/// is not-a-number for a divisor of zero; `Pow` by the power function.
#[derive(Debug, PartialEq, Eq)]
pub enum Operation {
    /// The number that a literal denotes.
    Literal(String),
    /// `lhs op rhs`.
    Infix(BinaryOp, Value, Value),
    /// The function of the environment of this name, applied to the arguments.
    Builtin(String, Vec<Value>),
}

/// The mathematical value of an [`Operation`].
pub enum OperationView {
    Literal(Seq<char>),
    Infix(BinaryOp, Value, Value),
    Builtin(Seq<char>, Seq<Value>),
}

impl View for Operation {
    type V = OperationView;

    open spec fn view(&self) -> OperationView {
        match self {
            Operation::Literal(text) => OperationView::Literal(text@),
            Operation::Infix(op, lhs, rhs) => OperationView::Infix(*op, *lhs, *rhs),
            Operation::Builtin(name, args) => OperationView::Builtin(name@, args@),
        }
    }
}

/// The caller's arithmetic follows `model`: whatever it answers to an
/// operation is what `model` gives for it.
pub open spec fn agrees<A: Fn(Operation) -> Value>(
    arith: A,
    model: spec_fn(OperationView) -> Value,
) -> bool {
    forall|op: Operation, v: Value| #[trigger] arith.ensures((op,), v) ==> v == model(op@)
}

/// The value of the parameter `name` of a call: that of the first parameter
/// of that name.
pub open spec fn parameter(names: Seq<Seq<char>>, values: Seq<Value>, name: Seq<char>) -> Option<
    Value,
>
    decreases names.len(),
{
    if names.len() == 0 || values.len() == 0 {
        None
    } else if names[0] == name {
        Some(values[0])
    } else {
        parameter(names.drop_first(), values.drop_first(), name)
    }
}

/// The double that equals the whole number `n`.
pub open spec fn count(n: nat) -> Value {
    Value { bits: count_bits(n) as u64 }
}

/// The product of the whole numbers from 1 to `n`, multiplied up from 1 in
/// the arithmetic of `model`.
pub open spec fn product_up_to(model: spec_fn(OperationView) -> Value, n: nat) -> Value
    decreases n,
{
    if n <= 1 {
        count(1)
    } else {
        model(
            OperationView::Infix(BinaryOp::Mul, product_up_to(model, (n - 1) as nat), count(n)),
        )
    }
}

/// The error of a factorial whose operand is no whole number in its range.
pub open spec fn factorial_error() -> EvalErrorView {
    EvalErrorView::DomainError {
        operation: "factorial"@,
        detail: "the operand is not a whole number from 0 to 170"@,
    }
}

/// The error of an evaluation that would descend deeper than [`MAX_DEPTH`].
pub open spec fn depth_error() -> EvalErrorView {
    EvalErrorView::DomainError { operation: "evaluation"@, detail: "nested too deep"@ }
}

/// The error of a function definition that names a parameter twice.
pub open spec fn parameter_error() -> EvalErrorView {
    EvalErrorView::DomainError {
        operation: "definition"@,
        detail: "a parameter name occurs twice"@,
    }
}

/// The factorial of `v`: defined on the whole numbers from 0 to
/// [`FACTORIAL_MAX`].
pub open spec fn factorial(model: spec_fn(OperationView) -> Value, v: Value) -> Result<
    Value,
    EvalErrorView,
> {
    match v.count_spec(FACTORIAL_MAX as nat) {
        Some(n) => Ok(product_up_to(model, n)),
        None => Err(factorial_error()),
    }
}

/// What the call of `name` yields on the values `args`. A function of the
/// environment comes before a function of the session; either must be given
/// as many arguments as it takes. The body of a session function sees its
/// parameters and the session, and nothing of the caller's parameters.
pub open spec fn apply(
    model: spec_fn(OperationView) -> Value,
    ctx: ContextView,
    depth: nat,
    name: Seq<char>,
    args: Seq<Value>,
) -> Result<Value, EvalErrorView>
    decreases depth, 1nat, args,
{
    if ctx.builtins.contains_key(name) {
        if ctx.builtins[name] == args.len() {
            Ok(model(OperationView::Builtin(name, args)))
        } else {
            Err(
                EvalErrorView::ArityMismatch {
                    name,
                    expected: ctx.builtins[name] as nat,
                    got: args.len(),
                },
            )
        }
    } else if ctx.functions.contains_key(name) {
        let f = ctx.functions[name];
        if f.params.len() != args.len() {
            Err(EvalErrorView::ArityMismatch { name, expected: f.params.len(), got: args.len() })
        } else {
            evaluate(model, ctx, f.params, args, depth, f.body)
        }
    } else {
        Err(EvalErrorView::Undefined(name))
    }
}

/// What the expression `e` yields in the session `ctx`, inside a call with
/// the parameters `names` bound to `values`, when the evaluation may descend
/// `depth` steps further: an error where it may not descend at all, and else
/// what [`step`] gives with one step less.
pub open spec fn evaluate(
    model: spec_fn(OperationView) -> Value,
    ctx: ContextView,
    names: Seq<Seq<char>>,
    values: Seq<Value>,
    depth: nat,
    e: ExprView,
) -> Result<Value, EvalErrorView>
    decreases depth, 0nat, e,
{
    if depth == 0 {
        Err(depth_error())
    } else {
        step(model, ctx, names, values, (depth - 1) as nat, e)
    }
}

/// What the expression `e` yields when its operands may descend `depth`
/// steps. Operands are evaluated from left to right, and the first error ends
/// the evaluation.
pub open spec fn step(
    model: spec_fn(OperationView) -> Value,
    ctx: ContextView,
    names: Seq<Seq<char>>,
    values: Seq<Value>,
    depth: nat,
    e: ExprView,
) -> Result<Value, EvalErrorView>
    decreases depth, 2nat, e,
{
    match e {
        ExprView::Number(text) => Ok(model(OperationView::Literal(text))),
        ExprView::Variable(name) => match parameter(names, values, name) {
            Some(v) => Ok(v),
            None => match ctx.variable(name) {
                Some(v) => Ok(v),
                None => Err(EvalErrorView::Undefined(name)),
            },
        },
        ExprView::PrevAnswer => match ctx.prev_answer {
            Some(v) => Ok(v),
            None => Err(EvalErrorView::Undefined("_"@)),
        },
        ExprView::FnCall { name, args } => match evaluate_all(
            model,
            ctx,
            names,
            values,
            depth,
            args,
        ) {
            Ok(vs) => apply(model, ctx, depth, name, vs),
            Err(err) => Err(err),
        },
        ExprView::PrefixOp { op, arg } => match evaluate(model, ctx, names, values, depth, *arg) {
            Ok(v) => Ok(v.negated_spec()),
            Err(err) => Err(err),
        },
        ExprView::PostfixOp { op, arg } => match evaluate(model, ctx, names, values, depth, *arg) {
            Ok(v) => factorial(model, v),
            Err(err) => Err(err),
        },
        ExprView::InfixOp { op, lhs, rhs } => match evaluate(
            model,
            ctx,
            names,
            values,
            depth,
            *lhs,
        ) {
            Ok(l) => match evaluate(model, ctx, names, values, depth, *rhs) {
                Ok(r) => Ok(model(OperationView::Infix(op, l, r))),
                Err(err) => Err(err),
            },
            Err(err) => Err(err),
        },
    }
}

/// What the expressions `es` yield, one after the other.
pub open spec fn evaluate_all(
    model: spec_fn(OperationView) -> Value,
    ctx: ContextView,
    names: Seq<Seq<char>>,
    values: Seq<Value>,
    depth: nat,
    es: Seq<ExprView>,
) -> Result<Seq<Value>, EvalErrorView>
    decreases depth, 1nat, es,
{
    if es.len() == 0 {
        Ok(Seq::empty())
    } else {
        match evaluate_all(model, ctx, names, values, depth, es.drop_last()) {
            Ok(vs) => match evaluate(model, ctx, names, values, depth, es.last()) {
                Ok(v) => Ok(vs.push(v)),
                Err(err) => Err(err),
            },
            Err(err) => Err(err),
        }
    }
}

/// Whether `name` is one of the parameters `names` of a call that was given
/// `count` arguments.
pub open spec fn is_parameter(names: Seq<Seq<char>>, count: nat, name: Seq<char>) -> bool
    decreases names.len(),
{
    if names.len() == 0 || count == 0 {
        false
    } else if names[0] == name {
        true
    } else {
        is_parameter(names.drop_first(), (count - 1) as nat, name)
    }
}

/// Whether the expression `e` has a value whatever the arithmetic answers:
/// every name in it is bound, every function in it is there and is given as
/// many arguments as it takes, the evaluation does not descend too deep, and
/// it holds no factorial, whose operand the arithmetic may put outside its
/// domain.
pub open spec fn certain(
    ctx: ContextView,
    names: Seq<Seq<char>>,
    count: nat,
    depth: nat,
    e: ExprView,
) -> bool
    decreases depth, e,
{
    depth > 0 && match e {
        ExprView::Number(text) => true,
        ExprView::Variable(name) => is_parameter(names, count, name) || ctx.variables.contains_key(
            name,
        ),
        ExprView::PrevAnswer => ctx.prev_answer is Some,
        ExprView::FnCall { name, args } => certain_all(
            ctx,
            names,
            count,
            (depth - 1) as nat,
            args,
        ) && if ctx.builtins.contains_key(name) {
            ctx.builtins[name] == args.len()
        } else {
            &&& ctx.functions.contains_key(name)
            &&& ctx.functions[name].params.len() == args.len()
            &&& certain(
                ctx,
                ctx.functions[name].params,
                args.len(),
                (depth - 1) as nat,
                ctx.functions[name].body,
            )
        },
        ExprView::PrefixOp { op, arg } => certain(ctx, names, count, (depth - 1) as nat, *arg),
        ExprView::PostfixOp { op, arg } => false,
        ExprView::InfixOp { op, lhs, rhs } => certain(ctx, names, count, (depth - 1) as nat, *lhs)
            && certain(ctx, names, count, (depth - 1) as nat, *rhs),
    }
}

/// Whether each of the expressions `es` has a value whatever the arithmetic
/// answers.
pub open spec fn certain_all(
    ctx: ContextView,
    names: Seq<Seq<char>>,
    count: nat,
    depth: nat,
    es: Seq<ExprView>,
) -> bool
    decreases depth, es,
{
    es.len() == 0 || (certain_all(ctx, names, count, depth, es.drop_last()) && certain(
        ctx,
        names,
        count,
        depth,
        es.last(),
    ))
}

/// What the expression `e` yields whatever the arithmetic answers, where
/// that is fixed: the value of a name and of the previous-answer mark, or
/// `Undefined` where they have none; the error of an evaluation that may not
/// descend; and the error of a call that is not made, although its arguments
/// have values, because the function is not there or is given another number
/// of arguments than it takes.
pub open spec fn fixed(
    ctx: ContextView,
    names: Seq<Seq<char>>,
    values: Seq<Value>,
    depth: nat,
    e: ExprView,
) -> Option<Result<Value, EvalErrorView>> {
    if depth == 0 {
        Some(Err(depth_error()))
    } else {
        match e {
            ExprView::Variable(name) => Some(
                match parameter(names, values, name) {
                    Some(v) => Ok(v),
                    None => match ctx.variable(name) {
                        Some(v) => Ok(v),
                        None => Err(EvalErrorView::Undefined(name)),
                    },
                },
            ),
            ExprView::PrevAnswer => Some(
                match ctx.prev_answer {
                    Some(v) => Ok(v),
                    None => Err(EvalErrorView::Undefined("_"@)),
                },
            ),
            ExprView::FnCall { name, args } => {
                if !certain_all(ctx, names, values.len(), (depth - 1) as nat, args) {
                    None
                } else if ctx.builtins.contains_key(name) {
                    if ctx.builtins[name] == args.len() {
                        None
                    } else {
                        Some(
                            Err(
                                EvalErrorView::ArityMismatch {
                                    name,
                                    expected: ctx.builtins[name] as nat,
                                    got: args.len(),
                                },
                            ),
                        )
                    }
                } else if ctx.functions.contains_key(name) {
                    if ctx.functions[name].params.len() != args.len() {
                        Some(
                            Err(
                                EvalErrorView::ArityMismatch {
                                    name,
                                    expected: ctx.functions[name].params.len(),
                                    got: args.len(),
                                },
                            ),
                        )
                    } else {
                        None
                    }
                } else {
                    Some(Err(EvalErrorView::Undefined(name)))
                }
            },
            _ => None,
        }
    }
}

/// The expression that a statement evaluates, if it evaluates one.
pub open spec fn subject(s: StmtView) -> Option<ExprView> {
    match s {
        StmtView::Expr(body) => Some(body),
        StmtView::DefVar { name, expr } => Some(expr),
        StmtView::DefFun { name, arg_names, body } => None,
    }
}

/// What the statement `s` yields in the session `ctx`: an expression and a
/// variable definition the value of their expression, a function definition
/// not-a-number, for it computes nothing.
pub open spec fn outcome(model: spec_fn(OperationView) -> Value, ctx: ContextView, s: StmtView) -> Result<
    Value,
    EvalErrorView,
> {
    match s {
        StmtView::Expr(body) => evaluate(
            model,
            ctx,
            Seq::empty(),
            Seq::empty(),
            MAX_DEPTH as nat,
            body,
        ),
        StmtView::DefVar { name, expr } => evaluate(
            model,
            ctx,
            Seq::empty(),
            Seq::empty(),
            MAX_DEPTH as nat,
            expr,
        ),
        StmtView::DefFun { name, arg_names, body } => {
            if arg_names.no_duplicates() {
                Ok(Value { bits: NAN_BITS })
            } else {
                Err(parameter_error())
            }
        },
    }
}

/// The session `ctx` after the statement `s` has yielded `v`. An expression
/// leaves its value as the last answer; a variable definition binds the name
/// to the value; a function definition binds the name to the parameters and
/// the body, which is not evaluated.
pub open spec fn session_with(ctx: ContextView, s: StmtView, v: Value) -> ContextView {
    match s {
        StmtView::Expr(body) => ContextView { prev_answer: Some(v), ..ctx },
        StmtView::DefVar { name, expr } => ctx.define(name, v),
        StmtView::DefFun { name, arg_names, body } => ContextView {
            functions: ctx.functions.insert(name, FunctionView { params: arg_names, body }),
            ..ctx
        },
    }
}

/// The session after the statement `s`. A statement that fails changes
/// nothing.
pub open spec fn session_after(
    model: spec_fn(OperationView) -> Value,
    ctx: ContextView,
    s: StmtView,
) -> ContextView {
    match outcome(model, ctx, s) {
        Ok(v) => session_with(ctx, s, v),
        Err(_) => ctx,
    }
}

/// The view of an evaluation's answer.
pub open spec fn answer_view(r: Result<Value, EvalError>) -> Result<Value, EvalErrorView> {
    match r {
        Ok(v) => Ok(v),
        Err(err) => Err(err@),
    }
}

/// An error among the first expressions is the error of them all.
pub proof fn lemma_first_error(
    model: spec_fn(OperationView) -> Value,
    ctx: ContextView,
    names: Seq<Seq<char>>,
    values: Seq<Value>,
    depth: nat,
    es: Seq<ExprView>,
    n: int,
)
    requires
        0 <= n <= es.len(),
        evaluate_all(model, ctx, names, values, depth, es.take(n)) is Err,
    ensures
        evaluate_all(model, ctx, names, values, depth, es) == evaluate_all(
            model,
            ctx,
            names,
            values,
            depth,
            es.take(n),
        ),
    decreases es.len() - n,
{
    if n == es.len() {
        assert(es.take(n) =~= es);
    } else {
        assert(es.take(n + 1).drop_last() =~= es.take(n));
        lemma_first_error(model, ctx, names, values, depth, es, n + 1);
    }
}

/// Expressions that all have a value have as many values as there are
/// expressions.
pub proof fn lemma_values_match(
    model: spec_fn(OperationView) -> Value,
    ctx: ContextView,
    names: Seq<Seq<char>>,
    values: Seq<Value>,
    depth: nat,
    es: Seq<ExprView>,
)
    requires
        evaluate_all(model, ctx, names, values, depth, es) is Ok,
    ensures
        evaluate_all(model, ctx, names, values, depth, es)->Ok_0.len() == es.len(),
    decreases es.len(),
{
    if es.len() > 0 {
        lemma_values_match(model, ctx, names, values, depth, es.drop_last());
    }
}

/// A name that is bound to nothing has no value: as a statement of its own
/// it yields `Undefined` with that name, under every arithmetic, and leaves
/// the session as it was.
pub proof fn law_unbound_name_is_undefined(
    model: spec_fn(OperationView) -> Value,
    ctx: ContextView,
    name: Seq<char>,
)
    requires
        !ctx.variables.contains_key(name),
    ensures
        outcome(model, ctx, StmtView::Expr(ExprView::Variable(name))) == Err::<
            Value,
            EvalErrorView,
        >(EvalErrorView::Undefined(name)),
        session_after(model, ctx, StmtView::Expr(ExprView::Variable(name))) == ctx,
{
}

/// Inside a call, a name that is neither a parameter nor bound in the
/// session has no value.
pub proof fn law_unbound_name_in_a_call(
    model: spec_fn(OperationView) -> Value,
    ctx: ContextView,
    names: Seq<Seq<char>>,
    values: Seq<Value>,
    depth: nat,
    name: Seq<char>,
)
    requires
        depth > 0,
        !ctx.variables.contains_key(name),
        parameter(names, values, name) is None,
    ensures
        evaluate(model, ctx, names, values, depth, ExprView::Variable(name)) == Err::<
            Value,
            EvalErrorView,
        >(EvalErrorView::Undefined(name)),
{
}

/// A session function that is given another number of arguments than it has
/// parameters is not called: once the arguments have their values, the call
/// yields `ArityMismatch` with both numbers.
pub proof fn law_arity_mismatch(
    model: spec_fn(OperationView) -> Value,
    ctx: ContextView,
    names: Seq<Seq<char>>,
    values: Seq<Value>,
    depth: nat,
    name: Seq<char>,
    args: Seq<ExprView>,
)
    requires
        !ctx.builtins.contains_key(name),
        ctx.functions.contains_key(name),
        ctx.functions[name].params.len() != args.len(),
        evaluate_all(model, ctx, names, values, depth, args) is Ok,
    ensures
        evaluate(model, ctx, names, values, depth + 1, ExprView::FnCall { name, args }) == Err::<
            Value,
            EvalErrorView,
        >(
            EvalErrorView::ArityMismatch {
                name,
                expected: ctx.functions[name].params.len(),
                got: args.len(),
            },
        ),
{
    reveal_with_fuel(evaluate, 3);
    lemma_values_match(model, ctx, names, values, depth, args);
}

/// After a variable definition the name has the value that the definition
/// yielded, unless the environment provides a variable of that name.
pub proof fn law_definition_binds(
    model: spec_fn(OperationView) -> Value,
    ctx: ContextView,
    name: Seq<char>,
    expr: ExprView,
)
    requires
        outcome(model, ctx, StmtView::DefVar { name, expr }) is Ok,
        !(ctx.variables.contains_key(name) && ctx.variables[name] is External),
    ensures
        outcome(
            model,
            session_after(model, ctx, StmtView::DefVar { name, expr }),
            StmtView::Expr(ExprView::Variable(name)),
        ) == outcome(model, ctx, StmtView::DefVar { name, expr }),
{
}

/// After an expression that has a value, the previous-answer mark has that
/// value.
pub proof fn law_previous_answer(
    model: spec_fn(OperationView) -> Value,
    ctx: ContextView,
    body: ExprView,
)
    requires
        outcome(model, ctx, StmtView::Expr(body)) is Ok,
    ensures
        outcome(
            model,
            session_after(model, ctx, StmtView::Expr(body)),
            StmtView::Expr(ExprView::PrevAnswer),
        ) == outcome(model, ctx, StmtView::Expr(body)),
{
}

/// After a function definition, a call of the name with as many arguments
/// as it has parameters yields what the body yields with each parameter
/// bound to the value of its argument, provided that the environment has no
/// function of that name.
pub proof fn law_defined_function_is_called(
    model: spec_fn(OperationView) -> Value,
    ctx: ContextView,
    name: Seq<char>,
    params: Seq<Seq<char>>,
    body: ExprView,
    args: Seq<ExprView>,
)
    requires
        params.no_duplicates(),
        !ctx.builtins.contains_key(name),
        args.len() == params.len(),
        evaluate_all(
            model,
            session_after(model, ctx, StmtView::DefFun { name, arg_names: params, body }),
            Seq::empty(),
            Seq::empty(),
            (MAX_DEPTH - 1) as nat,
            args,
        ) is Ok,
    ensures
        ({
            let after = session_after(model, ctx, StmtView::DefFun { name, arg_names: params, body });
            let values = evaluate_all(
                model,
                after,
                Seq::empty(),
                Seq::empty(),
                (MAX_DEPTH - 1) as nat,
                args,
            )->Ok_0;
            outcome(model, after, StmtView::Expr(ExprView::FnCall { name, args })) == evaluate(
                model,
                after,
                params,
                values,
                (MAX_DEPTH - 1) as nat,
                body,
            )
        }),
{
    reveal_with_fuel(evaluate, 3);
    let after = session_after(model, ctx, StmtView::DefFun { name, arg_names: params, body });
    lemma_values_match(model, after, Seq::empty(), Seq::empty(), (MAX_DEPTH - 1) as nat, args);
}

/// A parameter has a value exactly when it is among the names that were
/// given an argument.
pub proof fn lemma_parameter_found(names: Seq<Seq<char>>, values: Seq<Value>, name: Seq<char>)
    ensures
        parameter(names, values, name) is Some <==> is_parameter(names, values.len(), name),
    decreases names.len(),
{
    if names.len() > 0 && values.len() > 0 && names[0] != name {
        lemma_parameter_found(names.drop_first(), values.drop_first(), name);
    }
}

/// Where all expressions are certain of a value, each of them is.
pub proof fn lemma_certain_each(
    ctx: ContextView,
    names: Seq<Seq<char>>,
    count: nat,
    depth: nat,
    es: Seq<ExprView>,
    i: int,
)
    requires
        certain_all(ctx, names, count, depth, es),
        0 <= i < es.len(),
    ensures
        certain(ctx, names, count, depth, es[i]),
    decreases es.len(),
{
    if i < es.len() - 1 {
        lemma_certain_each(ctx, names, count, depth, es.drop_last(), i);
    }
}

fn find_parameter(names: &Vec<String>, values: &Vec<Value>, name: &String) -> (r: Option<Value>)
    ensures
        r == parameter(names_view(names@), values@, name@),
{
    let ghost all_names = names_view(names@);
    let mut i: usize = 0;
    proof {
        assert(all_names.skip(0) =~= all_names);
        assert(values@.skip(0) =~= values@);
    }
    while i < names.len() && i < values.len()
        invariant
            i <= names.len(),
            i <= values.len(),
            all_names == names_view(names@),
            parameter(all_names, values@, name@) == parameter(
                all_names.skip(i as int),
                values@.skip(i as int),
                name@,
            ),
        decreases names.len() - i,
    {
        proof {
            assert(all_names.skip(i as int).drop_first() =~= all_names.skip(i + 1));
            assert(values@.skip(i as int).drop_first() =~= values@.skip(i + 1));
            assert(all_names.skip(i as int)[0] == names[i as int]@);
        }
        if names[i] == *name {
            return Some(values[i]);
        }
        i += 1;
    }
    None
}

fn has_duplicates(names: &Vec<String>) -> (r: bool)
    ensures
        r == !names_view(names@).no_duplicates(),
{
    let ghost all = names_view(names@);
    let mut i: usize = 0;
    while i < names.len()
        invariant
            i <= names.len(),
            all == names_view(names@),
            forall|a: int, b: int| 0 <= a < i && 0 <= b < names.len() && a != b ==> all[a] != all[b],
        decreases names.len() - i,
    {
        let mut j: usize = i + 1;
        while j < names.len()
            invariant
                i < j <= names.len(),
                all == names_view(names@),
                forall|b: int| i < b < j ==> all[i as int] != all[b],
            decreases names.len() - j,
        {
            if names[i] == names[j] {
                assert(all[i as int] == all[j as int]);
                return true;
            }
            j += 1;
        }
        i += 1;
    }
    false
}

fn factorial_of<A: Fn(Operation) -> Value>(v: Value, arith: &A) -> (r: Result<Value, EvalError>)
    requires
        forall|op: Operation| arith.requires((op,)),
    ensures
        forall|m: spec_fn(OperationView) -> Value| #[trigger]
            agrees(*arith, m) ==> answer_view(r) == factorial(m, v),
{
    let n = match v.as_count(FACTORIAL_MAX) {
        Some(n) => n,
        None => {
            return Err(
                EvalError::DomainError {
                    operation: String::from_str("factorial"),
                    detail: String::from_str("the operand is not a whole number from 0 to 170"),
                },
            );
        },
    };
    let mut acc = Value::from_count(1);
    let mut k: u32 = 1;
    while k < n
        invariant
            1 <= k,
            k <= n || (n == 0 && k == 1),
            n <= FACTORIAL_MAX,
            forall|op: Operation| arith.requires((op,)),
            forall|m: spec_fn(OperationView) -> Value| #[trigger]
                agrees(*arith, m) ==> acc == product_up_to(m, k as nat),
        decreases n - k,
    {
        k = k + 1;
        acc = arith(Operation::Infix(BinaryOp::Mul, acc, Value::from_count(k)));
    }
    Ok(acc)
}

fn eval_expr<A: Fn(Operation) -> Value>(
    e: &Expr,
    ctx: &Context,
    names: &Vec<String>,
    values: &Vec<Value>,
    depth: usize,
    arith: &A,
) -> (r: Result<Value, EvalError>)
    requires
        forall|op: Operation| arith.requires((op,)),
    ensures
        forall|m: spec_fn(OperationView) -> Value| #[trigger]
            agrees(*arith, m) ==> answer_view(r) == evaluate(
                m,
                ctx@,
                names_view(names@),
                values@,
                depth as nat,
                e@,
            ),
        fixed(ctx@, names_view(names@), values@, depth as nat, e@) matches Some(x)
            ==> answer_view(r) == x,
        certain(ctx@, names_view(names@), values@.len(), depth as nat, e@) ==> r is Ok,
    decreases depth,
{
    reveal_with_fuel(evaluate, 3);
    proof {
        if let ExprView::Variable(name) = e@ {
            lemma_parameter_found(names_view(names@), values@, name);
        }
    }
    if depth == 0 {
        return Err(
            EvalError::DomainError {
                operation: String::from_str("evaluation"),
                detail: String::from_str("nested too deep"),
            },
        );
    }
    let below = depth - 1;
    match e {
        Expr::Number(text) => Ok(arith(Operation::Literal(text.clone()))),
        Expr::Variable(name) => match find_parameter(names, values, name) {
            Some(v) => Ok(v),
            None => match ctx.variable(name) {
                Some(v) => Ok(v.get()),
                None => Err(EvalError::Undefined(name.clone())),
            },
        },
        Expr::PrevAnswer => match ctx.get_prev_answer() {
            Some(v) => Ok(v),
            None => Err(EvalError::Undefined(String::from_str("_"))),
        },
        Expr::FnCall { name, args } => {
            let ghost all = e@->FnCall_args;
            let mut vals: Vec<Value> = Vec::new();
            let mut i: usize = 0;
            assert(all.take(0) =~= Seq::empty());
            assert(e@ == ExprView::FnCall { name: name@, args: all });
            while i < args.len()
                invariant
                    i <= args.len(),
                    e@ == (ExprView::FnCall { name: name@, args: all }),
                    all.len() == args.len(),
                    forall|op: Operation| arith.requires((op,)),
                    vals.len() == i,
                    forall|k: int| 0 <= k < args.len() ==> all[k] == (#[trigger] args[k])@,
                    depth == below + 1,
                    forall|m: spec_fn(OperationView) -> Value| #[trigger]
                        agrees(*arith, m) ==> evaluate_all(
                            m,
                            ctx@,
                            names_view(names@),
                            values@,
                            below as nat,
                            all.take(i as int),
                        ) == Ok::<Seq<Value>, EvalErrorView>(vals@),
                decreases args.len() - i,
            {
                proof {
                    assert(all.take(i + 1).drop_last() =~= all.take(i as int));
                    assert(all.take(i + 1).last() == args[i as int]@);
                }
                match eval_expr(&args[i], ctx, names, values, below, arith) {
                    Ok(v) => {
                        vals.push(v);
                    },
                    Err(err) => {
                        proof {
                            if certain_all(
                                ctx@,
                                names_view(names@),
                                values@.len(),
                                below as nat,
                                all,
                            ) {
                                lemma_certain_each(
                                    ctx@,
                                    names_view(names@),
                                    values@.len(),
                                    below as nat,
                                    all,
                                    i as int,
                                );
                            }
                            assert forall|m: spec_fn(OperationView) -> Value| #[trigger]
                                agrees(*arith, m) implies evaluate(
                                m,
                                ctx@,
                                names_view(names@),
                                values@,
                                depth as nat,
                                e@,
                            ) == Err::<Value, EvalErrorView>(err@) by {
                                assert(evaluate_all(
                                    m,
                                    ctx@,
                                    names_view(names@),
                                    values@,
                                    below as nat,
                                    all.take(i as int),
                                ) is Ok);
                                assert(evaluate(
                                    m,
                                    ctx@,
                                    names_view(names@),
                                    values@,
                                    below as nat,
                                    args[i as int]@,
                                ) == Err::<Value, EvalErrorView>(err@));
                                assert(evaluate_all(
                                    m,
                                    ctx@,
                                    names_view(names@),
                                    values@,
                                    below as nat,
                                    all.take(i + 1),
                                ) is Err);
                                assert(e@ == ExprView::FnCall { name: name@, args: all });
                                lemma_first_error(
                                    m,
                                    ctx@,
                                    names_view(names@),
                                    values@,
                                    below as nat,
                                    all,
                                    i + 1,
                                );
                            }
                        }
                        return Err(err);
                    },
                }
                i += 1;
            }
            assert(all.take(args.len() as int) =~= all);
            match ctx.builtin(name) {
                Some(arity) => {
                    if arity == vals.len() {
                        Ok(arith(Operation::Builtin(name.clone(), vals)))
                    } else {
                        Err(
                            EvalError::ArityMismatch {
                                name: name.clone(),
                                expected: arity,
                                got: vals.len(),
                            },
                        )
                    }
                },
                None => match ctx.function(name) {
                    Some(f) => {
                        if f.params.len() != vals.len() {
                            Err(
                                EvalError::ArityMismatch {
                                    name: name.clone(),
                                    expected: f.params.len(),
                                    got: vals.len(),
                                },
                            )
                        } else {
                            eval_expr(&f.body, ctx, &f.params, &vals, below, arith)
                        }
                    },
                    None => Err(EvalError::Undefined(name.clone())),
                },
            }
        },
        Expr::PrefixOp { op, arg } => match eval_expr(arg, ctx, names, values, below, arith) {
            Ok(v) => Ok(v.negated()),
            Err(err) => Err(err),
        },
        Expr::PostfixOp { op, arg } => match eval_expr(arg, ctx, names, values, below, arith) {
            Ok(v) => factorial_of(v, arith),
            Err(err) => Err(err),
        },
        Expr::InfixOp { op, lhs, rhs } => match eval_expr(lhs, ctx, names, values, below, arith) {
            Ok(l) => match eval_expr(rhs, ctx, names, values, below, arith) {
                Ok(r) => Ok(arith(Operation::Infix(*op, l, r))),
                Err(err) => Err(err),
            },
            Err(err) => Err(err),
        },
    }
}

/// Evaluates one statement in the session `context`, with the arithmetic
/// `arith`.
///
/// For every function that the answers of `arith` follow, the result is the
/// [`outcome`] of the statement under that function.
///
/// Whatever `arith` answers, and even where its answers follow no function:
/// a statement that yields a value leaves the session [`session_with`] that
/// value, and a statement that fails leaves it as it was; a function
/// definition fails exactly when it names a parameter twice; an expression
/// whose result is [`fixed`] yields that result, so that a name that is
/// bound to nothing yields `Undefined` and a call with the wrong number of
/// arguments `ArityMismatch`; and an expression that is [`certain`] of a
/// value yields one.
pub fn eval<A: Fn(Operation) -> Value>(stmt: Stmt, context: &mut Context, arith: &A) -> (r: Result<
    Value,
    EvalError,
>)
    requires
        forall|op: Operation| arith.requires((op,)),
    ensures
        forall|m: spec_fn(OperationView) -> Value| #[trigger]
            agrees(*arith, m) ==> answer_view(r) == outcome(m, old(context)@, stmt@)
                && final(context)@ == session_after(m, old(context)@, stmt@),
        match r {
            Ok(v) => final(context)@ == session_with(old(context)@, stmt@, v),
            Err(_) => final(context)@ == old(context)@,
        },
        subject(stmt@) matches Some(e) ==> (fixed(
            old(context)@,
            Seq::empty(),
            Seq::empty(),
            MAX_DEPTH as nat,
            e,
        ) matches Some(x) ==> answer_view(r) == x),
        subject(stmt@) matches Some(e) ==> (certain(
            old(context)@,
            Seq::empty(),
            0,
            MAX_DEPTH as nat,
            e,
        ) ==> r is Ok),
        stmt@ matches StmtView::DefFun { name, arg_names, body } ==> answer_view(r) == (
        if arg_names.no_duplicates() {
            Ok::<Value, EvalErrorView>(Value { bits: NAN_BITS })
        } else {
            Err::<Value, EvalErrorView>(parameter_error())
        }),
{
    let names: Vec<String> = Vec::new();
    let values: Vec<Value> = Vec::new();
    assert(names_view(names@) =~= Seq::empty());
    match stmt {
        Stmt::Expr(body) => {
            let r = eval_expr(&body, context, &names, &values, MAX_DEPTH, arith);
            if let Ok(v) = r {
                context.set_prev_answer(v);
            }
            r
        },
        Stmt::DefVar { name, expr } => {
            let r = eval_expr(&expr, context, &names, &values, MAX_DEPTH, arith);
            if let Ok(v) = r {
                context.set_variable(name, v);
            }
            r
        },
        Stmt::DefFun { name, arg_names, body } => {
            if has_duplicates(&arg_names) {
                Err(
                    EvalError::DomainError {
                        operation: String::from_str("definition"),
                        detail: String::from_str("a parameter name occurs twice"),
                    },
                )
            } else {
                context.set_function(name, arg_names, body);
                Ok(Value::nan())
            }
        },
    }
}

} // verus!
