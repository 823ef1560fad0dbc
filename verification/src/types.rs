//! The syntax tree of one input line, and its rendering in infix form.
use vstd::prelude::*;
use vstd::string::StringExecFns;

verus! {

/// The one prefix operator: arithmetic negation.
#[derive(Debug, PartialEq, Eq, Clone, Copy, Structural)]
pub enum PrefixOp {
    Neg,
}

/// The one postfix operator: factorial.
#[derive(Debug, PartialEq, Eq, Clone, Copy, Structural)]
pub enum PostfixOp {
    Fac,
}

/// The operators that stand between two operands.
#[derive(Debug, PartialEq, Eq, Clone, Copy, Structural)]
pub enum BinaryOp {
    Add,
    Sub,
    Mul,
    Div,
    Rem,
    Pow,
}

/// An expression. A number is kept as the text of its literal, exactly as it
/// was written; every node owns its children.
#[derive(Debug, PartialEq)]
#[allow(inconsistent_fields)]
pub enum Expr {
    Number(String),
    Variable(String),
    PrevAnswer,
    FnCall { name: String, args: Vec<Expr> },
    PrefixOp { op: PrefixOp, arg: Box<Expr> },
    PostfixOp { op: PostfixOp, arg: Box<Expr> },
    InfixOp { op: BinaryOp, lhs: Box<Expr>, rhs: Box<Expr> },
}

/// A statement: what one input line means.
#[derive(Debug, PartialEq)]
pub enum Stmt {
    Expr(Expr),
    DefVar { name: String, expr: Expr },
    DefFun { name: String, arg_names: Vec<String>, body: Expr },
}

/// The mathematical value of an [`Expr`]: the same tree over sequences.
#[allow(inconsistent_fields)]
pub enum ExprView {
    Number(Seq<char>),
    Variable(Seq<char>),
    PrevAnswer,
    FnCall { name: Seq<char>, args: Seq<ExprView> },
    PrefixOp { op: PrefixOp, arg: Box<ExprView> },
    PostfixOp { op: PostfixOp, arg: Box<ExprView> },
    InfixOp { op: BinaryOp, lhs: Box<ExprView>, rhs: Box<ExprView> },
}

/// The mathematical value of a [`Stmt`].
pub enum StmtView {
    Expr(ExprView),
    DefVar { name: Seq<char>, expr: ExprView },
    DefFun { name: Seq<char>, arg_names: Seq<Seq<char>>, body: ExprView },
}

/// The views of a list of names.
pub open spec fn names_view(names: Seq<String>) -> Seq<Seq<char>> {
    Seq::new(names.len(), |i: int| names[i]@)
}

/// The views of a list of expressions.
pub open spec fn exprs_view(exprs: Seq<Expr>) -> Seq<ExprView> {
    Seq::new(exprs.len(), |i: int| exprs[i]@)
}

impl Expr {
    /// The tree that this expression is.
    pub open spec fn model(&self) -> ExprView
        decreases self,
    {
        match self {
            Expr::Number(text) => ExprView::Number(text@),
            Expr::Variable(name) => ExprView::Variable(name@),
            Expr::PrevAnswer => ExprView::PrevAnswer,
            Expr::FnCall { name, args } => ExprView::FnCall {
                name: name@,
                args: Seq::new(
                    args.len() as nat,
                    |i: int|
                        if 0 <= i < args.len() {
                            args[i].model()
                        } else {
                            ExprView::PrevAnswer
                        },
                ),
            },
            Expr::PrefixOp { op, arg } => ExprView::PrefixOp { op: *op, arg: Box::new(arg.model()) },
            Expr::PostfixOp { op, arg } => ExprView::PostfixOp {
                op: *op,
                arg: Box::new(arg.model()),
            },
            Expr::InfixOp { op, lhs, rhs } => ExprView::InfixOp {
                op: *op,
                lhs: Box::new(lhs.model()),
                rhs: Box::new(rhs.model()),
            },
        }
    }

    /// The arguments of a call are viewed one by one.
    pub proof fn lemma_call_view(name: String, args: Vec<Expr>)
        ensures
            (Expr::FnCall { name, args })@ == (ExprView::FnCall {
                name: name@,
                args: exprs_view(args@),
            }),
    {
        let e = Expr::FnCall { name, args };
        assert(e.model()->FnCall_args =~= exprs_view(args@));
    }
}

impl ExprView {
    /// `lhs op rhs`.
    pub open spec fn infix(op: BinaryOp, lhs: ExprView, rhs: ExprView) -> ExprView {
        ExprView::InfixOp { op, lhs: Box::new(lhs), rhs: Box::new(rhs) }
    }
}

impl Expr {
    /// `lhs op rhs`.
    pub fn infix(op: BinaryOp, lhs: Expr, rhs: Expr) -> (e: Expr)
        ensures
            e@ == ExprView::infix(op, lhs@, rhs@),
    {
        Expr::InfixOp { op, lhs: Box::new(lhs), rhs: Box::new(rhs) }
    }
}

impl View for Expr {
    type V = ExprView;

    open spec fn view(&self) -> ExprView {
        self.model()
    }
}

impl View for Stmt {
    type V = StmtView;

    open spec fn view(&self) -> StmtView {
        match self {
            Stmt::Expr(body) => StmtView::Expr(body@),
            Stmt::DefVar { name, expr } => StmtView::DefVar { name: name@, expr: expr@ },
            Stmt::DefFun { name, arg_names, body } => StmtView::DefFun {
                name: name@,
                arg_names: names_view(arg_names@),
                body: body@,
            },
        }
    }
}

impl PrefixOp {
    /// The operator's canonical symbol.
    pub open spec fn symbol_text(&self) -> Seq<char> {
        match self {
            PrefixOp::Neg => "-"@,
        }
    }

    /// The operator's canonical symbol.
    pub fn symbol(&self) -> (s: &'static str)
        ensures
            s@ == self.symbol_text(),
    {
        match self {
            PrefixOp::Neg => "-",
        }
    }
}

impl PostfixOp {
    /// The operator's canonical symbol.
    pub open spec fn symbol_text(&self) -> Seq<char> {
        match self {
            PostfixOp::Fac => "!"@,
        }
    }

    /// The operator's canonical symbol.
    pub fn symbol(&self) -> (s: &'static str)
        ensures
            s@ == self.symbol_text(),
    {
        match self {
            PostfixOp::Fac => "!",
        }
    }
}

impl BinaryOp {
    /// The operator's canonical symbol.
    pub open spec fn symbol_text(&self) -> Seq<char> {
        match self {
            BinaryOp::Add => "+"@,
            BinaryOp::Sub => "-"@,
            BinaryOp::Mul => "*"@,
            BinaryOp::Div => "/"@,
            BinaryOp::Rem => "%"@,
            BinaryOp::Pow => "^"@,
        }
    }

    /// The operator's canonical symbol.
    pub fn symbol(&self) -> (s: &'static str)
        ensures
            s@ == self.symbol_text(),
    {
        match self {
            BinaryOp::Add => "+",
            BinaryOp::Sub => "-",
            BinaryOp::Mul => "*",
            BinaryOp::Div => "/",
            BinaryOp::Rem => "%",
            BinaryOp::Pow => "^",
        }
    }
}

/// The infix rendering of an expression: a literal and a name as they are, a
/// call as `name(a, b)`, and every operator application in parentheses, so
/// that the text shows how the expression was grouped.
pub open spec fn render(e: ExprView) -> Seq<char>
    decreases e,
{
    match e {
        ExprView::Number(text) => text,
        ExprView::Variable(name) => name,
        ExprView::PrevAnswer => "_"@,
        ExprView::FnCall { name, args } => name + "("@ + render_list(args) + ")"@,
        ExprView::PrefixOp { op, arg } => "("@ + op.symbol_text() + render(*arg) + ")"@,
        ExprView::PostfixOp { op, arg } => "("@ + render(*arg) + op.symbol_text() + ")"@,
        ExprView::InfixOp { op, lhs, rhs } => "("@ + render(*lhs) + " "@ + op.symbol_text() + " "@
            + render(*rhs) + ")"@,
    }
}

/// The renderings of `items`, separated by a comma and a space.
pub open spec fn render_list(items: Seq<ExprView>) -> Seq<char>
    decreases items,
{
    if items.len() == 0 {
        Seq::empty()
    } else if items.len() == 1 {
        render(items[0])
    } else {
        render_list(items.drop_last()) + ", "@ + render(items.last())
    }
}

/// `names`, separated by a comma and a space.
pub open spec fn join_names(names: Seq<Seq<char>>) -> Seq<char>
    decreases names.len(),
{
    if names.len() == 0 {
        Seq::empty()
    } else if names.len() == 1 {
        names[0]
    } else {
        join_names(names.drop_last()) + ", "@ + names.last()
    }
}

/// The rendering of a statement: an expression as [`render`] gives it, a
/// definition as it would be typed.
pub open spec fn render_stmt(s: StmtView) -> Seq<char> {
    match s {
        StmtView::Expr(body) => render(body),
        StmtView::DefVar { name, expr } => "let "@ + name + " = "@ + render(expr),
        StmtView::DefFun { name, arg_names, body } => "let "@ + name + "("@ + join_names(arg_names)
            + ") = "@ + render(body),
    }
}

impl Expr {
    /// Appends the rendering of `self` to `out`.
    fn write_to(&self, out: &mut String)
        ensures
            final(out)@ == old(out)@ + render(self@),
        decreases self,
    {
        match self {
            Expr::Number(text) => {
                out.append(text.as_str());
            },
            Expr::Variable(name) => {
                out.append(name.as_str());
            },
            Expr::PrevAnswer => {
                out.append("_");
            },
            Expr::FnCall { name, args } => {
                out.append(name.as_str());
                out.append("(");
                let ghost base = out@;
                let ghost items = self@->FnCall_args;
                let mut i: usize = 0;
                while i < args.len()
                    invariant
                        0 <= i <= args.len(),
                        items.len() == args.len(),
                        forall|k: int| 0 <= k < args.len() ==> items[k] == (#[trigger] args[k]).model(),
                        forall|k: int| 0 <= k < args.len() ==> decreases_to!(self => #[trigger] args[k]),
                        out@ == base + render_list(items.take(i as int)),
                    decreases args.len() - i,
                {
                    if i > 0 {
                        out.append(", ");
                    }
                    let ghost before = out@;
                    args[i].write_to(out);
                    proof {
                        let done = items.take(i as int);
                        let next = items.take(i + 1);
                        assert(next.drop_last() =~= done);
                        assert(next.last() == args[i as int].model());
                        if i == 0 {
                            assert(done =~= Seq::empty());
                            assert(out@ =~= base + render_list(next));
                        } else {
                            assert(out@ =~= base + render_list(next));
                        }
                    }
                    i += 1;
                }
                out.append(")");
                proof {
                    assert(items.take(args.len() as int) =~= items);
                    assert(out@ =~= old(out)@ + render(self@));
                }
            },
            Expr::PrefixOp { op, arg } => {
                out.append("(");
                out.append(op.symbol());
                arg.write_to(out);
                out.append(")");
                assert(out@ =~= old(out)@ + render(self@));
            },
            Expr::PostfixOp { op, arg } => {
                out.append("(");
                arg.write_to(out);
                out.append(op.symbol());
                out.append(")");
                assert(out@ =~= old(out)@ + render(self@));
            },
            Expr::InfixOp { op, lhs, rhs } => {
                out.append("(");
                lhs.write_to(out);
                out.append(" ");
                out.append(op.symbol());
                out.append(" ");
                rhs.write_to(out);
                out.append(")");
                assert(out@ =~= old(out)@ + render(self@));
            },
        }
    }

    /// The expression in infix form.
    pub fn to_text(&self) -> (s: String)
        ensures
            s@ == render(self@),
    {
        let mut out = String::new();
        self.write_to(&mut out);
        assert(out@ =~= render(self@));
        out
    }
}

impl Stmt {
    /// The statement as text.
    pub fn to_text(&self) -> (s: String)
        ensures
            s@ == render_stmt(self@),
    {
        let mut out = String::new();
        match self {
            Stmt::Expr(body) => {
                body.write_to(&mut out);
            },
            Stmt::DefVar { name, expr } => {
                out.append("let ");
                out.append(name.as_str());
                out.append(" = ");
                expr.write_to(&mut out);
            },
            Stmt::DefFun { name, arg_names, body } => {
                out.append("let ");
                out.append(name.as_str());
                out.append("(");
                let ghost base = out@;
                let ghost names = names_view(arg_names@);
                let mut i: usize = 0;
                while i < arg_names.len()
                    invariant
                        0 <= i <= arg_names.len(),
                        names == names_view(arg_names@),
                        out@ == base + join_names(names.take(i as int)),
                    decreases arg_names.len() - i,
                {
                    if i > 0 {
                        out.append(", ");
                    }
                    out.append(arg_names[i].as_str());
                    proof {
                        let done = names.take(i as int);
                        let next = names.take(i + 1);
                        assert(next.drop_last() =~= done);
                        assert(next.last() == arg_names[i as int]@);
                        if i == 0 {
                            assert(done =~= Seq::empty());
                        }
                        assert(out@ =~= base + join_names(next));
                    }
                    i += 1;
                }
                out.append(") = ");
                body.write_to(&mut out);
                assert(names.take(arg_names.len() as int) =~= names);
            },
        }
        assert(out@ =~= render_stmt(self@));
        out
    }
}

} // verus!
