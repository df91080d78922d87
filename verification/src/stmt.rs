//! Statements of the language, as the parser builds them.

use crate::expr::{expr_view, exprs_view, Expr, ExprView};
use crate::text::{copy_string, strings_view};
use std::rc::Rc;
use vstd::prelude::*;

verus! {

/// `{ statements }`.
#[derive(Debug, PartialEq)]
pub struct Block {
    pub statements: Vec<Stmt>,
}

/// `if (condition) true_branch else else_branch`.
#[derive(Debug, PartialEq)]
pub struct If {
    pub condition: Expr,
    pub true_branch: Box<Stmt>,
    pub else_branch: Option<Box<Stmt>>,
}

/// `print exprs;`.
#[derive(Debug, PartialEq)]
pub struct Print {
    pub exprs: Vec<Expr>,
}

/// `var name = initializer;`.
#[derive(Debug, PartialEq)]
pub struct Var {
    pub name: String,
    pub line: u32,
    pub initializer: Expr,
}

/// `while (condition) body`.
#[derive(Debug, PartialEq)]
pub struct While {
    pub condition: Expr,
    pub body: Box<Stmt>,
}

/// `for (initializer; condition; loop_eval) body`, as it is written: the parser
/// turns it into a block and a `while`.
#[derive(Debug, PartialEq)]
pub struct For {
    pub initializer: Option<Box<Stmt>>,
    pub condition: Option<Expr>,
    pub loop_eval: Option<Expr>,
    pub body: Box<Stmt>,
}

/// `fun name(parameters) { statements }`.
#[derive(Debug, PartialEq)]
pub struct Function {
    pub name: String,
    pub parameters: Vec<String>,
    pub statements: Vec<Stmt>,
    pub line: u32,
}

/// A statement. A function declaration is shared by the closures made from it.
#[derive(Debug, PartialEq)]
pub enum Stmt {
    Expr(Expr),
    Print(Print),
    If(If),
    Block(Block),
    Var(Var),
    While(While),
    Function(Rc<Function>),
    Return(Expr),
}

/// A function declaration as a mathematical value.
pub struct FunctionView {
    pub name: Seq<char>,
    pub parameters: Seq<Seq<char>>,
    pub statements: Seq<StmtView>,
    pub line: u32,
}

/// A statement as a mathematical value.
pub enum StmtView {
    Expr(ExprView),
    Print(Seq<ExprView>),
    If { condition: ExprView, true_branch: Box<StmtView>, else_branch: Option<Box<StmtView>> },
    Block(Seq<StmtView>),
    Var { name: Seq<char>, line: u32, initializer: ExprView },
    While { condition: ExprView, body: Box<StmtView> },
    Function(FunctionView),
    Return(ExprView),
}

/// A `for` statement as a mathematical value.
pub struct ForView {
    pub initializer: Option<StmtView>,
    pub condition: Option<ExprView>,
    pub loop_eval: Option<ExprView>,
    pub body: StmtView,
}

/// The view of a statement.
pub open spec fn stmt_view(s: Stmt) -> StmtView
    decreases s, 0nat,
{
    match s {
        Stmt::Expr(e) => StmtView::Expr(expr_view(e)),
        Stmt::Print(p) => StmtView::Print(exprs_view(p.exprs@)),
        Stmt::If(i) => StmtView::If {
            condition: expr_view(i.condition),
            true_branch: Box::new(stmt_view(*i.true_branch)),
            else_branch: match i.else_branch {
                Some(branch) => Some(Box::new(stmt_view(*branch))),
                None => None,
            },
        },
        Stmt::Block(b) => StmtView::Block(stmts_view(b.statements@)),
        Stmt::Var(v) => StmtView::Var {
            name: v.name@,
            line: v.line,
            initializer: expr_view(v.initializer),
        },
        Stmt::While(w) => StmtView::While {
            condition: expr_view(w.condition),
            body: Box::new(stmt_view(*w.body)),
        },
        Stmt::Function(f) => StmtView::Function(
            FunctionView {
                name: f.name@,
                parameters: strings_view(f.parameters@),
                statements: stmts_view(f.statements@),
                line: f.line,
            },
        ),
        Stmt::Return(e) => StmtView::Return(expr_view(e)),
    }
}

/// The views of a sequence of statements.
pub open spec fn stmts_view(s: Seq<Stmt>) -> Seq<StmtView>
    decreases s, s.len(),
{
    if s.len() == 0 {
        Seq::empty()
    } else {
        stmts_view(s.drop_last()).push(stmt_view(s.last()))
    }
}

impl View for Stmt {
    type V = StmtView;

    open spec fn view(&self) -> StmtView {
        stmt_view(*self)
    }
}

impl View for Function {
    type V = FunctionView;

    open spec fn view(&self) -> FunctionView {
        FunctionView {
            name: self.name@,
            parameters: strings_view(self.parameters@),
            statements: stmts_view(self.statements@),
            line: self.line,
        }
    }
}

impl View for For {
    type V = ForView;

    open spec fn view(&self) -> ForView {
        ForView {
            initializer: match self.initializer {
                Some(s) => Some(stmt_view(*s)),
                None => None,
            },
            condition: match self.condition {
                Some(e) => Some(expr_view(e)),
                None => None,
            },
            loop_eval: match self.loop_eval {
                Some(e) => Some(expr_view(e)),
                None => None,
            },
            body: stmt_view(*self.body),
        }
    }
}

/// What a `for` statement stands for: its body, with the step after it if
/// there is one, repeated while the condition holds (always, if there is
/// none), after the initializer if there is one.
pub open spec fn desugar_spec(f: ForView) -> StmtView {
    let body = match f.loop_eval {
        Some(step) => StmtView::Block(seq![f.body, StmtView::Expr(step)]),
        None => f.body,
    };
    let condition = match f.condition {
        Some(c) => c,
        None => ExprView::Bool(true),
    };
    let repeated = StmtView::While { condition, body: Box::new(body) };
    match f.initializer {
        Some(first) => StmtView::Block(seq![first, repeated]),
        None => repeated,
    }
}

/// The view of a sequence with one more statement at its end.
pub proof fn lemma_stmts_push(s: Seq<Stmt>, x: Stmt)
    ensures
        stmts_view(s.push(x)) == stmts_view(s).push(stmt_view(x)),
{
    assert(s.push(x).drop_last() =~= s);
}

/// The views are as many as the statements, and each is the view of its
/// statement.
pub proof fn lemma_stmts_index(s: Seq<Stmt>)
    ensures
        stmts_view(s).len() == s.len(),
        forall|i: int| 0 <= i < s.len() ==> #[trigger] stmts_view(s)[i] == stmt_view(s[i]),
    decreases s.len(),
{
    if s.len() > 0 {
        lemma_stmts_index(s.drop_last());
    }
}

impl For {
    /// The statement that the `for` statement stands for.
    pub fn desugar(self) -> (s: Stmt)
        ensures
            s@ == desugar_spec(self@),
    {
        let For { initializer, condition, loop_eval, body } = self;
        let mut body: Stmt = *body;
        match loop_eval {
            Some(step) => {
                let mut inner: Vec<Stmt> = Vec::new();
                let step_stmt = new_expr(step);
                proof {
                    lemma_stmts_push(inner@, body);
                    lemma_stmts_push(inner@.push(body), step_stmt);
                }
                inner.push(body);
                inner.push(step_stmt);
                assert(stmts_view(inner@) =~= seq![self@.body, StmtView::Expr(self@.loop_eval->0)]);
                body = new_block(inner);
            },
            None => {},
        }
        let condition = match condition {
            Some(c) => c,
            None => Expr::Bool(true),
        };
        let repeated = new_while(condition, body);
        match initializer {
            Some(first) => {
                let mut outer: Vec<Stmt> = Vec::new();
                let first: Stmt = *first;
                proof {
                    lemma_stmts_push(outer@, first);
                    lemma_stmts_push(outer@.push(first), repeated);
                }
                outer.push(first);
                outer.push(repeated);
                assert(stmts_view(outer@) =~= seq![first@, repeated@]);
                new_block(outer)
            },
            None => repeated,
        }
    }
}

impl Function {
    /// The number of parameters, reduced modulo 2^32.
    pub fn arity(&self) -> (n: u32)
        ensures
            n as int == self@.parameters.len() % 0x1_0000_0000,
    {
        let n: u64 = self.parameters.len() as u64;
        (n % 0x1_0000_0000) as u32
    }
}

/// The statement `expr;`.
pub fn new_expr(expr: Expr) -> (s: Stmt)
    ensures
        s@ == StmtView::Expr(expr@),
{
    Stmt::Expr(expr)
}

/// The statement `print exprs;`.
pub fn new_print(exprs: Vec<Expr>) -> (s: Stmt)
    ensures
        s@ == StmtView::Print(exprs_view(exprs@)),
{
    Stmt::Print(Print { exprs })
}

/// The statement `if (condition) true_branch`, with `else else_branch` if there
/// is one.
pub fn new_if(condition: Expr, true_branch: Stmt, else_branch: Option<Stmt>) -> (s: Stmt)
    ensures
        s@ == (StmtView::If {
            condition: condition@,
            true_branch: Box::new(true_branch@),
            else_branch: match else_branch {
                Some(branch) => Some(Box::new(branch@)),
                None => None,
            },
        }),
{
    let boxed = match else_branch {
        Some(branch) => Some(Box::new(branch)),
        None => None,
    };
    Stmt::If(If { condition, true_branch: Box::new(true_branch), else_branch: boxed })
}

/// The statement `{ statements }`.
pub fn new_block(statements: Vec<Stmt>) -> (s: Stmt)
    ensures
        s@ == StmtView::Block(stmts_view(statements@)),
{
    Stmt::Block(Block { statements })
}

/// The statement `var name = initializer;`.
pub fn new_var(name: &str, line: u32, initializer: Expr) -> (s: Stmt)
    ensures
        s@ == (StmtView::Var { name: name@, line, initializer: initializer@ }),
{
    Stmt::Var(Var { name: copy_string(name), line, initializer })
}

/// The statement `while (condition) body`.
pub fn new_while(condition: Expr, body: Stmt) -> (s: Stmt)
    ensures
        s@ == (StmtView::While { condition: condition@, body: Box::new(body@) }),
{
    Stmt::While(While { condition, body: Box::new(body) })
}

/// The declaration `fun name(parameters) { statements }`.
pub fn new_function(name: String, parameters: Vec<String>, statements: Vec<Stmt>, line: u32) -> (s:
    Stmt)
    ensures
        s@ == StmtView::Function(
            FunctionView {
                name: name@,
                parameters: strings_view(parameters@),
                statements: stmts_view(statements@),
                line,
            },
        ),
{
    Stmt::Function(Rc::new(Function { name, parameters, statements, line }))
}

/// The statement `return expr;`.
pub fn new_return(expr: Expr) -> (s: Stmt)
    ensures
        s@ == StmtView::Return(expr@),
{
    Stmt::Return(expr)
}

} // verus!
