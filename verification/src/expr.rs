//! Expressions of the language, as the parser builds them.

use crate::number::Number;
use crate::text::copy_string;
use crate::token::{Token, TokenView};
use vstd::prelude::*;

verus! {

/// An operator between two operands.
#[derive(Debug, PartialEq)]
pub struct Binary {
    pub left: Box<Expr>,
    pub operator: Token,
    pub right: Box<Expr>,
}

/// A variable that is read. `stack_idx` is the slot that the resolver found for
/// it, if it found one.
#[derive(Debug, PartialEq)]
pub struct Variable {
    pub name: String,
    pub line: u32,
    pub stack_idx: Option<usize>,
}

/// A variable that is written. `stack_idx` is the slot that the resolver found
/// for it, if it found one.
#[derive(Debug, PartialEq)]
pub struct Assignment {
    pub target: String,
    pub line: u32,
    pub expr: Box<Expr>,
    pub stack_idx: Option<usize>,
}

/// A call: what is called, the line of its opening parenthesis, the arguments.
#[derive(Debug, PartialEq)]
pub struct Call {
    pub callee: Box<Expr>,
    pub line: u32,
    pub arguments: Vec<Box<Expr>>,
}

/// An expression.
#[derive(Debug, PartialEq)]
pub enum Expr {
    Bool(bool),
    Str(String),
    Number(Number),
    Binary(Binary),
    Grouping(Box<Expr>),
    LogicalNot(Box<Expr>),
    UnaryNegate(Box<Expr>),
    Variable(Variable),
    Assignment(Assignment),
    Call(Call),
    Nil,
}

/// An expression as a mathematical value.
pub enum ExprView {
    Bool(bool),
    Str(Seq<char>),
    Number(Number),
    Binary { left: Box<ExprView>, operator: TokenView, right: Box<ExprView> },
    Grouping(Box<ExprView>),
    LogicalNot(Box<ExprView>),
    UnaryNegate(Box<ExprView>),
    Variable { name: Seq<char>, line: u32, slot: Option<usize> },
    Assignment { target: Seq<char>, line: u32, value: Box<ExprView>, slot: Option<usize> },
    Call { callee: Box<ExprView>, line: u32, arguments: Seq<ExprView> },
    Nil,
}

/// The view of an expression.
pub open spec fn expr_view(e: Expr) -> ExprView
    decreases e, 0nat,
{
    match e {
        Expr::Bool(b) => ExprView::Bool(b),
        Expr::Str(s) => ExprView::Str(s@),
        Expr::Number(n) => ExprView::Number(n),
        Expr::Binary(b) => ExprView::Binary {
            left: Box::new(expr_view(*b.left)),
            operator: b.operator@,
            right: Box::new(expr_view(*b.right)),
        },
        Expr::Grouping(inner) => ExprView::Grouping(Box::new(expr_view(*inner))),
        Expr::LogicalNot(inner) => ExprView::LogicalNot(Box::new(expr_view(*inner))),
        Expr::UnaryNegate(inner) => ExprView::UnaryNegate(Box::new(expr_view(*inner))),
        Expr::Variable(v) => ExprView::Variable { name: v.name@, line: v.line, slot: v.stack_idx },
        Expr::Assignment(a) => ExprView::Assignment {
            target: a.target@,
            line: a.line,
            value: Box::new(expr_view(*a.expr)),
            slot: a.stack_idx,
        },
        Expr::Call(c) => ExprView::Call {
            callee: Box::new(expr_view(*c.callee)),
            line: c.line,
            arguments: boxed_exprs_view(c.arguments@),
        },
        Expr::Nil => ExprView::Nil,
    }
}

/// The views of a sequence of boxed expressions.
pub open spec fn boxed_exprs_view(s: Seq<Box<Expr>>) -> Seq<ExprView>
    decreases s, s.len(),
{
    if s.len() == 0 {
        Seq::empty()
    } else {
        boxed_exprs_view(s.drop_last()).push(expr_view(*s.last()))
    }
}

/// The views of a sequence of expressions.
pub open spec fn exprs_view(s: Seq<Expr>) -> Seq<ExprView>
    decreases s.len(),
{
    if s.len() == 0 {
        Seq::empty()
    } else {
        exprs_view(s.drop_last()).push(expr_view(s.last()))
    }
}

impl View for Expr {
    type V = ExprView;

    open spec fn view(&self) -> ExprView {
        expr_view(*self)
    }
}

/// The view of a sequence with one more expression at its end.
pub proof fn lemma_boxed_exprs_push(s: Seq<Box<Expr>>, e: Box<Expr>)
    ensures
        boxed_exprs_view(s.push(e)) == boxed_exprs_view(s).push(expr_view(*e)),
{
    assert(s.push(e).drop_last() =~= s);
}

/// The view of a sequence with one more expression at its end.
pub proof fn lemma_exprs_push(s: Seq<Expr>, e: Expr)
    ensures
        exprs_view(s.push(e)) == exprs_view(s).push(expr_view(e)),
{
    assert(s.push(e).drop_last() =~= s);
}

/// The views are as many as the expressions, and each is the view of its
/// expression.
pub proof fn lemma_boxed_exprs_index(s: Seq<Box<Expr>>)
    ensures
        boxed_exprs_view(s).len() == s.len(),
        forall|i: int| 0 <= i < s.len() ==> #[trigger] boxed_exprs_view(s)[i] == expr_view(*s[i]),
    decreases s.len(),
{
    if s.len() > 0 {
        lemma_boxed_exprs_index(s.drop_last());
    }
}

/// The views are as many as the expressions, and each is the view of its
/// expression.
pub proof fn lemma_exprs_index(s: Seq<Expr>)
    ensures
        exprs_view(s).len() == s.len(),
        forall|i: int| 0 <= i < s.len() ==> #[trigger] exprs_view(s)[i] == expr_view(s[i]),
    decreases s.len(),
{
    if s.len() > 0 {
        lemma_exprs_index(s.drop_last());
    }
}

/// The expression `left operator right`.
pub fn new_binary(left: Expr, operator: Token, right: Expr) -> (e: Expr)
    ensures
        e@ == (ExprView::Binary {
            left: Box::new(left@),
            operator: operator@,
            right: Box::new(right@),
        }),
{
    Expr::Binary(Binary { left: Box::new(left), operator, right: Box::new(right) })
}

/// The expression `( expr )`.
pub fn new_grouping(expr: Expr) -> (e: Expr)
    ensures
        e@ == ExprView::Grouping(Box::new(expr@)),
{
    Expr::Grouping(Box::new(expr))
}

/// The expression `! expr`.
pub fn new_logical_not(expr: Expr) -> (e: Expr)
    ensures
        e@ == ExprView::LogicalNot(Box::new(expr@)),
{
    Expr::LogicalNot(Box::new(expr))
}

/// The expression `- expr`.
pub fn new_unary_negate(expr: Expr) -> (e: Expr)
    ensures
        e@ == ExprView::UnaryNegate(Box::new(expr@)),
{
    Expr::UnaryNegate(Box::new(expr))
}

/// A read of the variable `name`, not yet resolved.
pub fn new_variable(name: &str, line: u32) -> (e: Expr)
    ensures
        e@ == (ExprView::Variable { name: name@, line, slot: None }),
{
    Expr::Variable(Variable { name: copy_string(name), line, stack_idx: None })
}

/// An assignment of `expr` to the variable `target`, not yet resolved.
pub fn new_assignment(target: &str, line: u32, expr: Expr) -> (e: Expr)
    ensures
        e@ == (ExprView::Assignment {
            target: target@,
            line,
            value: Box::new(expr@),
            slot: None,
        }),
{
    Expr::Assignment(
        Assignment { target: copy_string(target), line, expr: Box::new(expr), stack_idx: None },
    )
}

/// A call of `callee` with `arguments`.
pub fn new_call(callee: Expr, line: u32, arguments: Vec<Box<Expr>>) -> (e: Expr)
    ensures
        e@ == (ExprView::Call {
            callee: Box::new(callee@),
            line,
            arguments: boxed_exprs_view(arguments@),
        }),
{
    Expr::Call(Call { callee: Box::new(callee), line, arguments })
}

} // verus!
