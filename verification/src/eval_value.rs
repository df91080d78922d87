//! Values of the language at run time.

use crate::environment::{Environment, EnvironmentView};
use crate::number::{magnitude, Number};
use crate::stmt::{Function, FunctionView};
use crate::text::{append, copy_string};
use std::rc::Rc;
use vstd::prelude::*;

verus! {

/// `Rc::clone` from the standard library: another pointer to the same value.
#[verifier::external_body]
pub(crate) fn share<T>(rc: &Rc<T>) -> (r: Rc<T>)
    ensures
        *r == **rc,
{
    rc.clone()
}

/// A callable value: a function declaration and the environment in which it
/// was declared, if that was inside a function or a block.
#[derive(Debug)]
pub struct LoxFunction {
    pub declaration: Rc<Function>,
    pub closure: Option<Environment>,
}

/// A value.
#[derive(Debug)]
pub enum EvalValue {
    Number(Number),
    Str(Rc<String>),
    Bool(bool),
    Function(Rc<LoxFunction>),
    Nil,
}

/// A callable value as a mathematical value.
pub struct LoxFunctionView {
    pub declaration: FunctionView,
    pub closure: Option<EnvironmentView>,
}

/// A value as a mathematical value.
pub enum EvalValueView {
    Number(Number),
    Str(Seq<char>),
    Bool(bool),
    Function(LoxFunctionView),
    Nil,
}

impl View for LoxFunction {
    type V = LoxFunctionView;

    open spec fn view(&self) -> LoxFunctionView {
        LoxFunctionView {
            declaration: self.declaration@,
            closure: match self.closure {
                Some(e) => Some(e@),
                None => None,
            },
        }
    }
}

impl View for EvalValue {
    type V = EvalValueView;

    open spec fn view(&self) -> EvalValueView {
        match self {
            EvalValue::Number(n) => EvalValueView::Number(*n),
            EvalValue::Str(s) => EvalValueView::Str(s@),
            EvalValue::Bool(b) => EvalValueView::Bool(*b),
            EvalValue::Function(f) => EvalValueView::Function(f@),
            EvalValue::Nil => EvalValueView::Nil,
        }
    }
}

/// What a value is written as: a text, or a number whose digits are left to
/// the one who writes it out.
#[derive(Debug, PartialEq)]
pub enum Output {
    Text(String),
    Number(Number),
}

/// An output as a mathematical value.
pub enum OutputView {
    Text(Seq<char>),
    Number(Number),
}

impl View for Output {
    type V = OutputView;

    open spec fn view(&self) -> OutputView {
        match self {
            Output::Text(s) => OutputView::Text(s@),
            Output::Number(n) => OutputView::Number(*n),
        }
    }
}

/// Whether a value counts as true: every number but the zeros, every string
/// but the empty one, `true`, and every function.
pub open spec fn truthy(v: EvalValueView) -> bool {
    match v {
        EvalValueView::Number(n) => magnitude(n.bits) != 0,
        EvalValueView::Str(s) => s.len() != 0,
        EvalValueView::Bool(b) => b,
        EvalValueView::Function(_) => true,
        EvalValueView::Nil => false,
    }
}

/// How a value is written: a string as it is, `true`, `false`, `nil`, a
/// function as a tag with its name, a number as itself.
pub open spec fn render_spec(v: EvalValueView) -> OutputView {
    match v {
        EvalValueView::Number(n) => OutputView::Number(n),
        EvalValueView::Str(s) => OutputView::Text(s),
        EvalValueView::Bool(b) => OutputView::Text(
            if b {
                "true"@
            } else {
                "false"@
            },
        ),
        EvalValueView::Function(f) => OutputView::Text(
            "Lox function <"@ + f.declaration.name + ">"@,
        ),
        EvalValueView::Nil => OutputView::Text("nil"@),
    }
}

impl EvalValue {
    /// A copy of the value; strings and functions are shared, not copied.
    pub fn duplicate(&self) -> (r: EvalValue)
        ensures
            r@ == self@,
    {
        match self {
            EvalValue::Number(n) => EvalValue::Number(*n),
            EvalValue::Str(s) => EvalValue::Str(share(s)),
            EvalValue::Bool(b) => EvalValue::Bool(*b),
            EvalValue::Function(f) => EvalValue::Function(share(f)),
            EvalValue::Nil => EvalValue::Nil,
        }
    }

    /// Whether the value counts as true.
    pub fn is_truthy(&self) -> (r: bool)
        ensures
            r == truthy(self@),
    {
        match self {
            EvalValue::Number(n) => !n.is_zero(),
            EvalValue::Str(s) => s.as_str().unicode_len() != 0,
            EvalValue::Bool(b) => *b,
            EvalValue::Function(_) => true,
            EvalValue::Nil => false,
        }
    }

    /// How the value is written.
    pub fn render(&self) -> (r: Output)
        ensures
            r@ == render_spec(self@),
    {
        match self {
            EvalValue::Number(n) => Output::Number(*n),
            EvalValue::Str(s) => Output::Text(copy_string(s.as_str())),
            EvalValue::Bool(b) => Output::Text(
                if *b {
                    copy_string("true")
                } else {
                    copy_string("false")
                },
            ),
            EvalValue::Function(f) => {
                let mut s = String::new();
                append(&mut s, "Lox function <");
                append(&mut s, f.declaration.name.as_str());
                append(&mut s, ">");
                assert(s@ =~= "Lox function <"@ + f@.declaration.name + ">"@);
                Output::Text(s)
            },
            EvalValue::Nil => Output::Text(copy_string("nil")),
        }
    }
}

} // verus!
