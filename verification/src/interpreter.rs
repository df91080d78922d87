//! The evaluator: runs statements and evaluates expressions in a world of
//! environments and cells, as [`crate::semantics`] says.

use crate::environment::{Environment, Store};
use crate::eval_value::{share, EvalValue, EvalValueView, LoxFunction, Output, OutputView};
use crate::expr::{
    boxed_exprs_view, exprs_view, lemma_boxed_exprs_index, lemma_exprs_index, Assignment, Binary,
    Call, Expr, Variable,
};
use crate::semantics::{
    arity_message, bind_parameters_spec, binary_value_spec, call_function_spec,
    declare_global_spec, declare_spec, enter_block_spec, enter_call_spec, eval_arguments_spec,
    eval_assignment_spec, eval_binary_spec, eval_call_spec, eval_expr_spec, exec_block_spec,
    exec_if_spec, exec_stmt_spec, exec_stmts_spec, exec_while_spec, leave_block_spec,
    not_callable_message, plus_used, print_items_spec, read_global_spec, read_variable_spec,
    target_cell_spec, undefined_message, value_ok, values_ok, Evaluated, World,
};
use crate::stmt::{
    lemma_stmts_index, stmts_view, Block, Function, If, Print, Stmt, StmtView, Var, While,
};
use crate::text::{append, append_decimal, copy_string};
use crate::token::TokenType;
use std::rc::Rc;
use vstd::prelude::*;

verus! {

/// The evaluator's state: the global environment, the environment of the
/// function or block that runs, if one does, the cells that they share, what
/// `print` has written, and the steps that are left.
pub struct InterpreterContext {
    global_environment: Environment,
    local_environment: Option<Environment>,
    store: Store,
    output: Vec<Output>,
    budget: u64,
}

/// The views of a sequence of outputs.
pub open spec fn outputs_view(outputs: Seq<Output>) -> Seq<OutputView> {
    outputs.map_values(|o: Output| o@)
}

/// The view of a value that may be missing.
pub open spec fn option_value_view(v: Option<EvalValue>) -> Option<EvalValueView> {
    match v {
        Some(v) => Some(v@),
        None => None,
    }
}

/// The views of a sequence of values.
pub open spec fn arguments_view(values: Seq<EvalValue>) -> Seq<EvalValueView> {
    values.map_values(|v: EvalValue| v@)
}

impl View for InterpreterContext {
    type V = World;

    closed spec fn view(&self) -> World {
        World {
            globals: self.global_environment@,
            locals: match self.local_environment {
                Some(env) => Some(env@),
                None => None,
            },
            store: self.store@,
            output: outputs_view(self.output@),
        }
    }
}

/// Whether the evaluator went from `before` to `after` as `spec` says, with
/// the value or the error `r`.
pub open spec fn value_outcome(
    r: Result<EvalValue, String>,
    spec: Evaluated<EvalValueView>,
    before: InterpreterContext,
    after: InterpreterContext,
) -> bool {
    &&& after@ == spec.world
    &&& spec.used <= before.steps()
    &&& after.steps() == before.steps() - spec.used
    &&& before@.store.len() <= after@.store.len()
    &&& match r {
        Ok(v) => spec.result == Ok::<EvalValueView, Seq<char>>(v@) && value_ok(v@, after@.store),
        Err(m) => spec.result == Err::<EvalValueView, Seq<char>>(m@),
    }
}

/// Whether the evaluator went from `before` to `after` as `spec` says, with
/// the returned value, if any, or the error `r`.
pub open spec fn stmt_outcome(
    r: Result<Option<EvalValue>, String>,
    spec: Evaluated<Option<EvalValueView>>,
    before: InterpreterContext,
    after: InterpreterContext,
) -> bool {
    &&& after@ == spec.world
    &&& spec.used <= before.steps()
    &&& after.steps() == before.steps() - spec.used
    &&& before@.store.len() <= after@.store.len()
    &&& match r {
        Ok(v) => {
            &&& spec.result == Ok::<Option<EvalValueView>, Seq<char>>(option_value_view(v))
            &&& v is Some ==> value_ok(v->0@, after@.store)
        },
        Err(m) => spec.result == Err::<Option<EvalValueView>, Seq<char>>(m@),
    }
}

/// A value that can live in a store can live in every larger one.
pub proof fn lemma_value_ok_grows(
    v: EvalValueView,
    store: Seq<EvalValueView>,
    larger: Seq<EvalValueView>,
)
    requires
        value_ok(v, store),
        store.len() <= larger.len(),
    ensures
        value_ok(v, larger),
{
}

/// The values of a store can live in the store with one more value that can.
pub proof fn lemma_store_push(store: Seq<EvalValueView>, v: EvalValueView)
    requires
        values_ok(store, store),
        value_ok(v, store),
    ensures
        values_ok(store.push(v), store.push(v)),
{
    let larger = store.push(v);
    assert forall|i: int| 0 <= i < larger.len() implies value_ok(#[trigger] larger[i], larger) by {
        if i < store.len() {
            lemma_value_ok_grows(store[i], store, larger);
        } else {
            lemma_value_ok_grows(v, store, larger);
        }
    }
}

/// The values of a store can live in the store with one value replaced by
/// another that can.
pub proof fn lemma_store_update(store: Seq<EvalValueView>, cell: int, v: EvalValueView)
    requires
        values_ok(store, store),
        value_ok(v, store),
        0 <= cell < store.len(),
    ensures
        values_ok(store.update(cell, v), store.update(cell, v)),
{
    let changed = store.update(cell, v);
    assert forall|i: int| 0 <= i < changed.len() implies value_ok(
        #[trigger] changed[i],
        changed,
    ) by {
        if i == cell {
            lemma_value_ok_grows(v, store, changed);
        } else {
            lemma_value_ok_grows(store[i], store, changed);
        }
    }
}

fn undefined(name: &str, line: u32) -> (s: String)
    ensures
        s@ == undefined_message(name@, line),
{
    let mut s = String::new();
    append(&mut s, "Undefined variable ");
    append(&mut s, name);
    append(&mut s, " at line ");
    append_decimal(&mut s, line as u64);
    assert(s@ =~= undefined_message(name@, line));
    s
}

fn wrong_arity(expected: usize, got: usize, line: u32) -> (s: String)
    ensures
        s@ == arity_message(expected as nat, got as nat, line),
{
    let mut s = String::new();
    append(&mut s, "Function expected ");
    append_decimal(&mut s, expected as u64);
    append(&mut s, " but got ");
    append_decimal(&mut s, got as u64);
    append(&mut s, ", at line ");
    append_decimal(&mut s, line as u64);
    assert(s@ =~= arity_message(expected as nat, got as nat, line));
    s
}

fn not_callable(line: u32) -> (s: String)
    ensures
        s@ == not_callable_message(line),
{
    let mut s = String::new();
    append(&mut s, "Not a callable object at line ");
    append_decimal(&mut s, line as u64);
    assert(s@ =~= not_callable_message(line));
    s
}

/// What an operator makes of two values.
pub fn binary_value(operator: &TokenType, left: &EvalValue, right: &EvalValue) -> (r: Result<
    EvalValue,
    String,
>)
    ensures
        match r {
            Ok(v) => binary_value_spec(operator@, left@, right@) == Ok::<
                EvalValueView,
                Seq<char>,
            >(v@),
            Err(m) => binary_value_spec(operator@, left@, right@) == Err::<
                EvalValueView,
                Seq<char>,
            >(m@),
        },
{
    match operator {
        TokenType::Plus => match (left, right) {
            (EvalValue::Number(l), EvalValue::Number(r)) => Ok(EvalValue::Number(l.plus(*r))),
            (EvalValue::Str(l), EvalValue::Str(r)) => {
                let mut s = copy_string(l.as_str());
                append(&mut s, r.as_str());
                Ok(EvalValue::Str(Rc::new(s)))
            },
            _ => Err(copy_string("Must be numbers or string")),
        },
        TokenType::Less | TokenType::LessEqual | TokenType::Greater | TokenType::GreaterEqual
        | TokenType::EqualEqual | TokenType::BangEqual | TokenType::Minus | TokenType::Slash
        | TokenType::Star => match (left, right) {
            (EvalValue::Number(l), EvalValue::Number(r)) => Ok(
                match operator {
                    TokenType::Less => EvalValue::Bool(l.less(*r)),
                    TokenType::LessEqual => EvalValue::Bool(l.less_equal(*r)),
                    TokenType::Greater => EvalValue::Bool(l.greater(*r)),
                    TokenType::GreaterEqual => EvalValue::Bool(l.greater_equal(*r)),
                    TokenType::EqualEqual => EvalValue::Bool(l.same_value(*r)),
                    TokenType::BangEqual => EvalValue::Bool(!l.same_value(*r)),
                    TokenType::Minus => EvalValue::Number(l.minus(*r)),
                    TokenType::Slash => EvalValue::Number(l.divided_by(*r)),
                    _ => EvalValue::Number(l.times(*r)),
                },
            ),
            _ => Err(copy_string("Must be numbers")),
        },
        _ => Err(copy_string("Unsupported binary operator")),
    }
}

impl InterpreterContext {
    /// Whether the state is consistent: see [`World::wf`].
    pub open spec fn wf(&self) -> bool {
        self@.wf()
    }

    /// The steps that are left.
    pub closed spec fn steps(&self) -> u64 {
        self.budget
    }

    /// The steps that are left.
    pub fn budget(&self) -> (n: u64)
        ensures
            n == self.steps(),
    {
        self.budget
    }

    /// Gives the evaluator all its steps again: as many as a `u64` counts.
    pub fn refill_budget(&mut self)
        ensures
            final(self)@ == old(self)@,
            final(self).steps() == u64::MAX,
    {
        self.budget = u64::MAX;
    }

    /// The global environment.
    pub fn global_environment(&self) -> (env: &Environment)
        ensures
            env@ == self@.globals,
    {
        &self.global_environment
    }

    /// The cells.
    pub fn store(&self) -> (store: &Store)
        ensures
            store@ == self@.store,
    {
        &self.store
    }

    /// What was written and not yet taken.
    pub fn output(&self) -> (pieces: &Vec<Output>)
        ensures
            outputs_view(pieces@) == self@.output,
    {
        &self.output
    }

    /// Takes what was written: it is handed out, and nothing is left of it.
    pub fn take_output(&mut self) -> (pieces: Vec<Output>)
        ensures
            outputs_view(pieces@) == old(self)@.output,
            final(self)@ == (World { output: Seq::empty(), ..old(self)@ }),
            final(self).steps() == old(self).steps(),
    {
        let mut pieces: Vec<Output> = Vec::new();
        core::mem::swap(&mut pieces, &mut self.output);
        assert(outputs_view(self.output@) =~= Seq::<OutputView>::empty());
        pieces
    }

    /// An evaluator in which nothing is declared, with as many steps as a
    /// `u64` counts.
    pub fn new() -> (c: InterpreterContext)
        ensures
            c.wf(),
            c@ == World::empty(),
            c.steps() == u64::MAX,
    {
        let c = InterpreterContext {
            global_environment: Environment::new(),
            local_environment: None,
            store: Store::new(),
            output: Vec::new(),
            budget: u64::MAX,
        };
        assert(c@.output =~= Seq::<OutputView>::empty());
        c
    }

    /// Adds `piece` to what was written.
    fn write(&mut self, piece: Output)
        ensures
            final(self)@ == (World { output: old(self)@.output.push(piece@), ..old(self)@ }),
            final(self).steps() == old(self).steps(),
    {
        self.output.push(piece);
        assert(outputs_view(self.output@) =~= outputs_view(old(self).output@).push(piece@));
    }

    /// Declares `name` with `value`: in the local environment if there is one,
    /// else in the global one.
    fn declare(&mut self, name: &str, value: EvalValue)
        requires
            old(self).wf(),
            value_ok(value@, old(self)@.store),
        ensures
            final(self).wf(),
            final(self)@ == declare_spec(old(self)@, name@, value@),
            final(self).steps() == old(self).steps(),
    {
        proof {
            lemma_store_push(self@.store, value@);
        }
        match self.local_environment.take() {
            Some(env) => {
                let mut env = env;
                env.define_var(&mut self.store, name, value);
                self.local_environment = Some(env);
            },
            None => {
                self.global_environment.define_var(&mut self.store, name, value);
            },
        }
    }

    /// Declares `name` with `value` in the global environment.
    fn declare_global(&mut self, name: &str, value: EvalValue)
        requires
            old(self).wf(),
            value_ok(value@, old(self)@.store),
        ensures
            final(self).wf(),
            final(self)@ == declare_global_spec(old(self)@, name@, value@),
            final(self).steps() == old(self).steps(),
    {
        proof {
            lemma_store_push(self@.store, value@);
        }
        self.global_environment.define_var(&mut self.store, name, value);
    }

    /// The value of the global variable `name`.
    fn read_global(&self, name: &str, line: u32) -> (r: Result<EvalValue, String>)
        requires
            self.wf(),
        ensures
            match r {
                Ok(v) => read_global_spec(self@, name@, line) == Ok::<EvalValueView, Seq<char>>(
                    v@,
                ) && value_ok(v@, self@.store),
                Err(m) => read_global_spec(self@, name@, line) == Err::<
                    EvalValueView,
                    Seq<char>,
                >(m@),
            },
    {
        match self.global_environment.get_var_idx(name) {
            Some(i) => Ok(self.global_environment.get_at(&self.store, i)),
            None => Err(undefined(name, line)),
        }
    }

    /// The value of a variable.
    fn visit_variable(&self, variable: &Variable) -> (r: Result<EvalValue, String>)
        requires
            self.wf(),
        ensures
            match r {
                Ok(v) => read_variable_spec(
                    self@,
                    variable.name@,
                    variable.line,
                    variable.stack_idx,
                ) == Ok::<EvalValueView, Seq<char>>(v@) && value_ok(v@, self@.store),
                Err(m) => read_variable_spec(
                    self@,
                    variable.name@,
                    variable.line,
                    variable.stack_idx,
                ) == Err::<EvalValueView, Seq<char>>(m@),
            },
    {
        let name = variable.name.as_str();
        match &self.local_environment {
            Some(env) => {
                match variable.stack_idx {
                    Some(slot) => {
                        if slot < env.len() && env.name_is_at(slot, name) {
                            return Ok(env.get_at(&self.store, slot));
                        }
                    },
                    None => {},
                }
                match env.get_var_idx(name) {
                    Some(i) => Ok(env.get_at(&self.store, i)),
                    None => self.read_global(name, variable.line),
                }
            },
            None => self.read_global(name, variable.line),
        }
    }

    /// The cell that an assignment to `target` writes.
    fn target_cell(&self, target: &str, slot: Option<usize>) -> (r: Option<usize>)
        requires
            self.wf(),
        ensures
            r == target_cell_spec(self@, target@, slot),
            r is Some ==> r->0 < self@.store.len(),
    {
        match &self.local_environment {
            Some(env) => {
                match slot {
                    Some(slot) => {
                        if slot < env.len() && env.name_is_at(slot, target) {
                            return Some(env.cell_at(slot));
                        }
                    },
                    None => {},
                }
                match env.get_var_idx(target) {
                    Some(i) => {
                        return Some(env.cell_at(i));
                    },
                    None => {},
                }
            },
            None => {},
        }
        match self.global_environment.get_var_idx(target) {
            Some(i) => Some(self.global_environment.cell_at(i)),
            None => None,
        }
    }

    /// Takes one step from the budget, if one is left.
    fn step(&mut self) -> (ok: bool)
        requires
            old(self).wf(),
        ensures
            final(self).wf(),
            final(self)@ == old(self)@,
            ok == (old(self).steps() > 0),
            ok ==> final(self).steps() == old(self).steps() - 1,
            !ok ==> final(self).steps() == old(self).steps(),
    {
        if self.budget > 0 {
            self.budget = self.budget - 1;
            true
        } else {
            false
        }
    }

    /// Runs the statements of a program, one after the other.
    pub fn interpret(&mut self, stmts: &[Stmt]) -> (r: Result<Option<EvalValue>, String>)
        requires
            old(self).wf(),
        ensures
            final(self).wf(),
            stmt_outcome(
                r,
                exec_stmts_spec(stmts_view(stmts@), 0, old(self)@, old(self).steps() as nat),
                *old(self),
                *final(self),
            ),
    {
        self.execute_many(stmts)
    }

    /// Runs one statement. The value, if there is one, is what a `return`
    /// inside the statement returns.
    #[verifier::rlimit(30)]
    pub fn execute(&mut self, stmt: &Stmt) -> (r: Result<Option<EvalValue>, String>)
        requires
            old(self).wf(),
        ensures
            final(self).wf(),
            stmt_outcome(
                r,
                exec_stmt_spec(stmt@, old(self)@, old(self).steps() as nat),
                *old(self),
                *final(self),
            ),
        decreases old(self).steps(), 2nat, stmt, 1nat,
    {
        reveal(exec_stmt_spec);
        reveal(exec_if_spec);
        reveal(exec_block_spec);
        reveal(exec_while_spec);
        reveal(eval_expr_spec);
        reveal(print_items_spec);
        match stmt {
            Stmt::Expr(e) => self.visit_expr(e),
            Stmt::Print(p) => self.visit_print(p),
            Stmt::If(i) => self.visit_if(i),
            Stmt::Block(b) => self.visit_block(b),
            Stmt::Var(v) => self.visit_var(v),
            Stmt::While(w) => self.visit_while(w),
            Stmt::Function(f) => self.visit_function(f),
            Stmt::Return(e) => self.visit_return(e),
        }
    }

    /// Runs the statements, one after the other, up to the first that returns
    /// or fails.
    #[verifier::rlimit(30)]
    #[verifier::loop_isolation(false)]
    pub fn execute_many(&mut self, stmts: &[Stmt]) -> (r: Result<Option<EvalValue>, String>)
        requires
            old(self).wf(),
        ensures
            final(self).wf(),
            stmt_outcome(
                r,
                exec_stmts_spec(stmts_view(stmts@), 0, old(self)@, old(self).steps() as nat),
                *old(self),
                *final(self),
            ),
        decreases old(self).steps(), 2nat, stmts@, 0nat,
    {
        reveal(exec_stmts_spec);
        reveal(exec_stmt_spec);
        let ghost ss = stmts_view(stmts@);
        let ghost whole = exec_stmts_spec(ss, 0, old(self)@, old(self).steps() as nat);
        proof {
            lemma_stmts_index(stmts@);
        }
        let mut i: usize = 0;
        while i < stmts.len()
            invariant
                i <= stmts@.len(),
                ss == stmts_view(stmts@),
                ss.len() == stmts@.len(),
                self.wf(),
                self.budget <= old(self).budget,
                old(self)@.store.len() <= self@.store.len(),
                whole == plus_used(
                    exec_stmts_spec(ss, i as int, self@, self.budget as nat),
                    (old(self).budget - self.budget) as nat,
                ),
            decreases stmts.len() - i,
        {
            assert(decreases_to!(stmts@ => stmts@[i as int]));
            let ghost before = *self;
            let result = self.execute(&stmts[i]);
            match result {
                Ok(None) => {},
                Ok(Some(value)) => {
                    return Ok(Some(value));
                },
                Err(message) => {
                    return Err(message);
                },
            }
            i = i + 1;
        }
        Ok(None)
    }

    /// Evaluates an expression.
    #[verifier::rlimit(30)]
    pub fn evaluate_expr(&mut self, expr: &Expr) -> (r: Result<EvalValue, String>)
        requires
            old(self).wf(),
        ensures
            final(self).wf(),
            value_outcome(
                r,
                eval_expr_spec(expr@, old(self)@, old(self).steps() as nat),
                *old(self),
                *final(self),
            ),
        decreases old(self).steps(), 0nat, expr, 1nat,
    {
        reveal(eval_expr_spec);
        reveal(eval_binary_spec);
        reveal(eval_assignment_spec);
        reveal(eval_call_spec);
        match expr {
            Expr::Bool(b) => Ok(EvalValue::Bool(*b)),
            Expr::Str(text) => Ok(EvalValue::Str(Rc::new(copy_string(text.as_str())))),
            Expr::Number(n) => Ok(EvalValue::Number(*n)),
            Expr::Binary(b) => self.visit_binary(b),
            Expr::Grouping(inner) => self.evaluate_expr(inner),
            Expr::LogicalNot(inner) => {
                let value = self.evaluate_expr(inner)?;
                Ok(EvalValue::Bool(!value.is_truthy()))
            },
            Expr::UnaryNegate(inner) => {
                let value = self.evaluate_expr(inner)?;
                match value {
                    EvalValue::Number(n) => Ok(EvalValue::Number(n.negate())),
                    _ => Err(copy_string("Unary negate expected number")),
                }
            },
            Expr::Variable(v) => self.visit_variable(v),
            Expr::Assignment(a) => self.visit_assignment(a),
            Expr::Call(c) => self.visit_call(c),
            Expr::Nil => Ok(EvalValue::Nil),
        }
    }

    /// A binary expression.
    #[verifier::rlimit(30)]
    fn visit_binary(&mut self, binary: &Binary) -> (r: Result<EvalValue, String>)
        requires
            old(self).wf(),
        ensures
            final(self).wf(),
            value_outcome(
                r,
                eval_binary_spec(
                    binary.left@,
                    binary.operator@,
                    binary.right@,
                    old(self)@,
                    old(self).steps() as nat,
                ),
                *old(self),
                *final(self),
            ),
        decreases old(self).steps(), 0nat, binary, 0nat,
    {
        reveal(eval_binary_spec);
        reveal(eval_expr_spec);
        let left = self.evaluate_expr(&binary.left)?;
        match binary.operator.token_type {
            TokenType::And => {
                if !left.is_truthy() {
                    return Ok(left);
                }
                self.evaluate_expr(&binary.right)
            },
            TokenType::Or => {
                if left.is_truthy() {
                    return Ok(left);
                }
                self.evaluate_expr(&binary.right)
            },
            _ => {
                let right = self.evaluate_expr(&binary.right)?;
                binary_value(&binary.operator.token_type, &left, &right)
            },
        }
    }

    /// An assignment.
    fn visit_assignment(&mut self, assignment: &Assignment) -> (r: Result<EvalValue, String>)
        requires
            old(self).wf(),
        ensures
            final(self).wf(),
            value_outcome(
                r,
                eval_assignment_spec(
                    assignment.target@,
                    assignment.line,
                    assignment.expr@,
                    assignment.stack_idx,
                    old(self)@,
                    old(self).steps() as nat,
                ),
                *old(self),
                *final(self),
            ),
        decreases old(self).steps(), 0nat, assignment, 0nat,
    {
        reveal(eval_assignment_spec);
        reveal(eval_expr_spec);
        let value = self.evaluate_expr(&assignment.expr)?;
        match self.target_cell(assignment.target.as_str(), assignment.stack_idx) {
            Some(cell) => {
                proof {
                    lemma_store_update(self@.store, cell as int, value@);
                }
                self.store.write(cell, value.duplicate());
                Ok(value)
            },
            None => Err(undefined(assignment.target.as_str(), assignment.line)),
        }
    }

    /// A call.
    #[verifier::rlimit(30)]
    #[verifier::loop_isolation(false)]
    fn visit_call(&mut self, call: &Call) -> (r: Result<EvalValue, String>)
        requires
            old(self).wf(),
        ensures
            final(self).wf(),
            value_outcome(
                r,
                eval_call_spec(
                    call.callee@,
                    call.line,
                    boxed_exprs_view(call.arguments@),
                    old(self)@,
                    old(self).steps() as nat,
                ),
                *old(self),
                *final(self),
            ),
        decreases old(self).steps(), 0nat, call, 0nat,
    {
        reveal(eval_call_spec);
        reveal(eval_expr_spec);
        reveal(eval_arguments_spec);
        reveal(call_function_spec);
        let ghost es = boxed_exprs_view(call.arguments@);
        proof {
            lemma_boxed_exprs_index(call.arguments@);
        }
        let callee = self.evaluate_expr(&call.callee)?;
        match callee {
            EvalValue::Function(f) => {
                if f.declaration.parameters.len() != call.arguments.len() {
                    return Err(
                        wrong_arity(
                            f.declaration.parameters.len(),
                            call.arguments.len(),
                            call.line,
                        ),
                    );
                }
                let ghost start = *self;
                let ghost whole = eval_arguments_spec(
                    es,
                    0,
                    Seq::empty(),
                    start@,
                    start.budget as nat,
                );
                let mut arguments: Vec<EvalValue> = Vec::new();
                let mut i: usize = 0;
                assert(arguments_view(arguments@) =~= Seq::<EvalValueView>::empty());
                while i < call.arguments.len()
                    invariant
                        i <= call.arguments@.len(),
                        self.wf(),
                        self.budget <= start.budget,
                        start@.store.len() <= self@.store.len(),
                        values_ok(arguments_view(arguments@), self@.store),
                        whole == plus_used(
                            eval_arguments_spec(
                                es,
                                i as int,
                                arguments_view(arguments@),
                                self@,
                                self.budget as nat,
                            ),
                            (start.budget - self.budget) as nat,
                        ),
                    decreases call.arguments.len() - i,
                {
                    assert(decreases_to!(call.arguments => call.arguments[i as int]));
                    let ghost seen = arguments_view(arguments@);
                    let ghost store_before = self@.store;
                    let value = self.evaluate_expr(&call.arguments[i])?;
                    arguments.push(value);
                    assert(arguments_view(arguments@) =~= seen.push(value@));
                    assert forall|j: int| 0 <= j < arguments@.len() implies value_ok(
                        #[trigger] arguments_view(arguments@)[j],
                        self@.store,
                    ) by {
                        if j < seen.len() {
                            lemma_value_ok_grows(seen[j], store_before, self@.store);
                        }
                    }
                    i = i + 1;
                }
                if !self.step() {
                    return Err(copy_string("Step budget exhausted"));
                }
                LoxFunction::call(f, self, &arguments)
            },
            _ => Err(not_callable(call.line)),
        }
    }

    /// An expression statement.
    fn visit_expr(&mut self, expr: &Expr) -> (r: Result<Option<EvalValue>, String>)
        requires
            old(self).wf(),
        ensures
            final(self).wf(),
            stmt_outcome(
                r,
                exec_stmt_spec(StmtView::Expr(expr@), old(self)@, old(self).steps() as nat),
                *old(self),
                *final(self),
            ),
        decreases old(self).steps(), 1nat,
    {
        reveal(exec_stmt_spec);
        reveal(eval_expr_spec);
        self.evaluate_expr(expr)?;
        Ok(None)
    }

    /// A `return` statement.
    fn visit_return(&mut self, expr: &Expr) -> (r: Result<Option<EvalValue>, String>)
        requires
            old(self).wf(),
        ensures
            final(self).wf(),
            stmt_outcome(
                r,
                exec_stmt_spec(StmtView::Return(expr@), old(self)@, old(self).steps() as nat),
                *old(self),
                *final(self),
            ),
        decreases old(self).steps(), 1nat,
    {
        reveal(exec_stmt_spec);
        reveal(eval_expr_spec);
        let value = self.evaluate_expr(expr)?;
        Ok(Some(value))
    }

    /// A `print` statement: each value and a space after it, and a line feed
    /// after the last.
    #[verifier::rlimit(30)]
    #[verifier::loop_isolation(false)]
    fn visit_print(&mut self, print: &Print) -> (r: Result<Option<EvalValue>, String>)
        requires
            old(self).wf(),
        ensures
            final(self).wf(),
            stmt_outcome(
                r,
                exec_stmt_spec(
                    StmtView::Print(exprs_view(print.exprs@)),
                    old(self)@,
                    old(self).steps() as nat,
                ),
                *old(self),
                *final(self),
            ),
        decreases old(self).steps(), 1nat,
    {
        reveal(exec_stmt_spec);
        reveal(print_items_spec);
        reveal(eval_expr_spec);
        let ghost es = exprs_view(print.exprs@);
        let ghost whole = print_items_spec(es, 0, old(self)@, old(self).steps() as nat);
        proof {
            lemma_exprs_index(print.exprs@);
        }
        let mut i: usize = 0;
        while i < print.exprs.len()
            invariant
                i <= print.exprs@.len(),
                self.wf(),
                self.budget <= old(self).budget,
                old(self)@.store.len() <= self@.store.len(),
                whole == plus_used(
                    print_items_spec(es, i as int, self@, self.budget as nat),
                    (old(self).budget - self.budget) as nat,
                ),
            decreases print.exprs.len() - i,
        {
            let value = self.evaluate_expr(&print.exprs[i])?;
            self.write(value.render());
            self.write(Output::Text(copy_string(" ")));
            i = i + 1;
        }
        self.write(Output::Text(copy_string("\n")));
        Ok(None)
    }

    /// An `if` statement.
    fn visit_if(&mut self, if_ctx: &If) -> (r: Result<Option<EvalValue>, String>)
        requires
            old(self).wf(),
        ensures
            final(self).wf(),
            stmt_outcome(
                r,
                exec_if_spec(
                    if_ctx.condition@,
                    if_ctx.true_branch@,
                    match if_ctx.else_branch {
                        Some(branch) => Some(branch@),
                        None => None,
                    },
                    old(self)@,
                    old(self).steps() as nat,
                ),
                *old(self),
                *final(self),
            ),
        decreases old(self).steps(), 2nat, if_ctx, 0nat,
    {
        reveal(exec_if_spec);
        reveal(exec_stmt_spec);
        reveal(eval_expr_spec);
        let condition = self.evaluate_expr(&if_ctx.condition)?;
        if condition.is_truthy() {
            self.execute(&if_ctx.true_branch)
        } else {
            match &if_ctx.else_branch {
                Some(branch) => self.execute(branch),
                None => Ok(None),
            }
        }
    }

    /// A block: its statements run in a scope of their own, or, at the top
    /// level, in a local environment of their own.
    #[verifier::rlimit(30)]
    fn visit_block(&mut self, block: &Block) -> (r: Result<Option<EvalValue>, String>)
        requires
            old(self).wf(),
        ensures
            final(self).wf(),
            stmt_outcome(
                r,
                exec_block_spec(
                    stmts_view(block.statements@),
                    old(self)@,
                    old(self).steps() as nat,
                ),
                *old(self),
                *final(self),
            ),
        decreases old(self).steps(), 2nat, block, 0nat,
    {
        reveal(exec_block_spec);
        reveal(exec_stmts_spec);
        let top = match self.local_environment.take() {
            Some(env) => {
                let mut env = env;
                env.push_scope();
                self.local_environment = Some(env);
                false
            },
            None => {
                self.local_environment = Some(Environment::new());
                true
            },
        };
        assert(self@ == enter_block_spec(old(self)@));
        let result = self.execute_many(block.statements.as_slice());
        let ghost inside = self@;
        match self.local_environment.take() {
            Some(env) => {
                if !top {
                    let mut env = env;
                    env.pop_scope();
                    self.local_environment = Some(env);
                }
            },
            None => {},
        }
        assert(self@ == leave_block_spec(inside, top));
        result
    }

    /// A declaration of a variable.
    fn visit_var(&mut self, var: &Var) -> (r: Result<Option<EvalValue>, String>)
        requires
            old(self).wf(),
        ensures
            final(self).wf(),
            stmt_outcome(
                r,
                exec_stmt_spec(
                    StmtView::Var {
                        name: var.name@,
                        line: var.line,
                        initializer: var.initializer@,
                    },
                    old(self)@,
                    old(self).steps() as nat,
                ),
                *old(self),
                *final(self),
            ),
        decreases old(self).steps(), 1nat,
    {
        reveal(exec_stmt_spec);
        reveal(eval_expr_spec);
        let initializer = self.evaluate_expr(&var.initializer)?;
        self.declare(var.name.as_str(), initializer);
        Ok(None)
    }

    /// A `while` statement.
    #[verifier::rlimit(30)]
    #[verifier::loop_isolation(false)]
    fn visit_while(&mut self, while_ctx: &While) -> (r: Result<Option<EvalValue>, String>)
        requires
            old(self).wf(),
        ensures
            final(self).wf(),
            stmt_outcome(
                r,
                exec_while_spec(
                    while_ctx.condition@,
                    while_ctx.body@,
                    old(self)@,
                    old(self).steps() as nat,
                ),
                *old(self),
                *final(self),
            ),
        decreases old(self).steps(), 2nat, while_ctx, 0nat,
    {
        reveal(exec_while_spec);
        reveal(exec_stmt_spec);
        reveal(eval_expr_spec);
        let ghost condition = while_ctx.condition@;
        let ghost body = while_ctx.body@;
        let ghost whole = exec_while_spec(condition, body, old(self)@, old(self).steps() as nat);
        loop
            invariant
                self.wf(),
                self.budget <= old(self).budget,
                old(self)@.store.len() <= self@.store.len(),
                whole == plus_used(
                    exec_while_spec(condition, body, self@, self.budget as nat),
                    (old(self).budget - self.budget) as nat,
                ),
            decreases self.budget,
        {
            let condition = self.evaluate_expr(&while_ctx.condition)?;
            if !condition.is_truthy() {
                return Ok(None);
            }
            if !self.step() {
                return Err(copy_string("Step budget exhausted"));
            }
            let result = self.execute(&while_ctx.body);
            match result {
                Ok(None) => {},
                Ok(Some(value)) => {
                    return Ok(Some(value));
                },
                Err(message) => {
                    return Err(message);
                },
            }
        }
    }

    /// A declaration of a function: a closure over the local environment, if
    /// there is one, under the function's name in the global environment.
    fn visit_function(&mut self, function: &Rc<Function>) -> (r: Result<Option<EvalValue>, String>)
        requires
            old(self).wf(),
        ensures
            final(self).wf(),
            stmt_outcome(
                r,
                exec_stmt_spec(
                    StmtView::Function(function@),
                    old(self)@,
                    old(self).steps() as nat,
                ),
                *old(self),
                *final(self),
            ),
    {
        reveal(exec_stmt_spec);
        let closure = match &self.local_environment {
            Some(env) => Some(env.duplicate()),
            None => None,
        };
        let lox_function = LoxFunction { declaration: share(function), closure };
        self.declare_global(function.name.as_str(), EvalValue::Function(Rc::new(lox_function)));
        Ok(None)
    }
}

impl LoxFunction {
    /// Calls the function with `arguments`: in a new environment over what the
    /// function captured, its own name is bound to it, so that it can call
    /// itself, and then its parameters to the arguments; its body runs there.
    /// What the body returns is the value, `nil` if it returns nothing.
    #[verifier::rlimit(30)]
    #[verifier::loop_isolation(false)]
    pub fn call(
        lox_function: Rc<LoxFunction>,
        context: &mut InterpreterContext,
        arguments: &Vec<EvalValue>,
    ) -> (r: Result<EvalValue, String>)
        requires
            old(context).wf(),
            value_ok(EvalValueView::Function(lox_function@), old(context)@.store),
            values_ok(arguments_view(arguments@), old(context)@.store),
        ensures
            final(context).wf(),
            value_outcome(
                r,
                call_function_spec(
                    lox_function@,
                    arguments_view(arguments@),
                    old(context)@,
                    old(context).steps() as nat,
                ),
                *old(context),
                *final(context),
            ),
        decreases old(context).steps(), 3nat,
    {
        reveal(call_function_spec);
        reveal(exec_stmts_spec);
        let mut environment = match &lox_function.closure {
            None => Environment::new(),
            Some(closure) => Environment::new_capture_env(closure),
        };
        let ghost names = lox_function@.declaration.parameters;
        let ghost values = arguments_view(arguments@);
        proof {
            lemma_store_push(context@.store, EvalValueView::Function(lox_function@));
        }
        environment.define_var(
            &mut context.store,
            lox_function.declaration.name.as_str(),
            EvalValue::Function(share(&lox_function)),
        );
        let ghost first_env = environment@;
        let ghost first_store = context.store@;
        let parameters = &lox_function.declaration.parameters;
        let mut i: usize = 0;
        while i < parameters.len() && i < arguments.len()
            invariant
                i <= parameters@.len(),
                i <= arguments@.len(),
                environment.wf(),
                environment@.fits(context.store@),
                values_ok(context.store@, context.store@),
                first_store.len() <= context.store@.len(),
                context.global_environment == old(context).global_environment,
                context.local_environment == old(context).local_environment,
                context.output == old(context).output,
                context.budget == old(context).budget,
                bind_parameters_spec(first_env, first_store, names, values, 0)
                    == bind_parameters_spec(
                    environment@,
                    context.store@,
                    names,
                    values,
                    i as int,
                ),
            decreases parameters.len() - i,
        {
            proof {
                lemma_value_ok_grows(values[i as int], old(context)@.store, context.store@);
                lemma_store_push(context.store@, values[i as int]);
            }
            environment.define_var(
                &mut context.store,
                parameters[i].as_str(),
                arguments[i].duplicate(),
            );
            i = i + 1;
        }
        let saved = context.local_environment.take();
        context.local_environment = Some(environment);
        assert(context@ == enter_call_spec(lox_function@, values, old(context)@));
        let result = context.execute_many(lox_function.declaration.statements.as_slice());
        context.local_environment = saved;
        match result {
            Ok(Some(value)) => Ok(value),
            Ok(None) => Ok(EvalValue::Nil),
            Err(message) => Err(message),
        }
    }
}

} // verus!
