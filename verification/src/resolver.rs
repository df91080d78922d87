//! The resolver: a pass over the statements, before they run, that finds for
//! each variable that is read or written the slot of its binding in the
//! environment that the evaluator will have at that place.
//!
//! It keeps one template environment for each function that encloses the place
//! it is at, and does to it what the evaluator will do to its own: a scope for
//! each block, a binding for each declaration, a captured copy for each
//! function. Only a name that a `var` declared gets a slot. A call binds the
//! function's own name and its parameters; the template holds them too, so
//! that the positions after them are counted as the evaluator counts them,
//! but a variable that stands for one of them stays as it is, like a variable
//! whose name the template does not bind, and is looked for by name when the
//! program runs.

use crate::environment::{lemma_find, Environment, EnvironmentView};
use crate::expr::{
    boxed_exprs_view, expr_view, exprs_view, lemma_boxed_exprs_push, lemma_exprs_push, new_binary,
    new_call, new_grouping, new_logical_not, new_unary_negate, Assignment, Expr, ExprView,
    Variable,
};
use crate::stmt::{
    lemma_stmts_push, new_block, new_expr, new_function, new_if, new_print, new_return, new_var,
    new_while, stmt_view, stmts_view, Block, Function, FunctionView, Stmt, StmtView, Var,
};
use crate::text::{copy_string, strings_view};
use std::rc::Rc;
use vstd::prelude::*;

verus! {

/// In a template a cell holds no value: it says how the name came to be
/// bound. This one marks a name that a `var` declared.
pub const DECLARED: usize = 0;

/// The mark of a name that a call binds: the function's own name, or a
/// parameter.
pub const BOUND_BY_CALL: usize = 1;

/// The slot that `envs` gives to `name`: that of its innermost binding in the
/// innermost template, if a `var` declared it; else `before`, the slot that
/// the variable had. So it is where there is no template, where none binds the
/// name, and where the name stands for a parameter or for the function itself.
pub open spec fn resolved_slot(
    envs: Seq<EnvironmentView>,
    name: Seq<char>,
    before: Option<usize>,
) -> Option<usize> {
    if envs.len() > 0 {
        match envs.last().slot_of(name) {
            Some(i) => if envs.last().cells[i] == DECLARED {
                Some(i as usize)
            } else {
                before
            },
            None => before,
        }
    } else {
        before
    }
}

/// A slot is given only to a name that a `var` declared, and it is the
/// position of the innermost binding of the name in the template.
pub proof fn lemma_resolved_slot(envs: Seq<EnvironmentView>, name: Seq<char>)
    requires
        envs.len() > 0,
        envs.last().names.len() <= usize::MAX,
    ensures
        match resolved_slot(envs, name, None) {
            Some(slot) => {
                &&& slot < envs.last().names.len()
                &&& envs.last().names[slot as int] == name
                &&& envs.last().cells[slot as int] == DECLARED
                &&& envs.last().slot_of(name) == Some(slot as int)
            },
            None => true,
        },
{
    lemma_find(envs.last().names, name, 0);
}

/// The expression with the slots of its variables filled in.
pub open spec fn resolve_expr_spec(envs: Seq<EnvironmentView>, e: ExprView) -> ExprView
    decreases e, 0nat,
{
    match e {
        ExprView::Binary { left, operator, right } => ExprView::Binary {
            left: Box::new(resolve_expr_spec(envs, *left)),
            operator,
            right: Box::new(resolve_expr_spec(envs, *right)),
        },
        ExprView::Grouping(inner) => ExprView::Grouping(Box::new(resolve_expr_spec(envs, *inner))),
        ExprView::LogicalNot(inner) => ExprView::LogicalNot(
            Box::new(resolve_expr_spec(envs, *inner)),
        ),
        ExprView::UnaryNegate(inner) => ExprView::UnaryNegate(
            Box::new(resolve_expr_spec(envs, *inner)),
        ),
        ExprView::Variable { name, line, slot } => ExprView::Variable {
            name,
            line,
            slot: resolved_slot(envs, name, slot),
        },
        ExprView::Assignment { target, line, value, slot } => ExprView::Assignment {
            target,
            line,
            value: Box::new(resolve_expr_spec(envs, *value)),
            slot: resolved_slot(envs, target, slot),
        },
        ExprView::Call { callee, line, arguments } => ExprView::Call {
            callee: Box::new(resolve_expr_spec(envs, *callee)),
            line,
            arguments: resolve_exprs_spec(envs, arguments),
        },
        _ => e,
    }
}

/// The expressions, each with the slots of its variables filled in.
pub open spec fn resolve_exprs_spec(envs: Seq<EnvironmentView>, es: Seq<ExprView>) -> Seq<
    ExprView,
>
    decreases es, es.len(),
{
    if es.len() == 0 {
        Seq::empty()
    } else {
        resolve_exprs_spec(envs, es.drop_last()).push(resolve_expr_spec(envs, es.last()))
    }
}

/// The templates with their innermost replaced by `env`; unchanged where there
/// is none.
pub open spec fn with_last(envs: Seq<EnvironmentView>, env: EnvironmentView) -> Seq<
    EnvironmentView,
> {
    if envs.len() > 0 {
        envs.update(envs.len() - 1, env)
    } else {
        envs
    }
}

/// The template after a call has bound the names in `names` in it, in order.
pub open spec fn bind_all(env: EnvironmentView, names: Seq<Seq<char>>) -> EnvironmentView
    decreases names.len(),
{
    if names.len() == 0 {
        env
    } else {
        bind_all(env, names.drop_last()).bind(names.last(), BOUND_BY_CALL)
    }
}

/// The template in which the body of `f` is resolved: what the innermost
/// template captures, or nothing at the top level, and then the function's own
/// name and its parameters, as a call will bind them, marked as bound by the
/// call.
pub open spec fn function_template(envs: Seq<EnvironmentView>, f: FunctionView) -> EnvironmentView {
    let captured = if envs.len() > 0 {
        envs.last().capture()
    } else {
        EnvironmentView::empty()
    };
    bind_all(captured.bind(f.name, BOUND_BY_CALL), f.parameters)
}

/// The templates when a block is entered: a scope more in the innermost, or a
/// first template at the top level.
pub open spec fn enter_block(envs: Seq<EnvironmentView>) -> Seq<EnvironmentView> {
    if envs.len() > 0 {
        with_last(envs, envs.last().push_scope())
    } else {
        seq![EnvironmentView::empty()]
    }
}

/// The templates when a block is left, where `outer` says whether it was
/// entered at the top level: without the template made for it, or with the
/// scope of the block closed.
pub open spec fn leave_block(envs: Seq<EnvironmentView>, outer: bool) -> Seq<EnvironmentView> {
    if envs.len() == 0 {
        envs
    } else if outer {
        envs.drop_last()
    } else {
        with_last(envs, envs.last().pop_scope())
    }
}

/// The statement with the slots of its variables filled in, and the templates
/// after it.
pub open spec fn resolve_stmt_spec(envs: Seq<EnvironmentView>, s: StmtView) -> (
    Seq<EnvironmentView>,
    StmtView,
)
    decreases s, 0nat,
{
    match s {
        StmtView::Expr(e) => (envs, StmtView::Expr(resolve_expr_spec(envs, e))),
        StmtView::Print(es) => (envs, StmtView::Print(resolve_exprs_spec(envs, es))),
        StmtView::If { condition, true_branch, else_branch } => {
            let first = resolve_stmt_spec(envs, *true_branch);
            match else_branch {
                Some(branch) => {
                    let second = resolve_stmt_spec(first.0, *branch);
                    (
                        second.0,
                        StmtView::If {
                            condition: resolve_expr_spec(envs, condition),
                            true_branch: Box::new(first.1),
                            else_branch: Some(Box::new(second.1)),
                        },
                    )
                },
                None => (
                    first.0,
                    StmtView::If {
                        condition: resolve_expr_spec(envs, condition),
                        true_branch: Box::new(first.1),
                        else_branch: None,
                    },
                ),
            }
        },
        StmtView::Block(statements) => {
            let inside = resolve_stmts_spec(enter_block(envs), statements);
            (leave_block(inside.0, envs.len() == 0), StmtView::Block(inside.1))
        },
        StmtView::Var { name, line, initializer } => (
            if envs.len() > 0 {
                with_last(envs, envs.last().bind(name, DECLARED))
            } else {
                envs
            },
            StmtView::Var { name, line, initializer: resolve_expr_spec(envs, initializer) },
        ),
        StmtView::While { condition, body } => {
            let inside = resolve_stmt_spec(envs, *body);
            (
                inside.0,
                StmtView::While {
                    condition: resolve_expr_spec(envs, condition),
                    body: Box::new(inside.1),
                },
            )
        },
        StmtView::Function(f) => {
            let inside = resolve_stmts_spec(envs.push(function_template(envs, f)), f.statements);
            (
                inside.0.drop_last(),
                StmtView::Function(FunctionView { statements: inside.1, ..f }),
            )
        },
        StmtView::Return(e) => (envs, StmtView::Return(resolve_expr_spec(envs, e))),
    }
}

/// The statements, one after the other, with the slots of their variables
/// filled in, and the templates after the last.
pub open spec fn resolve_stmts_spec(envs: Seq<EnvironmentView>, ss: Seq<StmtView>) -> (
    Seq<EnvironmentView>,
    Seq<StmtView>,
)
    decreases ss, ss.len(),
{
    if ss.len() == 0 {
        (envs, Seq::empty())
    } else {
        let before = resolve_stmts_spec(envs, ss.drop_last());
        let last = resolve_stmt_spec(before.0, ss.last());
        (last.0, before.1.push(last.1))
    }
}

/// The views of a sequence of templates.
pub open spec fn templates_view(envs: Seq<Environment>) -> Seq<EnvironmentView> {
    envs.map_values(|e: Environment| e@)
}

/// The resolver: the templates of the functions that enclose the place it is
/// at, the innermost last; none at the top level.
pub struct Resolver {
    local_environments: Vec<Environment>,
}

impl View for Resolver {
    type V = Seq<EnvironmentView>;

    closed spec fn view(&self) -> Seq<EnvironmentView> {
        templates_view(self.local_environments@)
    }
}

impl Resolver {
    /// Whether every template is well formed.
    pub open spec fn wf(&self) -> bool {
        forall|i: int| 0 <= i < self@.len() ==> (#[trigger] self@[i]).wf()
    }

    /// The number of templates: of functions, or blocks at the top level, that
    /// enclose the place that the resolver is at.
    pub fn depth(&self) -> (n: usize)
        ensures
            n == self@.len(),
    {
        self.local_environments.len()
    }

    /// A resolver at the top level.
    pub fn new() -> (r: Resolver)
        ensures
            r@ == Seq::<EnvironmentView>::empty(),
            r.wf(),
    {
        let r = Resolver { local_environments: Vec::new() };
        assert(r@ =~= Seq::<EnvironmentView>::empty());
        r
    }

    /// Declares `name`, as a `var` does, in the innermost template, if there is
    /// one.
    fn declare(&mut self, name: &str)
        requires
            old(self).wf(),
        ensures
            final(self).wf(),
            final(self)@ == if old(self)@.len() > 0 {
                with_last(old(self)@, old(self)@.last().bind(name@, DECLARED))
            } else {
                old(self)@
            },
    {
        let n = self.local_environments.len();
        if n > 0 {
            let mut env = self.local_environments.pop().unwrap();
            assert(env@ == old(self)@[n - 1]);
            env.bind(name, DECLARED);
            self.local_environments.push(env);
            assert(self@ =~= with_last(old(self)@, old(self)@.last().bind(name@, DECLARED)));
        }
    }

    /// The slot that the templates give to `name`.
    fn slot(&self, name: &str, before: Option<usize>) -> (r: Option<usize>)
        requires
            self.wf(),
        ensures
            r == resolved_slot(self@, name@, before),
    {
        let n = self.local_environments.len();
        if n > 0 {
            let env = &self.local_environments[n - 1];
            match env.get_var_idx(name) {
                Some(i) => if env.cell_at(i) == DECLARED {
                    Some(i)
                } else {
                    before
                },
                None => before,
            }
        } else {
            before
        }
    }

    /// Makes the template for a block that is entered.
    fn enter(&mut self) -> (outer: bool)
        requires
            old(self).wf(),
        ensures
            final(self).wf(),
            outer == (old(self)@.len() == 0),
            final(self)@ == enter_block(old(self)@),
            final(self)@.len() > 0,
    {
        let n = self.local_environments.len();
        if n == 0 {
            self.local_environments.push(Environment::new());
            assert(self@ =~= enter_block(old(self)@));
            true
        } else {
            let mut env = self.local_environments.pop().unwrap();
            assert(env@ == old(self)@[n - 1]);
            env.push_scope();
            self.local_environments.push(env);
            assert(self@ =~= enter_block(old(self)@));
            false
        }
    }

    /// Undoes the template of a block that is left.
    fn leave(&mut self, outer: bool)
        requires
            old(self).wf(),
            old(self)@.len() > 0,
        ensures
            final(self).wf(),
            final(self)@ == leave_block(old(self)@, outer),
            final(self)@.len() == if outer {
                old(self)@.len() - 1
            } else {
                old(self)@.len() as int
            },
    {
        let n = self.local_environments.len();
        let mut env = self.local_environments.pop().unwrap();
        assert(env@ == old(self)@[n - 1]);
        if outer {
            assert(self@ =~= leave_block(old(self)@, outer));
        } else {
            env.pop_scope();
            self.local_environments.push(env);
            assert(self@ =~= leave_block(old(self)@, outer));
        }
    }

    /// The template in which the body of `function` is resolved.
    fn template(&self, function: &Function) -> (env: Environment)
        requires
            self.wf(),
        ensures
            env.wf(),
            env@ == function_template(self@, function@),
    {
        let n = self.local_environments.len();
        let mut env = if n > 0 {
            Environment::new_capture_env(&self.local_environments[n - 1])
        } else {
            Environment::new()
        };
        env.bind(function.name.as_str(), BOUND_BY_CALL);
        let ghost first = env@;
        let mut i: usize = 0;
        assert(function@.parameters.subrange(0, 0) =~= Seq::<Seq<char>>::empty());
        while i < function.parameters.len()
            invariant
                i <= function.parameters@.len(),
                env.wf(),
                function@.parameters.len() == function.parameters@.len(),
                forall|j: int|
                    0 <= j < function.parameters@.len() ==> function@.parameters[j]
                        == function.parameters@[j]@,
                env@ == bind_all(first, function@.parameters.subrange(0, i as int)),
            decreases function.parameters.len() - i,
        {
            assert(function@.parameters.subrange(0, i + 1).drop_last()
                =~= function@.parameters.subrange(0, i as int));
            env.bind(function.parameters[i].as_str(), BOUND_BY_CALL);
            i = i + 1;
        }
        assert(function@.parameters.subrange(0, i as int) =~= function@.parameters);
        env
    }

    /// The expression with the slots of its variables filled in.
    #[verifier::loop_isolation(false)]
    fn expr(&self, expr: &Expr) -> (r: Expr)
        requires
            self.wf(),
        ensures
            r@ == resolve_expr_spec(self@, expr@),
        decreases expr,
    {
        match expr {
            Expr::Bool(b) => Expr::Bool(*b),
            Expr::Str(text) => Expr::Str(copy_string(text.as_str())),
            Expr::Number(n) => Expr::Number(*n),
            Expr::Binary(b) => {
                let left = self.expr(&b.left);
                let right = self.expr(&b.right);
                new_binary(left, b.operator.duplicate(), right)
            },
            Expr::Grouping(inner) => new_grouping(self.expr(inner)),
            Expr::LogicalNot(inner) => new_logical_not(self.expr(inner)),
            Expr::UnaryNegate(inner) => new_unary_negate(self.expr(inner)),
            Expr::Variable(v) => self.visit_variable(v),
            Expr::Assignment(a) => {
                let value = self.expr(&a.expr);
                self.visit_assignment(a, value)
            },
            Expr::Call(c) => {
                let callee = self.expr(&c.callee);
                let mut arguments: Vec<Box<Expr>> = Vec::new();
                let mut i: usize = 0;
                assert(c.arguments@.subrange(0, 0) =~= Seq::<Box<Expr>>::empty());
                while i < c.arguments.len()
                    invariant
                        i <= c.arguments@.len(),
                        boxed_exprs_view(arguments@) == resolve_exprs_spec(
                            self@,
                            boxed_exprs_view(c.arguments@.subrange(0, i as int)),
                        ),
                    decreases c.arguments.len() - i,
                {
                    assert(decreases_to!(c.arguments => c.arguments[i as int]));
                    let argument = self.expr(&c.arguments[i]);
                    proof {
                        let before = c.arguments@.subrange(0, i as int);
                        assert(c.arguments@.subrange(0, i + 1) =~= before.push(
                            c.arguments@[i as int],
                        ));
                        lemma_boxed_exprs_push(before, c.arguments@[i as int]);
                        lemma_boxed_exprs_push(arguments@, Box::new(argument));
                        assert(boxed_exprs_view(before).push(
                            expr_view(*c.arguments@[i as int]),
                        ).drop_last() =~= boxed_exprs_view(before));
                    }
                    arguments.push(Box::new(argument));
                    i = i + 1;
                }
                assert(c.arguments@.subrange(0, i as int) =~= c.arguments@);
                new_call(callee, c.line, arguments)
            },
            Expr::Nil => Expr::Nil,
        }
    }

    /// A read of a variable: with the slot of its name, if the innermost
    /// template binds it.
    fn visit_variable(&self, variable: &Variable) -> (r: Expr)
        requires
            self.wf(),
        ensures
            r@ == (ExprView::Variable {
                name: variable.name@,
                line: variable.line,
                slot: resolved_slot(self@, variable.name@, variable.stack_idx),
            }),
    {
        Expr::Variable(
            Variable {
                name: copy_string(variable.name.as_str()),
                line: variable.line,
                stack_idx: self.slot(variable.name.as_str(), variable.stack_idx),
            },
        )
    }

    /// An assignment, of the value already resolved: with the slot of its
    /// target, if the innermost template binds it.
    fn visit_assignment(&self, assignment: &Assignment, value: Expr) -> (r: Expr)
        requires
            self.wf(),
        ensures
            r@ == (ExprView::Assignment {
                target: assignment.target@,
                line: assignment.line,
                value: Box::new(value@),
                slot: resolved_slot(self@, assignment.target@, assignment.stack_idx),
            }),
    {
        Expr::Assignment(
            Assignment {
                target: copy_string(assignment.target.as_str()),
                line: assignment.line,
                expr: Box::new(value),
                stack_idx: self.slot(assignment.target.as_str(), assignment.stack_idx),
            },
        )
    }

    /// The expressions, each with the slots of its variables filled in.
    fn exprs(&self, exprs: &Vec<Expr>) -> (r: Vec<Expr>)
        requires
            self.wf(),
        ensures
            exprs_view(r@) == resolve_exprs_spec(self@, exprs_view(exprs@)),
    {
        let mut out: Vec<Expr> = Vec::new();
        let mut i: usize = 0;
        assert(exprs@.subrange(0, 0) =~= Seq::<Expr>::empty());
        while i < exprs.len()
            invariant
                i <= exprs@.len(),
                self.wf(),
                exprs_view(out@) == resolve_exprs_spec(
                    self@,
                    exprs_view(exprs@.subrange(0, i as int)),
                ),
            decreases exprs.len() - i,
        {
            let e = self.expr(&exprs[i]);
            proof {
                let before = exprs@.subrange(0, i as int);
                assert(exprs@.subrange(0, i + 1) =~= before.push(exprs@[i as int]));
                lemma_exprs_push(before, exprs@[i as int]);
                lemma_exprs_push(out@, e);
                assert(exprs_view(before).push(expr_view(exprs@[i as int])).drop_last()
                    =~= exprs_view(before));
            }
            out.push(e);
            i = i + 1;
        }
        assert(exprs@.subrange(0, i as int) =~= exprs@);
        out
    }

    /// The statement with the slots of its variables filled in; the templates
    /// are left as the statement leaves them.
    fn stmt(&mut self, stmt: &Stmt) -> (r: Stmt)
        requires
            old(self).wf(),
        ensures
            final(self).wf(),
            final(self)@.len() == old(self)@.len(),
            (final(self)@, r@) == resolve_stmt_spec(old(self)@, stmt@),
        decreases stmt, 0nat,
    {
        match stmt {
            Stmt::Expr(e) => new_expr(self.expr(e)),
            Stmt::Print(p) => new_print(self.exprs(&p.exprs)),
            Stmt::If(i) => {
                let condition = self.expr(&i.condition);
                let true_branch = self.stmt(&i.true_branch);
                match &i.else_branch {
                    Some(branch) => {
                        let else_branch = self.stmt(branch);
                        new_if(condition, true_branch, Some(else_branch))
                    },
                    None => new_if(condition, true_branch, None),
                }
            },
            Stmt::Block(b) => self.visit_block(b),
            Stmt::Var(v) => self.visit_var(v),
            Stmt::While(w) => {
                let condition = self.expr(&w.condition);
                let body = self.stmt(&w.body);
                new_while(condition, body)
            },
            Stmt::Function(f) => self.visit_function(f),
            Stmt::Return(e) => new_return(self.expr(e)),
        }
    }

    /// A block: its statements are resolved in a scope of their own, or, at the
    /// top level, in a template of their own.
    fn visit_block(&mut self, block: &Block) -> (r: Stmt)
        requires
            old(self).wf(),
        ensures
            final(self).wf(),
            final(self)@.len() == old(self)@.len(),
            (final(self)@, r@) == resolve_stmt_spec(
                old(self)@,
                StmtView::Block(stmts_view(block.statements@)),
            ),
        decreases block, 1nat,
    {
        let outer = self.enter();
        let statements = self.stmts(&block.statements);
        self.leave(outer);
        new_block(statements)
    }

    /// A declaration: the initializer is resolved first, and then the name is
    /// declared in the innermost template, if there is one.
    fn visit_var(&mut self, var: &Var) -> (r: Stmt)
        requires
            old(self).wf(),
        ensures
            final(self).wf(),
            final(self)@.len() == old(self)@.len(),
            (final(self)@, r@) == resolve_stmt_spec(
                old(self)@,
                StmtView::Var { name: var.name@, line: var.line, initializer: var.initializer@ },
            ),
    {
        let initializer = self.expr(&var.initializer);
        self.declare(var.name.as_str());
        new_var(var.name.as_str(), var.line, initializer)
    }

    /// A function: its body is resolved in a template of its own.
    fn visit_function(&mut self, function: &Rc<Function>) -> (r: Stmt)
        requires
            old(self).wf(),
        ensures
            final(self).wf(),
            final(self)@.len() == old(self)@.len(),
            (final(self)@, r@) == resolve_stmt_spec(old(self)@, StmtView::Function(function@)),
        decreases function, 1nat,
    {
        let env = self.template(function);
        self.local_environments.push(env);
        assert(self@ =~= old(self)@.push(function_template(old(self)@, function@)));
        let statements = self.stmts(&function.statements);
        let ghost inside = self@;
        self.local_environments.pop();
        assert(self@ =~= inside.drop_last());
        let mut parameters: Vec<String> = Vec::new();
        let mut i: usize = 0;
        while i < function.parameters.len()
            invariant
                i <= function.parameters@.len(),
                parameters@.len() == i,
                forall|j: int| 0 <= j < i ==> parameters@[j]@ == function.parameters@[j]@,
            decreases function.parameters.len() - i,
        {
            parameters.push(copy_string(function.parameters[i].as_str()));
            i = i + 1;
        }
        assert(strings_view(parameters@) =~= strings_view(function.parameters@));
        new_function(copy_string(function.name.as_str()), parameters, statements, function.line)
    }

    /// The statements, one after the other; the templates are left as the last
    /// one leaves them.
    #[verifier::loop_isolation(false)]
    fn stmts(&mut self, stmts: &Vec<Stmt>) -> (r: Vec<Stmt>)
        requires
            old(self).wf(),
        ensures
            final(self).wf(),
            final(self)@.len() == old(self)@.len(),
            (final(self)@, stmts_view(r@)) == resolve_stmts_spec(old(self)@, stmts_view(stmts@)),
        decreases stmts, 0nat,
    {
        let mut out: Vec<Stmt> = Vec::new();
        let mut i: usize = 0;
        assert(stmts@.subrange(0, 0) =~= Seq::<Stmt>::empty());
        while i < stmts.len()
            invariant
                i <= stmts@.len(),
                self.wf(),
                self@.len() == old(self)@.len(),
                (self@, stmts_view(out@)) == resolve_stmts_spec(
                    old(self)@,
                    stmts_view(stmts@.subrange(0, i as int)),
                ),
            decreases stmts.len() - i,
        {
            assert(decreases_to!(stmts => stmts[i as int]));
            let ghost before_envs = self@;
            let s = self.stmt(&stmts[i]);
            proof {
                let before = stmts@.subrange(0, i as int);
                assert(stmts@.subrange(0, i + 1) =~= before.push(stmts@[i as int]));
                lemma_stmts_push(before, stmts@[i as int]);
                lemma_stmts_push(out@, s);
                assert(stmts_view(before).push(stmt_view(stmts@[i as int])).drop_last()
                    =~= stmts_view(before));
            }
            out.push(s);
            i = i + 1;
        }
        assert(stmts@.subrange(0, i as int) =~= stmts@);
        out
    }

    /// Resolves `stmts`: the same statements, with the slots filled in. As
    /// many templates are left as there were: none, after a pass that began at
    /// the top level.
    pub fn resolve(&mut self, stmts: &[Stmt]) -> (r: Result<Vec<Stmt>, String>)
        requires
            old(self).wf(),
        ensures
            final(self).wf(),
            final(self)@.len() == old(self)@.len(),
            r is Ok,
            (final(self)@, stmts_view(r.unwrap()@)) == resolve_stmts_spec(
                old(self)@,
                stmts_view(stmts@),
            ),
    {
        self.execute_many(stmts)
    }

    /// Resolves one statement.
    pub fn execute(&mut self, stmt: &Stmt) -> (r: Result<Stmt, String>)
        requires
            old(self).wf(),
        ensures
            final(self).wf(),
            final(self)@.len() == old(self)@.len(),
            r is Ok,
            (final(self)@, r.unwrap()@) == resolve_stmt_spec(old(self)@, stmt@),
    {
        Ok(self.stmt(stmt))
    }

    /// Resolves the statements, one after the other.
    pub fn execute_many(&mut self, stmts: &[Stmt]) -> (r: Result<Vec<Stmt>, String>)
        requires
            old(self).wf(),
        ensures
            final(self).wf(),
            final(self)@.len() == old(self)@.len(),
            r is Ok,
            (final(self)@, stmts_view(r.unwrap()@)) == resolve_stmts_spec(
                old(self)@,
                stmts_view(stmts@),
            ),
    {
        let mut out: Vec<Stmt> = Vec::new();
        let mut i: usize = 0;
        assert(stmts@.subrange(0, 0) =~= Seq::<Stmt>::empty());
        while i < stmts.len()
            invariant
                i <= stmts@.len(),
                self.wf(),
                self@.len() == old(self)@.len(),
                (self@, stmts_view(out@)) == resolve_stmts_spec(
                    old(self)@,
                    stmts_view(stmts@.subrange(0, i as int)),
                ),
            decreases stmts.len() - i,
        {
            let s = self.stmt(&stmts[i]);
            proof {
                let before = stmts@.subrange(0, i as int);
                assert(stmts@.subrange(0, i + 1) =~= before.push(stmts@[i as int]));
                lemma_stmts_push(before, stmts@[i as int]);
                lemma_stmts_push(out@, s);
                assert(stmts_view(before).push(stmt_view(stmts@[i as int])).drop_last()
                    =~= stmts_view(before));
            }
            out.push(s);
            i = i + 1;
        }
        assert(stmts@.subrange(0, i as int) =~= stmts@);
        Ok(out)
    }

    /// Resolves one expression.
    pub fn evaluate_expr(&mut self, expr: &Expr) -> (r: Result<Expr, String>)
        requires
            old(self).wf(),
        ensures
            final(self).wf(),
            final(self)@ == old(self)@,
            r is Ok,
            r.unwrap()@ == resolve_expr_spec(old(self)@, expr@),
    {
        Ok(self.expr(expr))
    }
}

} // verus!
