//! What a program does: the meaning of expressions and statements, as
//! functions from a world to a result and a new world.
//!
//! The evaluator of [`crate::interpreter`] computes what these functions say.
//! Every turn of a loop and every call takes one step from a budget of steps;
//! a program that has none left stops with an error.

use crate::environment::{lemma_find, EnvironmentView};
use crate::eval_value::{render_spec, truthy, EvalValueView, LoxFunctionView, OutputView};
use crate::expr::ExprView;
use crate::number::{
    binary32_difference, binary32_product, binary32_quotient, binary32_sum, ieee_equal, ieee_less,
    negated, Number,
};
use crate::stmt::StmtView;
use crate::text::decimal;
use crate::token::{TokenTypeView, TokenView};
use vstd::prelude::*;

verus! {

/// Everything that a program can read and change: the global environment, the
/// environment of the function or block that runs, if one does, the cells, and
/// what has been written out.
pub struct World {
    pub globals: EnvironmentView,
    pub locals: Option<EnvironmentView>,
    pub store: Seq<EvalValueView>,
    pub output: Seq<OutputView>,
}

/// The outcome of evaluating something: a value or the message of an error,
/// the world after it, and the steps that it took.
pub struct Evaluated<T> {
    pub result: Result<T, Seq<char>>,
    pub world: World,
    pub used: nat,
}

/// `a - b`, and 0 where `b` is the larger.
pub open spec fn minus(a: nat, b: nat) -> nat {
    if a >= b {
        (a - b) as nat
    } else {
        0
    }
}

/// The outcome `e` with `n` more steps taken before it.
pub open spec fn plus_used<T>(e: Evaluated<T>, n: nat) -> Evaluated<T> {
    Evaluated { used: e.used + n, ..e }
}

/// The outcome that is the value `value`.
pub open spec fn give<T>(value: T, world: World, used: nat) -> Evaluated<T> {
    Evaluated { result: Ok(value), world, used }
}

/// The outcome that is the error `message`.
pub open spec fn fail<T>(message: Seq<char>, world: World, used: nat) -> Evaluated<T> {
    Evaluated { result: Err(message), world, used }
}

/// Whether a value can live in `store`: the environment of a function has its
/// cells there.
pub open spec fn value_ok(v: EvalValueView, store: Seq<EvalValueView>) -> bool {
    match v {
        EvalValueView::Function(f) => match f.closure {
            Some(env) => env.wf() && env.fits(store),
            None => true,
        },
        _ => true,
    }
}

/// Whether every value of `values` can live in `store`.
pub open spec fn values_ok(values: Seq<EvalValueView>, store: Seq<EvalValueView>) -> bool {
    forall|i: int| 0 <= i < values.len() ==> value_ok(#[trigger] values[i], store)
}

impl World {
    /// Whether the world is consistent: the environments are well formed and
    /// have their cells in the store, and so has every function in a cell.
    pub open spec fn wf(self) -> bool {
        &&& self.globals.wf()
        &&& self.globals.fits(self.store)
        &&& match self.locals {
            Some(env) => env.wf() && env.fits(self.store),
            None => true,
        }
        &&& values_ok(self.store, self.store)
    }

    /// The world in which nothing is declared and nothing was written.
    pub open spec fn empty() -> World {
        World {
            globals: EnvironmentView::empty(),
            locals: None,
            store: Seq::empty(),
            output: Seq::empty(),
        }
    }
}

/// The message for a name that no environment binds.
pub open spec fn undefined_message(name: Seq<char>, line: u32) -> Seq<char> {
    "Undefined variable "@ + name + " at line "@ + decimal(line as nat)
}

/// The message for a call with the wrong number of arguments.
pub open spec fn arity_message(expected: nat, got: nat, line: u32) -> Seq<char> {
    "Function expected "@ + decimal(expected) + " but got "@ + decimal(got) + ", at line "@
        + decimal(line as nat)
}

/// The message for a call of what is no function.
pub open spec fn not_callable_message(line: u32) -> Seq<char> {
    "Not a callable object at line "@ + decimal(line as nat)
}

/// The message for a program that has no step left.
pub open spec fn exhausted_message() -> Seq<char> {
    "Step budget exhausted"@
}

/// The value of the global variable `name`.
pub open spec fn read_global_spec(w: World, name: Seq<char>, line: u32) -> Result<
    EvalValueView,
    Seq<char>,
> {
    match w.globals.get(w.store, name) {
        Some(v) => Ok(v),
        None => Err(undefined_message(name, line)),
    }
}

/// Whether `slot` can be used for `name` in `env`: there is a slot, the
/// environment has a binding there, and the binding binds the name.
pub open spec fn slot_holds(env: EnvironmentView, slot: Option<usize>, name: Seq<char>) -> bool {
    slot is Some && slot->0 < env.names.len() && env.names[slot->0 as int] == name
}

/// The value of the variable `name`: with a local environment, what the cell
/// at `slot` holds, if the binding at the slot binds the name, else what the
/// local environment has for the name; failing that, and without a local
/// environment, what the global environment has for it.
pub open spec fn read_variable_spec(
    w: World,
    name: Seq<char>,
    line: u32,
    slot: Option<usize>,
) -> Result<EvalValueView, Seq<char>> {
    match w.locals {
        Some(env) => {
            if slot_holds(env, slot, name) {
                Ok(w.store[env.cells[slot->0 as int] as int])
            } else {
                match env.get(w.store, name) {
                    Some(v) => Ok(v),
                    None => read_global_spec(w, name, line),
                }
            }
        },
        None => read_global_spec(w, name, line),
    }
}

/// The cell that an assignment to `target` writes: with a local environment,
/// the cell at `slot`, if the binding at the slot binds the name, else the
/// cell that the local environment has for the name; failing that, and
/// without a local environment, the cell that the global environment has for
/// it.
pub open spec fn target_cell_spec(w: World, target: Seq<char>, slot: Option<usize>) -> Option<
    usize,
> {
    let global = match w.globals.slot_of(target) {
        Some(j) => Some(w.globals.cells[j]),
        None => None,
    };
    match w.locals {
        Some(env) => {
            if slot_holds(env, slot, target) {
                Some(env.cells[slot->0 as int])
            } else {
                match env.slot_of(target) {
                    Some(j) => Some(env.cells[j]),
                    None => global,
                }
            }
        },
        None => global,
    }
}

/// The slot that the resolver finds is a shortcut, no more: a variable whose
/// slot is that of the innermost binding of its name is read and written as
/// one that has no slot and is looked for by its name.
pub proof fn lemma_slot_is_the_name(w: World, name: Seq<char>, line: u32, slot: usize)
    requires
        w.locals is Some,
        w.locals->0.slot_of(name) == Some(slot as int),
    ensures
        read_variable_spec(w, name, line, Some(slot)) == read_variable_spec(w, name, line, None),
        target_cell_spec(w, name, Some(slot)) == target_cell_spec(w, name, None),
{
    lemma_find(w.locals->0.names, name, 0);
}

/// A slot is used only where it leads to a binding of the variable's name;
/// a variable with any other slot is read and written as one without a slot.
pub proof fn lemma_slot_binds_the_name(w: World, name: Seq<char>, line: u32, slot: Option<usize>)
    requires
        w.locals is Some,
    ensures
        slot_holds(w.locals->0, slot, name) ==> {
            &&& w.locals->0.names[slot->0 as int] == name
            &&& read_variable_spec(w, name, line, slot) == Ok::<EvalValueView, Seq<char>>(
                w.store[w.locals->0.cells[slot->0 as int] as int],
            )
            &&& target_cell_spec(w, name, slot) == Some(w.locals->0.cells[slot->0 as int])
        },
        !slot_holds(w.locals->0, slot, name) ==> {
            &&& read_variable_spec(w, name, line, slot) == read_variable_spec(w, name, line, None)
            &&& target_cell_spec(w, name, slot) == target_cell_spec(w, name, None)
        },
{
}

/// The world after `value` is assigned to `target`, or the error that the
/// name is not defined.
pub open spec fn assign_spec(
    w: World,
    target: Seq<char>,
    line: u32,
    slot: Option<usize>,
    value: EvalValueView,
) -> Result<World, Seq<char>> {
    match target_cell_spec(w, target, slot) {
        Some(cell) => Ok(World { store: w.store.update(cell as int, value), ..w }),
        None => Err(undefined_message(target, line)),
    }
}

/// The world after `name` is declared with `value`: in the local environment
/// if there is one, else in the global one.
pub open spec fn declare_spec(w: World, name: Seq<char>, value: EvalValueView) -> World {
    let cell = w.store.len() as usize;
    match w.locals {
        Some(env) => World { locals: Some(env.bind(name, cell)), store: w.store.push(value), ..w },
        None => World { globals: w.globals.bind(name, cell), store: w.store.push(value), ..w },
    }
}

/// The world after `name` is declared with `value` in the global environment.
pub open spec fn declare_global_spec(w: World, name: Seq<char>, value: EvalValueView) -> World {
    World {
        globals: w.globals.bind(name, w.store.len() as usize),
        store: w.store.push(value),
        ..w
    }
}

/// What an operator makes of two values. The comparisons and `-`, `*`, `/`
/// take numbers; `+` takes two numbers or two strings.
pub open spec fn binary_value_spec(
    operator: TokenTypeView,
    left: EvalValueView,
    right: EvalValueView,
) -> Result<EvalValueView, Seq<char>> {
    let numbers = left is Number && right is Number;
    let a = left->Number_0.bits;
    let b = right->Number_0.bits;
    match operator {
        TokenTypeView::Less => if numbers {
            Ok(EvalValueView::Bool(ieee_less(a, b)))
        } else {
            Err("Must be numbers"@)
        },
        TokenTypeView::LessEqual => if numbers {
            Ok(EvalValueView::Bool(ieee_less(a, b) || ieee_equal(a, b)))
        } else {
            Err("Must be numbers"@)
        },
        TokenTypeView::Greater => if numbers {
            Ok(EvalValueView::Bool(ieee_less(b, a)))
        } else {
            Err("Must be numbers"@)
        },
        TokenTypeView::GreaterEqual => if numbers {
            Ok(EvalValueView::Bool(ieee_less(b, a) || ieee_equal(a, b)))
        } else {
            Err("Must be numbers"@)
        },
        TokenTypeView::EqualEqual => if numbers {
            Ok(EvalValueView::Bool(ieee_equal(a, b)))
        } else {
            Err("Must be numbers"@)
        },
        TokenTypeView::BangEqual => if numbers {
            Ok(EvalValueView::Bool(!ieee_equal(a, b)))
        } else {
            Err("Must be numbers"@)
        },
        TokenTypeView::Minus => if numbers {
            Ok(EvalValueView::Number(Number { bits: binary32_difference(a, b) }))
        } else {
            Err("Must be numbers"@)
        },
        TokenTypeView::Slash => if numbers {
            Ok(EvalValueView::Number(Number { bits: binary32_quotient(a, b) }))
        } else {
            Err("Must be numbers"@)
        },
        TokenTypeView::Star => if numbers {
            Ok(EvalValueView::Number(Number { bits: binary32_product(a, b) }))
        } else {
            Err("Must be numbers"@)
        },
        TokenTypeView::Plus => if numbers {
            Ok(EvalValueView::Number(Number { bits: binary32_sum(a, b) }))
        } else if left is Str && right is Str {
            Ok(EvalValueView::Str(left->Str_0 + right->Str_0))
        } else {
            Err("Must be numbers or string"@)
        },
        _ => Err("Unsupported binary operator"@),
    }
}

/// What `-` makes of a value.
pub open spec fn negate_value_spec(v: EvalValueView) -> Result<EvalValueView, Seq<char>> {
    match v {
        EvalValueView::Number(n) => Ok(EvalValueView::Number(Number { bits: negated(n.bits) })),
        _ => Err("Unary negate expected number"@),
    }
}

/// The environment in which a call of `f` starts: what the function captured,
/// with a scope of its own, or an empty one.
pub open spec fn activation_spec(f: LoxFunctionView) -> EnvironmentView {
    match f.closure {
        Some(env) => env.capture(),
        None => EnvironmentView::empty(),
    }
}

/// The environment and the store after the parameters from `i` on are bound
/// to their arguments, each in a cell of its own; as far as both go.
pub open spec fn bind_parameters_spec(
    env: EnvironmentView,
    store: Seq<EvalValueView>,
    names: Seq<Seq<char>>,
    arguments: Seq<EvalValueView>,
    i: int,
) -> (EnvironmentView, Seq<EvalValueView>)
    decreases names.len() - i,
{
    if 0 <= i < names.len() && i < arguments.len() {
        bind_parameters_spec(
            env.bind(names[i], store.len() as usize),
            store.push(arguments[i]),
            names,
            arguments,
            i + 1,
        )
    } else {
        (env, store)
    }
}

/// The world in which the body of `f` runs when it is called with
/// `arguments`: in the environment of the call, the function's own name is
/// bound to the function, and then the parameters to the arguments.
pub open spec fn enter_call_spec(
    f: LoxFunctionView,
    arguments: Seq<EvalValueView>,
    w: World,
) -> World {
    let own = w.store.len() as usize;
    let bound = bind_parameters_spec(
        activation_spec(f).bind(f.declaration.name, own),
        w.store.push(EvalValueView::Function(f)),
        f.declaration.parameters,
        arguments,
        0,
    );
    World { locals: Some(bound.0), store: bound.1, ..w }
}

/// A call of `f` with `arguments`: its body runs in the world of the call;
/// what it returns is the value, `nil` if it returns nothing. The caller's
/// local environment is the local environment again afterwards.
#[verifier::opaque]
pub open spec fn call_function_spec(
    f: LoxFunctionView,
    arguments: Seq<EvalValueView>,
    w: World,
    budget: nat,
) -> Evaluated<EvalValueView>
    decreases budget, 2nat,
{
    let inside = exec_stmts_spec(
        f.declaration.statements,
        0,
        enter_call_spec(f, arguments, w),
        budget,
    );
    Evaluated {
        result: match inside.result {
            Ok(Some(v)) => Ok(v),
            Ok(None) => Ok(EvalValueView::Nil),
            Err(m) => Err(m),
        },
        world: World { locals: w.locals, ..inside.world },
        used: inside.used,
    }
}

/// The values of the arguments from `i` on, after those in `seen`, from left
/// to right.
#[verifier::opaque]
pub open spec fn eval_arguments_spec(
    arguments: Seq<ExprView>,
    i: int,
    seen: Seq<EvalValueView>,
    w: World,
    budget: nat,
) -> Evaluated<Seq<EvalValueView>>
    decreases budget, 0nat, arguments, arguments.len() - i,
{
    if 0 <= i < arguments.len() {
        let v = eval_expr_spec(arguments[i], w, budget);
        match v.result {
            Ok(x) => plus_used(
                eval_arguments_spec(arguments, i + 1, seen.push(x), v.world, minus(budget, v.used)),
                v.used,
            ),
            Err(m) => fail(m, v.world, v.used),
        }
    } else {
        give(seen, w, 0)
    }
}

/// A call expression: the callee must be a function with as many parameters
/// as there are arguments; the arguments are evaluated from left to right, and
/// the call takes one step.
#[verifier::opaque]
pub open spec fn eval_call_spec(
    callee: ExprView,
    line: u32,
    arguments: Seq<ExprView>,
    w: World,
    budget: nat,
) -> Evaluated<EvalValueView>
    decreases budget, 0nat, (ExprView::Call { callee: Box::new(callee), line, arguments }), 0nat,
{
    proof {
        let node = ExprView::Call { callee: Box::new(callee), line, arguments };
        assert(decreases_to!(node => *node->callee));
        assert(decreases_to!(node => node->arguments));
    }
    let c = eval_expr_spec(callee, w, budget);
    match c.result {
        Ok(EvalValueView::Function(f)) => {
            if f.declaration.parameters.len() != arguments.len() {
                fail(
                    arity_message(f.declaration.parameters.len(), arguments.len(), line),
                    c.world,
                    c.used,
                )
            } else {
                let a = eval_arguments_spec(
                    arguments,
                    0,
                    Seq::empty(),
                    c.world,
                    minus(budget, c.used),
                );
                let left = minus(budget, c.used + a.used);
                match a.result {
                    Ok(values) => if left == 0 {
                        fail(exhausted_message(), a.world, c.used + a.used)
                    } else {
                        plus_used(
                            call_function_spec(f, values, a.world, (left - 1) as nat),
                            c.used + a.used + 1,
                        )
                    },
                    Err(m) => fail(m, a.world, c.used + a.used),
                }
            }
        },
        Ok(_) => fail(not_callable_message(line), c.world, c.used),
        Err(m) => fail(m, c.world, c.used),
    }
}

/// The number of arguments is checked before any of them is evaluated: a call
/// of a function with another number of parameters is the error that names
/// both numbers and the line, in the world that the callee left. Where the
/// numbers agree, the arguments are evaluated from left to right, and the
/// result is that of the call of the function with their values, as long as a
/// step is left for the call.
pub proof fn lemma_arity(
    callee: ExprView,
    line: u32,
    arguments: Seq<ExprView>,
    w: World,
    budget: nat,
)
    requires
        eval_expr_spec(callee, w, budget).result is Ok,
        eval_expr_spec(callee, w, budget).result->Ok_0 is Function,
    ensures
        ({
            let c = eval_expr_spec(callee, w, budget);
            let f = c.result->Ok_0->Function_0;
            let a = eval_arguments_spec(arguments, 0, Seq::empty(), c.world, minus(budget, c.used));
            let whole = eval_call_spec(callee, line, arguments, w, budget);
            &&& f.declaration.parameters.len() != arguments.len() ==> whole == fail::<
                EvalValueView,
            >(
                arity_message(f.declaration.parameters.len(), arguments.len(), line),
                c.world,
                c.used,
            )
            &&& f.declaration.parameters.len() == arguments.len() && a.result is Ok && budget
                > c.used + a.used ==> whole == plus_used(
                call_function_spec(
                    f,
                    a.result->Ok_0,
                    a.world,
                    (budget - c.used - a.used - 1) as nat,
                ),
                c.used + a.used + 1,
            )
        }),
{
    reveal(eval_call_spec);
    reveal(eval_expr_spec);
    reveal(eval_arguments_spec);
    reveal(call_function_spec);
}

/// A binary expression. `and` and `or` evaluate the right side only where the
/// left does not decide, and give the operand that decides, as it is; every
/// other operator evaluates both sides, the left first.
#[verifier::opaque]
pub open spec fn eval_binary_spec(
    left: ExprView,
    operator: TokenView,
    right: ExprView,
    w: World,
    budget: nat,
) -> Evaluated<EvalValueView>
    decreases budget, 0nat, (ExprView::Binary {
        left: Box::new(left),
        operator,
        right: Box::new(right),
    }), 0nat,
{
    proof {
        let node = ExprView::Binary { left: Box::new(left), operator, right: Box::new(right) };
        assert(decreases_to!(node => *node->left));
        assert(decreases_to!(node => *node->right));
    }
    let l = eval_expr_spec(left, w, budget);
    match l.result {
        Ok(lv) => {
            let short = (operator.token_type is And && !truthy(lv)) || (operator.token_type is Or
                && truthy(lv));
            if short {
                l
            } else {
                let r = eval_expr_spec(right, l.world, minus(budget, l.used));
                if operator.token_type is And || operator.token_type is Or {
                    plus_used(r, l.used)
                } else {
                    match r.result {
                        Ok(rv) => Evaluated {
                            result: binary_value_spec(operator.token_type, lv, rv),
                            world: r.world,
                            used: l.used + r.used,
                        },
                        Err(m) => fail(m, r.world, l.used + r.used),
                    }
                }
            }
        },
        Err(m) => fail(m, l.world, l.used),
    }
}

/// An assignment: the right side is evaluated first, and is the value of the
/// assignment.
#[verifier::opaque]
pub open spec fn eval_assignment_spec(
    target: Seq<char>,
    line: u32,
    value: ExprView,
    slot: Option<usize>,
    w: World,
    budget: nat,
) -> Evaluated<EvalValueView>
    decreases budget, 0nat, (ExprView::Assignment { target, line, value: Box::new(value), slot }),
        0nat,
{
    proof {
        let node = ExprView::Assignment { target, line, value: Box::new(value), slot };
        assert(decreases_to!(node => *node->value));
    }
    let v = eval_expr_spec(value, w, budget);
    match v.result {
        Ok(x) => match assign_spec(v.world, target, line, slot, x) {
            Ok(after) => give(x, after, v.used),
            Err(m) => fail(m, v.world, v.used),
        },
        Err(m) => fail(m, v.world, v.used),
    }
}

/// The value of an expression.
#[verifier::opaque]
pub open spec fn eval_expr_spec(e: ExprView, w: World, budget: nat) -> Evaluated<EvalValueView>
    decreases budget, 0nat, e, 1nat,
{
    match e {
        ExprView::Bool(b) => give(EvalValueView::Bool(b), w, 0),
        ExprView::Str(s) => give(EvalValueView::Str(s), w, 0),
        ExprView::Number(n) => give(EvalValueView::Number(n), w, 0),
        ExprView::Nil => give(EvalValueView::Nil, w, 0),
        ExprView::Binary { left, operator, right } => eval_binary_spec(
            *left,
            operator,
            *right,
            w,
            budget,
        ),
        ExprView::Grouping(inner) => eval_expr_spec(*inner, w, budget),
        ExprView::LogicalNot(inner) => {
            let v = eval_expr_spec(*inner, w, budget);
            match v.result {
                Ok(x) => give(EvalValueView::Bool(!truthy(x)), v.world, v.used),
                Err(m) => fail(m, v.world, v.used),
            }
        },
        ExprView::UnaryNegate(inner) => {
            let v = eval_expr_spec(*inner, w, budget);
            match v.result {
                Ok(x) => Evaluated { result: negate_value_spec(x), world: v.world, used: v.used },
                Err(m) => fail(m, v.world, v.used),
            }
        },
        ExprView::Variable { name, line, slot } => Evaluated {
            result: read_variable_spec(w, name, line, slot),
            world: w,
            used: 0,
        },
        ExprView::Assignment { target, line, value, slot } => eval_assignment_spec(
            target,
            line,
            *value,
            slot,
            w,
            budget,
        ),
        ExprView::Call { callee, line, arguments } => eval_call_spec(
            *callee,
            line,
            arguments,
            w,
            budget,
        ),
    }
}

/// What is written for the expressions of a `print` from `i` on: each value
/// and a space after it. An error stops it; what was written stays.
#[verifier::opaque]
pub open spec fn print_items_spec(es: Seq<ExprView>, i: int, w: World, budget: nat) -> Evaluated<
    (),
>
    decreases budget, 0nat, es, es.len() - i,
{
    if 0 <= i < es.len() {
        let v = eval_expr_spec(es[i], w, budget);
        match v.result {
            Ok(x) => plus_used(
                print_items_spec(
                    es,
                    i + 1,
                    World {
                        output: v.world.output.push(render_spec(x)).push(OutputView::Text(" "@)),
                        ..v.world
                    },
                    minus(budget, v.used),
                ),
                v.used,
            ),
            Err(m) => fail(m, v.world, v.used),
        }
    } else {
        give((), w, 0)
    }
}

/// The world when a block is entered: one scope more in the local
/// environment, or a first local environment at the top level.
pub open spec fn enter_block_spec(w: World) -> World {
    World {
        locals: match w.locals {
            Some(env) => Some(env.push_scope()),
            None => Some(EnvironmentView::empty()),
        },
        ..w
    }
}

/// The world when a block is left, where `top` says whether it was entered at
/// the top level: without a local environment, or with the scope of the block
/// closed.
pub open spec fn leave_block_spec(w: World, top: bool) -> World {
    World {
        locals: if top {
            None
        } else {
            match w.locals {
                Some(env) => Some(env.pop_scope()),
                None => None,
            }
        },
        ..w
    }
}

/// A block: its statements run in a scope of their own.
#[verifier::opaque]
pub open spec fn exec_block_spec(statements: Seq<StmtView>, w: World, budget: nat) -> Evaluated<
    Option<EvalValueView>,
>
    decreases budget, 1nat, StmtView::Block(statements), 0nat,
{
    proof {
        let node = StmtView::Block(statements);
        assert(decreases_to!(node => node->Block_0));
    }
    let inside = exec_stmts_spec(statements, 0, enter_block_spec(w), budget);
    Evaluated {
        result: inside.result,
        world: leave_block_spec(inside.world, w.locals is None),
        used: inside.used,
    }
}

/// The `if` statement with the given parts.
pub open spec fn if_node(
    condition: ExprView,
    true_branch: StmtView,
    else_branch: Option<StmtView>,
) -> StmtView {
    StmtView::If {
        condition,
        true_branch: Box::new(true_branch),
        else_branch: match else_branch {
            Some(branch) => Some(Box::new(branch)),
            None => None,
        },
    }
}

/// An `if` statement.
#[verifier::opaque]
pub open spec fn exec_if_spec(
    condition: ExprView,
    true_branch: StmtView,
    else_branch: Option<StmtView>,
    w: World,
    budget: nat,
) -> Evaluated<Option<EvalValueView>>
    decreases budget, 1nat, if_node(condition, true_branch, else_branch), 0nat,
{
    proof {
        let node = if_node(condition, true_branch, else_branch);
        assert(decreases_to!(node => *node->true_branch));
        if else_branch is Some {
            assert(decreases_to!(node => node->else_branch));
            assert(decreases_to!(node->else_branch => *node->else_branch->0));
        }
    }
    let c = eval_expr_spec(condition, w, budget);
    match c.result {
        Ok(x) => if truthy(x) {
            plus_used(exec_stmt_spec(true_branch, c.world, minus(budget, c.used)), c.used)
        } else {
            match else_branch {
                Some(branch) => plus_used(
                    exec_stmt_spec(branch, c.world, minus(budget, c.used)),
                    c.used,
                ),
                None => give(None, c.world, c.used),
            }
        },
        Err(m) => fail(m, c.world, c.used),
    }
}

/// A `while` statement: the condition is evaluated before every turn; a turn
/// takes one step; a `return` in the body ends the loop.
#[verifier::opaque]
pub open spec fn exec_while_spec(
    condition: ExprView,
    body: StmtView,
    w: World,
    budget: nat,
) -> Evaluated<Option<EvalValueView>>
    decreases budget, 1nat, (StmtView::While { condition, body: Box::new(body) }), 0nat,
{
    let c = eval_expr_spec(condition, w, budget);
    let left = minus(budget, c.used);
    match c.result {
        Ok(x) => if !truthy(x) {
            give(None, c.world, c.used)
        } else if left == 0 {
            fail(exhausted_message(), c.world, c.used)
        } else {
            let b = exec_stmt_spec(body, c.world, (left - 1) as nat);
            match b.result {
                Ok(None) => plus_used(
                    exec_while_spec(condition, body, b.world, minus((left - 1) as nat, b.used)),
                    c.used + 1 + b.used,
                ),
                _ => plus_used(b, c.used + 1),
            }
        },
        Err(m) => fail(m, c.world, c.used),
    }
}

/// What a statement does. The value, if there is one, is what a `return`
/// inside it returns.
#[verifier::opaque]
pub open spec fn exec_stmt_spec(s: StmtView, w: World, budget: nat) -> Evaluated<
    Option<EvalValueView>,
>
    decreases budget, 1nat, s, 1nat,
{
    match s {
        StmtView::Expr(e) => {
            let v = eval_expr_spec(e, w, budget);
            match v.result {
                Ok(_) => give(None, v.world, v.used),
                Err(m) => fail(m, v.world, v.used),
            }
        },
        StmtView::Print(es) => {
            let p = print_items_spec(es, 0, w, budget);
            match p.result {
                Ok(_) => give(
                    None,
                    World { output: p.world.output.push(OutputView::Text("\n"@)), ..p.world },
                    p.used,
                ),
                Err(m) => fail(m, p.world, p.used),
            }
        },
        StmtView::If { condition, true_branch, else_branch } => exec_if_spec(
            condition,
            *true_branch,
            match else_branch {
                Some(branch) => Some(*branch),
                None => None,
            },
            w,
            budget,
        ),
        StmtView::Block(statements) => exec_block_spec(statements, w, budget),
        StmtView::Var { name, line, initializer } => {
            let v = eval_expr_spec(initializer, w, budget);
            match v.result {
                Ok(x) => give(None, declare_spec(v.world, name, x), v.used),
                Err(m) => fail(m, v.world, v.used),
            }
        },
        StmtView::While { condition, body } => exec_while_spec(condition, *body, w, budget),
        StmtView::Function(f) => give(
            None,
            declare_global_spec(
                w,
                f.name,
                EvalValueView::Function(LoxFunctionView { declaration: f, closure: w.locals }),
            ),
            0,
        ),
        StmtView::Return(e) => {
            let v = eval_expr_spec(e, w, budget);
            match v.result {
                Ok(x) => give(Some(x), v.world, v.used),
                Err(m) => fail(m, v.world, v.used),
            }
        },
    }
}

/// What the statements from `i` on do, one after the other, up to the first
/// that returns or fails.
#[verifier::opaque]
pub open spec fn exec_stmts_spec(ss: Seq<StmtView>, i: int, w: World, budget: nat) -> Evaluated<
    Option<EvalValueView>,
>
    decreases budget, 1nat, ss, ss.len() - i,
{
    if 0 <= i < ss.len() {
        let r = exec_stmt_spec(ss[i], w, budget);
        match r.result {
            Ok(None) => plus_used(
                exec_stmts_spec(ss, i + 1, r.world, minus(budget, r.used)),
                r.used,
            ),
            _ => r,
        }
    } else {
        give(None, w, 0)
    }
}

} // verus!
