use lox::eval_value::{EvalValue, Output};
use lox::expr::{new_binary, new_variable, Expr};
use lox::interpreter::InterpreterContext;
use lox::number::Number;
use lox::parser::parse;
use lox::resolver::Resolver;
use lox::scanner::scan;
use lox::stmt::new_expr;
use lox::token::{Token, TokenType};

fn written(context: &InterpreterContext) -> String {
    let mut text = String::new();
    for piece in context.output() {
        match piece {
            Output::Text(s) => text.push_str(s),
            Output::Number(n) => text.push_str(&f32::from_bits(n.to_bits()).to_string()),
        }
    }
    text
}

fn run_in(context: &mut InterpreterContext, source: &str) -> Result<Option<EvalValue>, String> {
    let tokens = scan(source).map_err(|e| e[0].clone())?;
    let statements = parse(&tokens).map_err(|e| e[0].clone())?;
    let mut resolver = Resolver::new();
    let resolved = resolver.resolve(&statements)?;
    context.interpret(&resolved)
}

fn run(source: &str) -> (Result<Option<EvalValue>, String>, String) {
    let mut context = InterpreterContext::new();
    let result = run_in(&mut context, source);
    let text = written(&context);
    (result, text)
}

fn number(value: &EvalValue) -> f32 {
    match value {
        EvalValue::Number(n) => f32::from_bits(n.to_bits()),
        other => panic!("not a number: {:?}", other),
    }
}

#[test]
fn shadowing_in_a_block() {
    let (result, text) = run("var a = 1; { var a = 2; print a; } print a;");
    assert!(result.is_ok());
    assert_eq!(text, "2 \n1 \n");
}

#[test]
fn closures_share_their_cells() {
    let (result, text) = run(
        "fun make() { var i = 0; fun count() { i = i + 1; print i; } return count; }\n\
         var counter = make(); counter(); counter();",
    );
    assert_eq!(result.map(|v| v.is_none()), Ok(true));
    assert_eq!(text, "1 \n2 \n");
}

#[test]
fn two_closures_of_one_call_share_one_cell() {
    let (result, text) = run(
        "fun make() { var i = 10; fun up() { i = i + 1; } fun show() { print i; } up(); show(); up(); show(); }\n\
         make();",
    );
    assert!(result.is_ok());
    assert_eq!(text, "11 \n12 \n");
}

#[test]
fn recursion_computes_a_factorial() {
    let mut context = InterpreterContext::new();
    let result = run_in(
        &mut context,
        "fun factorial(n) { if (n <= 1) return 1; return n * factorial(n - 1); }\n\
         print factorial(5); return factorial(5);",
    );
    assert_eq!(written(&context), "120 \n");
    assert_eq!(number(&result.unwrap().unwrap()), 120.0);
    drop(context);
}

#[test]
fn a_function_can_call_itself_after_its_global_name_is_gone() {
    let (result, text) = run(
        "fun down(n) { if (n > 0) { print n; down(n - 1); } }\n\
         var keep = down; down = nil; keep(2);",
    );
    assert!(result.is_ok());
    assert_eq!(text, "2 \n1 \n");
}

#[test]
fn arity_mismatch_names_both_counts_and_the_line() {
    let (result, _) = run("fun add(a, b) { return a + b; }\nadd(1);");
    assert_eq!(result.unwrap_err(), "Function expected 2 but got 1, at line 2");
}

#[test]
fn calling_a_number_fails() {
    let (result, _) = run("var a = 1;\n\na();");
    assert_eq!(result.unwrap_err(), "Not a callable object at line 3");
}

#[test]
fn operators_check_their_operands() {
    assert_eq!(run("\"a\" - 1;").0.unwrap_err(), "Must be numbers");
    assert_eq!(run("1 + \"a\";").0.unwrap_err(), "Must be numbers or string");
    assert_eq!(run("1 < \"a\";").0.unwrap_err(), "Must be numbers");
    assert_eq!(run("-\"a\";").0.unwrap_err(), "Unary negate expected number");
    let (result, text) = run("print \"a\" + \"b\";");
    assert!(result.is_ok());
    assert_eq!(text, "ab \n");
}

#[test]
fn truthiness_of_numbers_and_strings() {
    let (result, text) = run("print !0; print !\"\"; print !\"x\"; print !1; print !nil;");
    assert!(result.is_ok());
    assert_eq!(text, "true \ntrue \nfalse \nfalse \ntrue \n");
}

#[test]
fn for_loop_counts_and_drops_its_variable() {
    let (result, text) = run("for (var i = 0; i < 3; i = i + 1) print i;\nprint i;");
    assert_eq!(text, "0 \n1 \n2 \n");
    assert_eq!(result.unwrap_err(), "Undefined variable i at line 2");
}

#[test]
fn arithmetic_is_that_of_binary32() {
    let (result, text) = run("print 1 + 2 * 3 - 4 / 8, 0.1 + 0.2, 1 / 0, -(1 / 0), 7 - 10;");
    assert!(result.is_ok());
    let expected = format!(
        "{} {} {} {} {} \n",
        1.0f32 + 2.0 * 3.0 - 4.0 / 8.0,
        0.1f32 + 0.2f32,
        f32::INFINITY,
        f32::NEG_INFINITY,
        7.0f32 - 10.0
    );
    assert_eq!(text, expected);
}

#[test]
fn comparisons_are_those_of_binary32() {
    let (result, text) = run(
        "print 1 < 2, 2 < 1, 1 <= 1, 2 > 1, 1 >= 2, 1 == 1, 1 != 1, 0 == -0, 0/0 == 0/0, 0/0 != 0/0, -1 < 0;",
    );
    assert!(result.is_ok());
    assert_eq!(text, "true false true true false true false true false true true \n");
}

#[test]
fn and_and_or_give_the_operand_that_decides() {
    let (result, text) = run(
        "var n = 0; fun touch() { n = n + 1; return 5; }\n\
         print 0 and touch(), 1 and touch(), 2 or touch(), nil or touch(), n;",
    );
    assert!(result.is_ok());
    assert_eq!(text, "0 5 2 5 2 \n");
}

#[test]
fn print_keeps_what_it_wrote_before_an_error() {
    let (result, text) = run("print 1, 2, missing, 4;");
    assert_eq!(result.unwrap_err(), "Undefined variable missing at line 1");
    assert_eq!(text, "1 2 ");
}

#[test]
fn assignment_needs_a_declared_variable() {
    let (result, _) = run("a = 1;");
    assert_eq!(result.unwrap_err(), "Undefined variable a at line 1");
    let (result, text) = run("var a = 1; print a = 2; print a;");
    assert!(result.is_ok());
    assert_eq!(text, "2 \n2 \n");
}

#[test]
fn return_leaves_loops_and_blocks() {
    let (result, text) = run(
        "fun first(limit) { var i = 0; while (true) { if (i >= limit) { return i; } i = i + 1; } }\n\
         print first(3); print first(0);",
    );
    assert!(result.is_ok());
    assert_eq!(text, "3 \n0 \n");
}

#[test]
fn loops_and_calls_take_steps() {
    let mut context = InterpreterContext::new();
    let source = "fun f() { return 1; } var i = 0; while (i < 3) { i = i + f(); }";
    assert!(run_in(&mut context, source).is_ok());
    assert_eq!(context.budget(), u64::MAX - 6);
    context.refill_budget();
    assert_eq!(context.budget(), u64::MAX);
}

#[test]
fn values_render_as_texts_and_numbers() {
    let (result, text) = run("fun f() {} print f, nil, true, false, \"s\", 1.5;");
    assert!(result.is_ok());
    assert_eq!(text, "Lox function <f> nil true false s 1.5 \n");
    assert_eq!(
        EvalValue::Number(Number::from_bits(2.5f32.to_bits())).render(),
        Output::Number(Number::from_bits(2.5f32.to_bits()))
    );
}

#[test]
fn the_session_keeps_its_globals() {
    let mut context = InterpreterContext::new();
    assert!(run_in(&mut context, "var total = 1; fun bump() { total = total + 1; }").is_ok());
    assert!(run_in(&mut context, "bump(); bump();").is_ok());
    assert!(run_in(&mut context, "print total;").is_ok());
    assert_eq!(written(&context), "3 \n");
}

#[test]
fn an_operator_that_is_none_is_refused_after_its_operands() {
    let one = || Expr::Number(Number::from_bits(1.0f32.to_bits()));
    let mut context = InterpreterContext::new();
    let odd = new_expr(new_binary(one(), Token::new(TokenType::Comma, 1), one()));
    assert_eq!(context.execute(&odd).unwrap_err(), "Unsupported binary operator");
    let unbound = new_expr(new_binary(
        one(),
        Token::new(TokenType::Comma, 1),
        new_variable("missing", 7),
    ));
    assert_eq!(
        context.interpret(&[unbound]).unwrap_err(),
        "Undefined variable missing at line 7"
    );
}

#[test]
fn lines_are_written_in_decimal() {
    let mut source = String::new();
    for _ in 0..1204 {
        source.push('\n');
    }
    source.push_str("missing;");
    assert_eq!(run(&source).0.unwrap_err(), "Undefined variable missing at line 1205");
    assert_eq!(run("\n\n\n\n\n\n\n\n\nf();").0.unwrap_err(), "Undefined variable f at line 10");
}

#[test]
fn an_expression_gives_its_value() {
    let mut context = InterpreterContext::new();
    let sum = new_binary(
        Expr::Number(Number::from_bits(1.5f32.to_bits())),
        Token::new(TokenType::Plus, 1),
        Expr::Number(Number::from_bits(2.0f32.to_bits())),
    );
    assert_eq!(number(&context.evaluate_expr(&sum).unwrap()), 3.5);
    assert_eq!(context.budget(), u64::MAX);
}

#[test]
fn slots_and_names_agree_in_nested_scopes() {
    let source = "\
var g = 100;
fun outer(a, b) {
    var total = a;
    {
        var a = b * 2;
        total = total + a;
        for (var i = 0; i < 3; i = i + 1) {
            var step = i + g;
            total = total + step;
        }
        fun inner(x) {
            var y = x + total + a;
            if (y > 0) { var z = y; y = z + b; }
            return y;
        }
        print inner(1);
        total = total + 1;
        print inner(1);
    }
    print a, b, total;
    return inner;
}
var f = outer(1, 2);
print f(10);
g = 0;
print outer(0, 0)(0);
";
    let (result, text) = run(source);
    assert_eq!(result.map(|v| v.is_none()), Ok(true));
    // total = 1 + 4 + (100 + 101 + 102) = 308
    let expected = format!(
        "{} \n{} \n{} {} {} \n{} \n{} \n{} \n{} {} {} \n{} \n",
        1 + 308 + 4 + 2,
        1 + 309 + 4 + 2,
        1,
        2,
        309,
        10 + 309 + 4 + 2,
        0 + 3 + 0 + 0 + 1,
        0 + 4 + 0 + 0 + 1,
        0,
        0,
        4,
        0 + 4 + 0 + 0
    );
    assert_eq!(text, expected);
}

#[test]
fn unresolved_statements_run_by_name() {
    let source = "fun twice(n) { var m = n + n; { var n = m; return n + 1; } } print twice(4);";
    let tokens = scan(source).unwrap();
    let statements = parse(&tokens).unwrap();
    let mut context = InterpreterContext::new();
    assert!(context.interpret(&statements).is_ok());
    assert_eq!(written(&context), "9 \n");
}

#[test]
fn output_is_taken_once() {
    let mut context = InterpreterContext::new();
    assert!(run_in(&mut context, "print 1; print 2;").is_ok());
    assert_eq!(context.output().len(), 6);
    let taken = context.take_output();
    assert_eq!(taken.len(), 6);
    assert_eq!(taken[1], Output::Text(" ".to_owned()));
    assert_eq!(taken[2], Output::Text("\n".to_owned()));
    assert!(context.output().is_empty());
    assert!(run_in(&mut context, "print 3;").is_ok());
    assert_eq!(written(&context), "3 \n");
}

#[test]
fn globals_can_be_read_after_a_run() {
    let mut context = InterpreterContext::new();
    assert!(run_in(&mut context, "var a = 1; { var b = 2; a = a + b; }").is_ok());
    let a = context.global_environment().get_var(context.store(), "a").unwrap();
    assert_eq!(number(&a), 3.0);
    assert!(context.global_environment().get_var(context.store(), "b").is_none());
    assert_eq!(context.global_environment().len(), 1);
}

#[test]
fn a_stale_slot_is_not_used() {
    let (result, text) = run("{ if (false) var x = 1; var y = 2; var z = 3; print y; y = 5; print y, z; }");
    assert!(result.is_ok());
    assert_eq!(text, "2 \n5 3 \n");
}

#[test]
fn a_call_of_a_call_runs() {
    let (result, text) = run(
        "fun adder(a) { fun add(b) { return a + b; } return add; } print adder(1)(2);",
    );
    assert!(result.is_ok());
    assert_eq!(text, "3 \n");
}
