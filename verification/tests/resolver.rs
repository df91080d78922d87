use lox::expr::Expr;
use lox::parser::parse;
use lox::resolver::Resolver;
use lox::scanner::scan;
use lox::stmt::Stmt;

fn resolved(source: &str) -> Vec<Stmt> {
    let tokens = scan(source).unwrap();
    let statements = parse(&tokens).unwrap();
    let mut resolver = Resolver::new();
    let out = resolver.resolve(&statements).unwrap();
    assert_eq!(resolver.depth(), 0);
    out
}

fn printed_slot(statement: &Stmt) -> Option<usize> {
    match statement {
        Stmt::Print(print) => match &print.exprs[0] {
            Expr::Variable(variable) => variable.stack_idx,
            other => panic!("not a variable: {:?}", other),
        },
        other => panic!("not a print: {:?}", other),
    }
}

fn block(statement: &Stmt) -> &Vec<Stmt> {
    match statement {
        Stmt::Block(block) => &block.statements,
        other => panic!("not a block: {:?}", other),
    }
}

#[test]
fn globals_stay_unresolved() {
    let out = resolved("var a = 1; print a;");
    assert_eq!(printed_slot(&out[1]), None);
}

#[test]
fn locals_of_a_block_get_their_slots() {
    let out = resolved("{ var a = 1; var b = 2; print a; print b; { var a = 3; print a; } print a; }");
    let outer = block(&out[0]);
    assert_eq!(printed_slot(&outer[2]), Some(0));
    assert_eq!(printed_slot(&outer[3]), Some(1));
    assert_eq!(printed_slot(&block(&outer[4])[1]), Some(2));
    assert_eq!(printed_slot(&outer[5]), Some(0));
}

#[test]
fn a_declaration_does_not_see_itself() {
    let out = resolved("{ var a = a; }");
    match &block(&out[0])[0] {
        Stmt::Var(var) => match &var.initializer {
            Expr::Variable(variable) => assert_eq!(variable.stack_idx, None),
            other => panic!("not a variable: {:?}", other),
        },
        other => panic!("not a declaration: {:?}", other),
    }
}

#[test]
fn only_declared_variables_get_slots() {
    let out = resolved(
        "fun outer(p) { var x = 1; fun inner(q) { print p; print x; print q; print inner; print outer; } print inner; }",
    );
    let outer = match &out[0] {
        Stmt::Function(function) => function,
        other => panic!("not a function: {:?}", other),
    };
    let inner = match &outer.statements[1] {
        Stmt::Function(function) => function,
        other => panic!("not a function: {:?}", other),
    };
    assert_eq!(printed_slot(&inner.statements[0]), None);
    assert_eq!(printed_slot(&inner.statements[1]), Some(2));
    assert_eq!(printed_slot(&inner.statements[2]), None);
    assert_eq!(printed_slot(&inner.statements[3]), None);
    assert_eq!(printed_slot(&inner.statements[4]), None);
    assert_eq!(printed_slot(&outer.statements[2]), None);
}

#[test]
fn assignments_get_their_slots() {
    let out = resolved("{ var a = 1; a = 2; b = 3; }");
    let statements = block(&out[0]);
    match &statements[1] {
        Stmt::Expr(Expr::Assignment(assignment)) => assert_eq!(assignment.stack_idx, Some(0)),
        other => panic!("not an assignment: {:?}", other),
    }
    match &statements[2] {
        Stmt::Expr(Expr::Assignment(assignment)) => assert_eq!(assignment.stack_idx, None),
        other => panic!("not an assignment: {:?}", other),
    }
}

#[test]
fn resolving_changes_nothing_but_slots() {
    let source = "fun f(a) { if (a) { return a + 1; } else print -a, !a; while (a < 3) a = f(a); }";
    let tokens = scan(source).unwrap();
    let statements = parse(&tokens).unwrap();
    let mut resolver = Resolver::new();
    let once = resolver.resolve(&statements).unwrap();
    let twice = resolver.resolve(&once).unwrap();
    assert_eq!(once, twice);
    assert_eq!(resolver.execute(&statements[0]).unwrap(), once[0]);
}

#[test]
fn a_parameter_read_stays_unresolved() {
    let out = resolved("fun f(a) { print a; var b = a; print b; var a = 1; print a; }");
    let f = match &out[0] {
        Stmt::Function(function) => function,
        other => panic!("not a function: {:?}", other),
    };
    assert_eq!(printed_slot(&f.statements[0]), None);
    assert_eq!(printed_slot(&f.statements[2]), Some(2));
    assert_eq!(printed_slot(&f.statements[4]), Some(1));
}
