use lox::environment::{Environment, Store};
use lox::eval_value::EvalValue;
use lox::number::Number;

fn num(value: f32) -> EvalValue {
    EvalValue::Number(Number::from_bits(value.to_bits()))
}

fn read(env: &Environment, store: &Store, name: &str) -> Option<f32> {
    env.get_var(store, name).map(|v| match v {
        EvalValue::Number(n) => f32::from_bits(n.to_bits()),
        other => panic!("not a number: {:?}", other),
    })
}

#[test]
fn lookup_finds_the_innermost_binding() {
    let mut store = Store::new();
    let mut env = Environment::new();
    env.define_var(&mut store, "a", num(1.0));
    env.push_scope();
    env.define_var(&mut store, "a", num(2.0));
    assert_eq!(read(&env, &store, "a"), Some(2.0));
    assert_eq!(env.get_var_idx("a"), Some(1));
    env.pop_scope();
    assert_eq!(read(&env, &store, "a"), Some(1.0));
    assert_eq!(env.get_var_idx("a"), Some(0));
    assert_eq!(read(&env, &store, "b"), None);
    assert_eq!(env.get_var_idx("b"), None);
}

#[test]
fn declaring_again_in_one_scope_replaces_the_binding() {
    let mut store = Store::new();
    let mut env = Environment::new();
    env.define_var(&mut store, "a", num(1.0));
    env.define_var(&mut store, "b", num(5.0));
    env.define_var(&mut store, "a", num(2.0));
    assert_eq!(env.len(), 2);
    assert_eq!(read(&env, &store, "a"), Some(2.0));
    assert_eq!(env.get_var_idx("a"), Some(0));
    assert_eq!(store.len(), 3);
}

#[test]
fn popping_a_scope_drops_what_it_declared() {
    let mut store = Store::new();
    let mut env = Environment::new();
    env.define_var(&mut store, "a", num(1.0));
    env.push_scope();
    env.define_var(&mut store, "b", num(2.0));
    env.define_var(&mut store, "c", num(3.0));
    assert_eq!(env.len(), 3);
    env.pop_scope();
    assert_eq!(env.len(), 1);
    assert_eq!(read(&env, &store, "b"), None);
    env.pop_scope();
    assert_eq!(env.len(), 0);
}

#[test]
fn assignment_writes_the_shared_cell() {
    let mut store = Store::new();
    let mut outer = Environment::new();
    outer.define_var(&mut store, "a", num(1.0));
    let mut captured = Environment::new_capture_env(&outer);
    captured.set_var(&mut store, "a", num(7.0));
    assert_eq!(read(&outer, &store, "a"), Some(7.0));
    outer.set_var(&mut store, "a", num(8.0));
    assert_eq!(read(&captured, &store, "a"), Some(8.0));
}

#[test]
fn a_capture_keeps_its_declarations_to_itself() {
    let mut store = Store::new();
    let mut outer = Environment::new();
    outer.define_var(&mut store, "a", num(1.0));
    let mut captured = Environment::new_capture_env(&outer);
    captured.define_var(&mut store, "a", num(2.0));
    captured.define_var(&mut store, "b", num(3.0));
    assert_eq!(read(&captured, &store, "a"), Some(2.0));
    assert_eq!(captured.get_var_idx("a"), Some(1));
    assert_eq!(read(&outer, &store, "a"), Some(1.0));
    assert_eq!(read(&outer, &store, "b"), None);
    assert_eq!(outer.len(), 1);
}

#[test]
fn assignment_to_an_unbound_name_binds_it() {
    let mut store = Store::new();
    let mut env = Environment::new();
    env.push_scope();
    env.set_var(&mut store, "a", num(4.0));
    assert_eq!(read(&env, &store, "a"), Some(4.0));
    assert_eq!(env.len(), 1);
}

#[test]
fn slots_read_and_write_cells() {
    let mut store = Store::new();
    let mut env = Environment::new();
    env.define_var(&mut store, "a", num(1.0));
    env.define_var(&mut store, "b", num(2.0));
    env.set_at(&mut store, 1, num(9.0));
    assert_eq!(read(&env, &store, "b"), Some(9.0));
    assert_eq!(env.cell_at(1), 1);
    match env.get_at(&store, 0) {
        EvalValue::Number(n) => assert_eq!(f32::from_bits(n.to_bits()), 1.0),
        other => panic!("not a number: {:?}", other),
    }
    let copy = env.duplicate();
    assert_eq!(copy.len(), 2);
    assert_eq!(read(&copy, &store, "a"), Some(1.0));
}
