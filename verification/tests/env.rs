use monkey_interpreter::env::Environment;
use monkey_interpreter::eval::Evaluator;
use monkey_interpreter::lexer::Lexer;
use monkey_interpreter::object::Object;
use monkey_interpreter::parser::Parser;

#[test]
fn a_new_environment_binds_nothing() {
    let env = Environment::new();
    assert_eq!(env.get("a"), None);
    assert_eq!(env.current(), 0);
}

#[test]
fn set_and_get() {
    let mut env = Environment::new();
    env.set("a".to_owned(), Object::Integer(1));
    env.set("b".to_owned(), Object::Bool(true));
    assert_eq!(env.get("a"), Some(Object::Integer(1)));
    assert_eq!(env.get("b"), Some(Object::Bool(true)));
    assert_eq!(env.get("c"), None);
    env.set("a".to_owned(), Object::Integer(2));
    assert_eq!(env.get("a"), Some(Object::Integer(2)));
    assert_eq!(env.lookup(&"a".to_owned()), Some(Object::Integer(2)));
}

#[test]
fn an_inner_scope_sees_and_hides_the_outer_one() {
    let mut host = Environment::new();
    host.set("a".to_owned(), Object::Integer(1));
    host.set("b".to_owned(), Object::Integer(2));
    let mut env = Environment::virtual_environment(host);
    assert_eq!(env.current(), 1);
    assert_eq!(env.get("a"), Some(Object::Integer(1)));
    env.set("a".to_owned(), Object::Integer(10));
    assert_eq!(env.get("a"), Some(Object::Integer(10)));
    assert_eq!(env.get("b"), Some(Object::Integer(2)));
    env.select(0);
    assert_eq!(env.get("a"), Some(Object::Integer(1)));
}

#[test]
fn a_binding_made_later_in_the_outer_scope_is_seen_from_the_inner_one() {
    let mut env = Environment::new();
    let outer = env.current();
    let previous = env.enter(outer);
    assert_eq!(previous, outer);
    let inner = env.current();
    assert_eq!(env.get("a"), None);
    env.select(outer);
    env.set("a".to_owned(), Object::Integer(3));
    env.select(inner);
    assert_eq!(env.get("a"), Some(Object::Integer(3)));
}

#[test]
fn a_scope_does_not_see_its_siblings() {
    let mut env = Environment::new();
    env.enter(0);
    env.set("a".to_owned(), Object::Integer(1));
    env.select(0);
    env.enter(0);
    assert_eq!(env.get("a"), None);
    env.select(1);
    assert_eq!(env.get("a"), Some(Object::Integer(1)));
}

#[test]
fn select_of_a_missing_scope_changes_nothing() {
    let mut env = Environment::new();
    env.select(7);
    assert_eq!(env.current(), 0);
}

#[test]
fn an_evaluator_from_an_environment_sees_its_bindings() {
    let mut env = Environment::new();
    env.set("a".to_owned(), Object::Integer(20));
    let mut evaluator = Evaluator::from(env);
    let program = Parser::new(Lexer::new("a + 1")).parse_program().unwrap();
    assert_eq!(evaluator.eval(&program).unwrap(), Object::Integer(21));
}

#[test]
fn a_copy_of_an_environment_is_on_its_own() {
    let mut env = Environment::new();
    env.set("a".to_owned(), Object::Integer(1));
    let mut copy = env.clone();
    copy.set("a".to_owned(), Object::Integer(2));
    copy.set("b".to_owned(), Object::Integer(3));
    assert_eq!(env.get("a"), Some(Object::Integer(1)));
    assert_eq!(env.get("b"), None);
    assert_eq!(copy.get("a"), Some(Object::Integer(2)));
    assert_eq!(copy.current(), env.current());
}

#[test]
fn a_copy_of_an_evaluator_keeps_its_bindings() {
    let mut evaluator = Evaluator::new().with_call_depth(5);
    evaluator.set("a".to_owned(), Object::Integer(1));
    let mut copy = evaluator.clone();
    let program = Parser::new(Lexer::new("let a = a + 1; a")).parse_program().unwrap();
    assert_eq!(copy.eval(&program).unwrap(), Object::Integer(2));
    assert_eq!(evaluator.get("a"), Some(Object::Integer(1)));
}

#[test]
fn a_function_bound_to_a_name_sees_that_name() {
    let mut evaluator = Evaluator::new();
    let program = Parser::new(Lexer::new(
        "let down = fn(n) { if (n == 0) { 0 } else { down(n - 1) } }; down(5)",
    ))
    .parse_program()
    .unwrap();
    assert_eq!(evaluator.eval(&program).unwrap(), Object::Integer(0));
}
