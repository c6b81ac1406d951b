use monkey_interpreter::ast::{Expression, Statement};
use monkey_interpreter::error::MonkeyError;
use monkey_interpreter::eval::{
    eval_infix_expression, eval_prefix_expression, Evaluator, DEFAULT_CALL_DEPTH,
};
use monkey_interpreter::evaluate;
use monkey_interpreter::lexer::Lexer;
use monkey_interpreter::object::{Object, ObjectType};
use monkey_interpreter::operator::{Infix, Prefix};
use monkey_interpreter::parser::Parser;

#[test]
fn eval_expression() {
    let probrem = [
        ("5", Object::Integer(5)),
        ("true", Object::Bool(true)),
        ("!true", Object::Bool(false)),
        ("!5", Object::Bool(false)),
        ("5 + 5 * 10", Object::Integer(55)),
        ("24 / 2 == 12", Object::Bool(true)),
        ("(2*3*4 == 24) == true", Object::Bool(true)),
        ("if (true) { 12; } else { 13; }", Object::Integer(12)),
        ("if (0 == 1) { 42; }", Object::Null),
        ("return 10; 43;", Object::Integer(10)),
        ("if (true) { if (true) { return 10; } return 12; } else { 14; }", Object::Integer(10)),
        ("let x = 5;", Object::Null),
        ("let x = 5; x*2;", Object::Integer(10)),
        ("\"foo bar\"", Object::String("foo bar".to_owned())),
    ];

    for (input, answer) in probrem.iter() {
        let solution = eval(input);
        assert_eq!(&solution, answer);
    }
}

fn eval(input: &str) -> Object {
    let mut env = Evaluator::new();
    let l = Lexer::new(input);
    let mut p = Parser::new(l);
    let program = p.parse_program().expect("Failed to parse!");

    env.eval(&program).expect("Failed to evaluate!")
}

#[test]
fn eval_function() {
    let input = "fn(x) { x + 2; };";
    let obj = eval(input);

    if let Object::Function { parameters, body, .. } = obj {
        if let Expression::Ident(ident) = &parameters[0] {
            assert_eq!(ident, "x");
            if let Statement::Block(blocks) = body {
                assert_eq!(blocks[0].to_string(), "(x+2);");
            }
        } else {
            panic!("");
        }
    } else {
        panic!("");
    }

    let input = "let f = fn(x) { x + 2; }; let x = 3; f(0);";
    assert_eq!(eval(input), Object::Integer(2));

    let input = "let f = fn(x) { x + 2; }; let x = 3; f(0); x;";
    assert_eq!(eval(input), Object::Integer(3));

    let input = "let a = 2; let f = fn(x) { x + a; }; f(0)";
    assert_eq!(eval(input), Object::Integer(2));
}

fn error(input: &str) -> MonkeyError {
    match evaluate(input) {
        Err(error) => error,
        Ok(value) => panic!("expected an error, but got {:?}", value),
    }
}

#[test]
fn arithmetic_follows_precedence() {
    assert_eq!(eval("5 + 5 * 10"), Object::Integer(55));
    assert_eq!(eval("24 / 2 == 12"), Object::Bool(true));
    assert_eq!(eval("(5 + 5) * 10"), Object::Integer(100));
    assert_eq!(eval("10 - 2 - 3"), Object::Integer(5));
    assert_eq!(eval("-5 + 2"), Object::Integer(-3));
    assert_eq!(eval("2 * 3 + 4 * 5"), Object::Integer(26));
    assert_eq!(eval("1 < 2"), Object::Bool(true));
    assert_eq!(eval("1 > 2"), Object::Bool(false));
    assert_eq!(eval("1 != 2"), Object::Bool(true));
    assert_eq!(eval("true == true"), Object::Bool(true));
    assert_eq!(eval("true != true"), Object::Bool(false));
}

#[test]
fn division_rounds_toward_zero() {
    assert_eq!(eval("7 / 2"), Object::Integer(3));
    assert_eq!(eval("-7 / 2"), Object::Integer(-3));
    assert_eq!(eval("7 / -2"), Object::Integer(-3));
    assert_eq!(eval("-7 / -2"), Object::Integer(3));
    assert_eq!(eval("0 / 5"), Object::Integer(0));
    assert_eq!(eval("6 / 3"), Object::Integer(2));
}

#[test]
fn division_by_zero_is_an_error() {
    assert!(matches!(error("1 / 0"), MonkeyError::DivisionByZero));
    assert!(matches!(error("0 / 0"), MonkeyError::DivisionByZero));
    assert!(matches!(error("let f = fn(x) { 10 / x }; f(0)"), MonkeyError::DivisionByZero));
}

#[test]
fn integers_wrap_around() {
    assert_eq!(eval("2147483647 + 1"), Object::Integer(i32::MIN));
    assert_eq!(eval("-2147483647 - 2"), Object::Integer(i32::MAX));
    assert_eq!(eval("65536 * 65536"), Object::Integer(0));
    assert_eq!(eval("2147483647 * 2"), Object::Integer(-2));
    assert_eq!(eval("(-2147483647 - 1) / -1"), Object::Integer(i32::MIN));
    assert_eq!(eval("-(-2147483647 - 1)"), Object::Integer(i32::MIN));
    assert_eq!(
        eval_infix_expression(&Infix::Slash, Object::Integer(i32::MIN), Object::Integer(-1)).unwrap(),
        Object::Integer(i32::MIN)
    );
}

#[test]
fn truthiness() {
    assert_eq!(eval("!true"), Object::Bool(false));
    assert_eq!(eval("!false"), Object::Bool(true));
    assert_eq!(eval("!0"), Object::Bool(false));
    assert_eq!(eval("!!0"), Object::Bool(true));
    assert_eq!(eval("!\"\""), Object::Bool(false));
    assert_eq!(eval("!(if (false) { 1 })"), Object::Bool(true));
    assert_eq!(eval("if (0) { 1 } else { 2 }"), Object::Integer(1));
    assert_eq!(eval("if (false) { 1 } else { 2 }"), Object::Integer(2));
    assert_eq!(eval("if (if (false) { 1 }) { 1 } else { 2 }"), Object::Integer(2));
    assert_eq!(eval("if (\"\") { 1 } else { 2 }"), Object::Integer(1));
    assert!(Object::Integer(0).is_truthy());
    assert!(Object::String(String::new()).is_truthy());
    assert!(Object::Bool(true).is_truthy());
    assert!(!Object::Bool(false).is_truthy());
    assert!(!Object::Null.is_truthy());
    assert!(Object::ReturnValue(Box::new(Object::Null)).is_truthy());
}

#[test]
fn if_without_alternative_is_null() {
    assert_eq!(eval("if (0 == 1) { 42; }"), Object::Null);
    assert_eq!(eval("if (1 == 1) { 42; }"), Object::Integer(42));
    assert_eq!(eval("if (true) { }"), Object::Null);
}

#[test]
fn minus_of_a_non_integer_is_null() {
    assert_eq!(eval("-true"), Object::Null);
    assert_eq!(eval("-\"a\""), Object::Null);
    assert_eq!(eval("-5"), Object::Integer(-5));
    assert_eq!(
        eval_prefix_expression(&Prefix::Minus, Object::Null).unwrap(),
        Object::Null
    );
    assert_eq!(
        eval_prefix_expression(&Prefix::Bang, Object::Null).unwrap(),
        Object::Bool(true)
    );
}

#[test]
fn operands_of_other_types_give_null() {
    assert_eq!(eval("\"a\" + \"b\""), Object::Null);
    assert_eq!(eval("\"a\" + 1"), Object::Null);
    assert_eq!(eval("1 + \"a\""), Object::Null);
    assert_eq!(eval("true == \"a\""), Object::Null);
    assert_eq!(eval("fn(){} == fn(){}"), Object::Null);
    assert_eq!(eval("(if (false) {1}) == (if (false) {1})"), Object::Null);
}

#[test]
fn integer_and_boolean_do_not_mix() {
    match error("1 + true") {
        MonkeyError::TypeMismatch(ObjectType::Integer, Infix::Plus, ObjectType::Bool) => {},
        other => panic!("unexpected {:?}", other),
    }
    match error("true == 1") {
        MonkeyError::TypeMismatch(ObjectType::Bool, Infix::Eq, ObjectType::Integer) => {},
        other => panic!("unexpected {:?}", other),
    }
}

#[test]
fn booleans_take_equality_only() {
    match error("true + false") {
        MonkeyError::UnknownOperator(ObjectType::Bool, Infix::Plus, ObjectType::Bool) => {},
        other => panic!("unexpected {:?}", other),
    }
    match error("true < false") {
        MonkeyError::UnknownOperator(ObjectType::Bool, Infix::LT, ObjectType::Bool) => {},
        other => panic!("unexpected {:?}", other),
    }
}

#[test]
fn undefined_identifier_is_an_error() {
    match error("foobar") {
        MonkeyError::IdentifierNotFound(name) => assert_eq!(name, "foobar"),
        other => panic!("unexpected {:?}", other),
    }
    match error("let a = 1; a + b") {
        MonkeyError::IdentifierNotFound(name) => assert_eq!(name, "b"),
        other => panic!("unexpected {:?}", other),
    }
    match error("let f = fn() { y }; f()") {
        MonkeyError::IdentifierNotFound(name) => assert_eq!(name, "y"),
        other => panic!("unexpected {:?}", other),
    }
    match error("puts(1)") {
        MonkeyError::IdentifierNotFound(name) => assert_eq!(name, "puts"),
        other => panic!("unexpected {:?}", other),
    }
}

#[test]
fn wrong_number_of_arguments_is_an_error() {
    match error("fn(x){x}(1,2)") {
        MonkeyError::IncorrectNumberOfArgs { expected, got } => {
            assert_eq!((expected, got), (1, 2));
        },
        other => panic!("unexpected {:?}", other),
    }
    match error("let f = fn(a, b) { a }; f(1)") {
        MonkeyError::IncorrectNumberOfArgs { expected, got } => {
            assert_eq!((expected, got), (2, 1));
        },
        other => panic!("unexpected {:?}", other),
    }
    match error("fn(){1}(1)") {
        MonkeyError::IncorrectNumberOfArgs { expected, got } => {
            assert_eq!((expected, got), (0, 1));
        },
        other => panic!("unexpected {:?}", other),
    }
}

#[test]
fn calling_what_is_no_function_is_an_error() {
    assert!(matches!(error("5(1)"), MonkeyError::NotAFunction));
    assert!(matches!(error("let a = true; a()"), MonkeyError::NotAFunction));
    assert!(matches!(error("\"f\"()"), MonkeyError::NotAFunction));
}

#[test]
fn the_callee_is_evaluated_before_the_arguments() {
    match error("f(g)") {
        MonkeyError::IdentifierNotFound(name) => assert_eq!(name, "f"),
        other => panic!("unexpected {:?}", other),
    }
    match error("let f = fn(a, b) { a }; f(x, y)") {
        MonkeyError::IdentifierNotFound(name) => assert_eq!(name, "x"),
        other => panic!("unexpected {:?}", other),
    }
}

#[test]
fn calls_nested_too_deep_are_an_error() {
    assert!(matches!(error("let f = fn(x) { f(x + 1) }; f(0)"), MonkeyError::CallDepthExceeded));
    let count = "let f = fn(n) { if (n == 0) { 0 } else { 1 + f(n - 1) } }; ";
    assert_eq!(eval(&format!("{} f({})", count, DEFAULT_CALL_DEPTH - 1)), Object::Integer(199));
    assert!(matches!(
        error(&format!("{} f({})", count, DEFAULT_CALL_DEPTH)),
        MonkeyError::CallDepthExceeded
    ));
}

#[test]
fn call_depth_can_be_set() {
    let program = Parser::new(Lexer::new("let f = fn(n) { if (n == 0) { 0 } else { f(n - 1) } }; f(3)"))
        .parse_program()
        .unwrap();
    let mut shallow = Evaluator::new().with_call_depth(3);
    assert!(matches!(shallow.eval(&program), Err(MonkeyError::CallDepthExceeded)));
    let mut deeper = Evaluator::new().with_call_depth(4);
    assert_eq!(deeper.eval(&program).unwrap(), Object::Integer(0));
    let mut none = Evaluator::new().with_call_depth(0);
    assert!(matches!(none.eval(&program), Err(MonkeyError::CallDepthExceeded)));
}

#[test]
fn closures_see_later_bindings_of_their_scope() {
    assert_eq!(eval("let a = 2; let f = fn(x) { x + a; }; f(0);"), Object::Integer(2));
    assert_eq!(eval("let a = 2; let f = fn(x) { x + a; }; let a = 5; f(0);"), Object::Integer(5));
    assert_eq!(eval("let f = fn(x) { x + a; }; let a = 7; f(1);"), Object::Integer(8));
    match error("let f = fn(x) { x + a; }; f(1); let a = 7;") {
        MonkeyError::IdentifierNotFound(name) => assert_eq!(name, "a"),
        other => panic!("unexpected {:?}", other),
    }
}

#[test]
fn scoping_is_lexical() {
    let input = "let a = 1; let f = fn() { a }; let g = fn() { let a = 2; f() }; g()";
    assert_eq!(eval(input), Object::Integer(1));
    let input = "let x = 1; let f = fn(x) { x }; f(5) + x";
    assert_eq!(eval(input), Object::Integer(6));
    let input = "let f = fn() { let y = 1; y }; f(); y";
    match error(input) {
        MonkeyError::IdentifierNotFound(name) => assert_eq!(name, "y"),
        other => panic!("unexpected {:?}", other),
    }
}

#[test]
fn closures_keep_the_scope_of_their_call() {
    let input = "let adder = fn(a) { fn(b) { a + b } }; let two = adder(2); let three = adder(3); \
                 two(10) * 100 + three(10)";
    assert_eq!(eval(input), Object::Integer(1213));
    let input = "let twice = fn(f, x) { f(f(x)) }; twice(fn(n) { n * 3 }, 7)";
    assert_eq!(eval(input), Object::Integer(63));
}

#[test]
fn return_ends_the_function_not_the_program() {
    let input = "let f = fn(x) { if (x) { return 1; } 2 }; f(true) * 10 + f(false)";
    assert_eq!(eval(input), Object::Integer(12));
    let input = "let f = fn() { if (true) { if (true) { return 1; } return 2; } 3 }; f() + 10";
    assert_eq!(eval(input), Object::Integer(11));
    assert_eq!(eval("1; return 2; 3"), Object::Integer(2));
    assert_eq!(eval("if (true) { return 4; 5 } 6"), Object::Integer(4));
    assert_eq!(eval(""), Object::Null);
}

#[test]
fn bindings_stay_between_programs() {
    let mut evaluator = Evaluator::new();
    let first = Parser::new(Lexer::new("let a = 40; let f = fn(x) { x + a };")).parse_program().unwrap();
    let second = Parser::new(Lexer::new("f(2)")).parse_program().unwrap();
    assert_eq!(evaluator.eval(&first).unwrap(), Object::Null);
    assert_eq!(evaluator.eval(&second).unwrap(), Object::Integer(42));
    assert_eq!(evaluator.get("a"), Some(Object::Integer(40)));
    assert_eq!(evaluator.get("b"), None);
    evaluator.set("a".to_owned(), Object::Integer(1));
    assert_eq!(evaluator.eval(&second).unwrap(), Object::Integer(3));
}

#[test]
fn an_error_inside_a_call_leaves_the_scope_of_the_caller_current() {
    let mut evaluator = Evaluator::new();
    let first = Parser::new(Lexer::new("let a = 1; let f = fn(a) { a + missing }; f(2)"))
        .parse_program()
        .unwrap();
    assert!(matches!(evaluator.eval(&first), Err(MonkeyError::IdentifierNotFound(_))));
    assert_eq!(evaluator.get("a"), Some(Object::Integer(1)));
}

#[test]
fn values_as_text() {
    assert_eq!(eval("5").to_string(), "5");
    assert_eq!(eval("-5").to_string(), "-5");
    assert_eq!(eval("0").to_string(), "0");
    assert_eq!(eval("2147483647").to_string(), "2147483647");
    assert_eq!(eval("-2147483647 - 1").to_string(), "-2147483648");
    assert_eq!(eval("1200300").to_string(), "1200300");
    assert_eq!(eval("true").to_string(), "true");
    assert_eq!(eval("1 > 2").to_string(), "false");
    assert_eq!(eval("if (false) { 1 }").to_string(), "null");
    assert_eq!(eval("\"foo bar\"").to_string(), "foo bar");
    assert_eq!(eval("fn(x, y) { x + y; }").to_string(), "fn(x,y){(x+y);}");
    assert_eq!(eval("fn() { }").to_string(), "fn(){}");
    assert_eq!(Object::ReturnValue(Box::new(Object::Integer(7))).to_string(), "7");
}

#[test]
fn equality_of_values() {
    assert_eq!(Object::Null, Object::Null);
    assert_ne!(Object::Integer(1), Object::Bool(true));
    assert_ne!(Object::String("1".to_owned()), Object::Integer(1));
    assert_ne!(eval("fn() { }"), eval("fn() { }"));
    assert_ne!(
        Object::ReturnValue(Box::new(Object::Integer(1))),
        Object::ReturnValue(Box::new(Object::Integer(1)))
    );
    assert_eq!(eval("\"a\"").clone(), Object::String("a".to_owned()));
}

#[test]
fn evaluate_reports_syntax_errors() {
    assert!(matches!(error("let = 1"), MonkeyError::UnexpectedToken { .. }));
    assert!(matches!(error("1 +"), MonkeyError::InvalidToken(_)));
    assert!(matches!(error("99999999999"), MonkeyError::InvalidToken(_)));
}

#[test]
fn errors_can_be_copied() {
    let copy = error("foobar").clone();
    match copy {
        MonkeyError::IdentifierNotFound(name) => assert_eq!(name, "foobar"),
        other => panic!("unexpected {:?}", other),
    }
    let copy = error("fn(x){x}(1,2)").clone();
    assert!(matches!(copy, MonkeyError::IncorrectNumberOfArgs { expected: 1, got: 2 }));
    let copy = error("1 +").clone();
    assert!(matches!(copy, MonkeyError::InvalidToken(_)));
}

#[test]
fn values_are_appended_as_text() {
    let mut out = "value: ".to_owned();
    Object::Integer(-12).write(&mut out);
    out.push(' ');
    Object::Bool(true).write(&mut out);
    out.push(' ');
    Object::Null.write(&mut out);
    assert_eq!(out, "value: -12 true null");
}

#[test]
fn rebinding_a_name_replaces_its_value() {
    assert_eq!(eval("let a = 1; let a = a + 1; let a = a * 10; a"), Object::Integer(20));
    assert_eq!(eval("let a = 1; let b = 2; let a = 3; a + b"), Object::Integer(5));
}
