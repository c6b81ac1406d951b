use monkey_interpreter::ast::{Expression, Program, Statement};
use monkey_interpreter::error::MonkeyError;
use monkey_interpreter::lexer::Lexer;
use monkey_interpreter::parser::Parser;
use monkey_interpreter::token::Token;

#[test]
fn parser_let_test1() {
    let input = r#"
let x = 5;
let y = 10;
let foobar = 838383;"#;

    let l = Lexer::new(&input);
    let mut p = Parser::new(l);
    let program = p.parse_program().unwrap();

    if program.statements.len() != 3 {
        panic!(
            "program.statements does not contain 3 statements. got {}",
            program.statements.len()
        );
    }
    let expected_identifier = vec!["x", "y", "foobar"];

    for (i, ident) in expected_identifier.iter().enumerate() {
        test_let_statement(&program.statements[i], ident);
    }
}

fn test_let_statement(stmt: &Statement, expected_name: &str) {
    if let Statement::Let { ident, .. } = stmt {
        if let Expression::Ident(ident) = ident {
            assert_eq!(ident, expected_name);
        }
    } else {
        panic!("expected ast::Statement::Let, but got {:?}", stmt);
    }
}

#[test]
fn parser_return_test() {
    let input = r#"
return 5;
return 10;
return 993322;"#;

    let l = Lexer::new(&input);
    let mut p = Parser::new(l);
    let program = p.parse_program().unwrap();

    if program.statements.len() != 3 {
        panic!(
            "program.statements does not contain 3 statements. got {}",
            program.statements.len()
        );
    }

    for stmt in program.statements.iter() {
        if let Statement::Return(_) = stmt {
        } else {
            panic!("expected Return, but got {:?}", &stmt);
        }
    }
}

#[test]
fn test_identifier_expression() {
    let input = "foobar;";

    let l = Lexer::new(&input);
    let mut p = Parser::new(l);
    let program = p.parse_program().expect("Failed to parse input!");

    if program.statements.len() != 1 {
        panic!("program should have one statement, but has {}", program.statements.len());
    }

    let stmt = &program.statements[0];
    if let Statement::Expression(expr) = stmt {
        if let Expression::Ident(ident) = expr {
            assert_eq!(ident, "foobar");
        } else {
            panic!("Incorrect expression");
        }
    } else {
        panic!("Incorrect statement");
    }
}

#[test]
fn test_integer_literal_expression() {
    let input = "5;";

    let l = Lexer::new(&input);
    let mut p = Parser::new(l);
    let program = p.parse_program().expect("Failed to parse input!");

    if program.statements.len() != 1 {
        panic!("program should have one statement, but has {}", program.statements.len());
    }

    let stmt = &program.statements[0];
    if let Statement::Expression(expr) = stmt {
        if let Expression::Integer(value) = expr {
            assert_eq!(value, &5);
        } else {
            panic!("Incorrect expression");
        }
    } else {
        panic!("Incorrect statement");
    }
}

#[test]
fn operator_precedence() {
    let inputs = ["5 + 5 * 10;", "- a * b"];
    let answers = ["(5+(5*10))", "((-a)*b)"];

    for (input, answer) in inputs.iter().zip(answers.iter()) {
        let l = Lexer::new(&input);
        let mut p = Parser::new(l);
        let program = p.parse_program().expect("Failed to parse input!");

        if program.statements.len() != 1 {
            panic!("program should have one statement, but has {}", program.statements.len());
        }

        let stmt = &program.statements[0];
        if let Statement::Expression(expr) = stmt {
            assert_eq!(&expr.to_string(), answer);
        } else {
            panic!("Incorrect statement");
        }
    }
}

#[test]
fn parse_expression() {
    let problem = [
        ("-5;", "(-5);"),
        ("5 + 5 * 10;", "(5+(5*10));"),
        ("(5 + 5 ) * 10;", "((5+5)*10);"),
        ("true;", "true;"),
        ("let x = false;", "let x = false;"),
        ("if (x) { 2 + 3 }", "if(x){(2+3);};"),
        ("if (x) { 2 + 3; 4/2; } else { 5; }", "if(x){(2+3);(4/2);}else{5;};"),
        ("fn(){ 5; }", "fn(){5;};"),
        ("fn(x, y) { x + y; }", "fn(x,y){(x+y);};"),
        ("add(1, 2*3);", "add(1,(2*3));"),
        ("add(1, minus(4, -1));", "add(1,minus(4,(-1)));"),
    ];

    for (input, answer) in problem.iter() {
        let l = Lexer::new(input);
        let mut p = Parser::new(l);
        let program = p.parse_program().expect("Failed to parse");

        if program.statements.len() != 1 {
            panic!("The number of statements is {}, not 1", program.statements.len());
        }

        let stmt = program.statements[0].to_string();
        assert_eq!(&stmt, answer);
    }
}

fn parse(input: &str) -> Result<Program, MonkeyError> {
    Parser::new(Lexer::new(input)).parse_program()
}

fn text(input: &str) -> String {
    parse(input).expect("Failed to parse").to_string()
}

fn unexpected(input: &str) -> (Token, Token) {
    match parse(input) {
        Err(MonkeyError::UnexpectedToken { expected, got }) => (expected, got),
        other => panic!("expected an unexpected-token error, but got {:?}", other),
    }
}

fn invalid(input: &str) -> Token {
    match parse(input) {
        Err(MonkeyError::InvalidToken(token)) => token,
        other => panic!("expected an invalid-token error, but got {:?}", other),
    }
}

#[test]
fn operators_of_one_level_associate_to_the_left() {
    assert_eq!(text("1 - 2 - 3"), "((1-2)-3);\n");
    assert_eq!(text("8 / 4 / 2"), "((8/4)/2);\n");
    assert_eq!(text("1 + 2 - 3 + 4"), "(((1+2)-3)+4);\n");
    assert_eq!(text("1 == 2 != 3"), "((1==2)!=3);\n");
    assert_eq!(text("1 < 2 > 3"), "((1<2)>3);\n");
}

#[test]
fn stronger_operators_take_their_operands_first() {
    assert_eq!(text("1 + 2 * 3 - 4 / 5"), "((1+(2*3))-(4/5));\n");
    assert_eq!(text("1 * 2 + 3"), "((1*2)+3);\n");
    assert_eq!(text("1 + 2 == 3 * 1"), "((1+2)==(3*1));\n");
    assert_eq!(text("1 < 2 == 3 > 4"), "((1<2)==(3>4));\n");
    assert_eq!(text("1 + 2 < 3 - 4"), "((1+2)<(3-4));\n");
    assert_eq!(text("!a == b"), "((!a)==b);\n");
    assert_eq!(text("-1 + 2"), "((-1)+2);\n");
    assert_eq!(text("- - 1"), "(-(-1));\n");
    assert_eq!(text("!-a"), "(!(-a));\n");
}

#[test]
fn parentheses_override_precedence() {
    assert_eq!(text("(1 + 2) * 3"), "((1+2)*3);\n");
    assert_eq!(text("1 * (2 + 3)"), "(1*(2+3));\n");
    assert_eq!(text("((1))"), "1;\n");
    assert_eq!(text("1 - (2 - 3)"), "(1-(2-3));\n");
    assert_eq!(text("-(1 + 2)"), "(-(1+2));\n");
}

#[test]
fn calls_bind_strongest() {
    assert_eq!(text("-f(1)"), "(-f(1));\n");
    assert_eq!(text("a + f(1) * b"), "(a+(f(1)*b));\n");
    assert_eq!(text("f(1)(2)"), "f(1)(2);\n");
    assert_eq!(text("f()"), "f();\n");
    assert_eq!(text("fn(x){x}(1,2)"), "fn(x){x;}(1,2);\n");
    assert_eq!(text("f(a, b + c, fn(){})"), "f(a,(b+c),fn(){});\n");
}

#[test]
fn statements_of_a_program() {
    assert_eq!(text(""), "");
    assert_eq!(text("1; 2; 3"), "1;\n2;\n3;\n");
    assert_eq!(text("let a = 1; return a; a"), "let a = 1;\nreturn a;\na;\n");
    assert_eq!(text("\"foo bar\""), "foo bar;\n");
    assert_eq!(text("true; false"), "true;\nfalse;\n");
    assert_eq!(parse("1; 2").unwrap().statements.len(), 2);
    assert_eq!(Program::new().statements.len(), 0);
    assert_eq!(Program::new().to_string(), "");
}

#[test]
fn let_steps_over_one_token_where_no_semicolon_follows() {
    assert_eq!(text("let x = 5"), "let x = 5;\n");
    assert_eq!(text("let x = 5; x"), "let x = 5;\nx;\n");
    assert_eq!(text("let x = 1 + 2 let y"), "let x = (1+2);\ny;\n");
    assert_eq!(invalid("let x = 1 + 2 let y = 3"), Token::Assign);
}

#[test]
fn return_needs_its_semicolon() {
    assert_eq!(text("return 1 + 2;"), "return (1+2);\n");
    assert_eq!(unexpected("return 5"), (Token::Semicolon, Token::EOF));
    assert_eq!(unexpected("return 5 }"), (Token::Semicolon, Token::RBrace));
}

#[test]
fn let_needs_a_name_and_an_equals_sign() {
    assert_eq!(unexpected("let 5 = 1;"), (Token::Ident(String::new()), Token::Integer(5)));
    assert_eq!(unexpected("let"), (Token::Ident(String::new()), Token::EOF));
    assert_eq!(unexpected("let x 1;"), (Token::Assign, Token::Integer(1)));
    assert_eq!(invalid("let x = ;"), Token::Semicolon);
}

#[test]
fn tokens_that_start_no_expression_are_invalid() {
    assert_eq!(invalid(")"), Token::RParen);
    assert_eq!(invalid("1 + ;"), Token::Semicolon);
    assert_eq!(invalid("1 +"), Token::EOF);
    assert_eq!(invalid("!"), Token::EOF);
    assert_eq!(invalid("@"), Token::Illegal);
    assert_eq!(invalid("2147483648"), Token::Illegal);
    assert_eq!(invalid("* 2"), Token::Asterisk);
    assert_eq!(invalid("else"), Token::Else);
}

#[test]
fn groups_and_calls_need_their_closing_parenthesis() {
    assert_eq!(unexpected("(1 + 2"), (Token::RParen, Token::EOF));
    assert_eq!(unexpected("(1 2)"), (Token::RParen, Token::Integer(2)));
    assert_eq!(unexpected("f(1 2)"), (Token::RParen, Token::Integer(2)));
    assert_eq!(invalid("f(1,"), Token::EOF);
    assert_eq!(invalid("f(,1)"), Token::Comma);
}

#[test]
fn if_needs_parentheses_and_braces() {
    assert_eq!(text("if (a) { 1 } else { 2 }"), "if(a){1;}else{2;};\n");
    assert_eq!(text("if (a < b) { return 1; }"), "if((a<b)){return 1;};\n");
    assert_eq!(text("if (a) { }"), "if(a){};\n");
    assert_eq!(unexpected("if a { 1 }"), (Token::LParen, Token::Ident("a".to_owned())));
    assert_eq!(unexpected("if (a) 1"), (Token::LBrace, Token::Integer(1)));
    assert_eq!(unexpected("if (a) + 1 { 2 }"), (Token::RParen, Token::Integer(1)));
    assert_eq!(unexpected("if (a) { 1 } else 2"), (Token::LBrace, Token::Integer(2)));
}

#[test]
fn a_block_ends_at_the_end_of_input_too() {
    assert_eq!(text("if (a) { 1; 2"), "if(a){1;2;};\n");
    assert_eq!(text("fn() {"), "fn(){};\n");
}

#[test]
fn parameters_are_identifiers() {
    assert_eq!(text("fn() { 1 }"), "fn(){1;};\n");
    assert_eq!(text("fn(a) { a }"), "fn(a){a;};\n");
    assert_eq!(text("fn(a, b, c) { a }"), "fn(a,b,c){a;};\n");
    assert_eq!(invalid("fn(1) { 1 }"), Token::Integer(1));
    assert_eq!(invalid("fn(a, 1) { 1 }"), Token::Integer(1));
    assert_eq!(invalid("fn(a,) { 1 }"), Token::RParen);
    assert_eq!(unexpected("fn(a b) { 1 }"), (Token::RParen, Token::Ident("b".to_owned())));
    assert_eq!(unexpected("fn a"), (Token::LParen, Token::Ident("a".to_owned())));
    assert_eq!(unexpected("fn(a) a"), (Token::LBrace, Token::Ident("a".to_owned())));
}

#[test]
fn parsed_trees_have_the_expected_shape() {
    let program = parse("1 + 2 * 3").unwrap();
    match &program.statements[0] {
        Statement::Expression(Expression::Infix { left, right, .. }) => {
            assert!(matches!(**left, Expression::Integer(1)));
            match &**right {
                Expression::Infix { left, right, .. } => {
                    assert!(matches!(**left, Expression::Integer(2)));
                    assert!(matches!(**right, Expression::Integer(3)));
                },
                other => panic!("expected a product, but got {:?}", other),
            }
        },
        other => panic!("expected a sum, but got {:?}", other),
    }
    let copy = program.clone();
    assert_eq!(copy.to_string(), program.to_string());
}

#[test]
fn a_copy_of_a_parser_parses_the_same() {
    let mut parser = Parser::new(Lexer::new("1 + 2; 3"));
    let mut copy = parser.clone();
    assert_eq!(parser.parse_program().unwrap().to_string(), "(1+2);\n3;\n");
    assert_eq!(copy.parse_program().unwrap().to_string(), "(1+2);\n3;\n");
}

#[test]
fn expect_peek_steps_only_onto_the_expected_token() {
    let mut parser = Parser::new(Lexer::new("a = 1"));
    assert!(parser.expect_peek(Token::Assign).is_ok());
    match parser.expect_peek(Token::Semicolon) {
        Err(MonkeyError::UnexpectedToken { expected, got }) => {
            assert_eq!((expected, got), (Token::Semicolon, Token::Integer(1)));
        },
        other => panic!("unexpected {:?}", other),
    }
    assert!(parser.expect_peek(Token::Integer(1)).is_ok());
    assert!(parser.expect_peek(Token::EOF).is_ok());
    assert!(parser.expect_peek(Token::EOF).is_ok());
}

#[test]
fn let_passes_over_the_token_after_the_expression() {
    assert_eq!(text("let x = 5 x"), "let x = 5;\n");
    assert_eq!(text("let x = 5; x"), "let x = 5;\nx;\n");
}

#[test]
fn parse_reads_a_source_text() {
    assert_eq!(monkey_interpreter::parse("1 + 2 * 3").unwrap().to_string(), "(1+(2*3));\n");
    assert_eq!(monkey_interpreter::parse("5 + 5 * 10;").unwrap().to_string(), "(5+(5*10));\n");
    assert!(matches!(monkey_interpreter::parse("(1"), Err(MonkeyError::UnexpectedToken { .. })));
}

#[test]
fn trees_are_appended_as_text() {
    let program = parse("let f = fn(a, b) { if (a < b) { return a; } else { b } }; f(1, -2)").unwrap();
    let mut out = String::new();
    monkey_interpreter::ast::write_statement(&program.statements[0], &mut out);
    assert_eq!(out, "let f = fn(a,b){if((a<b)){return a;}else{b;};};");
    let mut out = "> ".to_owned();
    monkey_interpreter::ast::write_statements(&program.statements, &mut out);
    assert_eq!(out, "> let f = fn(a,b){if((a<b)){return a;}else{b;};};f(1,(-2));");
    match &program.statements[1] {
        Statement::Expression(call) => {
            let mut out = String::new();
            monkey_interpreter::ast::write_expression(call, &mut out);
            assert_eq!(out, "f(1,(-2))");
            match call {
                Expression::Call { arguments, .. } => {
                    let mut out = String::new();
                    monkey_interpreter::ast::write_expressions(arguments, &mut out);
                    assert_eq!(out, "1,(-2)");
                    let copies = monkey_interpreter::ast::clone_expressions(arguments);
                    assert_eq!(copies.len(), 2);
                    assert_eq!(copies[1].to_string(), "(-2)");
                },
                other => panic!("expected a call, but got {:?}", other),
            }
        },
        other => panic!("expected an expression, but got {:?}", other),
    }
    let copies = monkey_interpreter::ast::clone_statements(&program.statements);
    assert_eq!(copies.len(), 2);
    assert_eq!(copies[1].to_string(), "f(1,(-2));");
}
