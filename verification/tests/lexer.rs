use monkey_interpreter::lexer::{is_letter, Lexer};
use monkey_interpreter::token::Token;

#[test]
fn read() {
    let input = "Lorem ipsum\ndolor\rsit amet\t12345";
    let mut lexer = Lexer::new(input);
    assert_eq!(lexer.read_ident(), Token::Ident("Lorem".to_owned()));
    lexer.skip_whitespace();
    assert_eq!(lexer.read_ident(), Token::Ident("ipsum".to_owned()));
    lexer.skip_whitespace();
    assert_eq!(lexer.read_ident(), Token::Ident("dolor".to_owned()));
    lexer.skip_whitespace();
    assert_eq!(lexer.read_ident(), Token::Ident("sit".to_owned()));
    lexer.skip_whitespace();
    assert_eq!(lexer.read_ident(), Token::Ident("amet".to_owned()));
    lexer.skip_whitespace();
    assert_eq!(lexer.read_number(), Token::Integer(12345));
}

#[test]
fn text_next_token() {
    let input = r#"let five = 5;
let ten = 10;
let add = fn(x, y) {
    x + y
};
let result = add(five, ten);
!-/*5;
5 < 10 > 5;
if (5 < 10) {
    return true;
} else {
    return false;
}
"foo bar";
10 == 10;
10 != 9;"#;
    let answers = vec![
        Token::Let,
        Token::Ident("five".to_owned()),
        Token::Assign,
        Token::Integer(5),
        Token::Semicolon,
        Token::Let,
        Token::Ident("ten".to_owned()),
        Token::Assign,
        Token::Integer(10),
        Token::Semicolon,
        Token::Let,
        Token::Ident("add".to_owned()),
        Token::Assign,
        Token::Function,
        Token::LParen,
        Token::Ident("x".to_owned()),
        Token::Comma,
        Token::Ident("y".to_owned()),
        Token::RParen,
        Token::LBrace,
        Token::Ident("x".to_owned()),
        Token::Plus,
        Token::Ident("y".to_owned()),
        Token::RBrace,
        Token::Semicolon,
        Token::Let,
        Token::Ident("result".to_owned()),
        Token::Assign,
        Token::Ident("add".to_owned()),
        Token::LParen,
        Token::Ident("five".to_owned()),
        Token::Comma,
        Token::Ident("ten".to_owned()),
        Token::RParen,
        Token::Semicolon,
        Token::Bang,
        Token::Minus,
        Token::Slash,
        Token::Asterisk,
        Token::Integer(5),
        Token::Semicolon,
        Token::Integer(5),
        Token::LT,
        Token::Integer(10),
        Token::GT,
        Token::Integer(5),
        Token::Semicolon,
        Token::If,
        Token::LParen,
        Token::Integer(5),
        Token::LT,
        Token::Integer(10),
        Token::RParen,
        Token::LBrace,
        Token::Return,
        Token::True,
        Token::Semicolon,
        Token::RBrace,
        Token::Else,
        Token::LBrace,
        Token::Return,
        Token::False,
        Token::Semicolon,
        Token::RBrace,
        Token::String("foo bar".to_owned()),
        Token::Semicolon,
        Token::Integer(10),
        Token::Eq,
        Token::Integer(10),
        Token::Semicolon,
        Token::Integer(10),
        Token::NotEq,
        Token::Integer(9),
        Token::Semicolon,
        Token::EOF,
    ];

    let mut lexer = Lexer::new(input);
    for answer in answers.iter() {
        assert_eq!(&lexer.next_token(), answer);
    }
}

#[test]
fn test_is_letter() {
    assert!(is_letter('a'));
    assert!(is_letter('f'));
    assert!(is_letter('z'));
    assert!(is_letter('A'));
    assert!(is_letter('O'));
    assert!(is_letter('Z'));
    assert!(is_letter('_'));
    assert!(!is_letter('0'));
    assert!(!is_letter(' '));
    assert!(!is_letter('あ'));
    assert!(!is_letter('ä'));
    assert!(!is_letter('+'));
}

fn tokens(input: &str) -> Vec<Token> {
    let mut lexer = Lexer::new(input);
    let mut out = Vec::new();
    loop {
        let token = lexer.next_token();
        if token == Token::EOF {
            return out;
        }
        out.push(token);
    }
}

#[test]
fn lexes_a_let_statement() {
    assert_eq!(
        tokens("let five = 5;"),
        vec![
            Token::Let,
            Token::Ident("five".to_owned()),
            Token::Assign,
            Token::Integer(5),
            Token::Semicolon,
        ]
    );
}

#[test]
fn end_of_input_is_returned_again_and_again() {
    let mut lexer = Lexer::new("a ");
    assert_eq!(lexer.next_token(), Token::Ident("a".to_owned()));
    for _ in 0..5 {
        assert_eq!(lexer.next_token(), Token::EOF);
    }
    let mut empty = Lexer::new("");
    assert_eq!(empty.next_token(), Token::EOF);
    assert_eq!(empty.next_token(), Token::EOF);
}

#[test]
fn a_nul_character_ends_the_input() {
    let mut lexer = Lexer::new("1\0 2");
    assert_eq!(lexer.next_token(), Token::Integer(1));
    assert_eq!(lexer.next_token(), Token::EOF);
    assert_eq!(lexer.next_token(), Token::EOF);
}

#[test]
fn two_character_operators_need_both_characters() {
    assert_eq!(tokens("= =="), vec![Token::Assign, Token::Eq]);
    assert_eq!(tokens("! !="), vec![Token::Bang, Token::NotEq]);
    assert_eq!(tokens("==="), vec![Token::Eq, Token::Assign]);
    assert_eq!(tokens("!=="), vec![Token::NotEq, Token::Assign]);
    assert_eq!(tokens("="), vec![Token::Assign]);
    assert_eq!(tokens("!"), vec![Token::Bang]);
}

#[test]
fn keywords_are_told_from_identifiers() {
    assert_eq!(
        tokens("fn let true false if else return"),
        vec![
            Token::Function,
            Token::Let,
            Token::True,
            Token::False,
            Token::If,
            Token::Else,
            Token::Return,
        ]
    );
    assert_eq!(
        tokens("fns lets iff _if Return"),
        vec![
            Token::Ident("fns".to_owned()),
            Token::Ident("lets".to_owned()),
            Token::Ident("iff".to_owned()),
            Token::Ident("_if".to_owned()),
            Token::Ident("Return".to_owned()),
        ]
    );
}

#[test]
fn identifiers_hold_no_digits_and_no_other_letters() {
    assert_eq!(tokens("a1"), vec![Token::Ident("a".to_owned()), Token::Integer(1)]);
    assert_eq!(
        tokens("aäb"),
        vec![Token::Ident("a".to_owned()), Token::Illegal, Token::Ident("b".to_owned())]
    );
}

#[test]
fn integer_literals_up_to_the_largest() {
    assert_eq!(tokens("0"), vec![Token::Integer(0)]);
    assert_eq!(tokens("007"), vec![Token::Integer(7)]);
    assert_eq!(tokens("2147483647"), vec![Token::Integer(2147483647)]);
    assert_eq!(tokens("2147483648"), vec![Token::Illegal]);
    assert_eq!(tokens("99999999999999999999999 1"), vec![Token::Illegal, Token::Integer(1)]);
}

#[test]
fn read_number_without_a_digit_is_illegal() {
    let mut lexer = Lexer::new("x");
    assert_eq!(lexer.read_number(), Token::Illegal);
    assert_eq!(lexer.next_token(), Token::Ident("x".to_owned()));
}

#[test]
fn string_literals_are_taken_verbatim() {
    assert_eq!(tokens(r#""a\nb""#), vec![Token::String("a\\nb".to_owned())]);
    assert_eq!(tokens("\"\""), vec![Token::String(String::new())]);
    assert_eq!(tokens("\"abc"), vec![Token::String("abc".to_owned())]);
    assert_eq!(
        tokens("\"a b\" c"),
        vec![Token::String("a b".to_owned()), Token::Ident("c".to_owned())]
    );
    assert_eq!(tokens("\"ab\0cd\""), vec![Token::String("ab".to_owned())]);
}

#[test]
fn read_string_stops_at_the_closing_quote() {
    let mut lexer = Lexer::new("\"ab\"c");
    assert_eq!(lexer.read_string(), Token::String("ab".to_owned()));
    assert_eq!(lexer.read_char(), '"');
    assert_eq!(lexer.read_char(), 'c');
    assert_eq!(lexer.read_char(), '\0');
    assert_eq!(lexer.read_char(), '\0');
}

#[test]
fn other_characters_are_illegal() {
    assert_eq!(tokens("@ #"), vec![Token::Illegal, Token::Illegal]);
    assert_eq!(tokens("[1]"), vec![Token::Illegal, Token::Integer(1), Token::Illegal]);
}

#[test]
fn keyword_lookup() {
    assert_eq!(Token::keyword("fn"), Some(Token::Function));
    assert_eq!(Token::keyword("let"), Some(Token::Let));
    assert_eq!(Token::keyword("true"), Some(Token::True));
    assert_eq!(Token::keyword("false"), Some(Token::False));
    assert_eq!(Token::keyword("if"), Some(Token::If));
    assert_eq!(Token::keyword("else"), Some(Token::Else));
    assert_eq!(Token::keyword("return"), Some(Token::Return));
    assert_eq!(Token::keyword("fnn"), None);
    assert_eq!(Token::keyword(""), None);
    assert_eq!(Token::keyword("elsa"), None);
    assert_eq!(Token::keyword("returns"), None);
}

#[test]
fn tokens_compare_by_kind_and_payload() {
    assert_eq!(Token::Ident("a".to_owned()), Token::Ident("a".to_owned()));
    assert_ne!(Token::Ident("a".to_owned()), Token::Ident("b".to_owned()));
    assert_ne!(Token::Ident("a".to_owned()), Token::String("a".to_owned()));
    assert_ne!(Token::Integer(1), Token::Integer(2));
    assert_ne!(Token::Plus, Token::Minus);
    assert_eq!(Token::Plus.clone(), Token::Plus);
    assert_eq!(Token::String("s".to_owned()).clone(), Token::String("s".to_owned()));
}

#[test]
fn printed_numbers_are_read_back() {
    for value in [0, 1, 9, 10, 99, 100, 4096, 123456789, i32::MAX] {
        let text = monkey_interpreter::text::int_to_string(value);
        assert_eq!(tokens(&text), vec![Token::Integer(value)]);
    }
}

#[test]
fn a_copy_of_a_lexer_reads_on_from_the_same_place() {
    let mut lexer = Lexer::new("a b c");
    assert_eq!(lexer.next_token(), Token::Ident("a".to_owned()));
    let mut copy = lexer.clone();
    assert_eq!(lexer.next_token(), Token::Ident("b".to_owned()));
    assert_eq!(copy.next_token(), Token::Ident("b".to_owned()));
    assert_eq!(copy.next_token(), Token::Ident("c".to_owned()));
    assert_eq!(lexer.next_token(), Token::Ident("c".to_owned()));
}
