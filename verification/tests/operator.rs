use monkey_interpreter::operator::{Infix, Precedence, Prefix};
use monkey_interpreter::token::Token;

#[test]
fn test_operator_precedence() {
    assert_eq!(Precedence::Product, Precedence::Product);
    assert!(Precedence::Lowest < Precedence::Equals);
    assert!(Precedence::Call >= Precedence::Prefix);
}

#[test]
fn precedences_are_ordered_as_their_levels() {
    let all = [
        Precedence::Lowest,
        Precedence::Equals,
        Precedence::LessGreater,
        Precedence::Sum,
        Precedence::Product,
        Precedence::Prefix,
        Precedence::Call,
    ];
    for (i, a) in all.iter().enumerate() {
        assert_eq!(a.level() as usize, i);
        for b in all.iter() {
            assert_eq!(a < b, a.level() < b.level());
            assert_eq!(a <= b, a.level() <= b.level());
            assert_eq!(a.partial_cmp(b), Some(a.level().cmp(&b.level())));
            assert_eq!(a.cmp(b), a.level().cmp(&b.level()));
            assert_eq!(a == b, a.level() == b.level());
        }
    }
}

#[test]
fn token_precedences() {
    assert_eq!(Token::Eq.precedence(), Precedence::Equals);
    assert_eq!(Token::NotEq.precedence(), Precedence::Equals);
    assert_eq!(Token::LT.precedence(), Precedence::LessGreater);
    assert_eq!(Token::GT.precedence(), Precedence::LessGreater);
    assert_eq!(Token::Plus.precedence(), Precedence::Sum);
    assert_eq!(Token::Minus.precedence(), Precedence::Sum);
    assert_eq!(Token::Slash.precedence(), Precedence::Product);
    assert_eq!(Token::Asterisk.precedence(), Precedence::Product);
    assert_eq!(Token::LParen.precedence(), Precedence::Call);
    assert_eq!(Token::Semicolon.precedence(), Precedence::Lowest);
    assert_eq!(Token::Bang.precedence(), Precedence::Lowest);
    assert_eq!(Token::Ident("x".to_owned()).precedence(), Precedence::Lowest);
}

#[test]
fn operators_as_text() {
    assert_eq!(Prefix::Bang.to_string(), "!");
    assert_eq!(Prefix::Minus.to_string(), "-");
    assert_eq!(Infix::Plus.to_string(), "+");
    assert_eq!(Infix::Minus.to_string(), "-");
    assert_eq!(Infix::Asterisk.to_string(), "*");
    assert_eq!(Infix::Slash.to_string(), "/");
    assert_eq!(Infix::Eq.to_string(), "==");
    assert_eq!(Infix::NotEq.to_string(), "!=");
    assert_eq!(Infix::LT.to_string(), "<");
    assert_eq!(Infix::GT.to_string(), ">");
}
