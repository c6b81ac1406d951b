//! The lexical units of the language.

use vstd::prelude::*;
use crate::operator::Precedence;

verus! {

/// A lexical unit. Punctuation and keywords carry nothing; identifiers,
/// integer literals and string literals carry their payload.
#[derive(Debug, Eq)]
pub enum Token {
    Illegal,
    EOF,
    Assign,
    Plus,
    Minus,
    Bang,
    Asterisk,
    Slash,
    LT,
    GT,
    Eq,
    NotEq,
    Comma,
    Semicolon,
    LParen,
    RParen,
    LBrace,
    RBrace,
    Function,
    Let,
    True,
    False,
    If,
    Else,
    Return,
    Ident(String),
    Integer(i32),
    String(String),
}

/// The mathematical value of a [`Token`]: text payloads are character
/// sequences.
pub enum TokenView {
    Illegal,
    EOF,
    Assign,
    Plus,
    Minus,
    Bang,
    Asterisk,
    Slash,
    LT,
    GT,
    Eq,
    NotEq,
    Comma,
    Semicolon,
    LParen,
    RParen,
    LBrace,
    RBrace,
    Function,
    Let,
    True,
    False,
    If,
    Else,
    Return,
    Ident(Seq<char>),
    Integer(i32),
    String(Seq<char>),
}

impl View for Token {
    type V = TokenView;

    open spec fn view(&self) -> TokenView {
        match self {
            Token::Illegal => TokenView::Illegal,
            Token::EOF => TokenView::EOF,
            Token::Assign => TokenView::Assign,
            Token::Plus => TokenView::Plus,
            Token::Minus => TokenView::Minus,
            Token::Bang => TokenView::Bang,
            Token::Asterisk => TokenView::Asterisk,
            Token::Slash => TokenView::Slash,
            Token::LT => TokenView::LT,
            Token::GT => TokenView::GT,
            Token::Eq => TokenView::Eq,
            Token::NotEq => TokenView::NotEq,
            Token::Comma => TokenView::Comma,
            Token::Semicolon => TokenView::Semicolon,
            Token::LParen => TokenView::LParen,
            Token::RParen => TokenView::RParen,
            Token::LBrace => TokenView::LBrace,
            Token::RBrace => TokenView::RBrace,
            Token::Function => TokenView::Function,
            Token::Let => TokenView::Let,
            Token::True => TokenView::True,
            Token::False => TokenView::False,
            Token::If => TokenView::If,
            Token::Else => TokenView::Else,
            Token::Return => TokenView::Return,
            Token::Ident(name) => TokenView::Ident(name@),
            Token::Integer(value) => TokenView::Integer(*value),
            Token::String(text) => TokenView::String(text@),
        }
    }
}

impl TokenView {
    /// The keyword spelled by `word`, if it is one of the seven keywords.
    pub open spec fn keyword(word: Seq<char>) -> Option<TokenView> {
        if word == seq!['f', 'n'] {
            Some(TokenView::Function)
        } else if word == seq!['l', 'e', 't'] {
            Some(TokenView::Let)
        } else if word == seq!['t', 'r', 'u', 'e'] {
            Some(TokenView::True)
        } else if word == seq!['f', 'a', 'l', 's', 'e'] {
            Some(TokenView::False)
        } else if word == seq!['i', 'f'] {
            Some(TokenView::If)
        } else if word == seq!['e', 'l', 's', 'e'] {
            Some(TokenView::Else)
        } else if word == seq!['r', 'e', 't', 'u', 'r', 'n'] {
            Some(TokenView::Return)
        } else {
            None
        }
    }

    /// Binding strength of the token when it stands in infix position.
    /// Tokens that are no infix operator bind weakest.
    pub open spec fn precedence(self) -> Precedence {
        match self {
            TokenView::Eq => Precedence::Equals,
            TokenView::NotEq => Precedence::Equals,
            TokenView::LT => Precedence::LessGreater,
            TokenView::GT => Precedence::LessGreater,
            TokenView::Plus => Precedence::Sum,
            TokenView::Minus => Precedence::Sum,
            TokenView::Slash => Precedence::Product,
            TokenView::Asterisk => Precedence::Product,
            TokenView::LParen => Precedence::Call,
            _ => Precedence::Lowest,
        }
    }
}

impl Token {
    /// Returns the keyword token spelled by `ident`, or `None` when `ident`
    /// is no keyword.
    pub fn keyword(ident: &str) -> (token: Option<Token>)
        ensures
            match TokenView::keyword(ident@) {
                Some(keyword) => token matches Some(t) && t@ == keyword,
                None => token is None,
            },
    {
        let n = ident.unicode_len();
        if n == 2 {
            let a = ident.get_char(0);
            let b = ident.get_char(1);
            if a == 'f' && b == 'n' {
                assert(ident@ =~= seq!['f', 'n']);
                return Some(Token::Function);
            }
            if a == 'i' && b == 'f' {
                assert(ident@ =~= seq!['i', 'f']);
                return Some(Token::If);
            }
            None
        } else if n == 3 {
            let a = ident.get_char(0);
            let b = ident.get_char(1);
            let c = ident.get_char(2);
            if a == 'l' && b == 'e' && c == 't' {
                assert(ident@ =~= seq!['l', 'e', 't']);
                return Some(Token::Let);
            }
            None
        } else if n == 4 {
            let a = ident.get_char(0);
            let b = ident.get_char(1);
            let c = ident.get_char(2);
            let d = ident.get_char(3);
            if a == 't' && b == 'r' && c == 'u' && d == 'e' {
                assert(ident@ =~= seq!['t', 'r', 'u', 'e']);
                return Some(Token::True);
            }
            if a == 'e' && b == 'l' && c == 's' && d == 'e' {
                assert(ident@ =~= seq!['e', 'l', 's', 'e']);
                return Some(Token::Else);
            }
            None
        } else if n == 5 {
            let a = ident.get_char(0);
            let b = ident.get_char(1);
            let c = ident.get_char(2);
            let d = ident.get_char(3);
            let e = ident.get_char(4);
            if a == 'f' && b == 'a' && c == 'l' && d == 's' && e == 'e' {
                assert(ident@ =~= seq!['f', 'a', 'l', 's', 'e']);
                return Some(Token::False);
            }
            None
        } else if n == 6 {
            let a = ident.get_char(0);
            let b = ident.get_char(1);
            let c = ident.get_char(2);
            let d = ident.get_char(3);
            let e = ident.get_char(4);
            let f = ident.get_char(5);
            if a == 'r' && b == 'e' && c == 't' && d == 'u' && e == 'r' && f == 'n' {
                assert(ident@ =~= seq!['r', 'e', 't', 'u', 'r', 'n']);
                return Some(Token::Return);
            }
            None
        } else {
            None
        }
    }

    /// Binding strength of the token when it stands in infix position.
    pub fn precedence(&self) -> (p: Precedence)
        ensures
            p == self@.precedence(),
    {
        match self {
            Token::Eq => Precedence::Equals,
            Token::NotEq => Precedence::Equals,
            Token::LT => Precedence::LessGreater,
            Token::GT => Precedence::LessGreater,
            Token::Plus => Precedence::Sum,
            Token::Minus => Precedence::Sum,
            Token::Slash => Precedence::Product,
            Token::Asterisk => Precedence::Product,
            Token::LParen => Precedence::Call,
            _ => Precedence::Lowest,
        }
    }
}

impl Clone for Token {
    fn clone(&self) -> (res: Self)
        ensures
            res == *self,
    {
        match self {
            Token::Illegal => Token::Illegal,
            Token::EOF => Token::EOF,
            Token::Assign => Token::Assign,
            Token::Plus => Token::Plus,
            Token::Minus => Token::Minus,
            Token::Bang => Token::Bang,
            Token::Asterisk => Token::Asterisk,
            Token::Slash => Token::Slash,
            Token::LT => Token::LT,
            Token::GT => Token::GT,
            Token::Eq => Token::Eq,
            Token::NotEq => Token::NotEq,
            Token::Comma => Token::Comma,
            Token::Semicolon => Token::Semicolon,
            Token::LParen => Token::LParen,
            Token::RParen => Token::RParen,
            Token::LBrace => Token::LBrace,
            Token::RBrace => Token::RBrace,
            Token::Function => Token::Function,
            Token::Let => Token::Let,
            Token::True => Token::True,
            Token::False => Token::False,
            Token::If => Token::If,
            Token::Else => Token::Else,
            Token::Return => Token::Return,
            Token::Ident(name) => Token::Ident(name.clone()),
            Token::Integer(value) => Token::Integer(*value),
            Token::String(text) => Token::String(text.clone()),
        }
    }
}

impl PartialEq for Token {
    /// Two tokens are equal when they are the same kind of token and carry
    /// the same payload.
    fn eq(&self, other: &Self) -> (r: bool) {
        match self {
            Token::Ident(a) => match other {
                Token::Ident(b) => *a == *b,
                _ => false,
            },
            Token::Integer(a) => match other {
                Token::Integer(b) => *a == *b,
                _ => false,
            },
            Token::String(a) => match other {
                Token::String(b) => *a == *b,
                _ => false,
            },
            _ => match other {
                Token::Ident(_) => false,
                Token::Integer(_) => false,
                Token::String(_) => false,
                _ => self.kind() == other.kind(),
            },
        }
    }
}

impl vstd::std_specs::cmp::PartialEqSpecImpl for Token {
    open spec fn obeys_eq_spec() -> bool {
        true
    }

    open spec fn eq_spec(&self, other: &Self) -> bool {
        self@ == other@
    }
}

impl Token {
    /// A number that tells the kinds of token apart, whatever they carry.
    pub open spec fn spec_kind(&self) -> u8 {
        match self {
            Token::Illegal => 0,
            Token::EOF => 1,
            Token::Assign => 2,
            Token::Plus => 3,
            Token::Minus => 4,
            Token::Bang => 5,
            Token::Asterisk => 6,
            Token::Slash => 7,
            Token::LT => 8,
            Token::GT => 9,
            Token::Eq => 10,
            Token::NotEq => 11,
            Token::Comma => 12,
            Token::Semicolon => 13,
            Token::LParen => 14,
            Token::RParen => 15,
            Token::LBrace => 16,
            Token::RBrace => 17,
            Token::Function => 18,
            Token::Let => 19,
            Token::True => 20,
            Token::False => 21,
            Token::If => 22,
            Token::Else => 23,
            Token::Return => 24,
            Token::Ident(_) => 25,
            Token::Integer(_) => 26,
            Token::String(_) => 27,
        }
    }

    /// A number that tells the kinds of token apart, whatever they carry.
    #[verifier::when_used_as_spec(spec_kind)]
    pub fn kind(&self) -> (k: u8)
        ensures
            k == self.spec_kind(),
    {
        match self {
            Token::Illegal => 0,
            Token::EOF => 1,
            Token::Assign => 2,
            Token::Plus => 3,
            Token::Minus => 4,
            Token::Bang => 5,
            Token::Asterisk => 6,
            Token::Slash => 7,
            Token::LT => 8,
            Token::GT => 9,
            Token::Eq => 10,
            Token::NotEq => 11,
            Token::Comma => 12,
            Token::Semicolon => 13,
            Token::LParen => 14,
            Token::RParen => 15,
            Token::LBrace => 16,
            Token::RBrace => 17,
            Token::Function => 18,
            Token::Let => 19,
            Token::True => 20,
            Token::False => 21,
            Token::If => 22,
            Token::Else => 23,
            Token::Return => 24,
            Token::Ident(_) => 25,
            Token::Integer(_) => 26,
            Token::String(_) => 27,
        }
    }
}

} // verus!
