//! Operators of the language and the binding strengths used by the parser.

use std::cmp::Ordering;
use vstd::prelude::*;

verus! {

/// A prefix operator.
#[derive(Debug, Clone, Copy, PartialEq, Eq, Structural)]
pub enum Prefix {
    Bang,
    Minus,
}

impl Prefix {
    /// The source text of the operator.
    pub open spec fn text(self) -> Seq<char> {
        match self {
            Prefix::Bang => seq!['!'],
            Prefix::Minus => seq!['-'],
        }
    }

    /// Renders the operator as it is written in source text.
    pub fn to_string(&self) -> (s: String)
        ensures
            s@ == self.text(),
    {
        let mut s = String::new();
        match self {
            Prefix::Bang => s.push('!'),
            Prefix::Minus => s.push('-'),
        }
        assert(s@ =~= self.text());
        s
    }
}

/// An infix operator.
#[derive(Debug, Clone, Copy, PartialEq, Eq, Structural)]
pub enum Infix {
    Plus,
    Minus,
    Asterisk,
    Slash,
    Eq,
    NotEq,
    LT,
    GT,
}

impl Infix {
    /// The source text of the operator.
    pub open spec fn text(self) -> Seq<char> {
        match self {
            Infix::Plus => seq!['+'],
            Infix::Minus => seq!['-'],
            Infix::Asterisk => seq!['*'],
            Infix::Slash => seq!['/'],
            Infix::Eq => seq!['=', '='],
            Infix::NotEq => seq!['!', '='],
            Infix::LT => seq!['<'],
            Infix::GT => seq!['>'],
        }
    }

    /// Renders the operator as it is written in source text.
    pub fn to_string(&self) -> (s: String)
        ensures
            s@ == self.text(),
    {
        let mut s = String::new();
        match self {
            Infix::Plus => s.push('+'),
            Infix::Minus => s.push('-'),
            Infix::Asterisk => s.push('*'),
            Infix::Slash => s.push('/'),
            Infix::Eq => {
                s.push('=');
                s.push('=');
            },
            Infix::NotEq => {
                s.push('!');
                s.push('=');
            },
            Infix::LT => s.push('<'),
            Infix::GT => s.push('>'),
        }
        assert(s@ =~= self.text());
        s
    }
}

/// Binding strength of an infix position, weakest first. The order of
/// precedences is the order of their levels.
#[derive(Debug, Clone, Copy, PartialEq, Eq, Ord, Structural)]
pub enum Precedence {
    Lowest,
    Equals,
    LessGreater,
    Sum,
    Product,
    Prefix,
    Call,
}

impl Precedence {
    /// Position of the precedence in the order, `Lowest` being 0.
    pub open spec fn spec_level(self) -> u8 {
        match self {
            Precedence::Lowest => 0,
            Precedence::Equals => 1,
            Precedence::LessGreater => 2,
            Precedence::Sum => 3,
            Precedence::Product => 4,
            Precedence::Prefix => 5,
            Precedence::Call => 6,
        }
    }

    /// Position of the precedence in the order, `Lowest` being 0.
    #[verifier::when_used_as_spec(spec_level)]
    pub fn level(self) -> (n: u8)
        ensures
            n == self.spec_level(),
    {
        match self {
            Precedence::Lowest => 0,
            Precedence::Equals => 1,
            Precedence::LessGreater => 2,
            Precedence::Sum => 3,
            Precedence::Product => 4,
            Precedence::Prefix => 5,
            Precedence::Call => 6,
        }
    }
}

impl PartialOrd for Precedence {
    /// Precedences are ordered as their levels are.
    fn partial_cmp(&self, other: &Self) -> (r: Option<Ordering>) {
        let a = self.level();
        let b = other.level();
        if a < b {
            Some(Ordering::Less)
        } else if a > b {
            Some(Ordering::Greater)
        } else {
            Some(Ordering::Equal)
        }
    }
}

impl vstd::std_specs::cmp::PartialOrdSpecImpl for Precedence {
    open spec fn obeys_partial_cmp_spec() -> bool {
        true
    }

    open spec fn partial_cmp_spec(&self, other: &Self) -> Option<Ordering> {
        if self.spec_level() < other.spec_level() {
            Some(Ordering::Less)
        } else if self.spec_level() > other.spec_level() {
            Some(Ordering::Greater)
        } else {
            Some(Ordering::Equal)
        }
    }
}

} // verus!
