//! The lexer: turns source text into tokens, one at a time.

use vstd::prelude::*;
use crate::text::{decimal_value, digit_value, is_digit};
use crate::token::{Token, TokenView};

verus! {

/// Whether `c` may stand in an identifier: an ASCII letter or an underscore.
pub open spec fn spec_is_letter(c: char) -> bool {
    'a' <= c <= 'z' || 'A' <= c <= 'Z' || c == '_'
}

/// Whether `c` may stand in an identifier: an ASCII letter or an underscore.
#[verifier::when_used_as_spec(spec_is_letter)]
pub fn is_letter(c: char) -> (b: bool)
    ensures
        b == spec_is_letter(c),
{
    'a' <= c && c <= 'z' || 'A' <= c && c <= 'Z' || c == '_'
}

/// Whether `c` is skipped between tokens.
pub open spec fn is_space(c: char) -> bool {
    c == ' ' || c == '\t' || c == '\n' || c == '\r'
}

/// The character of `source` at `i`, or the end-of-input sentinel `'\0'`
/// where `i` is past the end.
pub open spec fn char_at(source: Seq<char>, i: int) -> char {
    if 0 <= i < source.len() {
        source[i]
    } else {
        '\0'
    }
}

/// The first position at or after `from` that holds no whitespace.
pub open spec fn spaces_end(source: Seq<char>, from: int) -> int
    decreases source.len() - from,
{
    if 0 <= from < source.len() && is_space(source[from]) {
        spaces_end(source, from + 1)
    } else {
        from
    }
}

/// The first position at or after `from` that holds no identifier character.
pub open spec fn ident_end(source: Seq<char>, from: int) -> int
    decreases source.len() - from,
{
    if 0 <= from < source.len() && is_letter(source[from]) {
        ident_end(source, from + 1)
    } else {
        from
    }
}

/// The first position at or after `from` that holds no digit.
pub open spec fn digits_end(source: Seq<char>, from: int) -> int
    decreases source.len() - from,
{
    if 0 <= from < source.len() && is_digit(source[from]) {
        digits_end(source, from + 1)
    } else {
        from
    }
}

/// The first position at or after `from` that holds a double quote or the
/// end-of-input sentinel; the length of the source if there is none.
pub open spec fn string_end(source: Seq<char>, from: int) -> int
    decreases source.len() - from,
{
    if 0 <= from < source.len() && source[from] != '"' && source[from] != '\0' {
        string_end(source, from + 1)
    } else {
        from
    }
}

/// The token for a run of identifier characters: the keyword it spells, or
/// an identifier.
pub open spec fn word_token(word: Seq<char>) -> TokenView {
    match TokenView::keyword(word) {
        Some(keyword) => keyword,
        None => TokenView::Ident(word),
    }
}

/// The token for a run of digits: an integer literal where the number fits
/// a 32-bit signed integer, and the illegal token where it does not or the
/// run is empty.
pub open spec fn number_token(digits: Seq<char>) -> TokenView {
    if digits.len() > 0 && decimal_value(digits) <= i32::MAX {
        TokenView::Integer(decimal_value(digits) as i32)
    } else {
        TokenView::Illegal
    }
}

/// The token that starts at `at`, where `at` holds no whitespace, and the
/// position after it.
pub open spec fn token_at(source: Seq<char>, at: int) -> (TokenView, int) {
    let c = char_at(source, at);
    let d = char_at(source, at + 1);
    if c == '\0' {
        (TokenView::EOF, at)
    } else if c == '=' {
        if d == '=' {
            (TokenView::Eq, at + 2)
        } else {
            (TokenView::Assign, at + 1)
        }
    } else if c == '!' {
        if d == '=' {
            (TokenView::NotEq, at + 2)
        } else {
            (TokenView::Bang, at + 1)
        }
    } else if c == ';' {
        (TokenView::Semicolon, at + 1)
    } else if c == ',' {
        (TokenView::Comma, at + 1)
    } else if c == '(' {
        (TokenView::LParen, at + 1)
    } else if c == ')' {
        (TokenView::RParen, at + 1)
    } else if c == '{' {
        (TokenView::LBrace, at + 1)
    } else if c == '}' {
        (TokenView::RBrace, at + 1)
    } else if c == '+' {
        (TokenView::Plus, at + 1)
    } else if c == '-' {
        (TokenView::Minus, at + 1)
    } else if c == '*' {
        (TokenView::Asterisk, at + 1)
    } else if c == '/' {
        (TokenView::Slash, at + 1)
    } else if c == '<' {
        (TokenView::LT, at + 1)
    } else if c == '>' {
        (TokenView::GT, at + 1)
    } else if c == '"' {
        let end = string_end(source, at + 1);
        (
            TokenView::String(source.subrange(at + 1, end)),
            if char_at(source, end) == '"' {
                end + 1
            } else {
                end
            },
        )
    } else if is_letter(c) {
        let end = ident_end(source, at);
        (word_token(source.subrange(at, end)), end)
    } else if is_digit(c) {
        let end = digits_end(source, at);
        (number_token(source.subrange(at, end)), end)
    } else {
        (TokenView::Illegal, at + 1)
    }
}

/// The next token of `source` from position `from` on, and the position
/// after it: whitespace is skipped, then one token is read. At the end of
/// the input, or at a `'\0'` character, the token is `EOF` and the position
/// does not move past it.
pub open spec fn next_token_at(source: Seq<char>, from: int) -> (TokenView, int) {
    token_at(source, spaces_end(source, from))
}

/// The tokens of `source` from position `from` on, up to the end of input;
/// the `EOF` token itself is left out. Every other token ends after the
/// position it was looked for at and inside the source
/// (`next_token_advances`), so that the list ends with `EOF` and nowhere
/// else.
pub open spec fn tokens_from(source: Seq<char>, from: int) -> Seq<TokenView>
    decreases source.len() - from,
{
    let (token, next) = next_token_at(source, from);
    if token is EOF || !(from < next <= source.len()) {
        Seq::empty()
    } else {
        seq![token] + tokens_from(source, next)
    }
}

/// The tokens of a source text.
pub open spec fn tokens_of(source: Seq<char>) -> Seq<TokenView> {
    tokens_from(source, 0)
}

/// Each scan ends between its start and the end of the source, and stops at
/// a character that does not belong to the run.
pub proof fn scan_bounds(source: Seq<char>, from: int)
    requires
        0 <= from <= source.len(),
    ensures
        from <= spaces_end(source, from) <= source.len(),
        from <= ident_end(source, from) <= source.len(),
        from <= digits_end(source, from) <= source.len(),
        from <= string_end(source, from) <= source.len(),
        !is_space(char_at(source, spaces_end(source, from))),
        !is_letter(char_at(source, ident_end(source, from))),
        !is_digit(char_at(source, digits_end(source, from))),
        char_at(source, string_end(source, from)) == '"' || char_at(source, string_end(source, from))
            == '\0',
    decreases source.len() - from,
{
    if from < source.len() {
        scan_bounds(source, from + 1);
    }
}

/// A token other than `EOF` starts inside the source, takes at least one
/// character and ends no later than the source.
pub proof fn next_token_advances(source: Seq<char>, from: int)
    ensures
        !(next_token_at(source, from).0 is EOF) ==> 0 <= from < next_token_at(source, from).1
            <= source.len(),
        next_token_at(source, from).0 is EOF ==> from <= next_token_at(source, from).1,
        0 <= from <= source.len() ==> next_token_at(source, from).1 <= source.len(),
{
    if 0 <= from <= source.len() {
        scan_bounds(source, from);
        let at = spaces_end(source, from);
        let c = char_at(source, at);
        if c == '"' {
            scan_bounds(source, at + 1);
        } else if is_letter(c) {
            scan_bounds(source, at + 1);
        } else if is_digit(c) {
            scan_bounds(source, at + 1);
        }
    }
}

/// Once the lexer has reached the end of input it stays there: the token
/// after an `EOF` is `EOF` again, at the same position.
pub proof fn end_of_input_is_final(source: Seq<char>, from: int)
    requires
        next_token_at(source, from).0 is EOF,
    ensures
        next_token_at(source, next_token_at(source, from).1) == next_token_at(source, from),
{
    if 0 <= from <= source.len() {
        scan_bounds(source, from);
        let at = spaces_end(source, from);
        assert(spaces_end(source, at) == at);
    }
}

/// The tokens of a source never hold `EOF`: it marks their end.
pub proof fn tokens_hold_no_end_of_input(source: Seq<char>, from: int)
    ensures
        forall|i: int|
            0 <= i < tokens_from(source, from).len() ==> !(#[trigger] tokens_from(source, from)[i]
                is EOF),
    decreases source.len() - from,
{
    let (token, next) = next_token_at(source, from);
    if !(token is EOF || !(from < next <= source.len())) {
        tokens_hold_no_end_of_input(source, next);
    }
}

/// A run of digits that is the decimal notation of an integer from zero to
/// the largest is read back as that integer.
pub proof fn number_is_read_back(value: i32)
    requires
        value >= 0,
    ensures
        number_token(crate::text::decimal_digits(value as nat)) == TokenView::Integer(value),
{
    crate::text::decimal_round_trip(value as nat);
    crate::text::decimal_digits_are_digits(value as nat);
}

/// A lexer over a source text. It hands out the tokens of the text one by
/// one and keeps no record of those it has handed out.
#[derive(Debug)]
pub struct Lexer {
    input: Vec<char>,
    position: usize,
}

impl Clone for Lexer {
    fn clone(&self) -> (res: Self)
        ensures
            res.source() == self.source(),
            res.position() == self.position(),
    {
        proof {
            use_type_invariant(self);
        }
        let input = self.input.clone();
        assert(input@ =~= self.input@);
        Lexer { input, position: self.position }
    }
}

impl Lexer {
    #[verifier::type_invariant]
    spec fn well_formed(self) -> bool {
        self.position <= self.input.len()
    }

    /// The whole source text.
    pub closed spec fn source(&self) -> Seq<char> {
        self.input@
    }

    /// The position of the first character that has not been read.
    pub closed spec fn position(&self) -> int {
        self.position as int
    }

    /// The tokens that the lexer has yet to hand out, `EOF` left out.
    pub open spec fn remaining_tokens(&self) -> Seq<TokenView> {
        tokens_from(self.source(), self.position())
    }

    /// A lexer at the start of `input`.
    pub fn new(input: &str) -> (lexer: Lexer)
        ensures
            lexer.source() == input@,
            lexer.position() == 0,
    {
        let mut chars: Vec<char> = Vec::new();
        for c in it: input.chars()
            invariant
                chars@ == it.seq().take(it.index()),
                it.seq() == input@,
        {
            chars.push(c);
        }
        Lexer { input: chars, position: 0 }
    }

    /// The character at the current position; `'\0'` at the end of input.
    fn cur(&self) -> (c: char)
        ensures
            c == char_at(self.source(), self.position()),
    {
        proof {
            use_type_invariant(self);
        }
        if self.position < self.input.len() {
            self.input[self.position]
        } else {
            '\0'
        }
    }

    /// The character after the current one; `'\0'` past the end of input.
    fn peek(&self) -> (c: char)
        ensures
            c == char_at(self.source(), self.position() + 1),
    {
        proof {
            use_type_invariant(self);
        }
        if self.position < self.input.len() && self.position + 1 < self.input.len() {
            self.input[self.position + 1]
        } else {
            '\0'
        }
    }

    /// Returns the current character and moves one character on. At the end
    /// of input it returns `'\0'` and stays.
    pub fn read_char(&mut self) -> (c: char)
        ensures
            final(self).source() == old(self).source(),
            0 <= final(self).position() <= final(self).source().len(),
            c == char_at(old(self).source(), old(self).position()),
            final(self).position() == if old(self).position() < old(self).source().len() {
                old(self).position() + 1
            } else {
                old(self).position()
            },
    {
        proof {
            use_type_invariant(&*self);
        }
        if self.position < self.input.len() {
            let c = self.input[self.position];
            self.position = self.position + 1;
            c
        } else {
            '\0'
        }
    }

    /// Skips whitespace.
    pub fn skip_whitespace(&mut self)
        ensures
            final(self).source() == old(self).source(),
            0 <= final(self).position() <= final(self).source().len(),
            final(self).position() == spaces_end(old(self).source(), old(self).position()),
    {
        proof {
            use_type_invariant(&*self);
        }
        while self.position < self.input.len() && (self.input[self.position] == ' '
            || self.input[self.position] == '\t' || self.input[self.position] == '\n'
            || self.input[self.position] == '\r')
            invariant
                self.input@ == old(self).input@,
                self.position <= self.input.len(),
                spaces_end(self.input@, self.position as int) == spaces_end(
                    old(self).input@,
                    old(self).position as int,
                ),
            decreases self.input.len() - self.position,
        {
            self.position = self.position + 1;
        }
    }

    /// Reads a run of identifier characters and returns the keyword it
    /// spells, or else an identifier token.
    pub fn read_ident(&mut self) -> (token: Token)
        ensures
            final(self).source() == old(self).source(),
            0 <= final(self).position() <= final(self).source().len(),
            final(self).position() == ident_end(old(self).source(), old(self).position()),
            token@ == word_token(
                old(self).source().subrange(old(self).position(), final(self).position()),
            ),
    {
        proof {
            use_type_invariant(&*self);
        }
        let ghost start = self.position as int;
        let mut ident = String::new();
        while self.position < self.input.len() && is_letter(self.input[self.position])
            invariant
                self.input@ == old(self).input@,
                start == old(self).position,
                start <= self.position <= self.input.len(),
                ident_end(self.input@, self.position as int) == ident_end(self.input@, start),
                ident@ == self.input@.subrange(start, self.position as int),
            decreases self.input.len() - self.position,
        {
            ident.push(self.input[self.position]);
            self.position = self.position + 1;
            assert(ident@ =~= self.input@.subrange(start, self.position as int));
        }
        match Token::keyword(ident.as_str()) {
            Some(token) => token,
            None => Token::Ident(ident),
        }
    }

    /// Reads a run of digits and returns the integer literal it denotes.
    /// The token is `Illegal` where the run is empty or the number does not
    /// fit a 32-bit signed integer.
    pub fn read_number(&mut self) -> (token: Token)
        ensures
            final(self).source() == old(self).source(),
            0 <= final(self).position() <= final(self).source().len(),
            final(self).position() == digits_end(old(self).source(), old(self).position()),
            token@ == number_token(
                old(self).source().subrange(old(self).position(), final(self).position()),
            ),
    {
        proof {
            use_type_invariant(&*self);
        }
        let ghost start = self.position as int;
        let first = self.position;
        let mut value: u32 = 0;
        let mut fits = true;
        while self.position < self.input.len() && '0' <= self.input[self.position]
            && self.input[self.position] <= '9'
            invariant
                self.input@ == old(self).input@,
                start == old(self).position,
                first == start,
                start <= self.position <= self.input.len(),
                digits_end(self.input@, self.position as int) == digits_end(self.input@, start),
                fits ==> value == decimal_value(self.input@.subrange(start, self.position as int)),
                fits ==> value <= i32::MAX,
                !fits ==> decimal_value(self.input@.subrange(start, self.position as int))
                    > i32::MAX,
            decreases self.input.len() - self.position,
        {
            let c = self.input[self.position];
            let digit: u32 = c as u32 - 48;
            proof {
                let before = self.input@.subrange(start, self.position as int);
                let after = self.input@.subrange(start, self.position as int + 1);
                assert(after.drop_last() =~= before);
                assert(after.last() == c);
                assert(decimal_value(after) == 10 * decimal_value(before) + digit_value(c));
            }
            if fits {
                let next: u64 = value as u64 * 10 + digit as u64;
                if next > i32::MAX as u64 {
                    fits = false;
                } else {
                    value = next as u32;
                }
            }
            self.position = self.position + 1;
        }
        if fits && self.position > first {
            Token::Integer(value as i32)
        } else {
            Token::Illegal
        }
    }

    /// Skips the opening quote, then reads up to a closing quote, a `'\0'`
    /// or the end of input, whichever comes first, and returns the string
    /// literal read. The terminating character is not consumed.
    pub fn read_string(&mut self) -> (token: Token)
        ensures
            final(self).source() == old(self).source(),
            0 <= final(self).position() <= final(self).source().len(),
            old(self).position() < old(self).source().len() ==> {
                &&& final(self).position() == string_end(
                    old(self).source(),
                    old(self).position() + 1,
                )
                &&& token@ == TokenView::String(
                    old(self).source().subrange(old(self).position() + 1, final(self).position()),
                )
            },
            old(self).position() >= old(self).source().len() ==> {
                &&& final(self).position() == old(self).position()
                &&& token@ == TokenView::String(Seq::empty())
            },
    {
        self.read_char();
        proof {
            use_type_invariant(&*self);
        }
        let ghost start = self.position as int;
        let mut text = String::new();
        while self.position < self.input.len() && self.input[self.position] != '"'
            && self.input[self.position] != '\0'
            invariant
                self.input@ == old(self).input@,
                0 <= start <= self.position <= self.input.len(),
                string_end(self.input@, self.position as int) == string_end(self.input@, start),
                text@ == self.input@.subrange(start, self.position as int),
            decreases self.input.len() - self.position,
        {
            text.push(self.input[self.position]);
            self.position = self.position + 1;
            assert(text@ =~= self.input@.subrange(start, self.position as int));
        }
        assert(old(self).position() >= old(self).source().len() ==> text@ =~= Seq::<char>::empty());
        Token::String(text)
    }

    /// Reads the next token. After the end of input every call returns
    /// `EOF` and leaves the lexer where it is.
    pub fn next_token(&mut self) -> (token: Token)
        ensures
            final(self).source() == old(self).source(),
            0 <= final(self).position() <= final(self).source().len(),
            (token@, final(self).position()) == next_token_at(
                old(self).source(),
                old(self).position(),
            ),
    {
        self.skip_whitespace();
        proof {
            use_type_invariant(&*self);
        }
        let c = self.cur();
        if c == '\0' {
            return Token::EOF;
        }
        let token = if c == '=' {
            if self.peek() == '=' {
                self.read_char();
                Token::Eq
            } else {
                Token::Assign
            }
        } else if c == '!' {
            if self.peek() == '=' {
                self.read_char();
                Token::NotEq
            } else {
                Token::Bang
            }
        } else if c == ';' {
            Token::Semicolon
        } else if c == ',' {
            Token::Comma
        } else if c == '(' {
            Token::LParen
        } else if c == ')' {
            Token::RParen
        } else if c == '{' {
            Token::LBrace
        } else if c == '}' {
            Token::RBrace
        } else if c == '+' {
            Token::Plus
        } else if c == '-' {
            Token::Minus
        } else if c == '*' {
            Token::Asterisk
        } else if c == '/' {
            Token::Slash
        } else if c == '<' {
            Token::LT
        } else if c == '>' {
            Token::GT
        } else if c == '"' {
            let token = self.read_string();
            if self.cur() != '"' {
                return token;
            }
            token
        } else if is_letter(c) {
            return self.read_ident();
        } else if '0' <= c && c <= '9' {
            return self.read_number();
        } else {
            Token::Illegal
        };
        self.read_char();
        token
    }
}

} // verus!
