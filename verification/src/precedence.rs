//! The parser reads infix notation as usual precedence has it.
//!
//! An [`Arithmetic`] is an expression as it is written: numbers, infix
//! operators and the parentheses of the text. It is `well_formed` where it
//! is written by the usual rules: operators of one level associate to the
//! left, and a weaker operation stands as an operand of a stronger one
//! only in parentheses. The theorems of this module say that the parser
//! gives each such expression the tree of its operations, that the
//! evaluator then carries the operations out as the tree groups them, and
//! that the lexer reads the text of the expression as its tokens.

use vstd::prelude::*;
use crate::ast::{ExpressionView, StatementView};
use crate::error::MonkeyErrorView;
use crate::grammar::{
    advance, cur, expect_peek, infix_operator, parse_expression, parse_expression_statement,
    parse_grouped_expression, parse_infix_expression, parse_infix_loop, parse_operand,
    parse_program, parse_statement, peek, within,
};
use crate::env::EnvironmentView;
use crate::eval::DEFAULT_CALL_DEPTH;
use crate::lexer::{
    char_at, digits_end, next_token_at, number_is_read_back, spaces_end, tokens_from, tokens_of,
};
use crate::object::ObjectView;
use crate::operator::{Infix, Precedence};
use crate::semantics::{eval_expression, eval_program, eval_statement, infix_value, Outcome};
use crate::text::{decimal_digits, decimal_digits_are_digits, int_text, is_digit};
use crate::token::TokenView;
use crate::{program_of, value_of};

verus! {

/// An expression of numbers and infix operators as it is written.
pub enum Arithmetic {
    /// An integer literal.
    Number(i32),
    /// An expression in parentheses.
    Group(Box<Arithmetic>),
    /// Two operands with an operator between them.
    Operation { op: Infix, left: Box<Arithmetic>, right: Box<Arithmetic> },
}

/// The token that an infix operator is written with.
pub open spec fn operator_token(op: Infix) -> TokenView {
    match op {
        Infix::Plus => TokenView::Plus,
        Infix::Minus => TokenView::Minus,
        Infix::Asterisk => TokenView::Asterisk,
        Infix::Slash => TokenView::Slash,
        Infix::Eq => TokenView::Eq,
        Infix::NotEq => TokenView::NotEq,
        Infix::LT => TokenView::LT,
        Infix::GT => TokenView::GT,
    }
}

/// How strongly an infix operator binds: `==` and `!=` weakest, then `<`
/// and `>`, then `+` and `-`, then `*` and `/`.
pub open spec fn operator_precedence(op: Infix) -> Precedence {
    operator_token(op).precedence()
}

impl Arithmetic {
    /// How strongly the expression holds together: as its operator binds
    /// where it is an operation, and stronger than any operator where it
    /// is a number or stands in parentheses.
    pub open spec fn level(self) -> nat {
        match self {
            Arithmetic::Operation { op, .. } => operator_precedence(op).spec_level() as nat,
            _ => 7,
        }
    }

    /// Whether the expression is written by the rules of usual precedence:
    /// the left operand of an operation holds together at least as
    /// strongly as the operator binds, and the right operand more
    /// strongly.
    pub open spec fn well_formed(self) -> bool
        decreases self,
    {
        match self {
            Arithmetic::Number(_) => true,
            Arithmetic::Group(inner) => inner.well_formed(),
            Arithmetic::Operation { op, left, right } => {
                &&& left.well_formed()
                &&& right.well_formed()
                &&& left.level() >= operator_precedence(op).spec_level()
                &&& right.level() > operator_precedence(op).spec_level()
            },
        }
    }

    /// The tokens that the expression is written with.
    pub open spec fn tokens(self) -> Seq<TokenView>
        decreases self,
    {
        match self {
            Arithmetic::Number(value) => seq![TokenView::Integer(value)],
            Arithmetic::Group(inner) => seq![TokenView::LParen] + inner.tokens() + seq![
                TokenView::RParen,
            ],
            Arithmetic::Operation { op, left, right } => left.tokens() + seq![operator_token(op)]
                + right.tokens(),
        }
    }

    /// The tree of the operations of the expression. Parentheses leave no
    /// trace in it.
    pub open spec fn tree(self) -> ExpressionView
        decreases self,
    {
        match self {
            Arithmetic::Number(value) => ExpressionView::Integer(value),
            Arithmetic::Group(inner) => inner.tree(),
            Arithmetic::Operation { op, left, right } => ExpressionView::Infix {
                op,
                left: Box::new(left.tree()),
                right: Box::new(right.tree()),
            },
        }
    }

    /// The expression as text with every operation in parentheses, and
    /// without the parentheses that it was written with.
    pub open spec fn parenthesized(self) -> Seq<char>
        decreases self,
    {
        match self {
            Arithmetic::Number(value) => int_text(value as int),
            Arithmetic::Group(inner) => inner.parenthesized(),
            Arithmetic::Operation { op, left, right } => "("@ + left.parenthesized() + op.text()
                + right.parenthesized() + ")"@,
        }
    }

    /// The last of the tokens that the expression is written with.
    pub open spec fn last_token(self) -> TokenView {
        self.tokens().last()
    }

    /// Every expression is written with at least one token, and where it
    /// is an operation it ends as its right operand does.
    pub proof fn tokens_end(self)
        ensures
            self.tokens().len() >= 1,
            self matches Arithmetic::Operation { right, .. } ==> self.last_token()
                == right.last_token(),
            self is Group ==> self.last_token() == TokenView::RParen,
            self matches Arithmetic::Number(value) ==> self.last_token() == TokenView::Integer(
                value,
            ),
        decreases self,
    {
        match self {
            Arithmetic::Number(_) => {},
            Arithmetic::Group(inner) => {
                inner.tokens_end();
            },
            Arithmetic::Operation { op, left, right } => {
                left.tokens_end();
                right.tokens_end();
            },
        }
    }

    /// The text of the tree is the expression with every operation in
    /// parentheses.
    pub proof fn tree_text(self)
        ensures
            self.tree().text() == self.parenthesized(),
        decreases self,
    {
        match self {
            Arithmetic::Number(_) => {},
            Arithmetic::Group(inner) => {
                inner.tree_text();
            },
            Arithmetic::Operation { op, left, right } => {
                left.tree_text();
                right.tree_text();
            },
        }
    }

    /// Parsing the expression at `level`, with the tokens `follow` after
    /// it, comes to the point where the whole expression is the left
    /// operand: at its last token, with the operators of `follow` still to
    /// be looked at.
    proof fn read_as_operand(self, follow: Seq<TokenView>, level: Precedence)
        requires
            self.well_formed(),
            level.spec_level() < self.level(),
            cur(follow).precedence().spec_level() <= self.level(),
        ensures
            parse_expression(self.tokens() + follow, level) == parse_infix_loop(
                seq![self.last_token()] + follow,
                self.tree(),
                level,
            ),
        decreases self, 1nat,
    {
        match self {
            Arithmetic::Number(value) => {
                let all = self.tokens() + follow;
                assert(all =~= seq![self.last_token()] + follow);
                assert(parse_operand(all) == Ok::<
                    (ExpressionView, Seq<TokenView>),
                    MonkeyErrorView,
                >((self.tree(), all)));
            },
            Arithmetic::Group(inner) => {
                self.read_group(follow, level);
            },
            Arithmetic::Operation { op, left, right } => {
                self.read_operation(follow, level);
            },
        }
    }

    /// The operand in parentheses: what stands between them is read as an
    /// expression of its own.
    proof fn read_group(self, follow: Seq<TokenView>, level: Precedence)
        requires
            self is Group,
            self.well_formed(),
        ensures
            parse_expression(self.tokens() + follow, level) == parse_infix_loop(
                seq![self.last_token()] + follow,
                self.tree(),
                level,
            ),
        decreases self, 0nat,
    {
        let inner = *self->Group_0;
        let all = self.tokens() + follow;
        self.tokens_end();
        inner.tokens_end();
        let closing = seq![TokenView::RParen] + follow;
        let inside = inner.tokens() + closing;
        let at_end = seq![inner.last_token()] + closing;
        assert(all =~= seq![TokenView::LParen] + inside);
        assert(advance(all) =~= inside);
        assert(parse_expression(inside, Precedence::Lowest) == Ok::<
            (ExpressionView, Seq<TokenView>),
            MonkeyErrorView,
        >((inner.tree(), at_end))) by {
            inner.read_as_operand(closing, Precedence::Lowest);
            assert(peek(at_end) == TokenView::RParen);
        }
        assert(expect_peek(at_end, TokenView::RParen) == Ok::<Seq<TokenView>, MonkeyErrorView>(
            closing,
        )) by {
            assert(peek(at_end) == TokenView::RParen);
            assert(advance(at_end) =~= closing);
        }
        assert(parse_operand(all) == Ok::<(ExpressionView, Seq<TokenView>), MonkeyErrorView>(
            (inner.tree(), closing),
        )) by {
            assert(cur(all) == TokenView::LParen);
            assert(parse_operand(all) == parse_grouped_expression(all));
        }
        assert(within(closing, all) == closing);
        assert(closing =~= seq![self.last_token()] + follow);
    }

    /// The operation: the left operand is read first, then the operator
    /// folds it and the right operand into one.
    proof fn read_operation(self, follow: Seq<TokenView>, level: Precedence)
        requires
            self is Operation,
            self.well_formed(),
            level.spec_level() < self.level(),
            cur(follow).precedence().spec_level() <= self.level(),
        ensures
            parse_expression(self.tokens() + follow, level) == parse_infix_loop(
                seq![self.last_token()] + follow,
                self.tree(),
                level,
            ),
        decreases self, 0nat,
    {
        let op = self->op;
        let left = *self->left;
        let right = *self->right;
        let all = self.tokens() + follow;
        self.tokens_end();
        left.tokens_end();
        right.tokens_end();
        let sign = operator_token(op);
        let binds = operator_precedence(op);
        let from_sign = seq![sign] + right.tokens() + follow;
        let from_right = right.tokens() + follow;
        let at_left = seq![left.last_token()] + from_sign;
        let at_right = seq![right.last_token()] + follow;
        assert(all =~= left.tokens() + from_sign);
        assert(parse_expression(all, level) == parse_infix_loop(at_left, left.tree(), level)) by {
            assert(cur(from_sign) == sign);
            left.read_as_operand(from_sign, level);
        }
        assert(parse_expression(from_right, binds) == Ok::<
            (ExpressionView, Seq<TokenView>),
            MonkeyErrorView,
        >((right.tree(), at_right))) by {
            right.read_as_operand(follow, binds);
            assert(peek(at_right) == cur(follow));
        }
        assert(parse_infix_expression(from_sign, left.tree()) == Ok::<
            (ExpressionView, Seq<TokenView>),
            MonkeyErrorView,
        >((self.tree(), at_right))) by {
            assert(cur(from_sign) == sign);
            assert(infix_operator(sign) == Some(op));
            assert(advance(from_sign) =~= from_right);
        }
        assert(parse_infix_loop(at_left, left.tree(), level) == parse_infix_loop(
            at_right,
            self.tree(),
            level,
        )) by {
            assert(peek(at_left) == sign);
            assert(infix_operator(sign) == Some(op));
            assert(advance(at_left) =~= from_sign);
            assert(within(at_right, from_sign) == at_right);
        }
    }

    /// The parser reads a well-formed expression as the tree of its
    /// operations, whatever level it is parsed at, as long as the
    /// expression holds together more strongly than that level and no
    /// operator that binds more strongly than the level follows. It stops
    /// at the last token of the expression.
    pub proof fn parsed_as_tree(self, follow: Seq<TokenView>, level: Precedence)
        requires
            self.well_formed(),
            level.spec_level() < self.level(),
            cur(follow).precedence().spec_level() <= level.spec_level(),
        ensures
            parse_expression(self.tokens() + follow, level) == Ok::<
                (ExpressionView, Seq<TokenView>),
                MonkeyErrorView,
            >((self.tree(), seq![self.last_token()] + follow)),
    {
        self.read_as_operand(follow, level);
        assert(peek(seq![self.last_token()] + follow) == cur(follow));
    }

    /// A program that is one well-formed expression, with or without a
    /// semicolon after it, parses as one expression statement: the tree of
    /// the operations of the expression. The text of that tree is the
    /// expression with every operation in parentheses.
    pub proof fn follows_precedence(self)
        requires
            self.well_formed(),
        ensures
            parse_program(self.tokens(), Seq::empty()) == Ok::<
                Seq<StatementView>,
                MonkeyErrorView,
            >(seq![StatementView::Expression(self.tree())]),
            parse_program(self.tokens() + seq![TokenView::Semicolon], Seq::empty()) == Ok::<
                Seq<StatementView>,
                MonkeyErrorView,
            >(seq![StatementView::Expression(self.tree())]),
            self.tree().text() == self.parenthesized(),
    {
        self.tree_text();
        self.tokens_end();
        self.first_token();
        let statement = StatementView::Expression(self.tree());
        let done = Seq::<StatementView>::empty().push(statement);
        assert(done =~= seq![statement]);
        let nothing = Seq::<TokenView>::empty();
        let at_end = seq![self.last_token()];

        let bare = self.tokens();
        assert(bare =~= self.tokens() + nothing);
        self.parsed_as_tree(nothing, Precedence::Lowest);
        assert(at_end + nothing =~= at_end);
        assert(parse_expression_statement(bare) == Ok::<
            (StatementView, Seq<TokenView>),
            MonkeyErrorView,
        >((statement, at_end)));
        assert(parse_statement(bare) == parse_expression_statement(bare));
        assert(advance(within(at_end, bare)) =~= nothing);
        assert(parse_program(nothing, done) == Ok::<Seq<StatementView>, MonkeyErrorView>(done));

        let semicolon = seq![TokenView::Semicolon];
        let ended = self.tokens() + semicolon;
        self.parsed_as_tree(semicolon, Precedence::Lowest);
        assert(advance(at_end + semicolon) =~= semicolon);
        assert(parse_expression_statement(ended) == Ok::<
            (StatementView, Seq<TokenView>),
            MonkeyErrorView,
        >((statement, semicolon)));
        assert(cur(ended) == cur(bare));
        assert(parse_statement(ended) == parse_expression_statement(ended));
        assert(advance(within(semicolon, ended)) =~= nothing);
    }

    /// An expression starts with a number or an opening parenthesis.
    pub proof fn first_token(self)
        ensures
            self.tokens().len() >= 1,
            self.tokens()[0] is Integer || self.tokens()[0] is LParen,
        decreases self,
    {
        match self {
            Arithmetic::Number(_) => {},
            Arithmetic::Group(inner) => {},
            Arithmetic::Operation { op, left, right } => {
                left.first_token();
            },
        }
    }

    /// What the expression comes to when its operations are carried out,
    /// each on the values of its two operands, the left one first.
    pub open spec fn value(self) -> Result<ObjectView, MonkeyErrorView>
        decreases self,
    {
        match self {
            Arithmetic::Number(value) => Ok(ObjectView::Integer(value)),
            Arithmetic::Group(inner) => inner.value(),
            Arithmetic::Operation { op, left, right } => match left.value() {
                Ok(first) => match right.value() {
                    Ok(second) => infix_value(op, first, second),
                    Err(error) => Err(error),
                },
                Err(error) => Err(error),
            },
        }
    }

    /// An expression of numbers comes to an integer, a boolean or null,
    /// where it comes to anything.
    pub proof fn value_is_plain(self)
        ensures
            self.value() matches Ok(value) ==> value is Integer || value is Bool || value is Null,
        decreases self,
    {
        match self {
            Arithmetic::Number(_) => {},
            Arithmetic::Group(inner) => {
                inner.value_is_plain();
            },
            Arithmetic::Operation { op, left, right } => {},
        }
    }

    /// Evaluating the tree of the expression gives the value of the
    /// expression and leaves the environment as it was.
    pub proof fn tree_evaluates_to_value(self, env: EnvironmentView, depth: nat)
        ensures
            eval_expression(env, self.tree(), depth) == (Outcome { env, result: self.value() }),
        decreases self,
    {
        match self {
            Arithmetic::Number(_) => {},
            Arithmetic::Group(inner) => {
                inner.tree_evaluates_to_value(env, depth);
            },
            Arithmetic::Operation { op, left, right } => {
                left.tree_evaluates_to_value(env, depth);
                right.tree_evaluates_to_value(env, depth);
            },
        }
    }

    /// A source text whose tokens are those of a well-formed expression,
    /// with or without a semicolon after them, is parsed as the tree of
    /// that expression, however the text is laid out.
    pub proof fn source_follows_precedence(self, source: Seq<char>)
        requires
            self.well_formed(),
            tokens_of(source) == self.tokens() || tokens_of(source) == self.tokens() + seq![
                TokenView::Semicolon,
            ],
        ensures
            program_of(source) == Ok::<Seq<StatementView>, MonkeyErrorView>(
                seq![StatementView::Expression(self.tree())],
            ),
    {
        self.follows_precedence();
    }

    /// A source text whose tokens are those of a well-formed expression,
    /// with or without a semicolon after them, has the value of that
    /// expression: the operations are carried out as usual precedence
    /// groups them.
    pub proof fn source_has_value(self, source: Seq<char>)
        requires
            self.well_formed(),
            tokens_of(source) == self.tokens() || tokens_of(source) == self.tokens() + seq![
                TokenView::Semicolon,
            ],
        ensures
            value_of(source) == self.value(),
    {
        self.source_follows_precedence(source);
        self.value_is_plain();
        let env = EnvironmentView::root();
        let depth = DEFAULT_CALL_DEPTH as nat;
        let statements = seq![StatementView::Expression(self.tree())];
        self.tree_evaluates_to_value(env, depth);
        assert(eval_statement(env, statements[0], depth) == eval_expression(
            env,
            self.tree(),
            depth,
        ));
        match self.value() {
            Ok(value) => {
                assert(eval_program(env, statements, 1, value, depth).result == Ok::<
                    ObjectView,
                    MonkeyErrorView,
                >(value));
            },
            Err(_) => {},
        }
    }
}


/// A run of digits that something other than a digit follows is read to
/// its end.
pub proof fn digits_are_read_to_their_end(source: Seq<char>, from: int, count: nat)
    requires
        0 <= from,
        from + count <= source.len(),
        forall|i: int| from <= i < from + count ==> is_digit(#[trigger] source[i]),
        !is_digit(char_at(source, from + count)),
    ensures
        digits_end(source, from) == from + count,
    decreases count,
{
    if count > 0 {
        digits_are_read_to_their_end(source, from + 1, (count - 1) as nat);
    }
}

impl Arithmetic {
    /// Whether every number of the expression can be written as a
    /// literal: none is negative.
    pub open spec fn literal(self) -> bool
        decreases self,
    {
        match self {
            Arithmetic::Number(value) => value >= 0,
            Arithmetic::Group(inner) => inner.literal(),
            Arithmetic::Operation { op, left, right } => left.literal() && right.literal(),
        }
    }

    /// The expression as source text, without whitespace.
    pub open spec fn written(self) -> Seq<char>
        decreases self,
    {
        match self {
            Arithmetic::Number(value) => decimal_digits(value as nat),
            Arithmetic::Group(inner) => seq!['('] + inner.written() + seq![')'],
            Arithmetic::Operation { op, left, right } => left.written() + op.text()
                + right.written(),
        }
    }

    /// The text of an expression is not empty.
    pub proof fn written_is_not_empty(self)
        ensures
            self.written().len() >= 1,
        decreases self,
    {
        match self {
            Arithmetic::Number(value) => {
                decimal_digits_are_digits(value as nat);
            },
            Arithmetic::Group(inner) => {},
            Arithmetic::Operation { op, left, right } => {
                left.written_is_not_empty();
            },
        }
    }

    /// Where the text of the expression stands in a source at `from`, and
    /// no digit follows it, the lexer reads the tokens of the expression
    /// there and goes on after it.
    pub proof fn text_is_read_as_tokens(self, source: Seq<char>, from: int)
        requires
            self.literal(),
            0 <= from,
            from + self.written().len() <= source.len(),
            source.subrange(from, from + self.written().len()) == self.written(),
            !is_digit(char_at(source, from + self.written().len())),
        ensures
            tokens_from(source, from) == self.tokens() + tokens_from(
                source,
                from + self.written().len(),
            ),
        decreases self,
    {
        let text = self.written();
        let end = from + text.len();
        self.written_is_not_empty();
        assert forall|i: int| 0 <= i < text.len() implies source[from + i] == text[i] by {
            assert(source.subrange(from, end)[i] == text[i]);
        }
        match self {
            Arithmetic::Number(value) => {
                decimal_digits_are_digits(value as nat);
                assert forall|i: int| from <= i < end implies is_digit(#[trigger] source[i]) by {
                    assert(source[from + (i - from)] == text[i - from]);
                }
                digits_are_read_to_their_end(source, from, text.len());
                number_is_read_back(value);
                assert(is_digit(source[from]));
                assert(spaces_end(source, from) == from);
                assert(next_token_at(source, from) == (TokenView::Integer(value), end));
            },
            Arithmetic::Group(inner) => {
                let inside = inner.written();
                inner.written_is_not_empty();
                assert(source[from] == '(') by {
                    assert(text[0] == '(');
                    assert(source[from + 0] == text[0]);
                }
                assert(source[end - 1] == ')') by {
                    assert(text[text.len() - 1] == ')');
                    assert(source[from + (text.len() - 1)] == text[text.len() - 1]);
                }
                assert(source.subrange(from + 1, from + 1 + inside.len()) =~= inside) by {
                    assert forall|i: int| 0 <= i < inside.len() implies source[from + 1 + i]
                        == inside[i] by {
                        assert(text[1 + i] == inside[i]);
                        assert(source[from + (1 + i)] == text[1 + i]);
                    }
                }
                inner.text_is_read_as_tokens(source, from + 1);
                assert(spaces_end(source, from) == from);
                assert(next_token_at(source, from) == (TokenView::LParen, from + 1));
                assert(spaces_end(source, end - 1) == end - 1);
                assert(next_token_at(source, end - 1) == (TokenView::RParen, end));
                assert(tokens_from(source, end - 1) == seq![TokenView::RParen] + tokens_from(
                    source,
                    end,
                ));
                assert(tokens_from(source, from) =~= self.tokens() + tokens_from(source, end));
            },
            Arithmetic::Operation { op, left, right } => {
                let first = left.written();
                let sign = op.text();
                let second = right.written();
                left.written_is_not_empty();
                right.written_is_not_empty();
                let at_sign = from + first.len();
                let at_right = at_sign + sign.len();
                assert(source.subrange(from, at_sign) =~= first) by {
                    assert forall|i: int| 0 <= i < first.len() implies source[from + i]
                        == first[i] by {
                        assert(text[i] == first[i]);
                    }
                }
                assert forall|i: int| 0 <= i < sign.len() implies source[at_sign + i]
                    == sign[i] by {
                    assert(text[first.len() + i] == sign[i]);
                    assert(source[from + (first.len() + i)] == text[first.len() + i]);
                }
                assert(source.subrange(at_right, end) =~= second) by {
                    assert forall|i: int| 0 <= i < second.len() implies source[at_right + i]
                        == second[i] by {
                        assert(text[first.len() + sign.len() + i] == second[i]);
                        assert(source[from + (first.len() + sign.len() + i)] == text[first.len()
                            + sign.len() + i]);
                    }
                }
                assert(source[at_sign] == sign[0]);
                assert(sign.len() == 2 ==> source[at_sign + 1] == sign[1]);
                left.text_is_read_as_tokens(source, from);
                right.text_is_read_as_tokens(source, at_right);
                assert(spaces_end(source, at_sign) == at_sign);
                assert(next_token_at(source, at_sign) == (operator_token(op), at_right));
                assert(tokens_from(source, at_sign) == seq![operator_token(op)] + tokens_from(
                    source,
                    at_right,
                ));
                assert(tokens_from(source, from) =~= self.tokens() + tokens_from(source, end));
            },
        }
    }

    /// The lexer reads the text of an expression as the tokens of the
    /// expression.
    pub proof fn written_is_read_as_tokens(self)
        requires
            self.literal(),
        ensures
            tokens_of(self.written()) == self.tokens(),
    {
        let text = self.written();
        assert(text.subrange(0, text.len() as int) =~= text);
        self.text_is_read_as_tokens(text, 0);
        assert(tokens_from(text, text.len() as int) =~= Seq::<TokenView>::empty());
        assert(self.tokens() + Seq::<TokenView>::empty() =~= self.tokens());
    }

    /// From text to value: the text of a well-formed expression is parsed
    /// as the tree of the expression and has the value of the expression.
    pub proof fn written_has_value(self)
        requires
            self.well_formed(),
            self.literal(),
        ensures
            program_of(self.written()) == Ok::<Seq<StatementView>, MonkeyErrorView>(
                seq![StatementView::Expression(self.tree())],
            ),
            value_of(self.written()) == self.value(),
    {
        self.written_is_read_as_tokens();
        self.source_follows_precedence(self.written());
        self.source_has_value(self.written());
    }
}

} // verus!
