//! The grammar of the language, as functions from a sequence of tokens to
//! the tree that the tokens spell and the tokens that are left.
//!
//! A sequence of tokens never holds the `EOF` token: past its end every
//! position reads as `EOF`. Each function starts with its first token as
//! the current one and, where it succeeds, leaves the last token of what it
//! read as the current one; the caller steps past it.
//!
//! Expressions are parsed by precedence climbing: `parse_expression` reads
//! an operand and then, as long as the operator that follows binds stronger
//! than the level it was called with, folds the operand and what follows
//! the operator into a new operand. Operators of one level therefore
//! associate to the left, and an operator of a higher level takes its
//! operands first.

use vstd::prelude::*;
use crate::ast::{ExpressionView, StatementView};
use crate::error::MonkeyErrorView;
use crate::operator::{Infix, Precedence, Prefix};
use crate::token::TokenView;

verus! {

/// What a function of the grammar gives: a tree and the tokens that are
/// left, its last token first; or the error that stopped it.
pub type Parsed<T> = Result<(T, Seq<TokenView>), MonkeyErrorView>;

/// The token at `i`; `EOF` past the end.
pub open spec fn token(tokens: Seq<TokenView>, i: int) -> TokenView {
    if 0 <= i < tokens.len() {
        tokens[i]
    } else {
        TokenView::EOF
    }
}

/// The current token.
pub open spec fn cur(tokens: Seq<TokenView>) -> TokenView {
    token(tokens, 0)
}

/// The token after the current one.
pub open spec fn peek(tokens: Seq<TokenView>) -> TokenView {
    token(tokens, 1)
}

/// The tokens after a step to the next token.
pub open spec fn advance(tokens: Seq<TokenView>) -> Seq<TokenView> {
    if tokens.len() > 0 {
        tokens.drop_first()
    } else {
        tokens
    }
}

/// Steps to the next token where it is `expected`, and fails where it is
/// not.
pub open spec fn expect_peek(tokens: Seq<TokenView>, expected: TokenView) -> Result<
    Seq<TokenView>,
    MonkeyErrorView,
> {
    if peek(tokens) == expected {
        Ok(advance(tokens))
    } else {
        Err(MonkeyErrorView::UnexpectedToken { expected, got: peek(tokens) })
    }
}

/// `rest` where it is no longer than `bound`, which it always is where
/// `rest` is what a function of the grammar left of `bound`.
pub open spec fn within(rest: Seq<TokenView>, bound: Seq<TokenView>) -> Seq<TokenView> {
    if rest.len() <= bound.len() {
        rest
    } else {
        bound
    }
}

/// The prefix operator that a token stands for.
pub open spec fn prefix_operator(token: TokenView) -> Option<Prefix> {
    match token {
        TokenView::Bang => Some(Prefix::Bang),
        TokenView::Minus => Some(Prefix::Minus),
        _ => None,
    }
}

/// The infix operator that a token stands for.
pub open spec fn infix_operator(token: TokenView) -> Option<Infix> {
    match token {
        TokenView::Plus => Some(Infix::Plus),
        TokenView::Minus => Some(Infix::Minus),
        TokenView::Asterisk => Some(Infix::Asterisk),
        TokenView::Slash => Some(Infix::Slash),
        TokenView::Eq => Some(Infix::Eq),
        TokenView::NotEq => Some(Infix::NotEq),
        TokenView::LT => Some(Infix::LT),
        TokenView::GT => Some(Infix::GT),
        _ => None,
    }
}

/// A program: statements up to the end of input, each followed by a step
/// to the next token. `done` holds the statements read so far.
pub open spec fn parse_program(tokens: Seq<TokenView>, done: Seq<StatementView>) -> Result<
    Seq<StatementView>,
    MonkeyErrorView,
>
    decreases tokens.len(),
{
    if cur(tokens) is EOF {
        Ok(done)
    } else {
        match parse_statement(tokens) {
            Ok((statement, rest)) => parse_program(
                advance(within(rest, tokens)),
                done.push(statement),
            ),
            Err(error) => Err(error),
        }
    }
}

/// A statement: a `let` statement, a `return` statement or an expression
/// statement, as the current token tells.
pub open spec fn parse_statement(tokens: Seq<TokenView>) -> Parsed<StatementView>
    decreases tokens.len(), 6nat,
{
    match cur(tokens) {
        TokenView::Let => parse_let_statement(tokens),
        TokenView::Return => parse_return_statement(tokens),
        _ => parse_expression_statement(tokens),
    }
}

/// `let`, an identifier, `=` and an expression, and a step onto the token
/// after the expression. That token is the semicolon where there is one.
/// Where there is none the statement ends all the same, and the token that
/// was stepped onto is passed over with it.
pub open spec fn parse_let_statement(tokens: Seq<TokenView>) -> Parsed<StatementView>
    decreases tokens.len(), 5nat,
{
    let at_name = advance(tokens);
    match cur(at_name) {
        TokenView::Ident(name) => match expect_peek(at_name, TokenView::Assign) {
            Ok(at_assign) => match parse_expression(advance(at_assign), Precedence::Lowest) {
                Ok((value, rest)) => Ok(
                    (
                        StatementView::Let { ident: ExpressionView::Ident(name), value },
                        if cur(rest) is Semicolon {
                            rest
                        } else {
                            advance(rest)
                        },
                    ),
                ),
                Err(error) => Err(error),
            },
            Err(error) => Err(error),
        },
        other => Err(
            MonkeyErrorView::UnexpectedToken {
                expected: TokenView::Ident(Seq::empty()),
                got: other,
            },
        ),
    }
}

/// `return`, an expression and the semicolon that must follow it.
pub open spec fn parse_return_statement(tokens: Seq<TokenView>) -> Parsed<StatementView>
    decreases tokens.len(), 5nat,
{
    match parse_expression(advance(tokens), Precedence::Lowest) {
        Ok((value, rest)) => match expect_peek(rest, TokenView::Semicolon) {
            Ok(at_semicolon) => Ok((StatementView::Return(value), at_semicolon)),
            Err(error) => Err(error),
        },
        Err(error) => Err(error),
    }
}

/// An expression, and the semicolon after it where there is one.
pub open spec fn parse_expression_statement(tokens: Seq<TokenView>) -> Parsed<StatementView>
    decreases tokens.len(), 5nat,
{
    match parse_expression(tokens, Precedence::Lowest) {
        Ok((value, rest)) => Ok(
            (
                StatementView::Expression(value),
                if peek(rest) is Semicolon {
                    advance(rest)
                } else {
                    rest
                },
            ),
        ),
        Err(error) => Err(error),
    }
}

/// An expression whose infix operators all bind stronger than
/// `precedence`: an operand, then the operators that follow it.
pub open spec fn parse_expression(tokens: Seq<TokenView>, precedence: Precedence) -> Parsed<
    ExpressionView,
>
    decreases tokens.len(), 4nat,
{
    match parse_operand(tokens) {
        Ok((left, rest)) => parse_infix_loop(within(rest, tokens), left, precedence),
        Err(error) => Err(error),
    }
}

/// An operand: an identifier, a literal, a prefix operator with its
/// operand, an expression in parentheses, an `if` or a function literal.
/// Any other token is invalid where an expression starts.
pub open spec fn parse_operand(tokens: Seq<TokenView>) -> Parsed<ExpressionView>
    decreases tokens.len(), 3nat,
{
    match cur(tokens) {
        TokenView::Ident(name) => Ok((ExpressionView::Ident(name), tokens)),
        TokenView::String(text) => Ok((ExpressionView::String(text), tokens)),
        TokenView::Integer(value) => Ok((ExpressionView::Integer(value), tokens)),
        TokenView::True => Ok((ExpressionView::Bool(true), tokens)),
        TokenView::False => Ok((ExpressionView::Bool(false), tokens)),
        TokenView::Bang => parse_prefix_expression(tokens),
        TokenView::Minus => parse_prefix_expression(tokens),
        TokenView::LParen => parse_grouped_expression(tokens),
        TokenView::If => parse_if_expression(tokens),
        TokenView::Function => parse_function_literal(tokens),
        other => Err(MonkeyErrorView::InvalidToken(other)),
    }
}

/// The operators after the operand `left`. While the next token is no
/// semicolon and binds stronger than `precedence`, it is stepped onto and
/// `left` becomes the infix expression or the call that it starts.
pub open spec fn parse_infix_loop(
    tokens: Seq<TokenView>,
    left: ExpressionView,
    precedence: Precedence,
) -> Parsed<ExpressionView>
    decreases tokens.len(), 3nat,
{
    if !(peek(tokens) is Semicolon) && precedence.spec_level() < peek(
        tokens,
    ).precedence().spec_level() {
        let folded = if infix_operator(peek(tokens)) is Some {
            parse_infix_expression(advance(tokens), left)
        } else {
            parse_call_expression(advance(tokens), left)
        };
        match folded {
            Ok((expression, rest)) => parse_infix_loop(
                within(rest, advance(tokens)),
                expression,
                precedence,
            ),
            Err(error) => Err(error),
        }
    } else {
        Ok((left, tokens))
    }
}

/// A prefix operator and its operand, which holds no infix operator but
/// calls.
pub open spec fn parse_prefix_expression(tokens: Seq<TokenView>) -> Parsed<ExpressionView>
    decreases tokens.len(), 2nat,
{
    match prefix_operator(cur(tokens)) {
        Some(op) => match parse_expression(advance(tokens), Precedence::Prefix) {
            Ok((right, rest)) => Ok((ExpressionView::Prefix { op, right: Box::new(right) }, rest)),
            Err(error) => Err(error),
        },
        None => Err(MonkeyErrorView::InvalidToken(cur(tokens))),
    }
}

/// An infix operator and its right operand, whose own infix operators all
/// bind stronger than this one.
pub open spec fn parse_infix_expression(tokens: Seq<TokenView>, left: ExpressionView) -> Parsed<
    ExpressionView,
>
    decreases tokens.len(), 2nat,
{
    match infix_operator(cur(tokens)) {
        Some(op) => match parse_expression(advance(tokens), cur(tokens).precedence()) {
            Ok((right, rest)) => Ok(
                (ExpressionView::Infix { op, left: Box::new(left), right: Box::new(right) }, rest),
            ),
            Err(error) => Err(error),
        },
        None => Err(MonkeyErrorView::InvalidToken(cur(tokens))),
    }
}

/// `(`, an expression and `)`. The parentheses leave no trace in the tree.
pub open spec fn parse_grouped_expression(tokens: Seq<TokenView>) -> Parsed<ExpressionView>
    decreases tokens.len(), 2nat,
{
    if cur(tokens) is LParen {
        match parse_expression(advance(tokens), Precedence::Lowest) {
            Ok((expression, rest)) => match expect_peek(rest, TokenView::RParen) {
                Ok(at_paren) => Ok((expression, at_paren)),
                Err(error) => Err(error),
            },
            Err(error) => Err(error),
        }
    } else {
        Err(MonkeyErrorView::InvalidToken(cur(tokens)))
    }
}

/// `if`, a condition that starts with `(` and ends with `)`, a block, and
/// where `else` follows, a second block.
pub open spec fn parse_if_expression(tokens: Seq<TokenView>) -> Parsed<ExpressionView>
    decreases tokens.len(), 2nat,
{
    match expect_peek(tokens, TokenView::LParen) {
        Ok(at_paren) => match parse_expression(at_paren, Precedence::Lowest) {
            Ok((condition, rest)) => {
                let rest = within(rest, at_paren);
                if !(cur(rest) is RParen) {
                    Err(
                        MonkeyErrorView::UnexpectedToken {
                            expected: TokenView::RParen,
                            got: cur(rest),
                        },
                    )
                } else {
                    match expect_peek(rest, TokenView::LBrace) {
                        Ok(at_brace) => match parse_block_statement(at_brace) {
                            Ok((consequence, rest)) => match parse_alternative(
                                within(rest, at_brace),
                            ) {
                                Ok((alternative, rest)) => Ok(
                                    (
                                        ExpressionView::If {
                                            condition: Box::new(condition),
                                            consequence: Box::new(consequence),
                                            alternative,
                                        },
                                        rest,
                                    ),
                                ),
                                Err(error) => Err(error),
                            },
                            Err(error) => Err(error),
                        },
                        Err(error) => Err(error),
                    }
                }
            },
            Err(error) => Err(error),
        },
        Err(error) => Err(error),
    }
}

/// What follows the first block of an `if`: `else` and a second block, or
/// nothing.
pub open spec fn parse_alternative(tokens: Seq<TokenView>) -> Parsed<Option<Box<StatementView>>>
    decreases tokens.len(), 2nat,
{
    if peek(tokens) is Else {
        match expect_peek(advance(tokens), TokenView::LBrace) {
            Ok(at_brace) => match parse_block_statement(at_brace) {
                Ok((alternative, rest)) => Ok((Some(Box::new(alternative)), rest)),
                Err(error) => Err(error),
            },
            Err(error) => Err(error),
        }
    } else {
        Ok((None, tokens))
    }
}

/// `fn`, a list of parameters in parentheses and a block.
pub open spec fn parse_function_literal(tokens: Seq<TokenView>) -> Parsed<ExpressionView>
    decreases tokens.len(), 2nat,
{
    match expect_peek(tokens, TokenView::LParen) {
        Ok(at_paren) => match parse_function_parameters(at_paren) {
            Ok((parameters, rest)) => match expect_peek(
                within(rest, at_paren),
                TokenView::LBrace,
            ) {
                Ok(at_brace) => match parse_block_statement(at_brace) {
                    Ok((body, rest)) => Ok(
                        (ExpressionView::Function { parameters, body: Box::new(body) }, rest),
                    ),
                    Err(error) => Err(error),
                },
                Err(error) => Err(error),
            },
            Err(error) => Err(error),
        },
        Err(error) => Err(error),
    }
}

/// The parameters of a function literal, from `(` to `)`: identifiers with
/// commas between them, or nothing.
pub open spec fn parse_function_parameters(tokens: Seq<TokenView>) -> Parsed<Seq<ExpressionView>> {
    if peek(tokens) is RParen {
        Ok((Seq::empty(), advance(tokens)))
    } else {
        parse_parameter_list(advance(tokens), Seq::empty())
    }
}

/// The parameters from the current one on, up to `)`. `done` holds the
/// parameters read so far. A token that is no identifier is invalid where
/// a parameter stands.
pub open spec fn parse_parameter_list(tokens: Seq<TokenView>, done: Seq<ExpressionView>) -> Parsed<
    Seq<ExpressionView>,
>
    decreases tokens.len(),
{
    match cur(tokens) {
        TokenView::Ident(name) => {
            let done = done.push(ExpressionView::Ident(name));
            if peek(tokens) is Comma {
                parse_parameter_list(advance(advance(tokens)), done)
            } else {
                match expect_peek(tokens, TokenView::RParen) {
                    Ok(at_paren) => Ok((done, at_paren)),
                    Err(error) => Err(error),
                }
            }
        },
        other => Err(MonkeyErrorView::InvalidToken(other)),
    }
}

/// The call of `function`, from `(` to `)`: arguments with commas between
/// them, or nothing.
pub open spec fn parse_call_expression(tokens: Seq<TokenView>, function: ExpressionView) -> Parsed<
    ExpressionView,
>
    decreases tokens.len(), 6nat,
{
    if peek(tokens) is RParen {
        Ok(
            (
                ExpressionView::Call { function: Box::new(function), arguments: Seq::empty() },
                advance(tokens),
            ),
        )
    } else {
        match parse_call_arguments(advance(tokens), Seq::empty()) {
            Ok((arguments, rest)) => Ok(
                (ExpressionView::Call { function: Box::new(function), arguments }, rest),
            ),
            Err(error) => Err(error),
        }
    }
}

/// The arguments of a call from the current one on, up to `)`. `done`
/// holds the arguments read so far.
pub open spec fn parse_call_arguments(tokens: Seq<TokenView>, done: Seq<ExpressionView>) -> Parsed<
    Seq<ExpressionView>,
>
    decreases tokens.len(), 5nat,
{
    match parse_expression(tokens, Precedence::Lowest) {
        Ok((argument, rest)) => {
            let rest = within(rest, tokens);
            let done = done.push(argument);
            if peek(rest) is Comma {
                parse_call_arguments(advance(advance(rest)), done)
            } else {
                match expect_peek(rest, TokenView::RParen) {
                    Ok(at_paren) => Ok((done, at_paren)),
                    Err(error) => Err(error),
                }
            }
        },
        Err(error) => Err(error),
    }
}

/// A block, from `{` on: statements up to `}` or to the end of input.
pub open spec fn parse_block_statement(tokens: Seq<TokenView>) -> Parsed<StatementView>
    decreases tokens.len(), 8nat,
{
    parse_block_statements(advance(tokens), Seq::empty())
}

/// The statements of a block from the current token on. `done` holds the
/// statements read so far.
pub open spec fn parse_block_statements(tokens: Seq<TokenView>, done: Seq<StatementView>) -> Parsed<
    StatementView,
>
    decreases tokens.len(), 7nat,
{
    if cur(tokens) is RBrace || cur(tokens) is EOF {
        Ok((StatementView::Block(done), tokens))
    } else {
        match parse_statement(tokens) {
            Ok((statement, rest)) => parse_block_statements(
                advance(within(rest, tokens)),
                done.push(statement),
            ),
            Err(error) => Err(error),
        }
    }
}


/// Whether a function of the grammar gave a well-formed tree and left no
/// more tokens than the `given` ones, where it gave a tree at all.
pub open spec fn sound_statement(parsed: Parsed<StatementView>, given: Seq<TokenView>) -> bool {
    parsed matches Ok((statement, rest)) ==> statement.well_formed() && rest.len() <= given.len()
}

/// Whether a function of the grammar gave a well-formed tree and left no
/// more tokens than the `given` ones, where it gave a tree at all.
pub open spec fn sound_expression(parsed: Parsed<ExpressionView>, given: Seq<TokenView>) -> bool {
    parsed matches Ok((expression, rest)) ==> expression.well_formed() && rest.len() <= given.len()
}

/// Whether every expression is well-formed.
pub open spec fn all_well_formed(expressions: Seq<ExpressionView>) -> bool {
    forall|i: int| 0 <= i < expressions.len() ==> (#[trigger] expressions[i]).well_formed()
}

/// Whether every expression is an identifier.
pub open spec fn all_identifiers(expressions: Seq<ExpressionView>) -> bool {
    forall|i: int| 0 <= i < expressions.len() ==> (#[trigger] expressions[i]) is Ident
}

/// Whether every statement is well-formed.
pub open spec fn all_statements_well_formed(statements: Seq<StatementView>) -> bool {
    forall|i: int| 0 <= i < statements.len() ==> (#[trigger] statements[i]).well_formed()
}

/// The parameters of a function literal are identifiers.
pub proof fn parse_parameter_list_is_sound(tokens: Seq<TokenView>, done: Seq<ExpressionView>)
    requires
        all_identifiers(done),
    ensures
        parse_parameter_list(tokens, done) matches Ok((parameters, rest)) ==> all_identifiers(
            parameters,
        ) && rest.len() <= tokens.len(),
    decreases tokens.len(),
{
    match cur(tokens) {
        TokenView::Ident(name) => {
            if peek(tokens) is Comma {
                parse_parameter_list_is_sound(
                    advance(advance(tokens)),
                    done.push(ExpressionView::Ident(name)),
                );
            }
        },
        _ => {},
    }
}

/// Statements are well-formed and leave no more tokens than given.
pub proof fn parse_statement_is_sound(tokens: Seq<TokenView>)
    ensures
        sound_statement(parse_statement(tokens), tokens),
    decreases tokens.len(), 6nat,
{
    match cur(tokens) {
        TokenView::Let => {
            let at_name = advance(tokens);
            match expect_peek(at_name, TokenView::Assign) {
                Ok(at_assign) => {
                    parse_expression_is_sound(advance(at_assign), Precedence::Lowest);
                },
                Err(_) => {},
            }
        },
        TokenView::Return => {
            parse_expression_is_sound(advance(tokens), Precedence::Lowest);
        },
        _ => {
            parse_expression_is_sound(tokens, Precedence::Lowest);
        },
    }
}

/// Expressions are well-formed and leave no more tokens than given.
pub proof fn parse_expression_is_sound(tokens: Seq<TokenView>, precedence: Precedence)
    ensures
        sound_expression(parse_expression(tokens, precedence), tokens),
    decreases tokens.len(), 4nat,
{
    parse_operand_is_sound(tokens);
    match parse_operand(tokens) {
        Ok((left, rest)) => {
            parse_infix_loop_is_sound(within(rest, tokens), left, precedence);
        },
        Err(_) => {},
    }
}

/// Operands are well-formed and leave no more tokens than given.
pub proof fn parse_operand_is_sound(tokens: Seq<TokenView>)
    ensures
        sound_expression(parse_operand(tokens), tokens),
    decreases tokens.len(), 3nat,
{
    match cur(tokens) {
        TokenView::Bang => {
            parse_expression_is_sound(advance(tokens), Precedence::Prefix);
        },
        TokenView::Minus => {
            parse_expression_is_sound(advance(tokens), Precedence::Prefix);
        },
        TokenView::LParen => {
            parse_expression_is_sound(advance(tokens), Precedence::Lowest);
        },
        TokenView::If => {
            parse_if_expression_is_sound(tokens);
        },
        TokenView::Function => {
            parse_function_literal_is_sound(tokens);
        },
        _ => {},
    }
}

/// `if` expressions are well-formed and leave no more tokens than given.
pub proof fn parse_if_expression_is_sound(tokens: Seq<TokenView>)
    ensures
        sound_expression(parse_if_expression(tokens), tokens),
    decreases tokens.len(), 2nat,
{
    match expect_peek(tokens, TokenView::LParen) {
        Ok(at_paren) => {
            parse_expression_is_sound(at_paren, Precedence::Lowest);
            match parse_expression(at_paren, Precedence::Lowest) {
                Ok((condition, rest)) => {
                    match expect_peek(within(rest, at_paren), TokenView::LBrace) {
                        Ok(at_brace) => {
                            parse_block_statement_is_sound(at_brace);
                            match parse_block_statement(at_brace) {
                                Ok((consequence, rest)) => {
                                    parse_alternative_is_sound(within(rest, at_brace));
                                },
                                Err(_) => {},
                            }
                        },
                        Err(_) => {},
                    }
                },
                Err(_) => {},
            }
        },
        Err(_) => {},
    }
}

/// The second block of an `if` is well-formed where there is one.
pub proof fn parse_alternative_is_sound(tokens: Seq<TokenView>)
    ensures
        parse_alternative(tokens) matches Ok((alternative, rest)) ==> rest.len() <= tokens.len() && (
        alternative matches Some(statement) ==> statement.well_formed()),
    decreases tokens.len(), 2nat,
{
    if peek(tokens) is Else {
        match expect_peek(advance(tokens), TokenView::LBrace) {
            Ok(at_brace) => {
                parse_block_statement_is_sound(at_brace);
            },
            Err(_) => {},
        }
    }
}

/// Function literals are well-formed and leave no more tokens than given.
pub proof fn parse_function_literal_is_sound(tokens: Seq<TokenView>)
    ensures
        sound_expression(parse_function_literal(tokens), tokens),
    decreases tokens.len(), 2nat,
{
    match expect_peek(tokens, TokenView::LParen) {
        Ok(at_paren) => {
            if !(peek(at_paren) is RParen) {
                parse_parameter_list_is_sound(advance(at_paren), Seq::empty());
            }
            match parse_function_parameters(at_paren) {
                Ok((parameters, rest)) => {
                    match expect_peek(within(rest, at_paren), TokenView::LBrace) {
                        Ok(at_brace) => {
                            parse_block_statement_is_sound(at_brace);
                        },
                        Err(_) => {},
                    }
                },
                Err(_) => {},
            }
        },
        Err(_) => {},
    }
}

/// What the operators after an operand make of it is well-formed where
/// the operand is, and leaves no more tokens than given.
pub proof fn parse_infix_loop_is_sound(
    tokens: Seq<TokenView>,
    left: ExpressionView,
    precedence: Precedence,
)
    requires
        left.well_formed(),
    ensures
        sound_expression(parse_infix_loop(tokens, left, precedence), tokens),
    decreases tokens.len(), 3nat,
{
    if !(peek(tokens) is Semicolon) && precedence.spec_level() < peek(
        tokens,
    ).precedence().spec_level() {
        let at_sign = advance(tokens);
        let folded = if infix_operator(peek(tokens)) is Some {
            parse_expression_is_sound(advance(at_sign), cur(at_sign).precedence());
            parse_infix_expression(at_sign, left)
        } else {
            parse_call_expression_is_sound(at_sign, left);
            parse_call_expression(at_sign, left)
        };
        match folded {
            Ok((expression, rest)) => {
                parse_infix_loop_is_sound(within(rest, at_sign), expression, precedence);
            },
            Err(_) => {},
        }
    }
}

/// Calls are well-formed where the callee is, and leave no more tokens
/// than given.
pub proof fn parse_call_expression_is_sound(tokens: Seq<TokenView>, function: ExpressionView)
    requires
        function.well_formed(),
    ensures
        sound_expression(parse_call_expression(tokens, function), tokens),
    decreases tokens.len(), 6nat,
{
    if !(peek(tokens) is RParen) {
        parse_call_arguments_are_sound(advance(tokens), Seq::empty());
    }
}

/// The arguments of a call are well-formed.
pub proof fn parse_call_arguments_are_sound(tokens: Seq<TokenView>, done: Seq<ExpressionView>)
    requires
        all_well_formed(done),
    ensures
        parse_call_arguments(tokens, done) matches Ok((arguments, rest)) ==> all_well_formed(
            arguments,
        ) && rest.len() <= tokens.len(),
    decreases tokens.len(), 5nat,
{
    parse_expression_is_sound(tokens, Precedence::Lowest);
    match parse_expression(tokens, Precedence::Lowest) {
        Ok((argument, rest)) => {
            let rest = within(rest, tokens);
            if peek(rest) is Comma {
                parse_call_arguments_are_sound(advance(advance(rest)), done.push(argument));
            }
        },
        Err(_) => {},
    }
}

/// Blocks are well-formed and leave no more tokens than given.
pub proof fn parse_block_statement_is_sound(tokens: Seq<TokenView>)
    ensures
        sound_statement(parse_block_statement(tokens), tokens),
    decreases tokens.len(), 8nat,
{
    parse_block_statements_are_sound(advance(tokens), Seq::empty());
}

/// The statements of a block are well-formed.
pub proof fn parse_block_statements_are_sound(tokens: Seq<TokenView>, done: Seq<StatementView>)
    requires
        all_statements_well_formed(done),
    ensures
        sound_statement(parse_block_statements(tokens, done), tokens),
    decreases tokens.len(), 7nat,
{
    if !(cur(tokens) is RBrace || cur(tokens) is EOF) {
        parse_statement_is_sound(tokens);
        match parse_statement(tokens) {
            Ok((statement, rest)) => {
                parse_block_statements_are_sound(
                    advance(within(rest, tokens)),
                    done.push(statement),
                );
            },
            Err(_) => {},
        }
    }
}

/// A parsed program is well-formed: each `let` in it binds an identifier
/// and each parameter in it is one.
pub proof fn parse_program_is_sound(tokens: Seq<TokenView>, done: Seq<StatementView>)
    requires
        all_statements_well_formed(done),
    ensures
        parse_program(tokens, done) matches Ok(statements) ==> all_statements_well_formed(
            statements,
        ),
    decreases tokens.len(),
{
    if !(cur(tokens) is EOF) {
        parse_statement_is_sound(tokens);
        match parse_statement(tokens) {
            Ok((statement, rest)) => {
                parse_program_is_sound(advance(within(rest, tokens)), done.push(statement));
            },
            Err(_) => {},
        }
    }
}

} // verus!
