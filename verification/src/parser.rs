//! The parser: reads the tokens of a lexer and builds the tree that the
//! grammar assigns to them.

use vstd::prelude::*;
use crate::ast::{
    block_view, call_view, expression_views, function_view, statement_views, Expression,
    ExpressionView, Program, Statement, StatementView,
};
use crate::error::MonkeyError;
use crate::grammar;
use crate::grammar::{advance, cur, peek, Parsed};
use crate::lexer::{end_of_input_is_final, next_token_advances, next_token_at, tokens_from, Lexer};
use crate::operator::{Infix, Precedence, Prefix};
use crate::token::{Token, TokenView};

verus! {

/// A parser over the tokens of a lexer. It keeps the current token and the
/// one after it.
#[derive(Debug)]
pub struct Parser {
    l: Lexer,
    cur_token: Token,
    peek_token: Token,
}

/// Whether an expression and the tokens left after it are what the grammar
/// gives.
pub open spec fn is_expression(
    result: Result<Expression, MonkeyError>,
    left: Seq<TokenView>,
    expected: Parsed<ExpressionView>,
) -> bool {
    match expected {
        Ok((expression, rest)) => result matches Ok(e) && e@ == expression && left == rest,
        Err(error) => result matches Err(e) && e@ == error,
    }
}

/// Whether a statement and the tokens left after it are what the grammar
/// gives.
pub open spec fn is_statement(
    result: Result<Statement, MonkeyError>,
    left: Seq<TokenView>,
    expected: Parsed<StatementView>,
) -> bool {
    match expected {
        Ok((statement, rest)) => result matches Ok(s) && s@ == statement && left == rest,
        Err(error) => result matches Err(e) && e@ == error,
    }
}

/// Whether a list of expressions and the tokens left after it are what the
/// grammar gives.
pub open spec fn is_expression_list(
    result: Result<Vec<Expression>, MonkeyError>,
    left: Seq<TokenView>,
    expected: Parsed<Seq<ExpressionView>>,
) -> bool {
    match expected {
        Ok((expressions, rest)) => result matches Ok(es) && expression_views(es@) == expressions
            && left == rest,
        Err(error) => result matches Err(e) && e@ == error,
    }
}

impl View for Parser {
    type V = Seq<TokenView>;

    /// The tokens that the parser has yet to read, the current one first
    /// and `EOF` left out.
    closed spec fn view(&self) -> Seq<TokenView> {
        if self.cur_token@ is EOF {
            Seq::empty()
        } else if self.peek_token@ is EOF {
            seq![self.cur_token@]
        } else {
            seq![self.cur_token@, self.peek_token@] + self.l.remaining_tokens()
        }
    }
}

impl Clone for Parser {
    fn clone(&self) -> (res: Self)
        ensures
            res@ == self@,
            res.well_formed() == self.well_formed(),
    {
        Parser {
            l: self.l.clone(),
            cur_token: self.cur_token.clone(),
            peek_token: self.peek_token.clone(),
        }
    }
}

impl Parser {
    /// The two tokens that the parser keeps are the next two of the input:
    /// once one of them is `EOF`, what follows it is `EOF` too.
    pub closed spec fn well_formed(&self) -> bool {
        &&& self.cur_token@ is EOF ==> self.peek_token@ is EOF
        &&& self.peek_token@ is EOF ==> next_token_at(self.l.source(), self.l.position()).0 is EOF
    }

    /// The tokens the parser keeps are the first two of its view.
    proof fn window(&self)
        requires
            self.well_formed(),
        ensures
            self.cur_token@ == cur(self@),
            self.peek_token@ == peek(self@),
    {
    }

    /// A parser at the first token of what `l` has left to read.
    pub fn new(l: Lexer) -> (parser: Parser)
        ensures
            parser.well_formed(),
            parser@ == l.remaining_tokens(),
    {
        let mut l = l;
        let ghost source = l.source();
        let ghost start = l.position();
        let cur_token = l.next_token();
        let ghost middle = l.position();
        let peek_token = l.next_token();
        let parser = Parser { l, cur_token, peek_token };
        proof {
            next_token_advances(source, start);
            next_token_advances(source, middle);
            if cur_token@ is EOF {
                end_of_input_is_final(source, start);
            }
            if peek_token@ is EOF {
                end_of_input_is_final(source, middle);
            }
            let last = parser.l.position();
            assert(tokens_from(source, start) == if cur_token@ is EOF {
                Seq::<TokenView>::empty()
            } else {
                seq![cur_token@] + tokens_from(source, middle)
            });
            assert(tokens_from(source, middle) == if peek_token@ is EOF {
                Seq::<TokenView>::empty()
            } else {
                seq![peek_token@] + tokens_from(source, last)
            });
            assert(parser@ =~= tokens_from(source, start));
        }
        parser
    }

    /// Steps to the next token.
    fn next_token(&mut self)
        requires
            old(self).well_formed(),
        ensures
            final(self).well_formed(),
            final(self)@ == advance(old(self)@),
    {
        let ghost source = self.l.source();
        let ghost start = self.l.position();
        let next = self.l.next_token();
        std::mem::swap(&mut self.cur_token, &mut self.peek_token);
        self.peek_token = next;
        proof {
            next_token_advances(source, start);
            if self.peek_token@ is EOF {
                end_of_input_is_final(source, start);
            }
            assert(self@ =~= advance(old(self)@));
        }
    }

    /// Whether the current token is `expected`.
    fn cur_token_is(&self, expected: Token) -> (b: bool)
        requires
            self.well_formed(),
        ensures
            b == (cur(self@) == expected@),
    {
        proof {
            self.window();
        }
        self.cur_token == expected
    }

    /// Whether the token after the current one is `expected`.
    fn peek_token_is(&self, expected: Token) -> (b: bool)
        requires
            self.well_formed(),
        ensures
            b == (peek(self@) == expected@),
    {
        proof {
            self.window();
        }
        self.peek_token == expected
    }

    /// Steps to the next token where it is `expected`; fails, without a
    /// step, where it is not.
    pub fn expect_peek(&mut self, expected: Token) -> (result: Result<(), MonkeyError>)
        requires
            old(self).well_formed(),
        ensures
            final(self).well_formed(),
            final(self)@.len() <= old(self)@.len(),
            match grammar::expect_peek(old(self)@, expected@) {
                Ok(rest) => result is Ok && final(self)@ == rest,
                Err(error) => result matches Err(e) && e@ == error && final(self)@ == old(self)@,
            },
    {
        proof {
            self.window();
        }
        if self.peek_token == expected {
            self.next_token();
            Ok(())
        } else {
            Err(MonkeyError::UnexpectedToken { expected, got: self.peek_token.clone() })
        }
    }

    /// Binding strength of the current token.
    fn cur_precedence(&self) -> (p: Precedence)
        requires
            self.well_formed(),
        ensures
            p == cur(self@).precedence(),
    {
        proof {
            self.window();
        }
        self.cur_token.precedence()
    }

    /// Binding strength of the token after the current one.
    fn peek_precedence(&self) -> (p: Precedence)
        requires
            self.well_formed(),
        ensures
            p == peek(self@).precedence(),
    {
        proof {
            self.window();
        }
        self.peek_token.precedence()
    }

    /// Parses a program: the statements of the input up to its end. Parsing
    /// stops at the first error. In the program that it gives, each `let`
    /// binds an identifier and each parameter is one.
    pub fn parse_program(&mut self) -> (result: Result<Program, MonkeyError>)
        requires
            old(self).well_formed(),
        ensures
            final(self).well_formed(),
            match grammar::parse_program(old(self)@, Seq::empty()) {
                Ok(statements) => result matches Ok(program) && program@ == statements
                    && final(self)@.len() == 0,
                Err(error) => result matches Err(e) && e@ == error,
            },
            result matches Ok(program) ==> grammar::all_statements_well_formed(program@),
    {
        proof {
            grammar::parse_program_is_sound(self@, Seq::empty());
        }
        self.parse_statements()
    }

    /// Parses statements up to the end of input.
    fn parse_statements(&mut self) -> (result: Result<Program, MonkeyError>)
        requires
            old(self).well_formed(),
        ensures
            final(self).well_formed(),
            match grammar::parse_program(old(self)@, Seq::empty()) {
                Ok(statements) => result matches Ok(program) && program@ == statements
                    && final(self)@.len() == 0,
                Err(error) => result matches Err(e) && e@ == error,
            },
    {
        let mut program = Program::new();
        loop
            invariant
                self.well_formed(),
                grammar::parse_program(self@, program@) == grammar::parse_program(
                    old(self)@,
                    Seq::empty(),
                ),
            decreases self@.len(),
        {
            if self.cur_token_is(Token::EOF) {
                return Ok(program);
            }
            let ghost done = program@;
            match self.parse_statement() {
                Ok(statement) => {
                    program.statements.push(statement);
                    assert(program@ =~= done.push(statement@));
                },
                Err(error) => {
                    return Err(error);
                },
            }
            self.next_token();
        }
    }

    /// Parses a statement.
    fn parse_statement(&mut self) -> (result: Result<Statement, MonkeyError>)
        requires
            old(self).well_formed(),
        ensures
            final(self).well_formed(),
            final(self)@.len() <= old(self)@.len(),
            is_statement(result, final(self)@, grammar::parse_statement(old(self)@)),
        decreases old(self)@.len(), 6nat,
    {
        proof {
            self.window();
        }
        match self.cur_token {
            Token::Let => self.parse_let_statement(),
            Token::Return => self.parse_return_statement(),
            _ => self.parse_expression_statement(),
        }
    }

    /// Parses a `let` statement.
    fn parse_let_statement(&mut self) -> (result: Result<Statement, MonkeyError>)
        requires
            old(self).well_formed(),
        ensures
            final(self).well_formed(),
            final(self)@.len() <= old(self)@.len(),
            is_statement(result, final(self)@, grammar::parse_let_statement(old(self)@)),
        decreases old(self)@.len(), 5nat,
    {
        self.next_token();
        proof {
            self.window();
        }
        let ghost at_name = self@;
        let ident = match &self.cur_token {
            Token::Ident(ident) => Expression::Ident(ident.clone()),
            _ => {
                return Err(
                    MonkeyError::UnexpectedToken {
                        expected: Token::Ident(String::new()),
                        got: self.cur_token.clone(),
                    },
                );
            },
        };
        assert(cur(at_name) == TokenView::Ident(ident@->Ident_0));
        match self.expect_peek(Token::Assign) {
            Ok(_) => {},
            Err(error) => {
                return Err(error);
            },
        }
        self.next_token();
        let value = match self.parse_expression(Precedence::Lowest) {
            Ok(value) => value,
            Err(error) => {
                return Err(error);
            },
        };
        if !self.cur_token_is(Token::Semicolon) {
            self.next_token();
        }
        Ok(Statement::Let { ident, value })
    }

    /// Parses a `return` statement.
    fn parse_return_statement(&mut self) -> (result: Result<Statement, MonkeyError>)
        requires
            old(self).well_formed(),
        ensures
            final(self).well_formed(),
            final(self)@.len() <= old(self)@.len(),
            is_statement(result, final(self)@, grammar::parse_return_statement(old(self)@)),
        decreases old(self)@.len(), 5nat,
    {
        self.next_token();
        let value = match self.parse_expression(Precedence::Lowest) {
            Ok(value) => value,
            Err(error) => {
                return Err(error);
            },
        };
        match self.expect_peek(Token::Semicolon) {
            Ok(_) => {},
            Err(error) => {
                return Err(error);
            },
        }
        Ok(Statement::Return(value))
    }

    /// Parses an expression statement.
    fn parse_expression_statement(&mut self) -> (result: Result<Statement, MonkeyError>)
        requires
            old(self).well_formed(),
        ensures
            final(self).well_formed(),
            final(self)@.len() <= old(self)@.len(),
            is_statement(result, final(self)@, grammar::parse_expression_statement(old(self)@)),
        decreases old(self)@.len(), 5nat,
    {
        let value = match self.parse_expression(Precedence::Lowest) {
            Ok(value) => value,
            Err(error) => {
                return Err(error);
            },
        };
        if self.peek_token_is(Token::Semicolon) {
            self.next_token();
        }
        Ok(Statement::Expression(value))
    }

    /// Parses an expression whose infix operators all bind stronger than
    /// `precedence`. It starts at the first token of the expression and
    /// ends at its last.
    fn parse_expression(&mut self, precedence: Precedence) -> (result: Result<
        Expression,
        MonkeyError,
    >)
        requires
            old(self).well_formed(),
        ensures
            final(self).well_formed(),
            final(self)@.len() <= old(self)@.len(),
            is_expression(result, final(self)@, grammar::parse_expression(old(self)@, precedence)),
        decreases old(self)@.len(), 4nat,
    {
        let mut left = match self.parse_operand() {
            Ok(left) => left,
            Err(error) => {
                return Err(error);
            },
        };
        loop
            invariant
                self.well_formed(),
                self@.len() <= old(self)@.len(),
                grammar::parse_infix_loop(self@, left@, precedence) == grammar::parse_expression(
                    old(self)@,
                    precedence,
                ),
            decreases self@.len(),
        {
            if self.peek_token_is(Token::Semicolon) || !(precedence < self.peek_precedence()) {
                return Ok(left);
            }
            proof {
                self.window();
            }
            let is_call = match self.peek_token {
                Token::Plus => false,
                Token::Minus => false,
                Token::Slash => false,
                Token::Asterisk => false,
                Token::Eq => false,
                Token::NotEq => false,
                Token::LT => false,
                Token::GT => false,
                _ => true,
            };
            self.next_token();
            let folded = if is_call {
                self.parse_call_expression(left)
            } else {
                self.parse_infix_expression(left)
            };
            match folded {
                Ok(expression) => {
                    left = expression;
                },
                Err(error) => {
                    return Err(error);
                },
            }
        }
    }

    /// Parses an operand.
    fn parse_operand(&mut self) -> (result: Result<Expression, MonkeyError>)
        requires
            old(self).well_formed(),
        ensures
            final(self).well_formed(),
            final(self)@.len() <= old(self)@.len(),
            is_expression(result, final(self)@, grammar::parse_operand(old(self)@)),
        decreases old(self)@.len(), 3nat,
    {
        proof {
            self.window();
        }
        match &self.cur_token {
            Token::Ident(ident) => Ok(Expression::Ident(ident.clone())),
            Token::String(s) => Ok(Expression::String(s.clone())),
            Token::Integer(value) => Ok(Expression::Integer(*value)),
            Token::True => Ok(Expression::Bool(true)),
            Token::False => Ok(Expression::Bool(false)),
            Token::Bang => self.parse_prefix_expression(),
            Token::Minus => self.parse_prefix_expression(),
            Token::LParen => self.parse_grouped_expression(),
            Token::If => self.parse_if_expression(),
            Token::Function => self.parse_function_literal(),
            token => Err(MonkeyError::InvalidToken(token.clone())),
        }
    }

    /// Parses an expression in parentheses.
    fn parse_grouped_expression(&mut self) -> (result: Result<Expression, MonkeyError>)
        requires
            old(self).well_formed(),
            cur(old(self)@) is LParen,
        ensures
            final(self).well_formed(),
            final(self)@.len() <= old(self)@.len(),
            is_expression(result, final(self)@, grammar::parse_grouped_expression(old(self)@)),
        decreases old(self)@.len(), 2nat,
    {
        self.next_token();
        let expression = match self.parse_expression(Precedence::Lowest) {
            Ok(expression) => expression,
            Err(error) => {
                return Err(error);
            },
        };
        match self.expect_peek(Token::RParen) {
            Ok(_) => {},
            Err(error) => {
                return Err(error);
            },
        }
        Ok(expression)
    }

    /// Parses an `if` expression.
    fn parse_if_expression(&mut self) -> (result: Result<Expression, MonkeyError>)
        requires
            old(self).well_formed(),
        ensures
            final(self).well_formed(),
            final(self)@.len() <= old(self)@.len(),
            is_expression(result, final(self)@, grammar::parse_if_expression(old(self)@)),
        decreases old(self)@.len(), 2nat,
    {
        match self.expect_peek(Token::LParen) {
            Ok(_) => {},
            Err(error) => {
                return Err(error);
            },
        }
        let condition = match self.parse_expression(Precedence::Lowest) {
            Ok(condition) => condition,
            Err(error) => {
                return Err(error);
            },
        };
        if !self.cur_token_is(Token::RParen) {
            proof {
                self.window();
            }
            return Err(
                MonkeyError::UnexpectedToken { expected: Token::RParen, got: self.cur_token.clone() },
            );
        }
        match self.expect_peek(Token::LBrace) {
            Ok(_) => {},
            Err(error) => {
                return Err(error);
            },
        }
        let consequence = match self.parse_block_statement() {
            Ok(consequence) => consequence,
            Err(error) => {
                return Err(error);
            },
        };
        let alternative = if self.peek_token_is(Token::Else) {
            self.next_token();
            match self.expect_peek(Token::LBrace) {
                Ok(_) => {},
                Err(error) => {
                    return Err(error);
                },
            }
            match self.parse_block_statement() {
                Ok(alternative) => Some(Box::new(alternative)),
                Err(error) => {
                    return Err(error);
                },
            }
        } else {
            None
        };
        Ok(
            Expression::If {
                condition: Box::new(condition),
                consequence: Box::new(consequence),
                alternative,
            },
        )
    }

    /// Parses a function literal.
    fn parse_function_literal(&mut self) -> (result: Result<Expression, MonkeyError>)
        requires
            old(self).well_formed(),
        ensures
            final(self).well_formed(),
            final(self)@.len() <= old(self)@.len(),
            is_expression(result, final(self)@, grammar::parse_function_literal(old(self)@)),
        decreases old(self)@.len(), 2nat,
    {
        match self.expect_peek(Token::LParen) {
            Ok(_) => {},
            Err(error) => {
                return Err(error);
            },
        }
        let parameters = match self.parse_function_parameters() {
            Ok(parameters) => parameters,
            Err(error) => {
                return Err(error);
            },
        };
        match self.expect_peek(Token::LBrace) {
            Ok(_) => {},
            Err(error) => {
                return Err(error);
            },
        }
        let body = match self.parse_block_statement() {
            Ok(body) => Box::new(body),
            Err(error) => {
                return Err(error);
            },
        };
        proof {
            function_view(parameters, body);
        }
        Ok(Expression::Function { parameters, body })
    }

    /// Parses the parameters of a function literal.
    fn parse_function_parameters(&mut self) -> (result: Result<Vec<Expression>, MonkeyError>)
        requires
            old(self).well_formed(),
        ensures
            final(self).well_formed(),
            final(self)@.len() <= old(self)@.len(),
            is_expression_list(
                result,
                final(self)@,
                grammar::parse_function_parameters(old(self)@),
            ),
    {
        let mut idents: Vec<Expression> = Vec::new();
        if self.peek_token_is(Token::RParen) {
            self.next_token();
            assert(expression_views(idents@) =~= Seq::<ExpressionView>::empty());
            return Ok(idents);
        }
        self.next_token();
        assert(expression_views(idents@) =~= Seq::<ExpressionView>::empty());
        loop
            invariant
                self.well_formed(),
                self@.len() <= old(self)@.len(),
                grammar::parse_parameter_list(self@, expression_views(idents@))
                    == grammar::parse_function_parameters(old(self)@),
            decreases self@.len(),
        {
            proof {
                self.window();
            }
            let ghost done = expression_views(idents@);
            match &self.cur_token {
                Token::Ident(ident) => {
                    idents.push(Expression::Ident(ident.clone()));
                    assert(expression_views(idents@) =~= done.push(
                        ExpressionView::Ident(ident@),
                    ));
                },
                token => {
                    return Err(MonkeyError::InvalidToken(token.clone()));
                },
            }
            if !self.peek_token_is(Token::Comma) {
                match self.expect_peek(Token::RParen) {
                    Ok(_) => {},
                    Err(error) => {
                        return Err(error);
                    },
                }
                return Ok(idents);
            }
            self.next_token();
            self.next_token();
        }
    }

    /// Parses the call of `function`.
    fn parse_call_expression(&mut self, function: Expression) -> (result: Result<
        Expression,
        MonkeyError,
    >)
        requires
            old(self).well_formed(),
        ensures
            final(self).well_formed(),
            final(self)@.len() <= old(self)@.len(),
            is_expression(
                result,
                final(self)@,
                grammar::parse_call_expression(old(self)@, function@),
            ),
        decreases old(self)@.len(), 6nat,
    {
        let mut arguments: Vec<Expression> = Vec::new();
        assert(expression_views(arguments@) =~= Seq::<ExpressionView>::empty());
        if self.peek_token_is(Token::RParen) {
            self.next_token();
            let function = Box::new(function);
            proof {
                call_view(function, arguments);
            }
            return Ok(Expression::Call { function, arguments });
        }
        self.next_token();
        loop
            invariant
                self.well_formed(),
                self@.len() <= old(self)@.len(),
                !(peek(old(self)@) is RParen),
                grammar::parse_call_arguments(self@, expression_views(arguments@))
                    == grammar::parse_call_arguments(advance(old(self)@), Seq::empty()),
            decreases self@.len(),
        {
            let ghost done = expression_views(arguments@);
            match self.parse_expression(Precedence::Lowest) {
                Ok(argument) => {
                    arguments.push(argument);
                    assert(expression_views(arguments@) =~= done.push(argument@));
                },
                Err(error) => {
                    return Err(error);
                },
            }
            if !self.peek_token_is(Token::Comma) {
                match self.expect_peek(Token::RParen) {
                    Ok(_) => {},
                    Err(error) => {
                        return Err(error);
                    },
                }
                let function = Box::new(function);
                proof {
                    call_view(function, arguments);
                }
                return Ok(Expression::Call { function, arguments });
            }
            self.next_token();
            self.next_token();
        }
    }

    /// Parses a block.
    fn parse_block_statement(&mut self) -> (result: Result<Statement, MonkeyError>)
        requires
            old(self).well_formed(),
        ensures
            final(self).well_formed(),
            final(self)@.len() <= old(self)@.len(),
            is_statement(result, final(self)@, grammar::parse_block_statement(old(self)@)),
        decreases old(self)@.len(), 8nat,
    {
        self.next_token();
        let mut blocks: Vec<Statement> = Vec::new();
        assert(statement_views(blocks@) =~= Seq::<StatementView>::empty());
        loop
            invariant
                self.well_formed(),
                self@.len() <= old(self)@.len(),
                grammar::parse_block_statements(self@, statement_views(blocks@))
                    == grammar::parse_block_statement(old(self)@),
            decreases self@.len(),
        {
            if self.cur_token_is(Token::RBrace) || self.cur_token_is(Token::EOF) {
                proof {
                    block_view(blocks);
                }
                return Ok(Statement::Block(blocks));
            }
            let ghost done = statement_views(blocks@);
            match self.parse_statement() {
                Ok(statement) => {
                    blocks.push(statement);
                    assert(statement_views(blocks@) =~= done.push(statement@));
                },
                Err(error) => {
                    return Err(error);
                },
            }
            self.next_token();
        }
    }

    /// Parses a prefix operator and its operand.
    fn parse_prefix_expression(&mut self) -> (result: Result<Expression, MonkeyError>)
        requires
            old(self).well_formed(),
        ensures
            final(self).well_formed(),
            final(self)@.len() <= old(self)@.len(),
            is_expression(result, final(self)@, grammar::parse_prefix_expression(old(self)@)),
        decreases old(self)@.len(), 2nat,
    {
        proof {
            self.window();
        }
        let op = match self.cur_token {
            Token::Bang => Prefix::Bang,
            Token::Minus => Prefix::Minus,
            _ => {
                return Err(MonkeyError::InvalidToken(self.cur_token.clone()));
            },
        };
        self.next_token();
        let right = match self.parse_expression(Precedence::Prefix) {
            Ok(right) => right,
            Err(error) => {
                return Err(error);
            },
        };
        Ok(Expression::Prefix { op, right: Box::new(right) })
    }

    /// Parses an infix operator and its right operand.
    fn parse_infix_expression(&mut self, left: Expression) -> (result: Result<
        Expression,
        MonkeyError,
    >)
        requires
            old(self).well_formed(),
        ensures
            final(self).well_formed(),
            final(self)@.len() <= old(self)@.len(),
            is_expression(
                result,
                final(self)@,
                grammar::parse_infix_expression(old(self)@, left@),
            ),
        decreases old(self)@.len(), 2nat,
    {
        proof {
            self.window();
        }
        let op = match self.cur_token {
            Token::Plus => Infix::Plus,
            Token::Minus => Infix::Minus,
            Token::Asterisk => Infix::Asterisk,
            Token::Slash => Infix::Slash,
            Token::Eq => Infix::Eq,
            Token::NotEq => Infix::NotEq,
            Token::LT => Infix::LT,
            Token::GT => Infix::GT,
            _ => {
                return Err(MonkeyError::InvalidToken(self.cur_token.clone()));
            },
        };
        let precedence = self.cur_precedence();
        self.next_token();
        let right = match self.parse_expression(precedence) {
            Ok(right) => right,
            Err(error) => {
                return Err(error);
            },
        };
        Ok(Expression::Infix { op, left: Box::new(left), right: Box::new(right) })
    }
}

} // verus!
