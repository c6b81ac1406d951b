//! The abstract syntax tree: statements and expressions, their mathematical
//! views, and their rendering as text with every operator application in
//! parentheses.

use vstd::prelude::*;
use crate::operator::{Infix, Prefix};
use crate::text::{int_text, int_to_string};

verus! {

/// A statement.
#[derive(Debug)]
pub enum Statement {
    Let { ident: Expression, value: Expression },
    Return(Expression),
    Expression(Expression),
    Block(Vec<Statement>),
}

/// An expression.
#[derive(Debug)]
#[allow(inconsistent_fields)]
pub enum Expression {
    Ident(String),
    String(String),
    Integer(i32),
    Bool(bool),
    Prefix { op: Prefix, right: Box<Expression> },
    Infix { op: Infix, left: Box<Expression>, right: Box<Expression> },
    If { condition: Box<Expression>, consequence: Box<Statement>, alternative: Option<Box<Statement>> },
    Function { parameters: Vec<Expression>, body: Box<Statement> },
    Call { function: Box<Expression>, arguments: Vec<Expression> },
}

/// The root of a parsed program: its statements in order.
#[derive(Debug)]
pub struct Program {
    pub statements: Vec<Statement>,
}

/// The mathematical value of a [`Statement`].
pub enum StatementView {
    Let { ident: ExpressionView, value: ExpressionView },
    Return(ExpressionView),
    Expression(ExpressionView),
    Block(Seq<StatementView>),
}

/// The mathematical value of an [`Expression`].
#[allow(inconsistent_fields)]
pub enum ExpressionView {
    Ident(Seq<char>),
    String(Seq<char>),
    Integer(i32),
    Bool(bool),
    Prefix { op: Prefix, right: Box<ExpressionView> },
    Infix { op: Infix, left: Box<ExpressionView>, right: Box<ExpressionView> },
    If {
        condition: Box<ExpressionView>,
        consequence: Box<StatementView>,
        alternative: Option<Box<StatementView>>,
    },
    Function { parameters: Seq<ExpressionView>, body: Box<StatementView> },
    Call { function: Box<ExpressionView>, arguments: Seq<ExpressionView> },
}

impl Statement {
    /// The mathematical value of the statement.
    pub open spec fn model(self) -> StatementView
        decreases self,
    {
        match self {
            Statement::Let { ident, value } => StatementView::Let {
                ident: ident.model(),
                value: value.model(),
            },
            Statement::Return(value) => StatementView::Return(value.model()),
            Statement::Expression(value) => StatementView::Expression(value.model()),
            Statement::Block(statements) => StatementView::Block(
                Seq::new(
                    statements@.len(),
                    |i: int|
                        if 0 <= i < statements@.len() {
                            statements@[i].model()
                        } else {
                            arbitrary()
                        },
                ),
            ),
        }
    }
}

impl Expression {
    /// The mathematical value of the expression.
    pub open spec fn model(self) -> ExpressionView
        decreases self,
    {
        match self {
            Expression::Ident(name) => ExpressionView::Ident(name@),
            Expression::String(text) => ExpressionView::String(text@),
            Expression::Integer(value) => ExpressionView::Integer(value),
            Expression::Bool(value) => ExpressionView::Bool(value),
            Expression::Prefix { op, right } => ExpressionView::Prefix {
                op,
                right: Box::new(right.model()),
            },
            Expression::Infix { op, left, right } => ExpressionView::Infix {
                op,
                left: Box::new(left.model()),
                right: Box::new(right.model()),
            },
            Expression::If { condition, consequence, alternative } => ExpressionView::If {
                condition: Box::new(condition.model()),
                consequence: Box::new(consequence.model()),
                alternative: match alternative {
                    Some(statement) => Some(Box::new(statement.model())),
                    None => None,
                },
            },
            Expression::Function { parameters, body } => ExpressionView::Function {
                parameters: Seq::new(
                    parameters@.len(),
                    |i: int|
                        if 0 <= i < parameters@.len() {
                            parameters@[i].model()
                        } else {
                            arbitrary()
                        },
                ),
                body: Box::new(body.model()),
            },
            Expression::Call { function, arguments } => ExpressionView::Call {
                function: Box::new(function.model()),
                arguments: Seq::new(
                    arguments@.len(),
                    |i: int|
                        if 0 <= i < arguments@.len() {
                            arguments@[i].model()
                        } else {
                            arbitrary()
                        },
                ),
            },
        }
    }
}

impl View for Statement {
    type V = StatementView;

    open spec fn view(&self) -> StatementView {
        self.model()
    }
}

impl View for Expression {
    type V = ExpressionView;

    open spec fn view(&self) -> ExpressionView {
        self.model()
    }
}

impl View for Program {
    type V = Seq<StatementView>;

    open spec fn view(&self) -> Seq<StatementView> {
        statement_views(self.statements@)
    }
}

/// The views of a sequence of statements.
pub open spec fn statement_views(statements: Seq<Statement>) -> Seq<StatementView> {
    Seq::new(statements.len(), |i: int| statements[i]@)
}

/// The views of a sequence of expressions.
pub open spec fn expression_views(expressions: Seq<Expression>) -> Seq<ExpressionView> {
    Seq::new(expressions.len(), |i: int| expressions[i]@)
}

/// The view of a block is the views of its statements.
pub proof fn block_view(statements: Vec<Statement>)
    ensures
        Statement::Block(statements)@ == StatementView::Block(statement_views(statements@)),
{
    assert(Statement::Block(statements)@->Block_0 =~= statement_views(statements@));
}

/// The view of a function literal holds the views of its parameters.
pub proof fn function_view(parameters: Vec<Expression>, body: Box<Statement>)
    ensures
        (Expression::Function { parameters, body })@ == (ExpressionView::Function {
            parameters: expression_views(parameters@),
            body: Box::new(body@),
        }),
{
    assert((Expression::Function { parameters, body })@->Function_parameters =~= expression_views(
        parameters@,
    ));
}

/// The view of a call holds the views of its arguments.
pub proof fn call_view(function: Box<Expression>, arguments: Vec<Expression>)
    ensures
        (Expression::Call { function, arguments })@ == (ExpressionView::Call {
            function: Box::new(function@),
            arguments: expression_views(arguments@),
        }),
{
    assert((Expression::Call { function, arguments })@->Call_arguments =~= expression_views(
        arguments@,
    ));
}

impl StatementView {
    /// Whether the names of the statement are names: each `let` binds an
    /// identifier and each parameter of a function literal is one.
    pub open spec fn well_formed(self) -> bool
        decreases self,
    {
        match self {
            StatementView::Let { ident, value } => ident is Ident && value.well_formed(),
            StatementView::Return(value) => value.well_formed(),
            StatementView::Expression(value) => value.well_formed(),
            StatementView::Block(statements) => forall|i: int|
                0 <= i < statements.len() ==> (#[trigger] statements[i]).well_formed(),
        }
    }

    /// The statement as text.
    pub open spec fn text(self) -> Seq<char>
        decreases self, 0nat,
    {
        match self {
            StatementView::Let { ident, value } => "let "@ + ident.text() + " = "@ + value.text()
                + ";"@,
            StatementView::Return(value) => "return "@ + value.text() + ";"@,
            StatementView::Expression(value) => value.text() + ";"@,
            StatementView::Block(statements) => statements_text(statements, 0),
        }
    }
}

/// The statements of `statements` from index `from` on as text, one after
/// the other.
pub open spec fn statements_text(statements: Seq<StatementView>, from: nat) -> Seq<char>
    decreases statements, statements.len() - from,
{
    if from >= statements.len() {
        Seq::empty()
    } else {
        statements[from as int].text() + statements_text(statements, from + 1)
    }
}

impl ExpressionView {
    /// Whether the names of the expression are names: each `let` in it
    /// binds an identifier and each parameter of a function literal in it
    /// is one.
    pub open spec fn well_formed(self) -> bool
        decreases self,
    {
        match self {
            ExpressionView::Prefix { op, right } => right.well_formed(),
            ExpressionView::Infix { op, left, right } => left.well_formed() && right.well_formed(),
            ExpressionView::If { condition, consequence, alternative } => {
                &&& condition.well_formed()
                &&& consequence.well_formed()
                &&& match alternative {
                    Some(statement) => statement.well_formed(),
                    None => true,
                }
            },
            ExpressionView::Function { parameters, body } => {
                &&& forall|i: int| 0 <= i < parameters.len() ==> (#[trigger] parameters[i]) is Ident
                &&& body.well_formed()
            },
            ExpressionView::Call { function, arguments } => {
                &&& function.well_formed()
                &&& forall|i: int|
                    0 <= i < arguments.len() ==> (#[trigger] arguments[i]).well_formed()
            },
            _ => true,
        }
    }

    /// The expression as text. Every application of a prefix or infix
    /// operator stands in parentheses, so the text shows how the expression
    /// is nested.
    pub open spec fn text(self) -> Seq<char>
        decreases self, 0nat,
    {
        match self {
            ExpressionView::Ident(name) => name,
            ExpressionView::String(text) => text,
            ExpressionView::Integer(value) => int_text(value as int),
            ExpressionView::Bool(value) => if value {
                "true"@
            } else {
                "false"@
            },
            ExpressionView::Prefix { op, right } => "("@ + op.text() + right.text() + ")"@,
            ExpressionView::Infix { op, left, right } => "("@ + left.text() + op.text()
                + right.text() + ")"@,
            ExpressionView::If { condition, consequence, alternative } => match alternative {
                Some(statement) => "if("@ + condition.text() + "){"@ + consequence.text()
                    + "}else{"@ + statement.text() + "}"@,
                None => "if("@ + condition.text() + "){"@ + consequence.text() + "}"@,
            },
            ExpressionView::Function { parameters, body } => "fn("@ + expressions_text(
                parameters,
                0,
            ) + "){"@ + body.text() + "}"@,
            ExpressionView::Call { function, arguments } => function.text() + "("@
                + expressions_text(arguments, 0) + ")"@,
        }
    }
}

/// The expressions of `expressions` from index `from` on as text, with a
/// comma between one and the next.
pub open spec fn expressions_text(expressions: Seq<ExpressionView>, from: nat) -> Seq<char>
    decreases expressions, expressions.len() - from,
{
    if from >= expressions.len() {
        Seq::empty()
    } else if from + 1 == expressions.len() {
        expressions[from as int].text()
    } else {
        expressions[from as int].text() + ","@ + expressions_text(expressions, from + 1)
    }
}

/// A program as text: each statement followed by a line feed.
pub open spec fn program_text(statements: Seq<StatementView>, from: nat) -> Seq<char>
    decreases statements.len() - from,
{
    if from >= statements.len() {
        Seq::empty()
    } else {
        statements[from as int].text() + "\n"@ + program_text(statements, from + 1)
    }
}


/// Appends the text of each statement of `statements` to `out`.
pub fn write_statements(statements: &Vec<Statement>, out: &mut String)
    ensures
        final(out)@ == old(out)@ + statements_text(statement_views(statements@), 0),
    decreases statements,
{
    let ghost views = statement_views(statements@);
    let ghost start = out@;
    let mut i: usize = 0;
    while i < statements.len()
        invariant
            i <= statements.len(),
            views == statement_views(statements@),
            out@ + statements_text(views, i as nat) == start + statements_text(views, 0),
        decreases statements.len() - i,
    {
        let ghost before = out@;
        write_statement(&statements[i], out);
        proof {
            assert(views[i as int] == statements@[i as int]@);
            assert(out@ + statements_text(views, (i + 1) as nat) =~= before + statements_text(
                views,
                i as nat,
            ));
        }
        i = i + 1;
    }
    assert(out@ =~= out@ + statements_text(views, i as nat));
}

/// Appends the text of `statement` to `out`.
pub fn write_statement(statement: &Statement, out: &mut String)
    ensures
        final(out)@ == old(out)@ + statement@.text(),
    decreases statement,
{
    match statement {
        Statement::Let { ident, value } => {
            out.append("let ");
            write_expression(ident, out);
            out.append(" = ");
            write_expression(value, out);
            out.append(";");
        },
        Statement::Return(value) => {
            out.append("return ");
            write_expression(value, out);
            out.append(";");
        },
        Statement::Expression(value) => {
            write_expression(value, out);
            out.append(";");
        },
        Statement::Block(statements) => {
            proof {
                block_view(*statements);
            }
            write_statements(statements, out);
        },
    }
    assert(out@ =~= old(out)@ + statement@.text());
}

/// Appends the text of each expression of `expressions` to `out`, with a
/// comma between one and the next.
pub fn write_expressions(expressions: &Vec<Expression>, out: &mut String)
    ensures
        final(out)@ == old(out)@ + expressions_text(expression_views(expressions@), 0),
    decreases expressions,
{
    let ghost views = expression_views(expressions@);
    let ghost start = out@;
    let mut i: usize = 0;
    while i < expressions.len()
        invariant
            i <= expressions.len(),
            views == expression_views(expressions@),
            out@ + expressions_text(views, i as nat) == start + expressions_text(views, 0),
        decreases expressions.len() - i,
    {
        let ghost before = out@;
        write_expression(&expressions[i], out);
        if i + 1 < expressions.len() {
            out.append(",");
        }
        proof {
            assert(views[i as int] == expressions@[i as int]@);
            assert(out@ + expressions_text(views, (i + 1) as nat) =~= before + expressions_text(
                views,
                i as nat,
            ));
        }
        i = i + 1;
    }
    assert(out@ =~= out@ + expressions_text(views, i as nat));
}

/// Appends the text of `expression` to `out`.
pub fn write_expression(expression: &Expression, out: &mut String)
    ensures
        final(out)@ == old(out)@ + expression@.text(),
    decreases expression,
{
    match expression {
        Expression::Ident(name) => {
            out.append(name.as_str());
        },
        Expression::String(text) => {
            out.append(text.as_str());
        },
        Expression::Integer(value) => {
            let digits = int_to_string(*value);
            out.append(digits.as_str());
        },
        Expression::Bool(value) => {
            if *value {
                out.append("true");
            } else {
                out.append("false");
            }
        },
        Expression::Prefix { op, right } => {
            out.append("(");
            let sign = op.to_string();
            out.append(sign.as_str());
            write_expression(right, out);
            out.append(")");
        },
        Expression::Infix { op, left, right } => {
            out.append("(");
            write_expression(left, out);
            let sign = op.to_string();
            out.append(sign.as_str());
            write_expression(right, out);
            out.append(")");
        },
        Expression::If { condition, consequence, alternative } => {
            out.append("if(");
            write_expression(condition, out);
            out.append("){");
            write_statement(consequence, out);
            match alternative {
                Some(statement) => {
                    out.append("}else{");
                    write_statement(statement, out);
                    out.append("}");
                },
                None => {
                    out.append("}");
                },
            }
        },
        Expression::Function { parameters, body } => {
            proof {
                function_view(*parameters, *body);
            }
            out.append("fn(");
            write_expressions(parameters, out);
            out.append("){");
            write_statement(body, out);
            out.append("}");
        },
        Expression::Call { function, arguments } => {
            proof {
                call_view(*function, *arguments);
            }
            write_expression(function, out);
            out.append("(");
            write_expressions(arguments, out);
            out.append(")");
        },
    }
    assert(out@ =~= old(out)@ + expression@.text());
}

impl Statement {
    /// The statement as text.
    pub fn to_string(&self) -> (s: String)
        ensures
            s@ == self@.text(),
    {
        let mut s = String::new();
        write_statement(self, &mut s);
        assert(s@ =~= self@.text());
        s
    }
}

impl Expression {
    /// The expression as text, every operator application in parentheses.
    pub fn to_string(&self) -> (s: String)
        ensures
            s@ == self@.text(),
    {
        let mut s = String::new();
        write_expression(self, &mut s);
        assert(s@ =~= self@.text());
        s
    }
}

impl Program {
    /// A program without statements.
    pub fn new() -> (program: Program)
        ensures
            program@ == Seq::<StatementView>::empty(),
    {
        let program = Program { statements: Vec::new() };
        assert(program@ =~= Seq::<StatementView>::empty());
        program
    }

    /// The program as text: each statement followed by a line feed.
    pub fn to_string(&self) -> (s: String)
        ensures
            s@ == program_text(self@, 0),
    {
        let mut s = String::new();
        let ghost views = self@;
        let mut i: usize = 0;
        while i < self.statements.len()
            invariant
                i <= self.statements.len(),
                views == statement_views(self.statements@),
                s@ + program_text(views, i as nat) == program_text(views, 0),
            decreases self.statements.len() - i,
        {
            let ghost before = s@;
            write_statement(&self.statements[i], &mut s);
            s.append("\n");
            proof {
                assert(views[i as int] == self.statements@[i as int]@);
                assert(s@ + program_text(views, (i + 1) as nat) =~= before + program_text(
                    views,
                    i as nat,
                ));
            }
            i = i + 1;
        }
        assert(s@ =~= s@ + program_text(views, i as nat));
        s
    }
}

/// Clones each statement of `statements`.
pub fn clone_statements(statements: &Vec<Statement>) -> (res: Vec<Statement>)
    ensures
        statement_views(res@) == statement_views(statements@),
    decreases statements,
{
    let mut res: Vec<Statement> = Vec::new();
    let mut i: usize = 0;
    while i < statements.len()
        invariant
            i <= statements.len(),
            res.len() == i,
            forall|j: int| 0 <= j < i ==> res[j]@ == statements[j]@,
        decreases statements.len() - i,
    {
        res.push(statements[i].clone());
        i = i + 1;
    }
    assert(statement_views(res@) =~= statement_views(statements@));
    res
}

/// Clones each expression of `expressions`.
pub fn clone_expressions(expressions: &Vec<Expression>) -> (res: Vec<Expression>)
    ensures
        expression_views(res@) == expression_views(expressions@),
    decreases expressions,
{
    let mut res: Vec<Expression> = Vec::new();
    let mut i: usize = 0;
    while i < expressions.len()
        invariant
            i <= expressions.len(),
            res.len() == i,
            forall|j: int| 0 <= j < i ==> res[j]@ == expressions[j]@,
        decreases expressions.len() - i,
    {
        res.push(expressions[i].clone());
        i = i + 1;
    }
    assert(expression_views(res@) =~= expression_views(expressions@));
    res
}

impl Clone for Statement {
    fn clone(&self) -> (res: Self)
        ensures
            res@ == self@,
        decreases self,
    {
        match self {
            Statement::Let { ident, value } => Statement::Let {
                ident: ident.clone(),
                value: value.clone(),
            },
            Statement::Return(value) => Statement::Return(value.clone()),
            Statement::Expression(value) => Statement::Expression(value.clone()),
            Statement::Block(statements) => {
                let copies = clone_statements(statements);
                proof {
                    block_view(*statements);
                    block_view(copies);
                }
                Statement::Block(copies)
            },
        }
    }
}

impl Clone for Expression {
    fn clone(&self) -> (res: Self)
        ensures
            res@ == self@,
        decreases self,
    {
        match self {
            Expression::Ident(name) => Expression::Ident(name.clone()),
            Expression::String(text) => Expression::String(text.clone()),
            Expression::Integer(value) => Expression::Integer(*value),
            Expression::Bool(value) => Expression::Bool(*value),
            Expression::Prefix { op, right } => Expression::Prefix {
                op: *op,
                right: Box::new((**right).clone()),
            },
            Expression::Infix { op, left, right } => Expression::Infix {
                op: *op,
                left: Box::new((**left).clone()),
                right: Box::new((**right).clone()),
            },
            Expression::If { condition, consequence, alternative } => {
                let alternative = match alternative {
                    Some(statement) => Some(Box::new((**statement).clone())),
                    None => None,
                };
                Expression::If {
                    condition: Box::new((**condition).clone()),
                    consequence: Box::new((**consequence).clone()),
                    alternative,
                }
            },
            Expression::Function { parameters, body } => {
                let copies = clone_expressions(parameters);
                let body_copy = Box::new((**body).clone());
                proof {
                    function_view(*parameters, *body);
                    function_view(copies, body_copy);
                }
                Expression::Function { parameters: copies, body: body_copy }
            },
            Expression::Call { function, arguments } => {
                let callee = Box::new((**function).clone());
                let copies = clone_expressions(arguments);
                proof {
                    call_view(*function, *arguments);
                    call_view(callee, copies);
                }
                Expression::Call { function: callee, arguments: copies }
            },
        }
    }
}

impl Clone for Program {
    fn clone(&self) -> (res: Self)
        ensures
            res@ == self@,
    {
        Program { statements: clone_statements(&self.statements) }
    }
}

} // verus!
