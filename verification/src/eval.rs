//! The evaluator: walks the tree of a program and computes its value.

use vstd::prelude::*;
use crate::ast::{
    block_view, call_view, clone_expressions, expression_views, function_view, statement_views,
    Expression, Program, Statement,
};
use crate::env::{Environment, EnvironmentView};
use crate::error::MonkeyError;
use crate::object::{object_views, Object, ObjectType, ObjectView};
use crate::operator::{Infix, Prefix};
use crate::semantics;
use crate::semantics::{Outcome, Outcomes};

verus! {

/// The number of nested function calls that an evaluator allows unless it
/// is told otherwise.
pub const DEFAULT_CALL_DEPTH: usize = 200;

/// An evaluator: an environment, and the number of nested function calls
/// that it allows. Bindings made by one program are there for the next.
#[derive(Debug)]
pub struct Evaluator {
    env: Environment,
    call_depth: usize,
}

/// Whether a result and the environment left behind are what the
/// semantics gives.
pub open spec fn is_outcome(
    result: Result<Object, MonkeyError>,
    env: EnvironmentView,
    expected: Outcome,
) -> bool {
    &&& env == expected.env
    &&& match expected.result {
        Ok(value) => result matches Ok(object) && object@ == value,
        Err(error) => result matches Err(e) && e@ == error,
    }
}

/// Whether a list of results and the environment left behind are what the
/// semantics gives.
pub open spec fn is_outcomes(
    result: Result<Vec<Object>, MonkeyError>,
    env: EnvironmentView,
    expected: Outcomes,
) -> bool {
    &&& env == expected.env
    &&& match expected.result {
        Ok(values) => result matches Ok(objects) && object_views(objects@) == values,
        Err(error) => result matches Err(e) && e@ == error,
    }
}

impl View for Evaluator {
    type V = EnvironmentView;

    closed spec fn view(&self) -> EnvironmentView {
        self.env@
    }
}

impl Clone for Evaluator {
    /// A copy of the evaluator with a copy of its environment.
    fn clone(&self) -> (res: Self)
        ensures
            res@ == self@,
            res.call_depth() == self.call_depth(),
    {
        Evaluator { env: self.env.clone(), call_depth: self.call_depth }
    }
}

impl Evaluator {
    /// The number of nested function calls that the evaluator allows.
    pub closed spec fn call_depth(&self) -> nat {
        self.call_depth as nat
    }

    /// An evaluator with an environment of one scope without bindings.
    pub fn new() -> (evaluator: Evaluator)
        ensures
            evaluator@ == EnvironmentView::root(),
            evaluator.call_depth() == DEFAULT_CALL_DEPTH,
    {
        Evaluator { env: Environment::new(), call_depth: DEFAULT_CALL_DEPTH }
    }

    /// An evaluator on the environment `env`.
    pub fn from(env: Environment) -> (evaluator: Evaluator)
        ensures
            evaluator@ == env@,
            evaluator.call_depth() == DEFAULT_CALL_DEPTH,
    {
        Evaluator { env, call_depth: DEFAULT_CALL_DEPTH }
    }

    /// The same evaluator, allowing `call_depth` nested function calls.
    pub fn with_call_depth(self, call_depth: usize) -> (evaluator: Evaluator)
        ensures
            evaluator@ == self@,
            evaluator.call_depth() == call_depth,
    {
        Evaluator { env: self.env, call_depth }
    }

    /// The value that `key` is bound to, seen from the current scope.
    pub fn get(&self, key: &str) -> (found: Option<Object>)
        ensures
            match self@.lookup(key@) {
                Some(value) => found matches Some(object) && object@ == value,
                None => found is None,
            },
    {
        self.env.get(key)
    }

    /// Binds `key` to `value` in the current scope.
    pub fn set(&mut self, key: String, value: Object)
        ensures
            final(self)@ == old(self)@.bind(key@, value@),
            final(self).call_depth() == old(self).call_depth(),
    {
        self.env.set(key, value);
    }

    /// Evaluates a program: its statements in order. The value is that of
    /// the last statement, or the operand of the first `return` that is
    /// reached outside a function; null for a program without statements.
    /// Evaluation stops at the first error. Whether it fails or not, the
    /// evaluator is left in the scope it was in, with the bindings that
    /// were made on the way.
    pub fn eval(&mut self, program: &Program) -> (result: Result<Object, MonkeyError>)
        ensures
            final(self).call_depth() == old(self).call_depth(),
            is_outcome(
                result,
                final(self)@,
                semantics::eval_program(
                    old(self)@,
                    program@,
                    0,
                    ObjectView::Null,
                    old(self).call_depth(),
                ),
            ),
            old(self)@.current < old(self)@.scopes.len() ==> semantics::grown_from(
                final(self)@,
                old(self)@,
            ),
    {
        let depth = self.call_depth;
        let ghost statements = program@;
        let ghost expected = semantics::eval_program(
            self@,
            statements,
            0,
            ObjectView::Null,
            depth as nat,
        );
        proof {
            if self@.current < self@.scopes.len() {
                semantics::eval_program_grows(self@, statements, 0, ObjectView::Null, depth as nat);
            }
        }
        let mut result = Object::Null;
        let mut i: usize = 0;
        while i < program.statements.len()
            invariant
                i <= program.statements.len(),
                statements == statement_views(program.statements@),
                self.call_depth == depth,
                self.call_depth == old(self).call_depth,
                semantics::eval_program(self@, statements, i as nat, result@, depth as nat)
                    == expected,
                expected == semantics::eval_program(
                    old(self)@,
                    statements,
                    0,
                    ObjectView::Null,
                    depth as nat,
                ),
                old(self)@.current < old(self)@.scopes.len() ==> semantics::grown_from(
                    expected.env,
                    old(self)@,
                ),
            decreases program.statements.len() - i,
        {
            match self.eval_statement(&program.statements[i], depth) {
                Ok(Object::ReturnValue(value)) => {
                    return Ok(*value);
                },
                Ok(value) => {
                    result = value;
                },
                Err(error) => {
                    return Err(error);
                },
            }
            i = i + 1;
        }
        Ok(result)
    }

    /// Evaluates a statement, `depth` being the number of nested function
    /// calls that are still allowed.
    pub fn eval_statement(&mut self, stmt: &Statement, depth: usize) -> (result: Result<
        Object,
        MonkeyError,
    >)
        ensures
            final(self).call_depth() == old(self).call_depth(),
            is_outcome(
                result,
                final(self)@,
                semantics::eval_statement(old(self)@, stmt@, depth as nat),
            ),
        decreases depth, 1nat, stmt, 0nat,
    {
        match stmt {
            Statement::Expression(expr) => self.eval_expression(expr, depth),
            Statement::Block(statements) => {
                proof {
                    block_view(*statements);
                }
                self.eval_block_statement(statements, depth)
            },
            Statement::Return(expr) => match self.eval_expression(expr, depth) {
                Ok(value) => Ok(Object::ReturnValue(Box::new(value))),
                Err(error) => Err(error),
            },
            Statement::Let { ident, value } => match self.eval_expression(value, depth) {
                Ok(value) => {
                    match ident {
                        Expression::Ident(name) => {
                            self.env.set(name.clone(), value);
                            assert(ident@ == crate::ast::ExpressionView::Ident(name@));
                        },
                        _ => {
                            assert(!(ident@ is Ident));
                        },
                    }
                    Ok(Object::Null)
                },
                Err(error) => Err(error),
            },
        }
    }

    /// Evaluates the statements of a block in order.
    pub fn eval_block_statement(&mut self, stmts: &Vec<Statement>, depth: usize) -> (result: Result<
        Object,
        MonkeyError,
    >)
        ensures
            final(self).call_depth() == old(self).call_depth(),
            is_outcome(
                result,
                final(self)@,
                semantics::eval_block_statement(
                    old(self)@,
                    statement_views(stmts@),
                    0,
                    ObjectView::Null,
                    depth as nat,
                ),
            ),
        decreases depth, 1nat, stmts, 0nat,
    {
        let ghost statements = statement_views(stmts@);
        let mut result = Object::Null;
        let mut i: usize = 0;
        while i < stmts.len()
            invariant
                i <= stmts.len(),
                statements == statement_views(stmts@),
                self.call_depth == old(self).call_depth,
                !(result@ is ReturnValue),
                semantics::eval_block_statement(self@, statements, i as nat, result@, depth as nat)
                    == semantics::eval_block_statement(
                    old(self)@,
                    statements,
                    0,
                    ObjectView::Null,
                    depth as nat,
                ),
            decreases stmts.len() - i,
        {
            match self.eval_statement(&stmts[i], depth) {
                Ok(value) => {
                    let stops = match &value {
                        Object::ReturnValue(_) => true,
                        _ => false,
                    };
                    if stops {
                        return Ok(value);
                    }
                    result = value;
                },
                Err(error) => {
                    return Err(error);
                },
            }
            i = i + 1;
        }
        Ok(result)
    }

    /// Evaluates expressions from left to right.
    pub fn eval_expressions(&mut self, exprs: &Vec<Expression>, depth: usize) -> (result: Result<
        Vec<Object>,
        MonkeyError,
    >)
        ensures
            final(self).call_depth() == old(self).call_depth(),
            is_outcomes(
                result,
                final(self)@,
                semantics::eval_expressions(
                    old(self)@,
                    expression_views(exprs@),
                    0,
                    Seq::empty(),
                    depth as nat,
                ),
            ),
        decreases depth, 1nat, exprs, 0nat,
    {
        let ghost expressions = expression_views(exprs@);
        let mut result: Vec<Object> = Vec::new();
        assert(object_views(result@) =~= Seq::<ObjectView>::empty());
        let mut i: usize = 0;
        while i < exprs.len()
            invariant
                i <= exprs.len(),
                expressions == expression_views(exprs@),
                self.call_depth == old(self).call_depth,
                semantics::eval_expressions(
                    self@,
                    expressions,
                    i as nat,
                    object_views(result@),
                    depth as nat,
                ) == semantics::eval_expressions(
                    old(self)@,
                    expressions,
                    0,
                    Seq::empty(),
                    depth as nat,
                ),
            decreases exprs.len() - i,
        {
            let ghost done = object_views(result@);
            match self.eval_expression(&exprs[i], depth) {
                Ok(value) => {
                    result.push(value);
                    assert(object_views(result@) =~= done.push(value@));
                },
                Err(error) => {
                    return Err(error);
                },
            }
            i = i + 1;
        }
        Ok(result)
    }

    /// Evaluates an expression.
    pub fn eval_expression(&mut self, expr: &Expression, depth: usize) -> (result: Result<
        Object,
        MonkeyError,
    >)
        ensures
            final(self).call_depth() == old(self).call_depth(),
            is_outcome(
                result,
                final(self)@,
                semantics::eval_expression(old(self)@, expr@, depth as nat),
            ),
        decreases depth, 1nat, expr, 0nat,
    {
        match expr {
            Expression::String(s) => Ok(Object::String(s.clone())),
            Expression::Integer(value) => Ok(Object::Integer(*value)),
            Expression::Bool(value) => Ok(Object::Bool(*value)),
            Expression::Prefix { op, right } => match self.eval_expression(right, depth) {
                Ok(right) => eval_prefix_expression(op, right),
                Err(error) => Err(error),
            },
            Expression::Infix { op, left, right } => {
                let left = match self.eval_expression(left, depth) {
                    Ok(left) => left,
                    Err(error) => {
                        return Err(error);
                    },
                };
                let right = match self.eval_expression(right, depth) {
                    Ok(right) => right,
                    Err(error) => {
                        return Err(error);
                    },
                };
                eval_infix_expression(op, left, right)
            },
            Expression::If { condition, consequence, alternative } => {
                let condition = match self.eval_expression(condition, depth) {
                    Ok(condition) => condition,
                    Err(error) => {
                        return Err(error);
                    },
                };
                if condition.is_truthy() {
                    self.eval_statement(consequence, depth)
                } else {
                    match alternative {
                        Some(alt) => self.eval_statement(alt, depth),
                        None => Ok(Object::Null),
                    }
                }
            },
            Expression::Ident(ident) => match self.env.lookup(ident) {
                Some(value) => Ok(value),
                None => Err(MonkeyError::IdentifierNotFound(ident.clone())),
            },
            Expression::Function { parameters, body } => {
                proof {
                    function_view(*parameters, *body);
                }
                Ok(
                    Object::Function {
                        parameters: clone_expressions(parameters),
                        body: (**body).clone(),
                        env: self.env.current(),
                    },
                )
            },
            Expression::Call { function, arguments } => {
                proof {
                    call_view(*function, *arguments);
                }
                let function = match self.eval_expression(function, depth) {
                    Ok(function) => function,
                    Err(error) => {
                        return Err(error);
                    },
                };
                let args = match self.eval_expressions(arguments, depth) {
                    Ok(args) => args,
                    Err(error) => {
                        return Err(error);
                    },
                };
                self.apply_function(function, args, depth)
            },
        }
    }

    /// Calls `function` with the arguments `args`, `depth` being the number
    /// of nested function calls that are still allowed.
    pub fn apply_function(&mut self, function: Object, args: Vec<Object>, depth: usize) -> (result:
        Result<Object, MonkeyError>)
        ensures
            final(self).call_depth() == old(self).call_depth(),
            is_outcome(
                result,
                final(self)@,
                semantics::apply_function(
                    old(self)@,
                    function@,
                    object_views(args@),
                    depth as nat,
                ),
            ),
        decreases depth, 0nat, function, 0nat,
    {
        match function {
            Object::Function { parameters, body, env } => {
                if parameters.len() != args.len() {
                    return Err(
                        MonkeyError::IncorrectNumberOfArgs {
                            expected: parameters.len(),
                            got: args.len(),
                        },
                    );
                }
                if depth == 0 {
                    return Err(MonkeyError::CallDepthExceeded);
                }
                let caller = self.env.enter(env);
                let ghost names = expression_views(parameters@);
                let ghost values = object_views(args@);
                let mut i: usize = 0;
                while i < parameters.len()
                    invariant
                        i <= parameters.len(),
                        parameters.len() == args.len(),
                        names == expression_views(parameters@),
                        values == object_views(args@),
                        self.call_depth == old(self).call_depth,
                        semantics::bind_parameters(self@, names, values, i as nat)
                            == semantics::bind_parameters(
                            old(self)@.enter(env as nat),
                            names,
                            values,
                            0,
                        ),
                    decreases parameters.len() - i,
                {
                    match &parameters[i] {
                        Expression::Ident(name) => {
                            self.env.set(name.clone(), args[i].clone());
                        },
                        _ => {},
                    }
                    i = i + 1;
                }
                let outcome = self.eval_statement(&body, depth - 1);
                self.env.select(caller);
                match outcome {
                    Ok(Object::ReturnValue(value)) => Ok(*value),
                    Ok(value) => Ok(value),
                    Err(error) => Err(error),
                }
            },
            _ => Err(MonkeyError::NotAFunction),
        }
    }
}

/// Applies a prefix operator to a value.
pub fn eval_prefix_expression(op: &Prefix, right: Object) -> (result: Result<Object, MonkeyError>)
    ensures
        result matches Ok(value) && value@ == semantics::prefix_value(*op, right@),
{
    match op {
        Prefix::Bang => match right {
            Object::Bool(value) => Ok(Object::Bool(!value)),
            Object::Null => Ok(Object::Bool(true)),
            _ => Ok(Object::Bool(false)),
        },
        Prefix::Minus => match right {
            Object::Integer(value) => Ok(Object::Integer(0i32.wrapping_sub(value))),
            _ => Ok(Object::Null),
        },
    }
}

/// Applies an infix operator to two integers.
fn eval_integer_infix_expression(op: &Infix, left: i32, right: i32) -> (result: Result<
    Object,
    MonkeyError,
>)
    ensures
        match semantics::integer_infix_value(*op, left, right) {
            Ok(value) => result matches Ok(object) && object@ == value,
            Err(error) => result matches Err(e) && e@ == error,
        },
{
    match op {
        Infix::Plus => Ok(Object::Integer(left.wrapping_add(right))),
        Infix::Minus => Ok(Object::Integer(left.wrapping_sub(right))),
        Infix::Asterisk => Ok(Object::Integer(left.wrapping_mul(right))),
        Infix::Slash => {
            if right == 0 {
                Err(MonkeyError::DivisionByZero)
            } else {
                proof {
                    let x = left as int;
                    let d = right as int;
                    assert(x * -1 == -x);
                    assert(d * -1 == -d);
                    assert(d > 0 ==> (x / d) * -1 == -(x / d));
                    assert(d < 0 ==> (x / (d * -1)) * -1 == -(x / (-d)));
                    assert(d > 0 ==> ((x * -1) / d) * -1 == -((-x) / d));
                    assert(x == 0 ==> semantics::truncated_quotient(x, d) == 0);
                    assert(x / 1 == x && (-x) / 1 == -x);
                    assert(d == -1 ==> semantics::truncated_quotient(x, d) == -x);
                    assert(x >= 0 && d > 0 ==> 0 <= x / d <= x) by (nonlinear_arith);
                    assert(x >= 0 && d < 0 ==> 0 <= x / (-d) <= x) by (nonlinear_arith);
                    assert(x < 0 && d > 0 ==> 0 <= (-x) / d <= -x) by (nonlinear_arith);
                    assert(x < 0 && d < -1 ==> 0 <= (-x) / (-d) < -x) by (nonlinear_arith);
                }
                match left.checked_div(right) {
                    Some(quotient) => Ok(Object::Integer(quotient)),
                    None => Ok(Object::Integer(i32::MIN)),
                }
            }
        },
        Infix::Eq => Ok(Object::Bool(left == right)),
        Infix::NotEq => Ok(Object::Bool(left != right)),
        Infix::LT => Ok(Object::Bool(left < right)),
        Infix::GT => Ok(Object::Bool(left > right)),
    }
}

/// Applies an infix operator to two values.
pub fn eval_infix_expression(op: &Infix, left: Object, right: Object) -> (result: Result<
    Object,
    MonkeyError,
>)
    ensures
        match semantics::infix_value(*op, left@, right@) {
            Ok(value) => result matches Ok(object) && object@ == value,
            Err(error) => result matches Err(e) && e@ == error,
        },
{
    match left {
        Object::Integer(left) => match right {
            Object::Integer(right) => eval_integer_infix_expression(op, left, right),
            Object::Bool(_) => Err(
                MonkeyError::TypeMismatch(ObjectType::Integer, *op, ObjectType::Bool),
            ),
            _ => Ok(Object::Null),
        },
        Object::Bool(left) => match right {
            Object::Bool(right) => match op {
                Infix::Eq => Ok(Object::Bool(left == right)),
                Infix::NotEq => Ok(Object::Bool(left != right)),
                _ => Err(MonkeyError::UnknownOperator(ObjectType::Bool, *op, ObjectType::Bool)),
            },
            Object::Integer(_) => Err(
                MonkeyError::TypeMismatch(ObjectType::Bool, *op, ObjectType::Integer),
            ),
            _ => Ok(Object::Null),
        },
        _ => Ok(Object::Null),
    }
}

} // verus!
