//! The meaning of programs: what each statement and expression evaluates
//! to, and what it does to the environment.
//!
//! Evaluation is a function of the environment, the tree and the number of
//! nested function calls that are still allowed. It gives the environment
//! afterwards and a value or the error that stopped it.

use vstd::prelude::*;
use crate::ast::{ExpressionView, StatementView};
use crate::env::{lookup_from, EnvironmentView};
use crate::error::MonkeyErrorView;
use crate::object::{ObjectType, ObjectView};
use crate::operator::{Infix, Prefix};

verus! {

/// What evaluation gives: the environment afterwards, and a value or an
/// error.
pub struct Outcome {
    pub env: EnvironmentView,
    pub result: Result<ObjectView, MonkeyErrorView>,
}

/// What the evaluation of a list of expressions gives: the environment
/// afterwards, and the values in order or an error.
pub struct Outcomes {
    pub env: EnvironmentView,
    pub result: Result<Seq<ObjectView>, MonkeyErrorView>,
}

/// The quotient of `left` by `right`, rounded toward zero.
pub open spec fn truncated_quotient(left: int, right: int) -> int
    recommends
        right != 0,
{
    if left >= 0 && right > 0 {
        left / right
    } else if left >= 0 {
        -(left / (-right))
    } else if right > 0 {
        -((-left) / right)
    } else {
        (-left) / (-right)
    }
}

/// The quotient of two 32-bit integers, rounded toward zero. The one
/// quotient that does not fit, that of the smallest integer by -1, wraps
/// around to the smallest integer.
pub open spec fn wrapping_quotient(left: i32, right: i32) -> i32
    recommends
        right != 0,
{
    if left == i32::MIN && right == -1 {
        i32::MIN
    } else {
        truncated_quotient(left as int, right as int) as i32
    }
}

/// The value of a prefix operator applied to a value. `!` gives the
/// boolean that tells whether the operand counts as false. `-` negates an
/// integer, wrapping around, and gives null for anything else.
pub open spec fn prefix_value(op: Prefix, right: ObjectView) -> ObjectView {
    match op {
        Prefix::Bang => ObjectView::Bool(!right.is_truthy()),
        Prefix::Minus => match right {
            ObjectView::Integer(value) => ObjectView::Integer(0i32.wrapping_sub(value)),
            _ => ObjectView::Null,
        },
    }
}

/// The value of an infix operator applied to two integers. Sums,
/// differences and products wrap around.
pub open spec fn integer_infix_value(op: Infix, left: i32, right: i32) -> Result<
    ObjectView,
    MonkeyErrorView,
> {
    match op {
        Infix::Plus => Ok(ObjectView::Integer(left.wrapping_add(right))),
        Infix::Minus => Ok(ObjectView::Integer(left.wrapping_sub(right))),
        Infix::Asterisk => Ok(ObjectView::Integer(left.wrapping_mul(right))),
        Infix::Slash => if right == 0 {
            Err(MonkeyErrorView::DivisionByZero)
        } else {
            Ok(ObjectView::Integer(wrapping_quotient(left, right)))
        },
        Infix::Eq => Ok(ObjectView::Bool(left == right)),
        Infix::NotEq => Ok(ObjectView::Bool(left != right)),
        Infix::LT => Ok(ObjectView::Bool(left < right)),
        Infix::GT => Ok(ObjectView::Bool(left > right)),
    }
}

/// The value of an infix operator applied to two values. Two integers
/// take every operator; two booleans take `==` and `!=` only; an integer
/// and a boolean do not go together; any other pair of operands gives
/// null.
pub open spec fn infix_value(op: Infix, left: ObjectView, right: ObjectView) -> Result<
    ObjectView,
    MonkeyErrorView,
> {
    match (left, right) {
        (ObjectView::Integer(left), ObjectView::Integer(right)) => integer_infix_value(
            op,
            left,
            right,
        ),
        (ObjectView::Bool(left), ObjectView::Bool(right)) => match op {
            Infix::Eq => Ok(ObjectView::Bool(left == right)),
            Infix::NotEq => Ok(ObjectView::Bool(left != right)),
            _ => Err(MonkeyErrorView::UnknownOperator(ObjectType::Bool, op, ObjectType::Bool)),
        },
        (ObjectView::Integer(_), ObjectView::Bool(_)) => Err(
            MonkeyErrorView::TypeMismatch(ObjectType::Integer, op, ObjectType::Bool),
        ),
        (ObjectView::Bool(_), ObjectView::Integer(_)) => Err(
            MonkeyErrorView::TypeMismatch(ObjectType::Bool, op, ObjectType::Integer),
        ),
        _ => Ok(ObjectView::Null),
    }
}

/// The value inside a wrapped return value; any other value as it is.
pub open spec fn unwrap_return(value: ObjectView) -> ObjectView {
    match value {
        ObjectView::ReturnValue(inner) => *inner,
        other => other,
    }
}

/// The environment after the parameters from index `from` on are bound to
/// their arguments in the current scope. A parameter that is no
/// identifier binds nothing.
pub open spec fn bind_parameters(
    env: EnvironmentView,
    parameters: Seq<ExpressionView>,
    arguments: Seq<ObjectView>,
    from: nat,
) -> EnvironmentView
    decreases parameters.len() - from,
{
    if from >= parameters.len() || from >= arguments.len() {
        env
    } else {
        bind_parameters(
            match parameters[from as int] {
                ExpressionView::Ident(name) => env.bind(name, arguments[from as int]),
                _ => env,
            },
            parameters,
            arguments,
            from + 1,
        )
    }
}

/// The statements of a program from index `from` on, evaluated in order.
/// The value is that of the last statement, and `last` where no statement
/// is left. A wrapped return value ends the program at once and is
/// unwrapped.
pub open spec fn eval_program(
    env: EnvironmentView,
    statements: Seq<StatementView>,
    from: nat,
    last: ObjectView,
    depth: nat,
) -> Outcome
    decreases statements.len() - from,
{
    if from >= statements.len() {
        Outcome { env, result: Ok(last) }
    } else {
        let outcome = eval_statement(env, statements[from as int], depth);
        match outcome.result {
            Ok(ObjectView::ReturnValue(value)) => Outcome { env: outcome.env, result: Ok(*value) },
            Ok(value) => eval_program(outcome.env, statements, from + 1, value, depth),
            Err(_) => outcome,
        }
    }
}

/// A statement. `let` binds the value of its expression in the current
/// scope and gives null; `return` wraps the value of its operand; a block
/// gives what its statements give.
pub open spec fn eval_statement(env: EnvironmentView, statement: StatementView, depth: nat) -> Outcome
    decreases depth, 1nat, statement, 0nat,
{
    match statement {
        StatementView::Expression(expression) => eval_expression(env, expression, depth),
        StatementView::Block(statements) => eval_block_statement(
            env,
            statements,
            0,
            ObjectView::Null,
            depth,
        ),
        StatementView::Return(expression) => {
            let outcome = eval_expression(env, expression, depth);
            match outcome.result {
                Ok(value) => Outcome {
                    env: outcome.env,
                    result: Ok(ObjectView::ReturnValue(Box::new(value))),
                },
                Err(_) => outcome,
            }
        },
        StatementView::Let { ident, value } => {
            let outcome = eval_expression(env, value, depth);
            match outcome.result {
                Ok(value) => Outcome {
                    env: match ident {
                        ExpressionView::Ident(name) => outcome.env.bind(name, value),
                        _ => outcome.env,
                    },
                    result: Ok(ObjectView::Null),
                },
                Err(_) => outcome,
            }
        },
    }
}

/// The statements of a block from index `from` on, evaluated in order. The
/// value is that of the last statement, and `last` where no statement is
/// left. A wrapped return value ends the block at once and stays wrapped,
/// so that the blocks around this one end too.
pub open spec fn eval_block_statement(
    env: EnvironmentView,
    statements: Seq<StatementView>,
    from: nat,
    last: ObjectView,
    depth: nat,
) -> Outcome
    decreases depth, 1nat, statements, statements.len() - from,
{
    if from >= statements.len() {
        Outcome { env, result: Ok(last) }
    } else {
        let outcome = eval_statement(env, statements[from as int], depth);
        match outcome.result {
            Ok(value) => if value is ReturnValue {
                outcome
            } else {
                eval_block_statement(outcome.env, statements, from + 1, value, depth)
            },
            Err(_) => outcome,
        }
    }
}

/// The expressions from index `from` on, evaluated from left to right.
/// `done` holds the values of those before.
pub open spec fn eval_expressions(
    env: EnvironmentView,
    expressions: Seq<ExpressionView>,
    from: nat,
    done: Seq<ObjectView>,
    depth: nat,
) -> Outcomes
    decreases depth, 1nat, expressions, expressions.len() - from,
{
    if from >= expressions.len() {
        Outcomes { env, result: Ok(done) }
    } else {
        let outcome = eval_expression(env, expressions[from as int], depth);
        match outcome.result {
            Ok(value) => eval_expressions(outcome.env, expressions, from + 1, done.push(value), depth),
            Err(error) => Outcomes { env: outcome.env, result: Err(error) },
        }
    }
}

/// An expression.
///
/// An identifier gives the value it is bound to, seen from the current
/// scope, and fails where no scope in reach binds it. A function literal
/// gives a closure over the current scope. A call evaluates the callee,
/// then the arguments from left to right, then applies the one to the
/// others. An `if` evaluates its first block where the condition counts as
/// true, else its second block, and gives null where there is none.
pub open spec fn eval_expression(env: EnvironmentView, expression: ExpressionView, depth: nat) -> Outcome
    decreases depth, 1nat, expression, 0nat,
{
    match expression {
        ExpressionView::String(text) => Outcome { env, result: Ok(ObjectView::String(text)) },
        ExpressionView::Integer(value) => Outcome { env, result: Ok(ObjectView::Integer(value)) },
        ExpressionView::Bool(value) => Outcome { env, result: Ok(ObjectView::Bool(value)) },
        ExpressionView::Prefix { op, right } => {
            let outcome = eval_expression(env, *right, depth);
            match outcome.result {
                Ok(value) => Outcome { env: outcome.env, result: Ok(prefix_value(op, value)) },
                Err(_) => outcome,
            }
        },
        ExpressionView::Infix { op, left, right } => {
            let first = eval_expression(env, *left, depth);
            match first.result {
                Ok(left) => {
                    let second = eval_expression(first.env, *right, depth);
                    match second.result {
                        Ok(right) => Outcome {
                            env: second.env,
                            result: infix_value(op, left, right),
                        },
                        Err(_) => second,
                    }
                },
                Err(_) => first,
            }
        },
        ExpressionView::If { condition, consequence, alternative } => {
            let outcome = eval_expression(env, *condition, depth);
            match outcome.result {
                Ok(value) => if value.is_truthy() {
                    eval_statement(outcome.env, *consequence, depth)
                } else {
                    match alternative {
                        Some(statement) => eval_statement(outcome.env, *statement, depth),
                        None => Outcome { env: outcome.env, result: Ok(ObjectView::Null) },
                    }
                },
                Err(_) => outcome,
            }
        },
        ExpressionView::Ident(name) => Outcome {
            env,
            result: match env.lookup(name) {
                Some(value) => Ok(value),
                None => Err(MonkeyErrorView::IdentifierNotFound(name)),
            },
        },
        ExpressionView::Function { parameters, body } => Outcome {
            env,
            result: Ok(ObjectView::Function { parameters, body: *body, env: env.current }),
        },
        ExpressionView::Call { function, arguments } => {
            let callee = eval_expression(env, *function, depth);
            match callee.result {
                Ok(function) => {
                    let values = eval_expressions(callee.env, arguments, 0, Seq::empty(), depth);
                    match values.result {
                        Ok(arguments) => apply_function(values.env, function, arguments, depth),
                        Err(error) => Outcome { env: values.env, result: Err(error) },
                    }
                },
                Err(_) => callee,
            }
        },
    }
}

/// The call of `function` with `arguments`, `depth` being the number of
/// nested calls that are still allowed.
///
/// The call fails where `function` is no closure, where the number of
/// arguments is not the number of parameters, and where no further call is
/// allowed. Else a new scope is made, enclosed by the scope that the
/// closure was defined in; the parameters are bound in it; the body is
/// evaluated in it; and the scope of the caller is current again. What the
/// body gives is the value of the call, a wrapped return value unwrapped.
pub open spec fn apply_function(
    env: EnvironmentView,
    function: ObjectView,
    arguments: Seq<ObjectView>,
    depth: nat,
) -> Outcome
    decreases depth, 0nat, function, 0nat,
{
    match function {
        ObjectView::Function { parameters, body, env: defined_in } => {
            if parameters.len() != arguments.len() {
                Outcome {
                    env,
                    result: Err(
                        MonkeyErrorView::IncorrectNumberOfArgs {
                            expected: parameters.len(),
                            got: arguments.len(),
                        },
                    ),
                }
            } else if depth == 0 {
                Outcome { env, result: Err(MonkeyErrorView::CallDepthExceeded) }
            } else {
                let frame = bind_parameters(env.enter(defined_in), parameters, arguments, 0);
                let outcome = eval_statement(frame, body, (depth - 1) as nat);
                Outcome {
                    env: outcome.env.select(env.current),
                    result: match outcome.result {
                        Ok(value) => Ok(unwrap_return(value)),
                        Err(error) => Err(error),
                    },
                }
            }
        },
        _ => Outcome { env, result: Err(MonkeyErrorView::NotAFunction) },
    }
}


/// An identifier that no scope in reach binds is an error, and never
/// null; one that is bound gives its value. Neither changes the
/// environment.
pub proof fn identifier_is_looked_up(env: EnvironmentView, name: Seq<char>, depth: nat)
    ensures
        eval_expression(env, ExpressionView::Ident(name), depth).env == env,
        env.lookup(name) is None ==> eval_expression(env, ExpressionView::Ident(name), depth).result
            == Err::<ObjectView, MonkeyErrorView>(MonkeyErrorView::IdentifierNotFound(name)),
        env.lookup(name) matches Some(value) ==> eval_expression(
            env,
            ExpressionView::Ident(name),
            depth,
        ).result == Ok::<ObjectView, MonkeyErrorView>(value),
{
}

/// A program that comes to an identifier that is not bound ends with the
/// error, whatever statements would follow.
pub proof fn unbound_identifier_ends_the_program(
    env: EnvironmentView,
    statements: Seq<StatementView>,
    from: nat,
    last: ObjectView,
    name: Seq<char>,
    depth: nat,
)
    requires
        from < statements.len(),
        statements[from as int] == StatementView::Expression(ExpressionView::Ident(name)),
        env.lookup(name) is None,
    ensures
        eval_program(env, statements, from, last, depth) == (Outcome {
            env,
            result: Err(MonkeyErrorView::IdentifierNotFound(name)),
        }),
{
    identifier_is_looked_up(env, name, depth);
    assert(eval_statement(env, statements[from as int], depth) == eval_expression(
        env,
        ExpressionView::Ident(name),
        depth,
    ));
}

/// An `if` without a second block whose condition counts as false gives
/// null, and evaluates nothing but the condition.
pub proof fn if_without_alternative_is_null(
    env: EnvironmentView,
    condition: ExpressionView,
    consequence: StatementView,
    depth: nat,
)
    requires
        eval_expression(env, condition, depth).result matches Ok(value) && !value.is_truthy(),
    ensures
        eval_expression(
            env,
            ExpressionView::If {
                condition: Box::new(condition),
                consequence: Box::new(consequence),
                alternative: None,
            },
            depth,
        ) == (Outcome { env: eval_expression(env, condition, depth).env, result: Ok(ObjectView::Null) }),
{
}

/// A call with a number of arguments other than the number of parameters
/// fails with just that error, however deep the call is nested, and
/// leaves the environment as it was.
pub proof fn wrong_number_of_arguments_fails(
    env: EnvironmentView,
    parameters: Seq<ExpressionView>,
    body: StatementView,
    defined_in: nat,
    arguments: Seq<ObjectView>,
    depth: nat,
)
    requires
        parameters.len() != arguments.len(),
    ensures
        apply_function(
            env,
            ObjectView::Function { parameters, body, env: defined_in },
            arguments,
            depth,
        ) == (Outcome {
            env,
            result: Err(
                MonkeyErrorView::IncorrectNumberOfArgs {
                    expected: parameters.len(),
                    got: arguments.len(),
                },
            ),
        }),
{
}

/// A call expression whose callee is a function and whose arguments are
/// not as many as its parameters fails with that error, once the callee
/// and then the arguments have been evaluated.
pub proof fn call_with_wrong_number_of_arguments_fails(
    env: EnvironmentView,
    function: ExpressionView,
    arguments: Seq<ExpressionView>,
    depth: nat,
)
    requires
        ({
            let callee = eval_expression(env, function, depth);
            let values = eval_expressions(callee.env, arguments, 0, Seq::empty(), depth);
            &&& callee.result is Ok
            &&& callee.result->Ok_0 is Function
            &&& values.result is Ok
            &&& values.result->Ok_0.len() != callee.result->Ok_0->parameters.len()
        }),
    ensures
        ({
            let callee = eval_expression(env, function, depth);
            let values = eval_expressions(callee.env, arguments, 0, Seq::empty(), depth);
            eval_expression(
                env,
                ExpressionView::Call { function: Box::new(function), arguments },
                depth,
            ) == (Outcome {
                env: values.env,
                result: Err(
                    MonkeyErrorView::IncorrectNumberOfArgs {
                        expected: callee.result->Ok_0->parameters.len(),
                        got: values.result->Ok_0.len(),
                    },
                ),
            })
        }),
{
    let callee = eval_expression(env, function, depth);
    let values = eval_expressions(callee.env, arguments, 0, Seq::empty(), depth);
    let closure = callee.result->Ok_0;
    wrong_number_of_arguments_fails(
        values.env,
        closure->parameters,
        closure->body,
        closure->env,
        values.result->Ok_0,
        depth,
    );
}

/// Scoping is lexical, and the scope of a closure is shared with it: a
/// function whose body is one free name gives, when called, what the
/// scope that the function was defined in binds to that name at the time
/// of the call. The scope of the caller plays no part.
pub proof fn free_name_resolves_where_the_function_was_defined(
    env: EnvironmentView,
    name: Seq<char>,
    defined_in: nat,
    depth: nat,
)
    requires
        defined_in < env.scopes.len(),
        depth > 0,
    ensures
        apply_function(
            env,
            ObjectView::Function {
                parameters: Seq::empty(),
                body: StatementView::Expression(ExpressionView::Ident(name)),
                env: defined_in,
            },
            Seq::empty(),
            depth,
        ).result == match lookup_from(env.scopes, defined_in, name) {
            Some(value) => Ok::<ObjectView, MonkeyErrorView>(unwrap_return(value)),
            None => Err::<ObjectView, MonkeyErrorView>(MonkeyErrorView::IdentifierNotFound(name)),
        },
{
    let body = StatementView::Expression(ExpressionView::Ident(name));
    let frame = bind_parameters(
        env.enter(defined_in),
        Seq::<ExpressionView>::empty(),
        Seq::<ObjectView>::empty(),
        0,
    );
    assert(frame == env.enter(defined_in));
    crate::env::new_scope_sees_its_outer_scope(env, defined_in, name);
    identifier_is_looked_up(frame, name, (depth - 1) as nat);
    assert(eval_statement(frame, body, (depth - 1) as nat) == eval_expression(
        frame,
        ExpressionView::Ident(name),
        (depth - 1) as nat,
    ));
}


/// Whether `after` is `before` with bindings and scopes added: the same
/// scope is current, no scope is gone, and every scope is still enclosed
/// by the scope that enclosed it.
pub open spec fn grown_from(after: EnvironmentView, before: EnvironmentView) -> bool {
    &&& after.current == before.current
    &&& after.scopes.len() >= before.scopes.len()
    &&& forall|i: int|
        0 <= i < before.scopes.len() ==> (#[trigger] after.scopes[i]).outer
            == before.scopes[i].outer
}

/// Binding parameters adds bindings to the current scope and nothing
/// else.
pub proof fn bind_parameters_grows(
    env: EnvironmentView,
    parameters: Seq<ExpressionView>,
    arguments: Seq<ObjectView>,
    from: nat,
)
    ensures
        grown_from(bind_parameters(env, parameters, arguments, from), env),
    decreases parameters.len() - from,
{
    if !(from >= parameters.len() || from >= arguments.len()) {
        let next = match parameters[from as int] {
            ExpressionView::Ident(name) => env.bind(name, arguments[from as int]),
            _ => env,
        };
        bind_parameters_grows(next, parameters, arguments, from + 1);
    }
}

/// Evaluating a statement ends in the scope it started in, and no scope
/// is lost or moved on the way.
pub proof fn eval_statement_grows(env: EnvironmentView, statement: StatementView, depth: nat)
    requires
        env.current < env.scopes.len(),
    ensures
        grown_from(eval_statement(env, statement, depth).env, env),
    decreases depth, 1nat, statement, 0nat,
{
    match statement {
        StatementView::Expression(expression) => {
            eval_expression_grows(env, expression, depth);
        },
        StatementView::Block(statements) => {
            eval_block_statement_grows(env, statements, 0, ObjectView::Null, depth);
        },
        StatementView::Return(expression) => {
            eval_expression_grows(env, expression, depth);
        },
        StatementView::Let { ident, value } => {
            eval_expression_grows(env, value, depth);
        },
    }
}

/// Evaluating the statements of a block ends in the scope it started in.
pub proof fn eval_block_statement_grows(
    env: EnvironmentView,
    statements: Seq<StatementView>,
    from: nat,
    last: ObjectView,
    depth: nat,
)
    requires
        env.current < env.scopes.len(),
    ensures
        grown_from(eval_block_statement(env, statements, from, last, depth).env, env),
    decreases depth, 1nat, statements, statements.len() - from,
{
    if from < statements.len() {
        eval_statement_grows(env, statements[from as int], depth);
        let outcome = eval_statement(env, statements[from as int], depth);
        match outcome.result {
            Ok(value) => {
                if !(value is ReturnValue) {
                    eval_block_statement_grows(outcome.env, statements, from + 1, value, depth);
                }
            },
            Err(_) => {},
        }
    }
}

/// Evaluating a list of expressions ends in the scope it started in.
pub proof fn eval_expressions_grows(
    env: EnvironmentView,
    expressions: Seq<ExpressionView>,
    from: nat,
    done: Seq<ObjectView>,
    depth: nat,
)
    requires
        env.current < env.scopes.len(),
    ensures
        grown_from(eval_expressions(env, expressions, from, done, depth).env, env),
    decreases depth, 1nat, expressions, expressions.len() - from,
{
    if from < expressions.len() {
        eval_expression_grows(env, expressions[from as int], depth);
        let outcome = eval_expression(env, expressions[from as int], depth);
        match outcome.result {
            Ok(value) => {
                eval_expressions_grows(outcome.env, expressions, from + 1, done.push(value), depth);
            },
            Err(_) => {},
        }
    }
}

/// Evaluating an expression ends in the scope it started in, whatever
/// functions were called on the way and whether or not they failed.
pub proof fn eval_expression_grows(env: EnvironmentView, expression: ExpressionView, depth: nat)
    requires
        env.current < env.scopes.len(),
    ensures
        grown_from(eval_expression(env, expression, depth).env, env),
    decreases depth, 1nat, expression, 0nat,
{
    match expression {
        ExpressionView::Prefix { op, right } => {
            eval_expression_grows(env, *right, depth);
        },
        ExpressionView::Infix { op, left, right } => {
            eval_expression_grows(env, *left, depth);
            let first = eval_expression(env, *left, depth);
            if first.result is Ok {
                eval_expression_grows(first.env, *right, depth);
            }
        },
        ExpressionView::If { condition, consequence, alternative } => {
            eval_expression_grows(env, *condition, depth);
            let outcome = eval_expression(env, *condition, depth);
            match outcome.result {
                Ok(value) => {
                    if value.is_truthy() {
                        eval_statement_grows(outcome.env, *consequence, depth);
                    } else {
                        match alternative {
                            Some(statement) => {
                                eval_statement_grows(outcome.env, *statement, depth);
                            },
                            None => {},
                        }
                    }
                },
                Err(_) => {},
            }
        },
        ExpressionView::Call { function, arguments } => {
            eval_expression_grows(env, *function, depth);
            let callee = eval_expression(env, *function, depth);
            match callee.result {
                Ok(function) => {
                    eval_expressions_grows(callee.env, arguments, 0, Seq::empty(), depth);
                    let values = eval_expressions(callee.env, arguments, 0, Seq::empty(), depth);
                    match values.result {
                        Ok(arguments) => {
                            apply_function_grows(values.env, function, arguments, depth);
                        },
                        Err(_) => {},
                    }
                },
                Err(_) => {},
            }
        },
        _ => {},
    }
}

/// A call ends in the scope of the caller, whether it succeeds or fails.
/// The scope that it made for itself stays, for the closures that were
/// made in it.
pub proof fn apply_function_grows(
    env: EnvironmentView,
    function: ObjectView,
    arguments: Seq<ObjectView>,
    depth: nat,
)
    requires
        env.current < env.scopes.len(),
    ensures
        grown_from(apply_function(env, function, arguments, depth).env, env),
    decreases depth, 0nat, function, 0nat,
{
    match function {
        ObjectView::Function { parameters, body, env: defined_in } => {
            if parameters.len() == arguments.len() && depth > 0 {
                let entered = env.enter(defined_in);
                bind_parameters_grows(entered, parameters, arguments, 0);
                let frame = bind_parameters(entered, parameters, arguments, 0);
                eval_statement_grows(frame, body, (depth - 1) as nat);
            }
        },
        _ => {},
    }
}

/// Evaluating a program ends in the scope it started in.
pub proof fn eval_program_grows(
    env: EnvironmentView,
    statements: Seq<StatementView>,
    from: nat,
    last: ObjectView,
    depth: nat,
)
    requires
        env.current < env.scopes.len(),
    ensures
        grown_from(eval_program(env, statements, from, last, depth).env, env),
    decreases statements.len() - from,
{
    if from < statements.len() {
        eval_statement_grows(env, statements[from as int], depth);
        let outcome = eval_statement(env, statements[from as int], depth);
        match outcome.result {
            Ok(ObjectView::ReturnValue(value)) => {},
            Ok(value) => {
                eval_program_grows(outcome.env, statements, from + 1, value, depth);
            },
            Err(_) => {},
        }
    }
}

} // verus!
