//! The values that evaluation produces.

use vstd::prelude::*;
use crate::ast::{
    clone_expressions, expression_views, expressions_text, write_expressions, write_statement,
    Expression, ExpressionView, Statement, StatementView,
};
use crate::text::{int_text, int_to_string};

verus! {

/// The type of a primitive value, as error reports name it.
#[derive(Debug, Clone, Copy, PartialEq, Eq, Structural)]
pub enum ObjectType {
    Integer,
    Bool,
    Null,
}

/// A value. `ReturnValue` wraps the operand of a `return` on its way out of
/// the blocks around it. `Function` is a closure: parameters, body and the
/// scope it was defined in, named by its index in the environment.
#[derive(Debug)]
pub enum Object {
    String(String),
    Integer(i32),
    Bool(bool),
    Null,
    ReturnValue(Box<Object>),
    Function { parameters: Vec<Expression>, body: Statement, env: usize },
}

/// The mathematical value of an [`Object`].
pub enum ObjectView {
    String(Seq<char>),
    Integer(i32),
    Bool(bool),
    Null,
    ReturnValue(Box<ObjectView>),
    Function { parameters: Seq<ExpressionView>, body: StatementView, env: nat },
}

impl Object {
    /// The mathematical value of the object.
    pub open spec fn model(self) -> ObjectView
        decreases self,
    {
        match self {
            Object::String(text) => ObjectView::String(text@),
            Object::Integer(value) => ObjectView::Integer(value),
            Object::Bool(value) => ObjectView::Bool(value),
            Object::Null => ObjectView::Null,
            Object::ReturnValue(value) => ObjectView::ReturnValue(Box::new(value.model())),
            Object::Function { parameters, body, env } => ObjectView::Function {
                parameters: expression_views(parameters@),
                body: body@,
                env: env as nat,
            },
        }
    }
}

impl View for Object {
    type V = ObjectView;

    open spec fn view(&self) -> ObjectView {
        self.model()
    }
}

/// The views of a sequence of objects.
pub open spec fn object_views(objects: Seq<Object>) -> Seq<ObjectView> {
    Seq::new(objects.len(), |i: int| objects[i]@)
}

impl ObjectView {
    /// Whether the value counts as true in a condition: everything but
    /// null and the boolean false does, the integer zero included.
    pub open spec fn is_truthy(self) -> bool {
        match self {
            ObjectView::Null => false,
            ObjectView::Bool(value) => value,
            _ => true,
        }
    }

    /// Equality of values as `==` on objects decides it: strings, integers,
    /// booleans and null are equal to their like; a function or a wrapped
    /// return value is equal to nothing, not even to itself.
    pub open spec fn same(self, other: ObjectView) -> bool {
        match (self, other) {
            (ObjectView::String(x), ObjectView::String(y)) => x == y,
            (ObjectView::Integer(x), ObjectView::Integer(y)) => x == y,
            (ObjectView::Bool(x), ObjectView::Bool(y)) => x == y,
            (ObjectView::Null, ObjectView::Null) => true,
            _ => false,
        }
    }

    /// The value as text: an integer in decimal notation, a boolean as
    /// `true` or `false`, null as `null`, a string as its content, a
    /// function as `fn(`, its parameters with commas between them, `){`,
    /// its body and `}`; a wrapped return value as the value inside.
    pub open spec fn text(self) -> Seq<char>
        decreases self,
    {
        match self {
            ObjectView::String(text) => text,
            ObjectView::Integer(value) => int_text(value as int),
            ObjectView::Bool(value) => if value {
                "true"@
            } else {
                "false"@
            },
            ObjectView::Null => "null"@,
            ObjectView::ReturnValue(value) => value.text(),
            ObjectView::Function { parameters, body, env } => "fn("@ + expressions_text(
                parameters,
                0,
            ) + "){"@ + body.text() + "}"@,
        }
    }
}

impl Object {
    /// Whether the value counts as true in a condition.
    pub fn is_truthy(&self) -> (b: bool)
        ensures
            b == self@.is_truthy(),
    {
        match self {
            Object::Null => false,
            Object::Bool(value) => *value,
            _ => true,
        }
    }

    /// Appends the text of the value to `out`.
    pub fn write(&self, out: &mut String)
        ensures
            final(out)@ == old(out)@ + self@.text(),
        decreases self,
    {
        match self {
            Object::String(text) => {
                out.append(text.as_str());
            },
            Object::Integer(value) => {
                let digits = int_to_string(*value);
                out.append(digits.as_str());
            },
            Object::Bool(value) => {
                if *value {
                    out.append("true");
                } else {
                    out.append("false");
                }
            },
            Object::Null => {
                out.append("null");
            },
            Object::ReturnValue(value) => {
                value.write(out);
            },
            Object::Function { parameters, body, env } => {
                out.append("fn(");
                write_expressions(parameters, out);
                out.append("){");
                write_statement(body, out);
                out.append("}");
            },
        }
        assert(out@ =~= old(out)@ + self@.text());
    }

    /// The value as text.
    pub fn to_string(&self) -> (s: String)
        ensures
            s@ == self@.text(),
    {
        let mut s = String::new();
        self.write(&mut s);
        assert(s@ =~= self@.text());
        s
    }
}

impl Clone for Object {
    fn clone(&self) -> (res: Self)
        ensures
            res@ == self@,
        decreases self,
    {
        match self {
            Object::String(text) => Object::String(text.clone()),
            Object::Integer(value) => Object::Integer(*value),
            Object::Bool(value) => Object::Bool(*value),
            Object::Null => Object::Null,
            Object::ReturnValue(value) => Object::ReturnValue(Box::new((**value).clone())),
            Object::Function { parameters, body, env } => Object::Function {
                parameters: clone_expressions(parameters),
                body: body.clone(),
                env: *env,
            },
        }
    }
}

impl PartialEq for Object {
    /// Strings, integers, booleans and null are equal to their like. A
    /// function or a wrapped return value is equal to nothing.
    fn eq(&self, other: &Self) -> (r: bool) {
        match self {
            Object::String(x) => match other {
                Object::String(y) => *x == *y,
                _ => false,
            },
            Object::Integer(x) => match other {
                Object::Integer(y) => *x == *y,
                _ => false,
            },
            Object::Bool(x) => match other {
                Object::Bool(y) => *x == *y,
                _ => false,
            },
            Object::Null => match other {
                Object::Null => true,
                _ => false,
            },
            _ => false,
        }
    }
}

impl vstd::std_specs::cmp::PartialEqSpecImpl for Object {
    open spec fn obeys_eq_spec() -> bool {
        true
    }

    open spec fn eq_spec(&self, other: &Self) -> bool {
        self@.same(other@)
    }
}

} // verus!
