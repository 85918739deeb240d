//! Runtime values and their static types.
//!
//! A runtime `Object` is a closed tagged union: unit, 32-bit signed number,
//! boolean, or string. `Type` is the static classification mirrored 1:1 by
//! `Object`'s tag. `Value` is the mathematical model of an `Object`: numbers
//! widen to `int` and strings abstract to their character sequences.

use vstd::prelude::*;

use crate::text::push_char;
use crate::text::push_digits;
use crate::text::spec_digits;

verus! {

/// The static type of a runtime value.
#[derive(Debug, Clone, Copy, PartialEq, Eq, Structural)]
pub enum Type {
    Unit,
    Number,
    Boolean,
    String,
}

/// Mathematical model of a runtime value: strings abstract to their character
/// sequences.
pub enum Value {
    Unit,
    Number(i32),
    Boolean(bool),
    Str(Seq<char>),
}

/// A runtime value.
#[derive(Debug)]
pub enum Object {
    Unit,
    Number(i32),
    Boolean(bool),
    String(String),
}

impl View for Object {
    type V = Value;

    open spec fn view(&self) -> Value {
        match self {
            Object::Unit => Value::Unit,
            Object::Number(n) => Value::Number(*n),
            Object::Boolean(b) => Value::Boolean(*b),
            Object::String(s) => Value::Str(s@),
        }
    }
}

/// The static type of a model value.
pub open spec fn type_of(v: Value) -> Type {
    match v {
        Value::Unit => Type::Unit,
        Value::Number(_) => Type::Number,
        Value::Boolean(_) => Type::Boolean,
        Value::Str(_) => Type::String,
    }
}

/// Semantic equality of model values, as the language's `==` observes it.
pub open spec fn value_eq(a: Value, b: Value) -> bool {
    match (a, b) {
        (Value::Unit, Value::Unit) => true,
        (Value::Number(x), Value::Number(y)) => x == y,
        (Value::Boolean(x), Value::Boolean(y)) => x == y,
        (Value::Str(x), Value::Str(y)) => x == y,
        _ => false,
    }
}

/// The text a type is shown as inside diagnostics.
pub open spec fn type_text(t: Type) -> Seq<char> {
    match t {
        Type::Unit => "Unit"@,
        Type::Number => "Number"@,
        Type::Boolean => "Boolean"@,
        Type::String => "String"@,
    }
}

/// The decimal rendering of a number, with a leading minus sign if negative.
pub open spec fn spec_render_number(n: i32) -> Seq<char> {
    if n < 0 {
        seq!['-'] + spec_digits((-(n as int)) as nat)
    } else {
        spec_digits(n as nat)
    }
}

/// The textual form of a value, as the print statement shows it.
pub open spec fn render_value(v: Value) -> Seq<char> {
    match v {
        Value::Unit => "()"@,
        Value::Number(n) => spec_render_number(n),
        Value::Boolean(b) => if b {
            "true"@
        } else {
            "false"@
        },
        Value::Str(s) => s,
    }
}

impl Type {
    /// The text this type is shown as inside diagnostics.
    pub fn text(&self) -> (r: &'static str)
        ensures
            r@ == type_text(*self),
    {
        match self {
            Type::Unit => "Unit",
            Type::Number => "Number",
            Type::Boolean => "Boolean",
            Type::String => "String",
        }
    }

    /// The zero value of this type.
    pub fn default(&self) -> (r: Object)
        ensures
            type_of(r@) == *self,
            r@ == match *self {
                Type::Unit => Value::Unit,
                Type::Number => Value::Number(0),
                Type::Boolean => Value::Boolean(false),
                Type::String => Value::Str(Seq::<char>::empty()),
            },
    {
        match self {
            Type::Unit => Object::Unit,
            Type::Number => Object::Number(0),
            Type::Boolean => Object::Boolean(false),
            Type::String => Object::String(String::new()),
        }
    }
}

impl Object {
    /// The tag of this value.
    pub fn get_type(&self) -> (t: Type)
        ensures
            t == type_of(self@),
    {
        match self {
            Object::Unit => Type::Unit,
            Object::Number(_) => Type::Number,
            Object::Boolean(_) => Type::Boolean,
            Object::String(_) => Type::String,
        }
    }

    /// The native number held by this value; converting any other variant is a
    /// programming error, so those are excluded by precondition.
    pub fn as_number(&self) -> (n: i32)
        requires
            self@ is Number,
        ensures
            self@ == Value::Number(n),
    {
        match self {
            Object::Number(n) => *n,
            _ => 0,
        }
    }

    /// The native boolean held by this value; converting any other variant is a
    /// programming error, so those are excluded by precondition.
    pub fn as_boolean(&self) -> (b: bool)
        requires
            self@ is Boolean,
        ensures
            self@ == Value::Boolean(b),
    {
        match self {
            Object::Boolean(b) => *b,
            _ => false,
        }
    }

    /// An identical copy of this value.
    pub fn duplicate(&self) -> (r: Object)
        ensures
            r@ == self@,
    {
        match self {
            Object::Unit => Object::Unit,
            Object::Number(n) => Object::Number(*n),
            Object::Boolean(b) => Object::Boolean(*b),
            Object::String(s) => Object::String(s.clone()),
        }
    }

    /// The textual form of this value, as the print statement shows it.
    pub fn render(&self) -> (r: String)
        ensures
            r@ == render_value(self@),
    {
        match self {
            Object::Unit => String::from_str("()"),
            Object::Number(n) => {
                let mut s = String::new();
                let magnitude: u32 = if *n < 0 {
                    push_char(&mut s, '-');
                    (-(*n as i64)) as u32
                } else {
                    *n as u32
                };
                push_digits(&mut s, magnitude);
                proof {
                    assert(s@ =~= render_value(self@));
                }
                s
            },
            Object::Boolean(b) => {
                if *b {
                    String::from_str("true")
                } else {
                    String::from_str("false")
                }
            },
            Object::String(s) => s.clone(),
        }
    }

    /// Whether this value equals `other`, as the language's `==` observes it.
    pub fn equals(&self, other: &Object) -> (r: bool)
        ensures
            r == value_eq(self@, other@),
    {
        match (self, other) {
            (Object::Unit, Object::Unit) => true,
            (Object::Number(x), Object::Number(y)) => *x == *y,
            (Object::Boolean(x), Object::Boolean(y)) => *x == *y,
            (Object::String(x), Object::String(y)) => *x == *y,
            _ => false,
        }
    }
}

} // verus!
