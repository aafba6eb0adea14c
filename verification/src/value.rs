use vstd::prelude::*;
use crate::text::{char_to_string, i64_to_string, parse_i64, spec_int_string, spec_parse_i64, str_eq};

verus! {

/// The closed set of types a form field can hold. Every field names one of
/// these, and retrieval checks the requested type against it.
#[derive(Clone, Copy, Debug, PartialEq, Eq, Structural)]
pub enum ValueType {
    /// Free text.
    Text,
    /// A signed 64-bit integer.
    Int,
    /// A boolean.
    Boolean,
    /// A single character.
    Character,
}

/// One typed value held by a filled field.
#[derive(Clone, Debug, PartialEq)]
pub enum Value {
    /// Free text.
    Text(String),
    /// A signed 64-bit integer.
    Int(i64),
    /// A boolean.
    Boolean(bool),
    /// A single character.
    Character(char),
}

/// The type a value belongs to.
pub open spec fn value_type_of(v: Value) -> ValueType {
    match v {
        Value::Text(_) => ValueType::Text,
        Value::Int(_) => ValueType::Int,
        Value::Boolean(_) => ValueType::Boolean,
        Value::Character(_) => ValueType::Character,
    }
}

/// Whether `v` is the default value of the type: empty text, zero, false, or
/// the nul character.
pub open spec fn is_default_value(t: ValueType, v: Value) -> bool {
    match t {
        ValueType::Text => v matches Value::Text(s) && s@ == Seq::<char>::empty(),
        ValueType::Int => v == Value::Int(0i64),
        ValueType::Boolean => v == Value::Boolean(false),
        ValueType::Character => v == Value::Character('\0'),
    }
}

/// Whether the text parses as a value of the type: text always does, an
/// integer must be integer-shaped and in range, a boolean must be exactly
/// `true` or `false`, and a character must be one character long.
pub open spec fn parseable(t: ValueType, text: Seq<char>) -> bool {
    match t {
        ValueType::Text => true,
        ValueType::Int => spec_parse_i64(text) is Some,
        ValueType::Boolean => text == "true"@ || text == "false"@,
        ValueType::Character => text.len() == 1,
    }
}

/// Whether parsing the text as the type yields exactly `v`.
pub open spec fn parses_to(t: ValueType, text: Seq<char>, v: Value) -> bool {
    match t {
        ValueType::Text => v matches Value::Text(s) && s@ == text,
        ValueType::Int => spec_parse_i64(text) matches Some(n) && v == Value::Int(n),
        ValueType::Boolean => (text == "true"@ && v == Value::Boolean(true)) || (text == "false"@
            && v == Value::Boolean(false)),
        ValueType::Character => text.len() == 1 && v == Value::Character(text[0]),
    }
}

/// The characters the value is shown as: the text itself, the decimal
/// rendering, `true` or `false`, or the one character.
pub open spec fn display_chars(v: Value) -> Seq<char> {
    match v {
        Value::Text(s) => s@,
        Value::Int(n) => spec_int_string(n as int),
        Value::Boolean(b) => if b {
            "true"@
        } else {
            "false"@
        },
        Value::Character(c) => seq![c],
    }
}

/// The characters a list of values is shown as: the elements' renderings
/// joined by a comma and a space.
pub open spec fn display_list_chars(vs: Seq<Value>) -> Seq<char>
    decreases vs.len(),
{
    if vs.len() == 0 {
        Seq::empty()
    } else if vs.len() == 1 {
        display_chars(vs[0])
    } else {
        display_list_chars(vs.drop_last()) + ", "@ + display_chars(vs.last())
    }
}

impl Value {
    /// The type this value belongs to.
    pub fn get_type(&self) -> (t: ValueType)
        ensures
            t == value_type_of(*self),
    {
        match self {
            Value::Text(_) => ValueType::Text,
            Value::Int(_) => ValueType::Int,
            Value::Boolean(_) => ValueType::Boolean,
            Value::Character(_) => ValueType::Character,
        }
    }

    /// An owned copy of the value.
    pub fn duplicate(&self) -> (r: Value)
        ensures
            r == *self,
    {
        match self {
            Value::Text(s) => Value::Text(s.clone()),
            Value::Int(n) => Value::Int(*n),
            Value::Boolean(b) => Value::Boolean(*b),
            Value::Character(c) => Value::Character(*c),
        }
    }

    /// The string the value is shown as.
    pub fn display(&self) -> (r: String)
        ensures
            r@ == display_chars(*self),
    {
        match self {
            Value::Text(s) => s.clone(),
            Value::Int(n) => i64_to_string(*n),
            Value::Boolean(b) => if *b {
                String::from_str("true")
            } else {
                String::from_str("false")
            },
            Value::Character(c) => char_to_string(*c),
        }
    }
}

/// The default value of a type.
pub fn default_value(t: ValueType) -> (v: Value)
    ensures
        is_default_value(t, v),
        value_type_of(v) == t,
{
    match t {
        ValueType::Text => Value::Text(String::new()),
        ValueType::Int => Value::Int(0),
        ValueType::Boolean => Value::Boolean(false),
        ValueType::Character => Value::Character('\0'),
    }
}

/// Parses trimmed text as a value of the type, or yields `None` when the
/// text does not have the type's shape.
pub fn parse_value(t: ValueType, text: &str) -> (r: Option<Value>)
    ensures
        (r is Some) == parseable(t, text@),
        r matches Some(v) ==> parses_to(t, text@, v) && value_type_of(v) == t,
{
    match t {
        ValueType::Text => Option::Some(Value::Text(String::from_str(text))),
        ValueType::Int => match parse_i64(text) {
            Option::Some(n) => Option::Some(Value::Int(n)),
            Option::None => Option::None,
        },
        ValueType::Boolean => if str_eq(text, "true") {
            Option::Some(Value::Boolean(true))
        } else if str_eq(text, "false") {
            Option::Some(Value::Boolean(false))
        } else {
            Option::None
        },
        ValueType::Character => {
            let n = text.unicode_len();
            if n == 1 {
                Option::Some(Value::Character(text.get_char(0)))
            } else {
                Option::None
            }
        },
    }
}

} // verus!
