//! Declared types of values, dynamic values, and the conversion of a value to
//! text under a declared type.

use vstd::prelude::*;
use vstd::string::*;
use crate::errors::{AtentoError, ErrorModel};
use crate::text::{bool_string, bool_text, join3, signed_decimal, signed_decimal_string};

verus! {

/// The declared type of a parameter, an input or an output.
#[derive(PartialEq, Eq, Structural, Debug, Clone, Copy, Hash)]
pub enum DataType {
    /// Text.
    String,
    /// A signed integer of 64 bits.
    Int,
    /// A floating-point number.
    Float,
    /// A truth value.
    Bool,
    /// A date and time in ISO 8601 form, kept as text.
    DateTime,
}

impl Default for DataType {
    fn default() -> (t: Self)
        ensures
            t == DataType::String,
    {
        DataType::String
    }
}

impl DataType {
    /// The name of the type, in lower case.
    pub open spec fn name(self) -> Seq<char> {
        match self {
            DataType::String => "string"@,
            DataType::Int => "int"@,
            DataType::Float => "float"@,
            DataType::Bool => "bool"@,
            DataType::DateTime => "datetime"@,
        }
    }

    /// What a conversion error calls the type that it expected.
    pub open spec fn expected(self) -> Seq<char> {
        match self {
            DataType::DateTime => "datetime string"@,
            _ => self.name(),
        }
    }

    /// The name of the type, in lower case.
    pub fn to_string(&self) -> (s: String)
        ensures
            s@ == self.name(),
    {
        match self {
            DataType::String => String::from_str("string"),
            DataType::Int => String::from_str("int"),
            DataType::Float => String::from_str("float"),
            DataType::Bool => String::from_str("bool"),
            DataType::DateTime => String::from_str("datetime"),
        }
    }

    fn expected_string(&self) -> (s: String)
        ensures
            s@ == self.expected(),
    {
        match self {
            DataType::DateTime => String::from_str("datetime string"),
            _ => self.to_string(),
        }
    }
}

/// A number of a document: the integer it is, where it is one that fits 64
/// bits; its text when read as a floating-point number; and its text as
/// written.
#[derive(Debug, Clone)]
pub struct Number {
    pub integer: Option<i64>,
    pub float_text: String,
    pub text: String,
}

impl Number {
    /// The number `value`. Read as a floating-point number it prints as the
    /// same numeral, since every integer of 32 bits is one exactly.
    pub fn from_i32(value: i32) -> (n: Number)
        ensures
            n.integer == Some(value as i64),
            n.float_text@ == signed_decimal(value as int),
            n.text@ == signed_decimal(value as int),
    {
        Number {
            integer: Some(value as i64),
            float_text: signed_decimal_string(value as i64),
            text: signed_decimal_string(value as i64),
        }
    }

    /// A number that is no integer, from its text read as a floating-point
    /// number and its text as written.
    pub fn from_float_text(float_text: String, text: String) -> (n: Number)
        ensures
            n.integer.is_none(),
            n.float_text == float_text,
            n.text == text,
    {
        Number { integer: None, float_text, text }
    }
}

/// A dynamic value of a document.
#[derive(Debug, Clone)]
pub enum Value {
    /// No value.
    Null,
    /// A truth value.
    Bool(bool),
    /// A number.
    Number(Number),
    /// Text.
    String(String),
    /// A sequence, a mapping or a tagged value, by its description.
    Other(String),
}

/// The text of `s` between double quotes, with the escapes of Rust's debug
/// format.
pub uninterp spec fn quoted_text(s: Seq<char>) -> Seq<char>;

/// The `Debug` format of `str`: the text between double quotes, escaped.
#[verifier::external_body]
fn quoted(s: &str) -> (q: String)
    ensures
        q@ == quoted_text(s@),
{
    format!("{:?}", s)
}

/// What a value holds, as mathematical text.
pub enum ValueModel {
    Null,
    Bool(bool),
    Number { integer: Option<i64>, float_text: Seq<char>, text: Seq<char> },
    String(Seq<char>),
    Other(Seq<char>),
}

impl ValueModel {
    /// How a conversion error describes the value.
    pub open spec fn description(self) -> Seq<char> {
        match self {
            ValueModel::Null => "Null"@,
            ValueModel::Bool(b) => "Bool("@ + bool_text(b) + ")"@,
            ValueModel::Number { integer, float_text, text } => "Number("@ + text + ")"@,
            ValueModel::String(s) => "String("@ + quoted_text(s) + ")"@,
            ValueModel::Other(d) => d,
        }
    }
}

impl View for Value {
    type V = ValueModel;

    open spec fn view(&self) -> ValueModel {
        match *self {
            Value::Null => ValueModel::Null,
            Value::Bool(b) => ValueModel::Bool(b),
            Value::Number(n) => ValueModel::Number {
                integer: n.integer,
                float_text: n.float_text@,
                text: n.text@,
            },
            Value::String(s) => ValueModel::String(s@),
            Value::Other(d) => ValueModel::Other(d@),
        }
    }
}

impl Value {
    /// How a conversion error describes the value.
    pub fn description(&self) -> (s: String)
        ensures
            s@ == self@.description(),
    {
        match self {
            Value::Null => String::from_str("Null"),
            Value::Bool(b) => {
                let t = bool_string(*b);
                join3("Bool(", t.as_str(), ")")
            },
            Value::Number(n) => join3("Number(", n.text.as_str(), ")"),
            Value::String(s) => {
                let q = quoted(s.as_str());
                join3("String(", q.as_str(), ")")
            },
            Value::Other(d) => d.clone(),
        }
    }
}

/// The text of `value` under the type `type_`, or `None` where the value is
/// not of that type: text for `String` and `DateTime`, an integer for `Int`,
/// any number for `Float`, a truth value for `Bool`.
pub open spec fn converted(type_: DataType, value: ValueModel) -> Option<Seq<char>> {
    match (type_, value) {
        (DataType::String, ValueModel::String(s)) => Some(s),
        (DataType::DateTime, ValueModel::String(s)) => Some(s),
        (DataType::Int, ValueModel::Number { integer: Some(i), float_text, text }) => Some(
            signed_decimal(i as int),
        ),
        (DataType::Float, ValueModel::Number { integer, float_text, text }) => Some(float_text),
        (DataType::Bool, ValueModel::Bool(b)) => Some(bool_text(b)),
        _ => None,
    }
}

/// The outcome of converting `value` under `type_`: the text, or the
/// conversion error that names the expected type and describes the value.
pub open spec fn conversion(type_: DataType, value: ValueModel) -> Result<Seq<char>, ErrorModel> {
    match converted(type_, value) {
        Some(s) => Ok(s),
        None => Err(
            ErrorModel::TypeConversion { expected: type_.expected(), got: value.description() },
        ),
    }
}

/// The view of an outcome that holds text.
pub open spec fn text_outcome(r: Result<String, AtentoError>) -> Result<Seq<char>, ErrorModel> {
    match r {
        Ok(s) => Ok(s@),
        Err(e) => Err(e@),
    }
}

/// Converts `value` to text under the type `type_`. Nothing is coerced: a
/// value of another kind is an error.
pub fn to_string_value(type_: &DataType, value: &Value) -> (r: Result<String, AtentoError>)
    ensures
        text_outcome(r) == conversion(*type_, value@),
{
    let converted: Option<String> = match type_ {
        DataType::String | DataType::DateTime => match value {
            Value::String(s) => Some(s.clone()),
            _ => None,
        },
        DataType::Int => match value {
            Value::Number(n) => match n.integer {
                Some(i) => Some(signed_decimal_string(i)),
                None => None,
            },
            _ => None,
        },
        DataType::Float => match value {
            Value::Number(n) => Some(n.float_text.clone()),
            _ => None,
        },
        DataType::Bool => match value {
            Value::Bool(b) => Some(bool_string(*b)),
            _ => None,
        },
    };
    match converted {
        Some(s) => Ok(s),
        None => Err(
            AtentoError::TypeConversion {
                expected: type_.expected_string(),
                got: value.description(),
            },
        ),
    }
}

} // verus!
