//! The inputs of a step.

use vstd::prelude::*;
use vstd::string::*;
use crate::data_type::{conversion, text_outcome, to_string_value, DataType, Value};
use crate::errors::{AtentoError, ErrorModel};

verus! {

/// An input of a step: a reference to a parameter or to an output of an
/// earlier step, or a literal with its declared type.
#[derive(Debug, Clone)]
pub enum Input {
    /// A dotted path: `parameters.<name>` or `steps.<step>.outputs.<output>`.
    Ref { ref_: String },
    /// A literal, typed where it is declared.
    Inline { type_: DataType, value: Value },
}

impl Input {
    /// The outcome of converting the input by itself: the text of a literal
    /// under its type, and an execution error for a reference, which has to be
    /// resolved first.
    pub open spec fn own_text(&self) -> Result<Seq<char>, ErrorModel> {
        match *self {
            Input::Inline { type_, value } => conversion(type_, value@),
            Input::Ref { ref_ } => Err(
                ErrorModel::Execution(
                    "Cannot convert Ref directly to string; must resolve first"@,
                ),
            ),
        }
    }

    /// The text of a literal under its declared type. A reference is an
    /// error: it has no text until it is resolved.
    pub fn to_string_value(&self) -> (r: Result<String, AtentoError>)
        ensures
            text_outcome(r) == self.own_text(),
    {
        match self {
            Input::Inline { type_, value } => to_string_value(type_, value),
            Input::Ref { .. } => Err(
                AtentoError::Execution(
                    String::from_str("Cannot convert Ref directly to string; must resolve first"),
                ),
            ),
        }
    }
}

} // verus!
