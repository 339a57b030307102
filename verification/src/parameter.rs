//! Chain-wide constants.

use vstd::prelude::*;
use crate::data_type::{conversion, text_outcome, to_string_value, DataType, Value};
use crate::errors::AtentoError;

verus! {

/// A constant of the chain, which any step can reach as `parameters.<name>`.
#[derive(Debug, Clone)]
pub struct Parameter {
    pub type_: DataType,
    pub value: Value,
}

impl Parameter {
    /// The text of the value under the declared type, or the conversion error
    /// where the value is not of that type.
    pub fn to_string_value(&self) -> (r: Result<String, AtentoError>)
        ensures
            text_outcome(r) == conversion(self.type_, self.value@),
    {
        to_string_value(&self.type_, &self.value)
    }
}

} // verus!
