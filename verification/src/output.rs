//! The declaration of a step output.

use vstd::prelude::*;
use crate::data_type::DataType;

verus! {

/// How a value is taken from the standard output of a step: a regular
/// expression whose first capture group is the value, and the declared type of
/// that value.
#[derive(Debug, Clone)]
pub struct Output {
    /// The regular expression, with at least one capture group.
    pub pattern: String,
    /// The declared type. The value itself is always kept as text.
    pub type_: DataType,
}

} // verus!
