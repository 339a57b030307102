//! The closed set of errors that the engine reports.

use vstd::prelude::*;
use vstd::string::*;
use crate::text::{decimal, join2, join4, push_decimal};

verus! {

/// An error of the chain engine.
#[derive(Debug, Clone)]
pub enum AtentoError {
    /// A file could not be read.
    Io { path: String, source: String },
    /// A document could not be parsed.
    YamlParse { context: String, source: String },
    /// A result could not be serialized.
    JsonSerialize { message: String },
    /// The chain or a step is not well formed.
    Validation(String),
    /// The chain could not carry out a piece of work.
    Execution(String),
    /// A step failed.
    StepExecution { step: String, reason: String },
    /// A value does not have the declared type.
    TypeConversion { expected: String, got: String },
    /// A reference names nothing that is known.
    UnresolvedReference { reference: String, context: String },
    /// The time budget ran out.
    Timeout { context: String, timeout_secs: u64 },
    /// The process runner failed.
    Runner(String),
}

/// What an error holds, as mathematical text.
pub enum ErrorModel {
    Io { path: Seq<char>, source: Seq<char> },
    YamlParse { context: Seq<char>, source: Seq<char> },
    JsonSerialize { message: Seq<char> },
    Validation(Seq<char>),
    Execution(Seq<char>),
    StepExecution { step: Seq<char>, reason: Seq<char> },
    TypeConversion { expected: Seq<char>, got: Seq<char> },
    UnresolvedReference { reference: Seq<char>, context: Seq<char> },
    Timeout { context: Seq<char>, timeout_secs: u64 },
    Runner(Seq<char>),
}

impl ErrorModel {
    /// The message that describes the error.
    pub open spec fn message(self) -> Seq<char> {
        match self {
            ErrorModel::Io { path, source } => "Failed to read file '"@ + path + "': "@ + source,
            ErrorModel::YamlParse { context, source } => "Failed to parse YAML in '"@ + context
                + "': "@ + source,
            ErrorModel::JsonSerialize { message } => "Failed to serialize results: "@ + message,
            ErrorModel::Validation(msg) => "Chain validation failed: "@ + msg,
            ErrorModel::Execution(msg) => "Chain execution failed: "@ + msg,
            ErrorModel::StepExecution { step, reason } => "Step '"@ + step + "' failed: "@
                + reason,
            ErrorModel::TypeConversion { expected, got } => "Expected "@ + expected
                + " value, got: "@ + got,
            ErrorModel::UnresolvedReference { reference, context } => "Unresolved reference '"@
                + reference + "' in "@ + context,
            ErrorModel::Timeout { context, timeout_secs } => context + " timeout after "@
                + decimal(timeout_secs as nat) + "s"@,
            ErrorModel::Runner(msg) => "Runner error: "@ + msg,
        }
    }
}

impl View for AtentoError {
    type V = ErrorModel;

    open spec fn view(&self) -> ErrorModel {
        match *self {
            AtentoError::Io { path, source } => ErrorModel::Io { path: path@, source: source@ },
            AtentoError::YamlParse { context, source } => ErrorModel::YamlParse {
                context: context@,
                source: source@,
            },
            AtentoError::JsonSerialize { message } => ErrorModel::JsonSerialize {
                message: message@,
            },
            AtentoError::Validation(msg) => ErrorModel::Validation(msg@),
            AtentoError::Execution(msg) => ErrorModel::Execution(msg@),
            AtentoError::StepExecution { step, reason } => ErrorModel::StepExecution {
                step: step@,
                reason: reason@,
            },
            AtentoError::TypeConversion { expected, got } => ErrorModel::TypeConversion {
                expected: expected@,
                got: got@,
            },
            AtentoError::UnresolvedReference { reference, context } => {
                ErrorModel::UnresolvedReference { reference: reference@, context: context@ }
            },
            AtentoError::Timeout { context, timeout_secs } => ErrorModel::Timeout {
                context: context@,
                timeout_secs,
            },
            AtentoError::Runner(msg) => ErrorModel::Runner(msg@),
        }
    }
}

impl AtentoError {
    /// The message that describes the error.
    pub fn to_string(&self) -> (s: String)
        ensures
            s@ == self@.message(),
    {
        match self {
            AtentoError::Io { path, source } => join4(
                "Failed to read file '",
                path.as_str(),
                "': ",
                source.as_str(),
            ),
            AtentoError::YamlParse { context, source } => join4(
                "Failed to parse YAML in '",
                context.as_str(),
                "': ",
                source.as_str(),
            ),
            AtentoError::JsonSerialize { message } => join2(
                "Failed to serialize results: ",
                message.as_str(),
            ),
            AtentoError::Validation(msg) => join2("Chain validation failed: ", msg.as_str()),
            AtentoError::Execution(msg) => join2("Chain execution failed: ", msg.as_str()),
            AtentoError::StepExecution { step, reason } => join4(
                "Step '",
                step.as_str(),
                "' failed: ",
                reason.as_str(),
            ),
            AtentoError::TypeConversion { expected, got } => join4(
                "Expected ",
                expected.as_str(),
                " value, got: ",
                got.as_str(),
            ),
            AtentoError::UnresolvedReference { reference, context } => join4(
                "Unresolved reference '",
                reference.as_str(),
                "' in ",
                context.as_str(),
            ),
            AtentoError::Timeout { context, timeout_secs } => {
                let mut s = join2(context.as_str(), " timeout after ");
                push_decimal(&mut s, *timeout_secs);
                s.append("s");
                s
            },
            AtentoError::Runner(msg) => join2("Runner error: ", msg.as_str()),
        }
    }
}

} // verus!
