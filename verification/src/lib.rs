//! Chain execution engine.
//!
//! A chain is a sequence of named steps. Each step runs a script through an
//! interpreter, with placeholders in the script replaced by the values of its
//! inputs, and takes named values from the standard output of the script with
//! regular expressions. Later steps and the results of the chain refer to
//! those values and to the parameters of the chain.
//!
//! The modules, leaves first:
//!
//! - [`text`], [`ordered_map`], [`pattern`], [`clock`]: text, insertion-ordered
//!   maps, regular expressions and time, as the engine uses them;
//! - [`errors`], [`data_type`], [`input`], [`output`], [`parameter`],
//!   [`result_ref`], [`interpreter`]: the vocabulary of a chain;
//! - [`executor`], [`runner`]: the boundary to the processes that run scripts;
//! - [`step`]: one step, its validation, its script and its outputs;
//! - [`chain`], [`validation`], [`run`]: the chain, the validation of its
//!   references and its run;
//! - [`chain_laws`]: what holds of every chain.

pub mod chain;
pub mod chain_laws;
pub mod clock;
pub mod data_type;
pub mod errors;
pub mod executor;
pub mod input;
pub mod interpreter;
pub mod ordered_map;
pub mod output;
pub mod parameter;
pub mod pattern;
pub mod result_ref;
pub mod run;
pub mod runner;
pub mod step;
pub mod text;
pub mod validation;

pub use chain::{Chain, ChainResult};
pub use data_type::{DataType, Number, Value};
pub use errors::AtentoError;
pub use executor::{CommandExecutor, ExecutionResult};
pub use input::Input;
pub use interpreter::{default_interpreters, Interpreter};
pub use ordered_map::OrderedMap;
pub use output::Output;
pub use parameter::Parameter;
pub use result_ref::ResultRef;
pub use runner::RunnerResult;
pub use step::{Step, StepResult};
