//! A chain: named steps that run one after the other, with the parameters
//! they share and the results that the chain reports.

use vstd::prelude::*;
use vstd::string::*;
use crate::errors::{AtentoError, ErrorModel};
use crate::interpreter::{
    builtin_interpreters, builtin_registry, merged_interpreters, overlaid, registry_model,
    Interpreter,
};
use crate::ordered_map::{optional_model, Entries, OrderedMap, TextMap};
use crate::parameter::Parameter;
use crate::result_ref::ResultRef;
use crate::step::{unit_outcome, Step, StepRecord, StepResult};
use crate::text::{join4, optional_text};

verus! {

/// The timeout of a chain that declares none, in seconds.
pub const DEFAULT_CHAIN_TIMEOUT: u64 = 300;

/// The timeout of a chain that declares none, in seconds.
pub fn default_chain_timeout() -> (t: u64)
    ensures
        t == DEFAULT_CHAIN_TIMEOUT,
{
    DEFAULT_CHAIN_TIMEOUT
}

/// An ordered collection of steps with what they share.
#[derive(Debug, Clone)]
pub struct Chain {
    /// The name of the chain, where it has one.
    pub name: Option<String>,
    /// The time budget of a run in seconds; 0 sets none.
    pub timeout: u64,
    /// The interpreters, by key.
    pub interpreters: OrderedMap<Interpreter>,
    /// The constants that steps reach as `parameters.<name>`.
    pub parameters: OrderedMap<Parameter>,
    /// The steps, by name. They run in the order of their declaration.
    pub steps: OrderedMap<Step>,
    /// The results that the chain reports, by name.
    pub results: OrderedMap<ResultRef>,
}

impl Default for Chain {
    /// A chain with the default timeout and nothing declared.
    fn default() -> (c: Self)
        ensures
            c.name.is_none(),
            c.timeout == DEFAULT_CHAIN_TIMEOUT,
            c.interpreters.keys().len() == 0,
            c.parameters.keys().len() == 0,
            c.steps.keys().len() == 0,
            c.results.keys().len() == 0,
    {
        Chain {
            name: None,
            timeout: default_chain_timeout(),
            interpreters: OrderedMap::new(),
            parameters: OrderedMap::new(),
            steps: OrderedMap::new(),
            results: OrderedMap::new(),
        }
    }
}

/// The key under which the output `output` of the step `step` is known.
pub open spec fn output_key(step: Seq<char>, output: Seq<char>) -> Seq<char> {
    "steps."@ + step + ".outputs."@ + output
}

/// The key under which the parameter `name` is known.
pub open spec fn parameter_key(name: Seq<char>) -> Seq<char> {
    "parameters."@ + name
}

/// How an error names the step in which a reference stands.
pub open spec fn step_context(step: Seq<char>) -> Seq<char> {
    "step '"@ + step + "'"@
}

/// The record of one run of a chain.
#[derive(Debug)]
pub struct ChainResult {
    /// The name of the chain, where it has one.
    pub name: Option<String>,
    /// How long the run took, in milliseconds.
    pub duration_ms: u128,
    /// The parameters as text; absent where the chain has none or one of them
    /// could not be converted.
    pub parameters: Option<OrderedMap<String>>,
    /// The records of the steps that ran, in the order in which they ran;
    /// absent where none ran.
    pub steps: Option<OrderedMap<StepResult>>,
    /// The named results that could be resolved; absent where none could.
    pub results: Option<OrderedMap<String>>,
    /// Every error of the run, in the order in which they arose.
    pub errors: Vec<AtentoError>,
    /// `ok` where the run had no error, `nok` where it had any.
    pub status: String,
}

/// The records of the steps of a run, as mathematical text.
pub open spec fn records_model(steps: OrderedMap<StepResult>) -> Entries<StepRecord> {
    Entries {
        keys: steps.keys(),
        values: Seq::new(steps.values().len(), |i: int| steps.values()[i]@),
    }
}

/// The record of one run of a chain, as mathematical text.
pub struct ChainRecord {
    pub name: Option<Seq<char>>,
    pub duration_ms: u128,
    pub parameters: Option<TextMap>,
    pub steps: Option<Entries<StepRecord>>,
    pub results: Option<TextMap>,
    pub errors: Seq<ErrorModel>,
    pub status: Seq<char>,
}

impl View for ChainResult {
    type V = ChainRecord;

    open spec fn view(&self) -> ChainRecord {
        ChainRecord {
            name: optional_text(self.name),
            duration_ms: self.duration_ms,
            parameters: optional_model(self.parameters),
            steps: match self.steps {
                Some(steps) => Some(records_model(steps)),
                None => None,
            },
            results: optional_model(self.results),
            errors: error_models(self.errors@),
            status: self.status@,
        }
    }
}

/// The errors as mathematical text.
pub open spec fn error_models(errors: Seq<AtentoError>) -> Seq<ErrorModel> {
    Seq::new(errors.len(), |i: int| errors[i]@)
}

/// The status of a run with so many errors: `ok` with none, else `nok`.
pub open spec fn status_text(errors: nat) -> Seq<char> {
    if errors == 0 {
        "ok"@
    } else {
        "nok"@
    }
}

/// A map of texts as a result shows it: absent where it is empty.
pub open spec fn shown(m: TextMap) -> Option<TextMap> {
    if m.keys.len() == 0 {
        None
    } else {
        Some(m)
    }
}

impl Chain {
    /// The chain declared by a document: what the document declares, with the
    /// built-in interpreters under those that it declares. A declared
    /// interpreter replaces the built-in one with its key.
    pub fn from_parts(
        name: Option<String>,
        timeout: u64,
        interpreters: &OrderedMap<Interpreter>,
        parameters: OrderedMap<Parameter>,
        steps: OrderedMap<Step>,
        results: OrderedMap<ResultRef>,
    ) -> (c: Chain)
        ensures
            c.name == name,
            c.timeout == timeout,
            c.parameters == parameters,
            c.steps == steps,
            c.results == results,
            registry_model(c.interpreters) == overlaid(
                builtin_registry(builtin_interpreters().len() as int),
                registry_model(*interpreters),
                interpreters.keys().len() as int,
            ),
    {
        Chain {
            name,
            timeout,
            interpreters: merged_interpreters(interpreters),
            parameters,
            steps,
            results,
        }
    }

    /// The key under which the output `output_key` of the step `step_key` is
    /// known.
    pub fn make_output_key(step_key: &str, output_key: &str) -> (key: String)
        ensures
            key@ == self::output_key(step_key@, output_key@),
    {
        join4("steps.", step_key, ".outputs.", output_key)
    }
}

impl ChainResult {
    /// What the caller of a run is told at the end: success where the run
    /// had no error, and else that the chain completed with errors.
    pub fn verdict(&self) -> (r: Result<(), AtentoError>)
        ensures
            unit_outcome(r) == if self.errors@.len() == 0 {
                Ok::<(), ErrorModel>(())
            } else {
                Err::<(), ErrorModel>(ErrorModel::Execution("Chain completed with errors"@))
            },
    {
        if self.errors.len() == 0 {
            Ok(())
        } else {
            Err(AtentoError::Execution(String::from_str("Chain completed with errors")))
        }
    }
}

} // verus!
