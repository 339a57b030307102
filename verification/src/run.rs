//! The run of a chain: the steps run in the order of their declaration,
//! each with its inputs resolved from the parameters and from the outputs of
//! the steps before it, until a step cannot run or fails.

use vstd::prelude::*;
use vstd::string::*;
use std::time::Instant;
use crate::chain::{
    error_models, output_key, records_model, shown, status_text, step_context, Chain,
    ChainRecord, ChainResult,
};
use crate::data_type::{conversion, text_outcome};
use crate::errors::{AtentoError, ErrorModel};
use crate::executor::{outcome_model, CommandExecutor, ExecutionModel, ExecutionResult};
use crate::input::Input;
use crate::interpreter::Interpreter;
use crate::ordered_map::{distinct_keys, optional_model, Entries, OrderedMap, TextMap};
use crate::step::{built_script, effective_timeout, Step, StepRecord, StepResult};
use crate::text::{join3, join5, join6, optional_text, strip_prefix, without_prefix};

verus! {

/// What comes from outside at one step of a run: the seconds that have
/// passed when the step is taken up, what the executor reports for its
/// script, and the milliseconds that its run takes.
pub struct Event {
    pub elapsed: u64,
    pub outcome: Result<ExecutionModel, ErrorModel>,
    pub duration_ms: u128,
}

/// How far a run has come: the outputs known, the records of the steps that
/// ran, the errors that arose, and whether the run has stopped.
pub struct Progress {
    pub known: TextMap,
    pub steps: Entries<StepRecord>,
    pub errors: Seq<ErrorModel>,
    pub halted: bool,
}

impl Progress {
    /// A run before its first step.
    pub open spec fn start() -> Progress {
        Progress {
            known: TextMap::empty(),
            steps: Entries::empty(),
            errors: Seq::empty(),
            halted: false,
        }
    }

    /// The run stopped by `error`.
    pub open spec fn halt(self, error: ErrorModel) -> Progress {
        Progress {
            known: self.known,
            steps: self.steps,
            errors: self.errors.push(error),
            halted: true,
        }
    }
}

/// What the executor is handed for a step: the script with the inputs in
/// place, the interpreter of the step, and the timeout that governs it.
pub struct Handed {
    pub script: Seq<char>,
    pub interpreter: Interpreter,
    pub timeout: u64,
}

/// The message for an inline input that is not of its declared type.
pub open spec fn input_message(input: Seq<char>, step: Seq<char>, reason: Seq<char>) -> Seq<char> {
    "Input '"@ + input + "' in step '"@ + step + "': "@ + reason
}

/// The message for an input that refers to a parameter that is not of its
/// declared type.
pub open spec fn parameter_message(input: Seq<char>, step: Seq<char>, reason: Seq<char>) -> Seq<
    char,
> {
    "Parameter '"@ + input + "' in step '"@ + step + "': "@ + reason
}

/// The message for a chain whose budget is used up before a step.
pub open spec fn timed_out_message(step: Seq<char>) -> Seq<char> {
    "Chain timed out before step '"@ + step + "'"@
}

/// The message for a step whose interpreter is not in the registry.
pub open spec fn unknown_interpreter_message(interpreter: Seq<char>, step: Seq<char>) -> Seq<char> {
    "Unknown interpreter '"@ + interpreter + "' in step '"@ + step + "'"@
}

/// How an error names the chain result that could not be resolved.
pub open spec fn unresolved_result_context(result: Seq<char>) -> Seq<char> {
    "Unresolved Reference '"@ + result + "'"@
}

/// The outputs known after those of a step, from position `from` on, are
/// recorded under their keys.
pub open spec fn recorded(known: TextMap, step: Seq<char>, outputs: TextMap, from: int) -> TextMap
    decreases outputs.keys.len() - from,
{
    if from < 0 || from >= outputs.keys.len() || from >= outputs.values.len() {
        known
    } else {
        recorded(
            known.put(output_key(step, outputs.keys[from]), outputs.values[from]),
            step,
            outputs,
            from + 1,
        )
    }
}

/// The error that a chain reports for a step whose record holds an error.
pub open spec fn step_failure(step: Seq<char>, r: StepResult) -> Option<ErrorModel> {
    match r.error {
        Some(e) => Some(ErrorModel::StepExecution { step, reason: e@.message() }),
        None => None,
    }
}

/// The time that a step may take, or the timeout error where the budget is
/// used up: with no budget, 0; else what is left of the budget after `elapsed`
/// seconds.
pub open spec fn budget(timeout: u64, elapsed: u64, step: Seq<char>) -> Result<u64, ErrorModel> {
    if timeout == 0 {
        Ok(0)
    } else if elapsed >= timeout {
        Err(ErrorModel::Timeout { context: timed_out_message(step), timeout_secs: timeout })
    } else {
        Ok((timeout - elapsed) as u64)
    }
}

/// The results that resolve, and the errors for those that do not.
pub struct Collected {
    pub results: TextMap,
    pub errors: Seq<ErrorModel>,
}

impl Collected {
    /// No result and no error.
    pub open spec fn nothing() -> Collected {
        Collected { results: TextMap::empty(), errors: Seq::empty() }
    }
}

impl Chain {
    /// The outcome of resolving one input of a step. A literal is converted
    /// under its type. A reference is looked up first among the parameters, by
    /// what follows `parameters.` or else by the whole reference, and then
    /// among the outputs known so far.
    pub open spec fn resolved_input(
        &self,
        input_name: Seq<char>,
        input: Input,
        step_name: Seq<char>,
        known: TextMap,
    ) -> Result<Seq<char>, ErrorModel> {
        match input {
            Input::Inline { type_, value } => match conversion(type_, value@) {
                Ok(text) => Ok(text),
                Err(e) => Err(
                    ErrorModel::Execution(input_message(input_name, step_name, e.message())),
                ),
            },
            Input::Ref { ref_ } => {
                let name = match without_prefix(ref_@, "parameters."@) {
                    Some(name) => name,
                    None => ref_@,
                };
                if self.parameters.has(name) {
                    let parameter = self.parameters.value_of(name);
                    match conversion(parameter.type_, parameter.value@) {
                        Ok(text) => Ok(text),
                        Err(e) => Err(
                            ErrorModel::Execution(
                                parameter_message(input_name, step_name, e.message()),
                            ),
                        ),
                    }
                } else {
                    match known.get(ref_@) {
                        Some(text) => Ok(text),
                        None => Err(
                            ErrorModel::UnresolvedReference {
                                reference: ref_@,
                                context: step_context(step_name),
                            },
                        ),
                    }
                }
            },
        }
    }

    /// The outcome of resolving the inputs of `step` from position `from` on,
    /// given those resolved so far: all of them, or the first error.
    pub open spec fn resolved_inputs(
        &self,
        step: Step,
        step_name: Seq<char>,
        known: TextMap,
        from: int,
        so_far: TextMap,
    ) -> Result<TextMap, ErrorModel>
        decreases step.inputs.keys().len() - from,
    {
        if from < 0 || from >= step.inputs.keys().len() {
            Ok(so_far)
        } else {
            match self.resolved_input(
                step.inputs.keys()[from],
                step.inputs.values()[from],
                step_name,
                known,
            ) {
                Err(e) => Err(e),
                Ok(text) => self.resolved_inputs(
                    step,
                    step_name,
                    known,
                    from + 1,
                    so_far.put(step.inputs.keys()[from], text),
                ),
            }
        }
    }

    /// The interpreter of `step`, or the error where the registry has none
    /// under its key.
    pub open spec fn interpreter_of(&self, step: Step, step_name: Seq<char>) -> Result<
        Interpreter,
        ErrorModel,
    > {
        if self.interpreters.has(step.interpreter@) {
            Ok(self.interpreters.value_of(step.interpreter@))
        } else {
            Err(ErrorModel::Validation(unknown_interpreter_message(step.interpreter@, step_name)))
        }
    }

    /// The results from position `from` on that resolve among the outputs
    /// known, added to those so far; and an error for each that does not.
    pub open spec fn collected(&self, known: TextMap, from: int, so_far: Collected) -> Collected
        decreases self.results.keys().len() - from,
    {
        if from < 0 || from >= self.results.keys().len() {
            so_far
        } else {
            match known.get(self.results.values()[from].ref_@) {
                Some(text) => self.collected(
                    known,
                    from + 1,
                    Collected {
                        results: so_far.results.put(self.results.keys()[from], text),
                        errors: so_far.errors,
                    },
                ),
                None => self.collected(
                    known,
                    from + 1,
                    Collected {
                        results: so_far.results,
                        errors: so_far.errors.push(
                            ErrorModel::UnresolvedReference {
                                reference: self.results.values()[from].ref_@,
                                context: unresolved_result_context(self.results.keys()[from]),
                            },
                        ),
                    },
                ),
            }
        }
    }

    /// The parameters from position `from` on as text, added to those so far;
    /// or the first conversion error.
    pub open spec fn parameter_texts(&self, from: int, so_far: TextMap) -> Result<
        TextMap,
        ErrorModel,
    >
        decreases self.parameters.keys().len() - from,
    {
        if from < 0 || from >= self.parameters.keys().len() {
            Ok(so_far)
        } else {
            let parameter = self.parameters.values()[from];
            match conversion(parameter.type_, parameter.value@) {
                Err(e) => Err(e),
                Ok(text) => self.parameter_texts(
                    from + 1,
                    so_far.put(self.parameters.keys()[from], text),
                ),
            }
        }
    }

    /// The parameters that a result shows: none for a chain without
    /// parameters, and none where one of them cannot be converted.
    pub open spec fn shown_parameters(&self) -> Option<TextMap> {
        if self.parameters.keys().len() == 0 {
            None
        } else {
            match self.parameter_texts(0, TextMap::empty()) {
                Ok(texts) => Some(texts),
                Err(e) => None,
            }
        }
    }

    /// The errors that the parameters add to a result: the first conversion
    /// error, where there is one.
    pub open spec fn parameter_errors(&self) -> Seq<ErrorModel> {
        if self.parameters.keys().len() == 0 {
            Seq::empty()
        } else {
            match self.parameter_texts(0, TextMap::empty()) {
                Ok(texts) => Seq::empty(),
                Err(e) => seq![e],
            }
        }
    }

    /// Resolves one input of a step to its text.
    pub fn resolve_input(
        &self,
        input_name: &str,
        input: &Input,
        step_name: &str,
        resolved_outputs: &OrderedMap<String>,
    ) -> (r: Result<String, AtentoError>)
        ensures
            text_outcome(r) == self.resolved_input(
                input_name@,
                *input,
                step_name@,
                resolved_outputs.model(),
            ),
    {
        match input {
            Input::Inline { .. } => match input.to_string_value() {
                Ok(text) => Ok(text),
                Err(e) => {
                    let reason = e.to_string();
                    Err(
                        AtentoError::Execution(
                            join6(
                                "Input '",
                                input_name,
                                "' in step '",
                                step_name,
                                "': ",
                                reason.as_str(),
                            ),
                        ),
                    )
                },
            },
            Input::Ref { ref_ } => {
                let name = match strip_prefix(ref_.as_str(), "parameters.") {
                    Some(name) => name,
                    None => ref_.clone(),
                };
                match self.parameters.get(name.as_str()) {
                    Some(parameter) => match parameter.to_string_value() {
                        Ok(text) => Ok(text),
                        Err(e) => {
                            let reason = e.to_string();
                            Err(
                                AtentoError::Execution(
                                    join6(
                                        "Parameter '",
                                        input_name,
                                        "' in step '",
                                        step_name,
                                        "': ",
                                        reason.as_str(),
                                    ),
                                ),
                            )
                        },
                    },
                    None => match resolved_outputs.text(ref_.as_str()) {
                        Some(text) => Ok(text.clone()),
                        None => Err(
                            AtentoError::UnresolvedReference {
                                reference: ref_.clone(),
                                context: join3("step '", step_name, "'"),
                            },
                        ),
                    },
                }
            },
        }
    }

    /// The seconds that the next step may take when `elapsed` seconds of the
    /// run have passed, or the timeout error where the budget is used up. A
    /// chain without a budget gives 0, which sets no limit.
    pub fn check_timeout(&self, elapsed: u64, step_name: &str) -> (r: Result<u64, AtentoError>)
        ensures
            match r {
                Ok(left) => budget(self.timeout, elapsed, step_name@) == Ok::<u64, ErrorModel>(
                    left,
                ),
                Err(e) => budget(self.timeout, elapsed, step_name@) == Err::<u64, ErrorModel>(e@),
            },
    {
        if self.timeout == 0 {
            return Ok(0);
        }
        if elapsed >= self.timeout {
            return Err(
                AtentoError::Timeout {
                    context: join3("Chain timed out before step '", step_name, "'"),
                    timeout_secs: self.timeout,
                },
            );
        }
        Ok(self.timeout - elapsed)
    }

    /// Resolves every input of `step`, in the order of the declarations. The
    /// first input that cannot be resolved ends it with its error.
    pub fn resolve_step_inputs(
        &self,
        step: &Step,
        step_name: &str,
        resolved_outputs: &OrderedMap<String>,
    ) -> (r: Result<OrderedMap<String>, AtentoError>)
        ensures
            match r {
                Ok(inputs) => self.resolved_inputs(
                    *step,
                    step_name@,
                    resolved_outputs.model(),
                    0,
                    TextMap::empty(),
                ) == Ok::<TextMap, ErrorModel>(inputs.model()),
                Err(e) => self.resolved_inputs(
                    *step,
                    step_name@,
                    resolved_outputs.model(),
                    0,
                    TextMap::empty(),
                ) == Err::<TextMap, ErrorModel>(e@),
            },
    {
        let mut inputs: OrderedMap<String> = OrderedMap::new();
        let n = step.inputs.len();
        let mut j: usize = 0;
        proof {
            step.inputs.lemma_same_length();
            assert(inputs.texts() =~= Seq::<Seq<char>>::empty());
        }
        while j < n
            invariant
                n == step.inputs.keys().len(),
                n == step.inputs.values().len(),
                0 <= j <= n,
                self.resolved_inputs(
                    *step,
                    step_name@,
                    resolved_outputs.model(),
                    0,
                    TextMap::empty(),
                ) == self.resolved_inputs(
                    *step,
                    step_name@,
                    resolved_outputs.model(),
                    j as int,
                    inputs.model(),
                ),
            decreases n - j,
        {
            let input_name = step.inputs.key_at(j);
            match self.resolve_input(
                input_name.as_str(),
                step.inputs.value_at(j),
                step_name,
                resolved_outputs,
            ) {
                Ok(text) => {
                    inputs.put(input_name.clone(), text);
                },
                Err(e) => {
                    return Err(e);
                },
            }
            j = j + 1;
        }
        Ok(inputs)
    }

    /// The interpreter that runs `step`.
    pub fn lookup_interpreter(&self, step: &Step, step_name: &str) -> (r: Result<
        &Interpreter,
        AtentoError,
    >)
        ensures
            match r {
                Ok(interpreter) => self.interpreter_of(*step, step_name@) == Ok::<
                    Interpreter,
                    ErrorModel,
                >(*interpreter),
                Err(e) => self.interpreter_of(*step, step_name@) == Err::<Interpreter, ErrorModel>(
                    e@,
                ),
            },
    {
        match self.interpreters.get(step.interpreter.as_str()) {
            Some(interpreter) => Ok(interpreter),
            None => Err(
                AtentoError::Validation(
                    join5(
                        "Unknown interpreter '",
                        step.interpreter.as_str(),
                        "' in step '",
                        step_name,
                        "'",
                    ),
                ),
            ),
        }
    }

    /// Records the outputs of a step under their keys, whether or not the
    /// step failed, and gives the error that the chain reports where it did.
    pub fn process_step_result(
        step_name: &str,
        step_result: &StepResult,
        resolved_outputs: &mut OrderedMap<String>,
    ) -> (r: Option<AtentoError>)
        ensures
            final(resolved_outputs).model() == recorded(
                old(resolved_outputs).model(),
                step_name@,
                step_result.outputs.model(),
                0,
            ),
            match r {
                Some(e) => step_failure(step_name@, *step_result) == Some(e@),
                None => step_failure(step_name@, *step_result).is_none(),
            },
    {
        let n = step_result.outputs.len();
        let mut k: usize = 0;
        proof {
            step_result.outputs.lemma_same_length();
        }
        while k < n
            invariant
                n == step_result.outputs.keys().len(),
                n == step_result.outputs.values().len(),
                0 <= k <= n,
                recorded(
                    old(resolved_outputs).model(),
                    step_name@,
                    step_result.outputs.model(),
                    0,
                ) == recorded(
                    resolved_outputs.model(),
                    step_name@,
                    step_result.outputs.model(),
                    k as int,
                ),
            decreases n - k,
        {
            let key = Self::make_output_key(step_name, step_result.outputs.key_at(k).as_str());
            resolved_outputs.put(key, step_result.outputs.value_at(k).clone());
            k = k + 1;
        }
        match &step_result.error {
            Some(e) => Some(
                AtentoError::StepExecution {
                    step: String::from_str(step_name),
                    reason: e.to_string(),
                },
            ),
            None => None,
        }
    }

    /// Resolves every result of the chain among the outputs known: the
    /// results that resolve, and an error for each that does not.
    pub fn collect_chain_results(&self, resolved_outputs: &OrderedMap<String>) -> (r: (OrderedMap<String>, Vec<AtentoError>))
        ensures
            r.0.model() == self.collected(resolved_outputs.model(), 0, Collected::nothing()).results,
            error_models(r.1@) == self.collected(
                resolved_outputs.model(),
                0,
                Collected::nothing(),
            ).errors,
            forall|k: int| 0 <= k < r.1@.len() ==> (#[trigger] r.1@[k]) is UnresolvedReference,
    {
        let mut results: OrderedMap<String> = OrderedMap::new();
        let mut errors: Vec<AtentoError> = Vec::new();
        let n = self.results.len();
        let mut k: usize = 0;
        proof {
            self.results.lemma_same_length();
            assert(results.texts() =~= Seq::<Seq<char>>::empty());
            assert(error_models(errors@) =~= Seq::<ErrorModel>::empty());
        }
        while k < n
            invariant
                n == self.results.keys().len(),
                n == self.results.values().len(),
                0 <= k <= n,
                forall|q: int| 0 <= q < errors@.len() ==> (#[trigger] errors@[q]) is UnresolvedReference,
                self.collected(resolved_outputs.model(), 0, Collected::nothing())
                    == self.collected(
                    resolved_outputs.model(),
                    k as int,
                    (Collected { results: results.model(), errors: error_models(errors@) }),
                ),
            decreases n - k,
        {
            let name = self.results.key_at(k);
            let reference = &self.results.value_at(k).ref_;
            match resolved_outputs.text(reference.as_str()) {
                Some(text) => {
                    results.put(name.clone(), text.clone());
                },
                None => {
                    let ghost before = error_models(errors@);
                    let error = AtentoError::UnresolvedReference {
                        reference: reference.clone(),
                        context: join3("Unresolved Reference '", name.as_str(), "'"),
                    };
                    errors.push(error);
                    assert(error_models(errors@) =~= before.push(error@));
                },
            }
            k = k + 1;
        }
        (results, errors)
    }

    /// The parameters as text, for the result of a run: nothing for a chain
    /// without parameters; all of them where each converts; and nothing but
    /// the first conversion error where one does not.
    pub fn serialize_parameters(&self) -> (r: (Option<OrderedMap<String>>, Vec<AtentoError>))
        ensures
            optional_model(r.0) == self.shown_parameters(),
            error_models(r.1@) == self.parameter_errors(),
            forall|k: int| 0 <= k < r.1@.len() ==> (#[trigger] r.1@[k]) is TypeConversion,
    {
        let mut errors: Vec<AtentoError> = Vec::new();
        assert(error_models(errors@) =~= Seq::<ErrorModel>::empty());
        if self.parameters.is_empty() {
            return (None, errors);
        }
        let mut texts: OrderedMap<String> = OrderedMap::new();
        let n = self.parameters.len();
        let mut k: usize = 0;
        proof {
            self.parameters.lemma_same_length();
            assert(texts.texts() =~= Seq::<Seq<char>>::empty());
        }
        while k < n
            invariant
                n == self.parameters.keys().len(),
                n == self.parameters.values().len(),
                n > 0,
                0 <= k <= n,
                errors@.len() == 0,
                self.parameter_texts(0, TextMap::empty()) == self.parameter_texts(
                    k as int,
                    texts.model(),
                ),
            decreases n - k,
        {
            match self.parameters.value_at(k).to_string_value() {
                Ok(text) => {
                    texts.put(self.parameters.key_at(k).clone(), text);
                },
                Err(e) => {
                    errors.push(e);
                    assert(error_models(errors@) =~= seq![e@]);
                    return (None, errors);
                },
            }
            k = k + 1;
        }
        assert(error_models(errors@) =~= Seq::<ErrorModel>::empty());
        (Some(texts), errors)
    }

    /// The run after the step at position `i` is taken up. The run stops
    /// with an error where the time budget is used up, where an input cannot
    /// be resolved, or where the registry has no interpreter for the step.
    /// Else the step runs: its outputs become known, its record is kept, and
    /// where the record holds an error the run stops with a step error.
    pub open spec fn after_step(&self, i: int, before: Progress, event: Event) -> Progress {
        let name = self.steps.keys()[i];
        let step = self.steps.values()[i];
        match budget(self.timeout, event.elapsed, name) {
            Err(error) => before.halt(error),
            Ok(time_left) => match self.resolved_inputs(
                step,
                name,
                before.known,
                0,
                TextMap::empty(),
            ) {
                Err(error) => before.halt(error),
                Ok(inputs) => match self.interpreter_of(step, name) {
                    Err(error) => before.halt(error),
                    Ok(interpreter) => {
                        let record = step.concluded(event.outcome, inputs, event.duration_ms);
                        Progress {
                            known: recorded(before.known, name, record.outputs, 0),
                            steps: before.steps.put(name, record),
                            errors: match record.error {
                                Some(error) => before.errors.push(
                                    ErrorModel::StepExecution {
                                        step: name,
                                        reason: error.message(),
                                    },
                                ),
                                None => before.errors,
                            },
                            halted: record.error.is_some(),
                        }
                    },
                },
            },
        }
    }

    /// The run after its first `k` steps: each step is taken up in its turn,
    /// with the event at its position, until the run stops.
    pub open spec fn progress(&self, k: int, events: Seq<Event>) -> Progress
        decreases k,
    {
        if k <= 0 {
            Progress::start()
        } else {
            let before = self.progress(k - 1, events);
            if before.halted {
                before
            } else {
                self.after_step(k - 1, before, events[k - 1])
            }
        }
    }

    /// The result of a run that came as far as `end` and took `duration_ms`
    /// milliseconds. The results of the chain are resolved among the outputs
    /// known and the parameters are converted; the errors of both follow
    /// those of the run, in this order. The status is `ok` exactly where
    /// there is no error.
    pub open spec fn finished(&self, end: Progress, duration_ms: u128) -> ChainRecord {
        let gathered = self.collected(end.known, 0, Collected::nothing());
        let errors = end.errors + gathered.errors + self.parameter_errors();
        ChainRecord {
            name: optional_text(self.name),
            duration_ms,
            parameters: self.shown_parameters(),
            steps: if end.steps.keys.len() == 0 {
                None
            } else {
                Some(end.steps)
            },
            results: shown(gathered.results),
            errors,
            status: status_text(errors.len()),
        }
    }

    /// What the executor is handed for the step at position `i` when
    /// `elapsed` seconds have passed, or nothing where the step does not run.
    pub open spec fn handed(&self, i: int, before: Progress, elapsed: u64) -> Option<Handed> {
        let name = self.steps.keys()[i];
        let step = self.steps.values()[i];
        match budget(self.timeout, elapsed, name) {
            Err(error) => None,
            Ok(time_left) => match self.resolved_inputs(
                step,
                name,
                before.known,
                0,
                TextMap::empty(),
            ) {
                Err(error) => None,
                Ok(inputs) => match self.interpreter_of(step, name) {
                    Err(error) => None,
                    Ok(interpreter) => Some(
                        Handed {
                            script: built_script(step.script@, inputs.keys, inputs.values),
                            interpreter,
                            timeout: effective_timeout(step.timeout, time_left),
                        },
                    ),
                },
            },
        }
    }

    /// Whether the event at position `i` holds what `executor` reported for
    /// the step at that position, where the step ran: the executor was
    /// called with what `handed` gives, and the event holds what it returned.
    pub open spec fn answered<E: CommandExecutor>(
        &self,
        executor: &E,
        i: int,
        events: Seq<Event>,
    ) -> bool {
        let before = self.progress(i, events);
        !before.halted ==> match self.handed(i, before, events[i].elapsed) {
            None => true,
            Some(h) => exists|script: &str, outcome: Result<ExecutionResult, AtentoError>|
                {
                    &&& script@ == h.script
                    &&& call_ensures(
                        E::execute,
                        (executor, script, &h.interpreter, h.timeout),
                        outcome,
                    )
                    &&& outcome_model(outcome) == events[i].outcome
                },
        }
    }

    /// A run that has stopped stays as it is.
    pub proof fn lemma_halted_stays(&self, k: int, later: int, events: Seq<Event>)
        requires
            0 <= k <= later,
            self.progress(k, events).halted,
        ensures
            self.progress(later, events) == self.progress(k, events),
        decreases later - k,
    {
        if k < later {
            self.lemma_halted_stays(k, later - 1, events);
        }
    }

    /// The run after `k` steps depends on the first `k` events only.
    pub proof fn lemma_same_events(&self, k: int, events: Seq<Event>, others: Seq<Event>)
        requires
            forall|j: int| 0 <= j < k ==> events[j] == others[j],
        ensures
            self.progress(k, events) == self.progress(k, others),
        decreases k,
    {
        if k > 0 {
            self.lemma_same_events(k - 1, events, others);
        }
    }

    fn name_copy(&self) -> (n: Option<String>)
        ensures
            n == self.name,
    {
        match &self.name {
            Some(name) => Some(name.clone()),
            None => None,
        }
    }

    /// The result of a run that took `duration_ms` milliseconds, at whose end
    /// the outputs `resolved_outputs` were known, the steps had left the
    /// records `step_results` and the errors `errors` had arisen.
    pub fn conclude(
        &self,
        resolved_outputs: &OrderedMap<String>,
        step_results: OrderedMap<StepResult>,
        errors: Vec<AtentoError>,
        duration_ms: u128,
    ) -> (r: ChainResult)
        ensures
            r@ == self.finished(
                (Progress {
                    known: resolved_outputs.model(),
                    steps: records_model(step_results),
                    errors: error_models(errors@),
                    halted: false,
                }),
                duration_ms,
            ),
            r.errors@.len() >= errors@.len(),
            forall|k: int| 0 <= k < errors@.len() ==> (#[trigger] r.errors@[k]) == errors@[k],
            forall|k: int|
                errors@.len() <= k < r.errors@.len() ==> !((#[trigger] r.errors@[k]) is Timeout),
    {
        let mut all = errors;
        let (results, mut result_errors) = self.collect_chain_results(resolved_outputs);
        let (parameters, mut parameter_errors) = self.serialize_parameters();
        let ghost first = all@;
        let ghost second = result_errors@;
        let ghost third = parameter_errors@;
        all.append(&mut result_errors);
        all.append(&mut parameter_errors);
        proof {
            assert(all@ =~= first + second + third);
            assert(error_models(all@) =~= error_models(first) + error_models(second)
                + error_models(third));
            assert forall|k: int| first.len() <= k < all@.len() implies !((
            #[trigger] all@[k]) is Timeout) by {
                if k < first.len() + second.len() {
                    assert(all@[k] == second[k - first.len()]);
                } else {
                    assert(all@[k] == third[k - first.len() - second.len()]);
                }
            }
            step_results.lemma_same_length();
        }
        let status = if all.len() == 0 {
            String::from_str("ok")
        } else {
            String::from_str("nok")
        };
        ChainResult {
            name: self.name_copy(),
            duration_ms,
            parameters,
            steps: if step_results.is_empty() {
                None
            } else {
                Some(step_results)
            },
            results: if results.is_empty() {
                None
            } else {
                Some(results)
            },
            errors: all,
            status,
        }
    }

    /// Runs the steps in the order of their declaration, each with its inputs
    /// resolved from the parameters and from the outputs of the steps before
    /// it, and stops at the first step that cannot run or that fails. Then the
    /// results are resolved and the parameters converted.
    ///
    /// The result is the one that `finished` gives for the run that
    /// `progress` describes, for the times that the clock showed and for what
    /// the executor reported for each step that ran. Whatever these were, a
    /// chain without a time budget reports no timeout of its own.
    pub fn run_with_executor<E: CommandExecutor>(&self, executor: &E) -> (r: ChainResult)
        ensures
            exists|events: Seq<Event>|
                {
                    &&& r@ == self.finished(
                        self.progress(self.steps.keys().len() as int, events),
                        r.duration_ms,
                    )
                    &&& forall|i: int|
                        0 <= i < self.steps.keys().len() ==> #[trigger] self.answered(
                            executor,
                            i,
                            events,
                        )
                },
            r.status@ == status_text(r.errors@.len()),
            self.timeout == 0 ==> forall|k: int|
                0 <= k < r.errors@.len() ==> !((#[trigger] r.errors@[k]) is Timeout),
    {
        let start = Instant::now();
        let mut resolved_outputs: OrderedMap<String> = OrderedMap::new();
        let mut step_results: OrderedMap<StepResult> = OrderedMap::new();
        let mut errors: Vec<AtentoError> = Vec::new();
        let n = self.steps.len();
        let mut i: usize = 0;
        let mut halted = false;
        let mut events: Ghost<Seq<Event>> = Ghost(Seq::empty());
        self.steps.keys_are_distinct();
        proof {
            assert(resolved_outputs.texts() =~= Seq::<Seq<char>>::empty());
            assert(records_model(step_results).values =~= Seq::<StepRecord>::empty());
            assert(error_models(errors@) =~= Seq::<ErrorModel>::empty());
            assert(step_results.keys() =~= self.steps.keys().subrange(0, 0));
        }
        while i < n && !halted
            invariant
                n == self.steps.keys().len(),
                n == self.steps.values().len(),
                distinct_keys(self.steps.keys()),
                0 <= i <= n,
                events@.len() == i,
                self.progress(i as int, events@) == (Progress {
                    known: resolved_outputs.model(),
                    steps: records_model(step_results),
                    errors: error_models(errors@),
                    halted,
                }),
                forall|j: int| 0 <= j < i ==> #[trigger] self.answered(executor, j, events@),
                !halted ==> step_results.keys() == self.steps.keys().subrange(0, i as int),
                self.timeout == 0 ==> forall|k: int|
                    0 <= k < errors@.len() ==> !((#[trigger] errors@[k]) is Timeout),
            decreases n - i,
        {
            let step_name = self.steps.key_at(i);
            let step = self.steps.value_at(i);
            let elapsed = start.elapsed().as_secs();
            let ghost before = self.progress(i as int, events@);
            let ghost earlier = error_models(errors@);
            let ghost idle = Event {
                elapsed,
                outcome: Err(ErrorModel::Runner(Seq::empty())),
                duration_ms: 0,
            };
            let ghost mut event = idle;
            match self.check_timeout(elapsed, step_name.as_str()) {
                Err(e) => {
                    errors.push(e);
                    halted = true;
                    assert(error_models(errors@) =~= earlier.push(e@));
                },
                Ok(time_left) => match self.resolve_step_inputs(
                    step,
                    step_name.as_str(),
                    &resolved_outputs,
                ) {
                    Err(e) => {
                        proof {
                            self.lemma_resolution_errors(
                                *step,
                                step_name@,
                                resolved_outputs.model(),
                                0,
                                TextMap::empty(),
                            );
                        }
                        errors.push(e);
                        halted = true;
                        assert(error_models(errors@) =~= earlier.push(e@));
                    },
                    Ok(inputs) => match self.lookup_interpreter(step, step_name.as_str()) {
                        Err(e) => {
                            errors.push(e);
                            halted = true;
                            assert(error_models(errors@) =~= earlier.push(e@));
                        },
                        Ok(interpreter) => {
                            let step_result = step.run(executor, &inputs, time_left, interpreter);
                            let ghost record = step_result@;
                            proof {
                                let (script, outcome) = choose|
                                    script: &str,
                                    outcome: Result<ExecutionResult, AtentoError>,
                                |
                                    {
                                        &&& script@ == built_script(
                                            step.script@,
                                            inputs.keys(),
                                            inputs.texts(),
                                        )
                                        &&& call_ensures(
                                            E::execute,
                                            (
                                                executor,
                                                script,
                                                interpreter,
                                                effective_timeout(step.timeout, time_left),
                                            ),
                                            outcome,
                                        )
                                        &&& step_result@ == step.concluded(
                                            outcome_model(outcome),
                                            inputs.model(),
                                            step_result.duration_ms,
                                        )
                                    };
                                event = Event {
                                    elapsed,
                                    outcome: outcome_model(outcome),
                                    duration_ms: step_result.duration_ms,
                                };
                            }
                            let failure = Self::process_step_result(
                                step_name.as_str(),
                                &step_result,
                                &mut resolved_outputs,
                            );
                            let ghost held = step_results;
                            proof {
                                held.lemma_same_length();
                                if held.has(step_name@) {
                                    let j = choose|j: int|
                                        0 <= j < held.keys().len() && held.keys()[j] == step_name@;
                                    assert(self.steps.keys()[j] == self.steps.keys()[i as int]);
                                }
                            }
                            step_results.insert(step_name.clone(), step_result);
                            proof {
                                step_results.lemma_same_length();
                                assert(step_results.keys() =~= self.steps.keys().subrange(
                                    0,
                                    i + 1,
                                ));
                                assert(records_model(step_results).values =~= records_model(
                                    held,
                                ).values.push(record));
                            }
                            match failure {
                                Some(e) => {
                                    errors.push(e);
                                    halted = true;
                                    assert(error_models(errors@) =~= earlier.push(e@));
                                },
                                None => {},
                            }
                        },
                    },
                },
            }
            proof {
                let extended = events@.push(event);
                self.lemma_same_events(i as int, events@, extended);
                assert(extended[i as int] == event);
                assert(self.progress(i + 1, extended) == self.after_step(
                    i as int,
                    before,
                    event,
                ));
                assert(self.answered(executor, i as int, extended));
                assert forall|j: int| 0 <= j < i implies #[trigger] self.answered(
                    executor,
                    j,
                    extended,
                ) by {
                    self.lemma_same_events(j, events@, extended);
                    assert(self.answered(executor, j, events@));
                    assert(extended[j] == events@[j]);
                }
                events@ = extended;
            }
            i = i + 1;
        }
        let duration_ms = start.elapsed().as_millis();
        let ghost arisen = errors@;
        proof {
            if halted {
                self.lemma_halted_stays(i as int, n as int, events@);
                assert forall|j: int| i <= j < n implies #[trigger] self.answered(
                    executor,
                    j,
                    events@,
                ) by {
                    self.lemma_halted_stays(i as int, j, events@);
                }
            }
        }
        let r = self.conclude(&resolved_outputs, step_results, errors, duration_ms);
        proof {
            if self.timeout == 0 {
                assert forall|k: int| 0 <= k < r.errors@.len() implies !((
                #[trigger] r.errors@[k]) is Timeout) by {
                    if k < arisen.len() {
                        assert(r.errors@[k] == arisen[k]);
                    }
                }
            }
        }
        r
    }

    /// An error of resolving the inputs of a step is an execution error or an
    /// unresolved reference.
    pub proof fn lemma_resolution_errors(
        &self,
        step: Step,
        step_name: Seq<char>,
        known: TextMap,
        from: int,
        so_far: TextMap,
    )
        ensures
            match self.resolved_inputs(step, step_name, known, from, so_far) {
                Err(e) => e is Execution || e is UnresolvedReference,
                Ok(_) => true,
            },
        decreases step.inputs.keys().len() - from,
    {
        if 0 <= from < step.inputs.keys().len() {
            match self.resolved_input(
                step.inputs.keys()[from],
                step.inputs.values()[from],
                step_name,
                known,
            ) {
                Err(e) => {},
                Ok(text) => {
                    self.lemma_resolution_errors(
                        step,
                        step_name,
                        known,
                        from + 1,
                        so_far.put(step.inputs.keys()[from], text),
                    );
                },
            }
        }
    }
}

} // verus!
