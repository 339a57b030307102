//! What holds of every chain: of its validation and of its run.

use vstd::prelude::*;
use crate::chain::{output_key, parameter_key, step_context, Chain};
use crate::run::{budget, unresolved_result_context, Collected, Event, Progress};
use crate::validation::{declared_in, declares, future_message, names_parameter};
use crate::ordered_map::{distinct_keys, TextMap};
use crate::errors::{AtentoError, ErrorModel};
use crate::input::Input;
use crate::step::{unit_outcome, Step};
use crate::text::contains_text;

verus! {

/// Validation is a function of the chain: two validations of one chain end
/// alike.
pub proof fn lemma_validate_twice(
    chain: Chain,
    first: Result<(), AtentoError>,
    second: Result<(), AtentoError>,
)
    requires
        unit_outcome(first) == chain.validation(),
        unit_outcome(second) == chain.validation(),
    ensures
        unit_outcome(first) == unit_outcome(second),
        first.is_ok() == second.is_ok(),
{
}

/// Validation of a step is a function of the step and of the name it is
/// given: two validations end alike.
pub proof fn lemma_validate_step_twice(
    step: Step,
    id: Seq<char>,
    first: Result<(), AtentoError>,
    second: Result<(), AtentoError>,
)
    requires
        unit_outcome(first) == step.validation(id),
        unit_outcome(second) == step.validation(id),
    ensures
        unit_outcome(first) == unit_outcome(second),
        first.is_ok() == second.is_ok(),
{
}

/// The key of an output is the key of no parameter.
pub proof fn lemma_output_key_is_no_parameter(
    step: Seq<char>,
    output: Seq<char>,
    parameter: Seq<char>,
)
    ensures
        output_key(step, output) != parameter_key(parameter),
{
    reveal_strlit("steps.");
    reveal_strlit("parameters.");
    assert(output_key(step, output)[0] == 's');
    assert(parameter_key(parameter)[0] == 'p');
}

/// The message for a reference to a later step says `future step output`.
pub proof fn lemma_future_message_says_so(
    input: Seq<char>,
    step: Seq<char>,
    reference: Seq<char>,
)
    ensures
        contains_text(future_message(input, step, reference), "future step output"@),
{
    reveal_strlit("', which is a future step output");
    reveal_strlit("future step output");
    let message = future_message(input, step, reference);
    let tail = "', which is a future step output"@;
    let needle = "future step output"@;
    let k = message.len() - needle.len();
    assert(message.subrange(k, k + needle.len()) =~= needle) by {
        assert forall|q: int| 0 <= q < needle.len() implies message[k + q] == needle[q] by {
            assert(message[k + q] == tail[q + 14]);
        }
    }
}

/// Steps without a fault are passed over.
pub proof fn lemma_sound_steps_are_passed(chain: Chain, from: int, i: int)
    requires
        0 <= from <= i <= chain.steps.keys().len(),
        forall|k: int| from <= k < i ==> chain.step_fault(k).is_none(),
    ensures
        chain.first_step_fault(from) == chain.first_step_fault(i),
    decreases i - from,
{
    if from < i {
        lemma_sound_steps_are_passed(chain, from + 1, i);
    }
}

/// Inputs without a fault are passed over.
pub proof fn lemma_sound_inputs_are_passed(chain: Chain, i: int, from: int, j: int)
    requires
        0 <= from <= j <= chain.steps.values()[i].inputs.keys().len(),
        forall|m: int| from <= m < j ==> chain.input_fault(i, m).is_none(),
    ensures
        chain.first_input_fault(i, from) == chain.first_input_fault(i, j),
    decreases j - from,
{
    if from < j {
        lemma_sound_inputs_are_passed(chain, i, from + 1, j);
    }
}

/// Whether the input at position `j` of the step at position `i` is the first
/// input of the chain that could have a fault: the steps before that step
/// have none, nor have the inputs before it in that step.
pub open spec fn first_candidate(chain: Chain, i: int, j: int) -> bool {
    &&& 0 <= i < chain.steps.keys().len()
    &&& 0 <= j < chain.steps.values()[i].inputs.keys().len()
    &&& forall|k: int| 0 <= k < i ==> chain.step_fault(k).is_none()
    &&& forall|m: int| 0 <= m < j ==> chain.input_fault(i, m).is_none()
}

/// An input that refers to an output which only a later step declares fails
/// validation, with a message that says `future step output`.
pub proof fn lemma_forward_reference(chain: Chain, i: int, j: int, reference: Seq<char>)
    requires
        first_candidate(chain, i, j),
        chain.steps.values()[i].inputs.values()[j] matches Input::Ref { ref_ } && ref_@
            == reference,
        declared_in(
            chain.steps.keys(),
            chain.steps.values(),
            i + 1,
            chain.steps.keys().len() as int,
            reference,
        ),
        !declared_in(chain.steps.keys(), chain.steps.values(), 0, i, reference),
    ensures
        chain.validation() == Err::<(), ErrorModel>(
            ErrorModel::Validation(
                future_message(
                    chain.steps.values()[i].inputs.keys()[j],
                    chain.steps.keys()[i],
                    reference,
                ),
            ),
        ),
        contains_text(
            future_message(
                chain.steps.values()[i].inputs.keys()[j],
                chain.steps.keys()[i],
                reference,
            ),
            "future step output"@,
        ),
{
    let names = chain.steps.keys();
    let steps = chain.steps.values();
    let later = choose|k: int|
        i + 1 <= k < names.len() && 0 <= k < names.len() && k < steps.len() && declares(
            #[trigger] names[k],
            steps[k],
            reference,
        );
    let o = choose|o: int|
        0 <= o < steps[later].outputs.keys().len() && output_key(
            names[later],
            #[trigger] steps[later].outputs.keys()[o],
        ) == reference;
    assert(!names_parameter(chain.parameters.keys(), reference)) by {
        assert forall|p: int| 0 <= p < chain.parameters.keys().len() implies parameter_key(
            #[trigger] chain.parameters.keys()[p],
        ) != reference by {
            lemma_output_key_is_no_parameter(
                names[later],
                steps[later].outputs.keys()[o],
                chain.parameters.keys()[p],
            );
        }
    }
    lemma_sound_inputs_are_passed(chain, i, 0, j);
    lemma_sound_steps_are_passed(chain, 0, i);
    lemma_future_message_says_so(steps[i].inputs.keys()[j], names[i], reference);
}

/// An input that refers to what is neither a parameter nor an output of any
/// step fails validation as an unresolved reference.
pub proof fn lemma_missing_reference(chain: Chain, i: int, j: int, reference: Seq<char>)
    requires
        first_candidate(chain, i, j),
        chain.steps.values()[i].inputs.values()[j] matches Input::Ref { ref_ } && ref_@
            == reference,
        !names_parameter(chain.parameters.keys(), reference),
        !declared_in(
            chain.steps.keys(),
            chain.steps.values(),
            0,
            chain.steps.keys().len() as int,
            reference,
        ),
    ensures
        chain.validation() == Err::<(), ErrorModel>(
            ErrorModel::UnresolvedReference {
                reference,
                context: step_context(chain.steps.keys()[i]),
            },
        ),
{
    let names = chain.steps.keys();
    let steps = chain.steps.values();
    assert(!declared_in(names, steps, 0, i, reference));
    assert(!declared_in(names, steps, i + 1, names.len() as int, reference));
    lemma_sound_inputs_are_passed(chain, i, 0, j);
    lemma_sound_steps_are_passed(chain, 0, i);
}

/// Every error of resolving the results of a chain is an unresolved
/// reference, where those so far are.
pub proof fn lemma_collected_errors(chain: Chain, known: TextMap, from: int, so_far: Collected)
    requires
        forall|j: int|
            0 <= j < so_far.errors.len() ==> (#[trigger] so_far.errors[j]) is UnresolvedReference,
    ensures
        forall|j: int|
            0 <= j < chain.collected(known, from, so_far).errors.len() ==> (
            #[trigger] chain.collected(known, from, so_far).errors[j]) is UnresolvedReference,
    decreases chain.results.keys().len() - from,
{
    if 0 <= from < chain.results.keys().len() {
        match known.get(chain.results.values()[from].ref_@) {
            Some(text) => {
                lemma_collected_errors(
                    chain,
                    known,
                    from + 1,
                    Collected {
                        results: so_far.results.put(chain.results.keys()[from], text),
                        errors: so_far.errors,
                    },
                );
            },
            None => {
                let error = ErrorModel::UnresolvedReference {
                    reference: chain.results.values()[from].ref_@,
                    context: unresolved_result_context(chain.results.keys()[from]),
                };
                lemma_collected_errors(
                    chain,
                    known,
                    from + 1,
                    Collected { results: so_far.results, errors: so_far.errors.push(error) },
                );
            },
        }
    }
}

/// An error of converting the parameters of a chain is a conversion error.
pub proof fn lemma_parameter_error(chain: Chain, from: int, so_far: TextMap)
    ensures
        match chain.parameter_texts(from, so_far) {
            Err(e) => e is TypeConversion,
            Ok(_) => true,
        },
    decreases chain.parameters.keys().len() - from,
{
    if 0 <= from < chain.parameters.keys().len() {
        let parameter = chain.parameters.values()[from];
        match crate::data_type::conversion(parameter.type_, parameter.value@) {
            Err(e) => {},
            Ok(text) => {
                lemma_parameter_error(
                    chain,
                    from + 1,
                    so_far.put(chain.parameters.keys()[from], text),
                );
            },
        }
    }
}

/// While a run goes on it has no error; once it has stopped it has one.
pub proof fn lemma_one_error_stops_the_run(chain: Chain, k: int, events: Seq<Event>)
    ensures
        chain.progress(k, events).halted <==> chain.progress(k, events).errors.len() == 1,
        !chain.progress(k, events).halted <==> chain.progress(k, events).errors.len() == 0,
    decreases k,
{
    if k > 0 {
        lemma_one_error_stops_the_run(chain, k - 1, events);
    }
}

/// Steps run in the order of their declaration, and a step that fails is
/// the last to run: the records of a run are those of the first steps of the
/// chain, under their names and in their order, and none but the last holds
/// an error.
pub proof fn lemma_records_are_in_order(chain: Chain, k: int, events: Seq<Event>)
    requires
        0 <= k <= chain.steps.keys().len(),
        distinct_keys(chain.steps.keys()),
    ensures
        ({
            let run = chain.progress(k, events);
            let count = run.steps.keys.len() as int;
            &&& count <= k
            &&& !run.halted ==> count == k
            &&& run.steps.values.len() == count
            &&& run.steps.keys == chain.steps.keys().subrange(0, count)
            &&& forall|j: int| 0 <= j < count - 1 ==> (#[trigger] run.steps.values[j]).error.is_none()
            &&& !run.halted ==> forall|j: int|
                0 <= j < count ==> (#[trigger] run.steps.values[j]).error.is_none()
        }),
    decreases k,
{
    if k > 0 {
        lemma_records_are_in_order(chain, k - 1, events);
        let before = chain.progress(k - 1, events);
        if !before.halted {
            let name = chain.steps.keys()[k - 1];
            let after = chain.after_step(k - 1, before, events[k - 1]);
            if after.steps != before.steps {
                assert(!before.steps.keys.contains(name)) by {
                    if before.steps.keys.contains(name) {
                        let j = choose|j: int|
                            0 <= j < before.steps.keys.len() && before.steps.keys[j] == name;
                        assert(chain.steps.keys()[j] == chain.steps.keys()[k - 1]);
                    }
                }
                assert(after.steps.keys =~= chain.steps.keys().subrange(0, k));
            }
        }
    }
}

/// A run of a chain without a time budget has no timeout among its errors,
/// whatever the clock shows and whatever the executor reports.
pub proof fn lemma_no_budget_no_timeout(chain: Chain, k: int, events: Seq<Event>)
    requires
        chain.timeout == 0,
    ensures
        forall|j: int|
            0 <= j < chain.progress(k, events).errors.len() ==> !((
            #[trigger] chain.progress(k, events).errors[j]) is Timeout),
    decreases k,
{
    if k > 0 {
        lemma_no_budget_no_timeout(chain, k - 1, events);
        let before = chain.progress(k - 1, events);
        if !before.halted {
            let name = chain.steps.keys()[k - 1];
            let step = chain.steps.values()[k - 1];
            assert(budget(chain.timeout, events[k - 1].elapsed, name) is Ok);
            chain.lemma_resolution_errors(step, name, before.known, 0, TextMap::empty());
        }
    }
}

/// The result of a run of a chain without a time budget holds no timeout
/// error, whatever the clock shows and whatever the executor reports.
pub proof fn lemma_result_without_timeout(
    chain: Chain,
    events: Seq<Event>,
    duration_ms: u128,
)
    requires
        chain.timeout == 0,
    ensures
        ({
            let result = chain.finished(
                chain.progress(chain.steps.keys().len() as int, events),
                duration_ms,
            );
            forall|j: int| 0 <= j < result.errors.len() ==> !((#[trigger] result.errors[j]) is Timeout)
        }),
{
    let end = chain.progress(chain.steps.keys().len() as int, events);
    let result = chain.finished(end, duration_ms);
    lemma_no_budget_no_timeout(chain, chain.steps.keys().len() as int, events);
    lemma_collected_errors(chain, end.known, 0, Collected::nothing());
    lemma_parameter_error(chain, 0, TextMap::empty());
    let gathered = chain.collected(end.known, 0, Collected::nothing());
    assert forall|j: int| 0 <= j < result.errors.len() implies !((
    #[trigger] result.errors[j]) is Timeout) by {
        if j < end.errors.len() {
            assert(result.errors[j] == end.errors[j]);
        } else if j < end.errors.len() + gathered.errors.len() {
            assert(result.errors[j] == gathered.errors[j - end.errors.len()]);
        } else {
            assert(result.errors[j] == chain.parameter_errors()[j - end.errors.len()
                - gathered.errors.len()]);
        }
    }
}

/// The status of a result is `ok` exactly where it holds no error.
pub proof fn lemma_status_tells_of_errors(chain: Chain, end: Progress, duration_ms: u128)
    ensures
        chain.finished(end, duration_ms).status == "ok"@ <==> chain.finished(
            end,
            duration_ms,
        ).errors.len() == 0,
        chain.finished(end, duration_ms).status == "nok"@ <==> chain.finished(
            end,
            duration_ms,
        ).errors.len() > 0,
{
    reveal_strlit("ok");
    reveal_strlit("nok");
    assert("ok"@.len() != "nok"@.len());
}

} // verus!
