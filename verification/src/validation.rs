//! The validation of a chain: every reference of an input must lead to a
//! parameter or to an output of an earlier step, every step must be sound by
//! itself, and every result must lead to an output of some step.

use vstd::prelude::*;
use vstd::string::*;
use crate::chain::{output_key, parameter_key, step_context, Chain};
use crate::errors::{AtentoError, ErrorModel};
use crate::input::Input;
use crate::step::{unit_outcome, Step};
use crate::text::{is_blank, join2, join3, join5, join7, same_text};

verus! {

/// Whether `reference` is the key of a parameter among `names`.
pub open spec fn names_parameter(names: Seq<Seq<char>>, reference: Seq<char>) -> bool {
    exists|p: int| 0 <= p < names.len() && parameter_key(#[trigger] names[p]) == reference
}

/// Whether `reference` is the key of an output that the step declares.
pub open spec fn declares(name: Seq<char>, step: Step, reference: Seq<char>) -> bool {
    exists|o: int|
        0 <= o < step.outputs.keys().len() && output_key(name, #[trigger] step.outputs.keys()[o])
            == reference
}

/// Whether `reference` is the key of an output that one of the steps at the
/// positions from `lo` up to, not including, `hi` declares.
pub open spec fn declared_in(
    names: Seq<Seq<char>>,
    steps: Seq<Step>,
    lo: int,
    hi: int,
    reference: Seq<char>,
) -> bool {
    exists|j: int|
        lo <= j < hi && 0 <= j < names.len() && j < steps.len() && declares(
            #[trigger] names[j],
            steps[j],
            reference,
        )
}

/// The message for an input that refers to an output of a later step.
pub open spec fn future_message(input: Seq<char>, step: Seq<char>, reference: Seq<char>) -> Seq<
    char,
> {
    "Input '"@ + input + "' in step '"@ + step + "' references '"@ + reference
        + "', which is a future step output"@
}

/// How an error names the chain result in which a reference stands.
pub open spec fn result_context(result: Seq<char>) -> Seq<char> {
    "chain result '"@ + result + "'"@
}

/// The message for an output with an empty pattern.
pub open spec fn empty_pattern_message(output: Seq<char>, step: Seq<char>) -> Seq<char> {
    "Output '"@ + output + "' in step '"@ + step + "' has empty capture pattern"@
}

impl Chain {
    /// The fault of the input at position `j` of the step at position `i`. A
    /// reference is sound where it is the key of a parameter or of an output
    /// of an earlier step. One to an output of a later step is a validation
    /// error; one to nothing at all is unresolved.
    pub open spec fn input_fault(&self, i: int, j: int) -> Option<ErrorModel> {
        let names = self.steps.keys();
        let steps = self.steps.values();
        match steps[i].inputs.values()[j] {
            Input::Inline { .. } => None,
            Input::Ref { ref_ } => if names_parameter(self.parameters.keys(), ref_@)
                || declared_in(names, steps, 0, i, ref_@) {
                None
            } else if declared_in(names, steps, i + 1, names.len() as int, ref_@) {
                Some(
                    ErrorModel::Validation(
                        future_message(steps[i].inputs.keys()[j], names[i], ref_@),
                    ),
                )
            } else {
                Some(
                    ErrorModel::UnresolvedReference {
                        reference: ref_@,
                        context: step_context(names[i]),
                    },
                )
            },
        }
    }

    /// The fault of the first input, at or after position `from`, of the step
    /// at position `i`.
    pub open spec fn first_input_fault(&self, i: int, from: int) -> Option<ErrorModel>
        decreases self.steps.values()[i].inputs.keys().len() - from,
    {
        if from < 0 || from >= self.steps.values()[i].inputs.keys().len() {
            None
        } else {
            match self.input_fault(i, from) {
                Some(e) => Some(e),
                None => self.first_input_fault(i, from + 1),
            }
        }
    }

    /// The fault of the first output, at or after position `from`, of the
    /// step at position `i`, whose pattern is empty.
    pub open spec fn first_empty_pattern(&self, i: int, from: int) -> Option<ErrorModel>
        decreases self.steps.values()[i].outputs.keys().len() - from,
    {
        let step = self.steps.values()[i];
        if from < 0 || from >= step.outputs.keys().len() {
            None
        } else if step.outputs.values()[from].pattern@.len() == 0 {
            Some(
                ErrorModel::Validation(
                    empty_pattern_message(step.outputs.keys()[from], self.steps.keys()[i]),
                ),
            )
        } else {
            self.first_empty_pattern(i, from + 1)
        }
    }

    /// The fault of the step at position `i`: that of its first faulty
    /// input, else that of the step taken by itself, else that of its first
    /// empty pattern.
    pub open spec fn step_fault(&self, i: int) -> Option<ErrorModel> {
        match self.first_input_fault(i, 0) {
            Some(e) => Some(e),
            None => match self.steps.values()[i].validation(self.steps.keys()[i]) {
                Err(e) => Some(e),
                Ok(()) => self.first_empty_pattern(i, 0),
            },
        }
    }

    /// The fault of the first faulty step at or after position `from`.
    pub open spec fn first_step_fault(&self, from: int) -> Option<ErrorModel>
        decreases self.steps.keys().len() - from,
    {
        if from < 0 || from >= self.steps.keys().len() {
            None
        } else {
            match self.step_fault(from) {
                Some(e) => Some(e),
                None => self.first_step_fault(from + 1),
            }
        }
    }

    /// The fault of the first result, at or after position `from`, that
    /// refers to no output of any step.
    pub open spec fn first_result_fault(&self, from: int) -> Option<ErrorModel>
        decreases self.results.keys().len() - from,
    {
        if from < 0 || from >= self.results.keys().len() {
            None
        } else if declared_in(
            self.steps.keys(),
            self.steps.values(),
            0,
            self.steps.keys().len() as int,
            self.results.values()[from].ref_@,
        ) {
            self.first_result_fault(from + 1)
        } else {
            Some(
                ErrorModel::UnresolvedReference {
                    reference: self.results.values()[from].ref_@,
                    context: result_context(self.results.keys()[from]),
                },
            )
        }
    }

    /// The outcome of validating the chain: the fault of the first faulty
    /// step, in the order of the steps; else that of the first faulty result.
    pub open spec fn validation(&self) -> Result<(), ErrorModel> {
        match self.first_step_fault(0) {
            Some(e) => Err(e),
            None => match self.first_result_fault(0) {
                Some(e) => Err(e),
                None => Ok(()),
            },
        }
    }

    fn is_parameter_key(&self, reference: &str) -> (r: bool)
        ensures
            r == names_parameter(self.parameters.keys(), reference@),
    {
        let n = self.parameters.len();
        let mut p: usize = 0;
        while p < n
            invariant
                n == self.parameters.keys().len(),
                0 <= p <= n,
                forall|q: int|
                    0 <= q < p ==> parameter_key(#[trigger] self.parameters.keys()[q])
                        != reference@,
            decreases n - p,
        {
            let key = join2("parameters.", self.parameters.key_at(p).as_str());
            if same_text(key.as_str(), reference) {
                return true;
            }
            p = p + 1;
        }
        false
    }

    fn step_declares(name: &str, step: &Step, reference: &str) -> (r: bool)
        ensures
            r == declares(name@, *step, reference@),
    {
        let n = step.outputs.len();
        let mut o: usize = 0;
        while o < n
            invariant
                n == step.outputs.keys().len(),
                0 <= o <= n,
                forall|q: int|
                    0 <= q < o ==> output_key(name@, #[trigger] step.outputs.keys()[q])
                        != reference@,
            decreases n - o,
        {
            let key = Self::make_output_key(name, step.outputs.key_at(o).as_str());
            if same_text(key.as_str(), reference) {
                return true;
            }
            o = o + 1;
        }
        false
    }

    fn declared_between(&self, lo: usize, hi: usize, reference: &str) -> (r: bool)
        requires
            hi <= self.steps.keys().len(),
        ensures
            r == declared_in(
                self.steps.keys(),
                self.steps.values(),
                lo as int,
                hi as int,
                reference@,
            ),
    {
        proof {
            self.steps.lemma_same_length();
        }
        let mut j: usize = lo;
        while j < hi
            invariant
                hi <= self.steps.keys().len(),
                self.steps.keys().len() == self.steps.values().len(),
                lo <= j,
                forall|q: int|
                    lo <= q < j && q < hi ==> !declares(
                        #[trigger] self.steps.keys()[q],
                        self.steps.values()[q],
                        reference@,
                    ),
            decreases hi - j,
        {
            if Self::step_declares(self.steps.key_at(j).as_str(), self.steps.value_at(j), reference) {
                return true;
            }
            j = j + 1;
        }
        false
    }

    fn check_inputs(&self, i: usize) -> (r: Result<(), AtentoError>)
        requires
            i < self.steps.keys().len(),
        ensures
            match r {
                Ok(()) => self.first_input_fault(i as int, 0).is_none(),
                Err(e) => self.first_input_fault(i as int, 0) == Some(e@),
            },
    {
        proof {
            self.steps.lemma_same_length();
        }
        let step_key = self.steps.key_at(i);
        let step = self.steps.value_at(i);
        let total = self.steps.len();
        let n = step.inputs.len();
        let mut j: usize = 0;
        proof {
            step.inputs.lemma_same_length();
        }
        while j < n
            invariant
                i < self.steps.keys().len(),
                total == self.steps.keys().len(),
                self.steps.keys().len() == self.steps.values().len(),
                step_key@ == self.steps.keys()[i as int],
                *step == self.steps.values()[i as int],
                n == step.inputs.keys().len(),
                n == step.inputs.values().len(),
                0 <= j <= n,
                self.first_input_fault(i as int, 0) == self.first_input_fault(i as int, j as int),
            decreases n - j,
        {
            match step.inputs.value_at(j) {
                Input::Ref { ref_ } => {
                    if !self.is_parameter_key(ref_.as_str()) && !self.declared_between(
                        0,
                        i,
                        ref_.as_str(),
                    ) {
                        let input_key = step.inputs.key_at(j);
                        if self.declared_between(i + 1, total, ref_.as_str()) {
                            return Err(
                                AtentoError::Validation(
                                    join7(
                                        "Input '",
                                        input_key.as_str(),
                                        "' in step '",
                                        step_key.as_str(),
                                        "' references '",
                                        ref_.as_str(),
                                        "', which is a future step output",
                                    ),
                                ),
                            );
                        }
                        return Err(
                            AtentoError::UnresolvedReference {
                                reference: ref_.clone(),
                                context: join3("step '", step_key.as_str(), "'"),
                            },
                        );
                    }
                },
                Input::Inline { .. } => {},
            }
            j = j + 1;
        }
        Ok(())
    }

    fn check_patterns(&self, i: usize) -> (r: Result<(), AtentoError>)
        requires
            i < self.steps.keys().len(),
        ensures
            match r {
                Ok(()) => self.first_empty_pattern(i as int, 0).is_none(),
                Err(e) => self.first_empty_pattern(i as int, 0) == Some(e@),
            },
    {
        proof {
            self.steps.lemma_same_length();
        }
        let step_key = self.steps.key_at(i);
        let step = self.steps.value_at(i);
        let n = step.outputs.len();
        let mut k: usize = 0;
        proof {
            step.outputs.lemma_same_length();
        }
        while k < n
            invariant
                i < self.steps.keys().len(),
                step_key@ == self.steps.keys()[i as int],
                *step == self.steps.values()[i as int],
                n == step.outputs.keys().len(),
                n == step.outputs.values().len(),
                0 <= k <= n,
                self.first_empty_pattern(i as int, 0) == self.first_empty_pattern(
                    i as int,
                    k as int,
                ),
            decreases n - k,
        {
            if is_blank(step.outputs.value_at(k).pattern.as_str()) {
                return Err(
                    AtentoError::Validation(
                        join5(
                            "Output '",
                            step.outputs.key_at(k).as_str(),
                            "' in step '",
                            step_key.as_str(),
                            "' has empty capture pattern",
                        ),
                    ),
                );
            }
            k = k + 1;
        }
        Ok(())
    }

    fn check_step(&self, i: usize) -> (r: Result<(), AtentoError>)
        requires
            i < self.steps.keys().len(),
        ensures
            match r {
                Ok(()) => self.step_fault(i as int).is_none(),
                Err(e) => self.step_fault(i as int) == Some(e@),
            },
    {
        proof {
            self.steps.lemma_same_length();
        }
        match self.check_inputs(i) {
            Err(e) => {
                return Err(e);
            },
            Ok(()) => {},
        }
        match self.steps.value_at(i).validate(self.steps.key_at(i).as_str()) {
            Err(e) => {
                return Err(e);
            },
            Ok(()) => {},
        }
        self.check_patterns(i)
    }

    /// Checks every step in order, then every result: that each reference of
    /// an input is the key of a parameter or of an output of an earlier step,
    /// that each step is sound by itself, and that each result refers to an
    /// output of some step.
    pub fn validate(&self) -> (r: Result<(), AtentoError>)
        ensures
            unit_outcome(r) == self.validation(),
    {
        let n = self.steps.len();
        let mut i: usize = 0;
        while i < n
            invariant
                n == self.steps.keys().len(),
                0 <= i <= n,
                self.first_step_fault(0) == self.first_step_fault(i as int),
            decreases n - i,
        {
            match self.check_step(i) {
                Err(e) => {
                    return Err(e);
                },
                Ok(()) => {},
            }
            i = i + 1;
        }
        let count = self.results.len();
        let mut k: usize = 0;
        proof {
            self.results.lemma_same_length();
        }
        while k < count
            invariant
                n == self.steps.keys().len(),
                self.first_step_fault(0).is_none(),
                count == self.results.keys().len(),
                count == self.results.values().len(),
                0 <= k <= count,
                self.first_result_fault(0) == self.first_result_fault(k as int),
            decreases count - k,
        {
            let result = self.results.value_at(k);
            if !self.declared_between(0, n, result.ref_.as_str()) {
                return Err(
                    AtentoError::UnresolvedReference {
                        reference: result.ref_.clone(),
                        context: join3("chain result '", self.results.key_at(k).as_str(), "'"),
                    },
                );
            }
            k = k + 1;
        }
        Ok(())
    }
}

} // verus!
