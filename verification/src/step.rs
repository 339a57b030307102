//! A step: one script with its declared inputs and outputs.

use vstd::prelude::*;
use vstd::string::*;
use std::time::Instant;
use crate::errors::{AtentoError, ErrorModel};
use crate::executor::{outcome_model, CommandExecutor, ExecutionModel, ExecutionResult};
use crate::interpreter::Interpreter;
use crate::input::Input;
use crate::ordered_map::{distinct_keys, first_position, Entries, OrderedMap, TextMap};
use crate::output::Output;
use crate::pattern::{
    first_match, pattern_error, regex_error, regex_first_match, regex_scan, scan, FoundModel,
    Scan, ScanModel,
};
use crate::text::{
    is_blank, join3, join4, join5, join8, optional_text, remove_all, same_text, trim, trimmed,
    without_all,
};

verus! {

/// The regular expression that finds the placeholders of a script: the name
/// of an input between double braces, with optional white space round it.
pub const INPUT_PLACEHOLDER_PATTERN: &'static str = "\\{\\{\\s*inputs\\.(\\w+)\\s*\\}\\}";

/// The timeout of a step that declares none, in seconds.
pub const DEFAULT_STEP_TIMEOUT: u64 = 60;

/// The timeout of a step that declares none, in seconds.
pub fn default_step_timeout() -> (t: u64)
    ensures
        t == DEFAULT_STEP_TIMEOUT,
{
    DEFAULT_STEP_TIMEOUT
}

/// One unit of work of a chain.
#[derive(Debug, Clone)]
pub struct Step {
    /// The name shown in messages, where the step has one.
    pub name: Option<String>,
    /// The timeout in seconds; 0 defers to what is left of the chain's budget.
    pub timeout: u64,
    /// The declared inputs, by name.
    pub inputs: OrderedMap<Input>,
    /// The key of the interpreter that runs the script.
    pub interpreter: String,
    /// The script, which may hold placeholders for inputs.
    pub script: String,
    /// The declared outputs, by name, in the order of their declaration.
    pub outputs: OrderedMap<Output>,
}

/// The record of one run of a step.
#[derive(Debug)]
pub struct StepResult {
    /// The name of the step, where it has one.
    pub name: Option<String>,
    /// How long the run took, in milliseconds.
    pub duration_ms: u128,
    /// The exit code of the process, or -1 where none ran to its end.
    pub exit_code: i32,
    /// The resolved inputs that the script was built with.
    pub inputs: OrderedMap<String>,
    /// The values taken from the standard output.
    pub outputs: OrderedMap<String>,
    /// What was left of the standard output, where anything was.
    pub stdout: Option<String>,
    /// The standard error, where it held anything.
    pub stderr: Option<String>,
    /// The error that ended the run, where one did.
    pub error: Option<AtentoError>,
}

/// The record of one run of a step, as mathematical text.
pub struct StepRecord {
    pub name: Option<Seq<char>>,
    pub duration_ms: u128,
    pub exit_code: i32,
    pub inputs: TextMap,
    pub outputs: TextMap,
    pub stdout: Option<Seq<char>>,
    pub stderr: Option<Seq<char>>,
    pub error: Option<ErrorModel>,
}

impl View for StepResult {
    type V = StepRecord;

    open spec fn view(&self) -> StepRecord {
        StepRecord {
            name: optional_text(self.name),
            duration_ms: self.duration_ms,
            exit_code: self.exit_code,
            inputs: self.inputs.model(),
            outputs: self.outputs.model(),
            stdout: optional_text(self.stdout),
            stderr: optional_text(self.stderr),
            error: match self.error {
                Some(e) => Some(e@),
                None => None,
            },
        }
    }
}

/// A text, or nothing where it is empty.
pub open spec fn present(s: Seq<char>) -> Option<Seq<char>> {
    if s.len() == 0 {
        None
    } else {
        Some(s)
    }
}

/// The timeout that governs a step: the smaller of the step's own timeout and
/// the time left, where both are set; else the one that is set, or 0.
pub open spec fn effective_timeout(step_timeout: u64, time_left: u64) -> u64 {
    if step_timeout > 0 && time_left > 0 {
        if step_timeout <= time_left {
            step_timeout
        } else {
            time_left
        }
    } else if step_timeout >= time_left {
        step_timeout
    } else {
        time_left
    }
}

/// The message for a placeholder whose input is not declared.
pub open spec fn undeclared_message(label: Seq<char>, key: Seq<char>) -> Seq<char> {
    "Step '"@ + label + "' script references input '"@ + key + "' that is not declared"@
}

/// The message for a declared input that the script never uses.
pub open spec fn unused_message(label: Seq<char>, name: Seq<char>) -> Seq<char> {
    "Step '"@ + label + "' has input '"@ + name
        + "' that is declared but never used in the script"@
}

/// The message for an output whose pattern is empty or white space.
pub open spec fn blank_pattern_message(output: Seq<char>, label: Seq<char>) -> Seq<char> {
    "Output '"@ + output + "' in step '"@ + label + "' has empty capture pattern"@
}

/// The message for an output whose pattern is no regular expression.
pub open spec fn invalid_pattern_message(
    output: Seq<char>,
    label: Seq<char>,
    pattern: Seq<char>,
    reason: Seq<char>,
) -> Seq<char> {
    "Output '"@ + output + "' in step '"@ + label + "' has invalid regex pattern '"@ + pattern
        + "': "@ + reason
}

/// The message for a script that cannot be searched for placeholders.
pub open spec fn unscannable_message(label: Seq<char>) -> Seq<char> {
    "Step '"@ + label + "' script cannot be searched for input placeholders"@
}

/// The name of the first placeholder, at or after position `from`, whose
/// input is not among `declared`.
pub open spec fn first_undeclared(
    matches: Seq<FoundModel>,
    declared: Seq<Seq<char>>,
    from: int,
) -> Option<Seq<char>>
    decreases matches.len() - from,
{
    if from < 0 || from >= matches.len() {
        None
    } else {
        match matches[from].first() {
            Some(name) => if declared.contains(name) {
                first_undeclared(matches, declared, from + 1)
            } else {
                Some(name)
            },
            None => first_undeclared(matches, declared, from + 1),
        }
    }
}

/// Whether a placeholder names the input `name`.
pub open spec fn used_in(matches: Seq<FoundModel>, name: Seq<char>) -> bool {
    exists|i: int| 0 <= i < matches.len() && (#[trigger] matches[i]).first() == Some(name)
}

/// The first declared input, at or after position `from`, that no placeholder
/// names.
pub open spec fn first_unused(
    declared: Seq<Seq<char>>,
    matches: Seq<FoundModel>,
    from: int,
) -> Option<Seq<char>>
    decreases declared.len() - from,
{
    if from < 0 || from >= declared.len() {
        None
    } else if used_in(matches, declared[from]) {
        first_unused(declared, matches, from + 1)
    } else {
        Some(declared[from])
    }
}

/// What is wrong with the pattern of one output: it is blank, or the `regex`
/// crate refuses it.
pub open spec fn pattern_fault(output: Seq<char>, pattern: Seq<char>, label: Seq<char>) -> Option<
    ErrorModel,
> {
    if trimmed(pattern).len() == 0 {
        Some(ErrorModel::Validation(blank_pattern_message(output, label)))
    } else {
        match regex_error(pattern) {
            Some(reason) => Some(
                ErrorModel::Validation(invalid_pattern_message(output, label, pattern, reason)),
            ),
            None => None,
        }
    }
}

/// The fault of the first output, at or after position `from`, whose pattern
/// has one.
pub open spec fn first_pattern_fault(
    names: Seq<Seq<char>>,
    outputs: Seq<Output>,
    label: Seq<char>,
    from: int,
) -> Option<ErrorModel>
    decreases names.len() - from,
{
    if from < 0 || from >= names.len() || from >= outputs.len() {
        None
    } else {
        match pattern_fault(names[from], outputs[from].pattern@, label) {
            Some(e) => Some(e),
            None => first_pattern_fault(names, outputs, label, from + 1),
        }
    }
}

/// What replaces a placeholder: the text of the input that it names, or the
/// placeholder itself where no such input is given.
pub open spec fn replacement(m: FoundModel, names: Seq<Seq<char>>, texts: Seq<Seq<char>>) -> Seq<
    char,
> {
    match m.first() {
        Some(name) => if names.contains(name) {
            texts[first_position(names, name)]
        } else {
            m.whole()
        },
        None => m.whole(),
    }
}

/// The text up to the end of the first `n` matches, each placeholder replaced.
pub open spec fn substituted_prefix(
    matches: Seq<FoundModel>,
    names: Seq<Seq<char>>,
    texts: Seq<Seq<char>>,
    n: int,
) -> Seq<char>
    decreases n,
{
    if n <= 0 || n > matches.len() {
        Seq::<char>::empty()
    } else {
        substituted_prefix(matches, names, texts, n - 1) + matches[n - 1].before + replacement(
            matches[n - 1],
            names,
            texts,
        )
    }
}

/// The scanned text with each placeholder replaced.
pub open spec fn substituted(s: ScanModel, names: Seq<Seq<char>>, texts: Seq<Seq<char>>) -> Seq<
    char,
> {
    substituted_prefix(s.matches, names, texts, s.matches.len() as int) + s.rest
}

/// The script that is run for `script` with the inputs given: empty for an
/// empty script, the script itself where no input is given or it cannot be
/// searched, and else the script with each placeholder replaced.
pub open spec fn built_script(script: Seq<char>, names: Seq<Seq<char>>, texts: Seq<Seq<char>>) -> Seq<
    char,
> {
    if script.len() == 0 {
        Seq::<char>::empty()
    } else if names.len() == 0 {
        script
    } else {
        match regex_scan(INPUT_PLACEHOLDER_PATTERN@, script) {
            Some(s) => substituted(s, names, texts),
            None => script,
        }
    }
}

/// The message for an output whose pattern the `regex` crate refuses when
/// the output is extracted.
pub open spec fn refused_pattern_message(output: Seq<char>, reason: Seq<char>) -> Seq<char> {
    "Invalid regex for output '"@ + output + "': "@ + reason
}

/// The message for an output whose pattern matches nowhere.
pub open spec fn no_match_message(output: Seq<char>, pattern: Seq<char>) -> Seq<char> {
    "Output '"@ + output + "' pattern '"@ + pattern + "' did not match stdout"@
}

/// The message for an output whose match holds no first capture group.
pub open spec fn no_group_message(output: Seq<char>, pattern: Seq<char>) -> Seq<char> {
    "Output '"@ + output + "' regex '"@ + pattern + "' did not capture a group"@
}

/// What one output takes from `stdout`: the text of the first capture group
/// of the leftmost match, together with the text of the whole match; or the
/// error where the pattern is refused, matches nowhere, or has no first group
/// that took part in the match.
pub open spec fn extracted_one(output: Seq<char>, pattern: Seq<char>, stdout: Seq<char>) -> Result<
    (Seq<char>, Seq<char>),
    ErrorModel,
> {
    match regex_error(pattern) {
        Some(reason) => Err(ErrorModel::Execution(refused_pattern_message(output, reason))),
        None => match regex_first_match(pattern, stdout) {
            None => Err(ErrorModel::Execution(no_match_message(output, pattern))),
            Some(found) => match found.first() {
                Some(value) => Ok((value, found.whole())),
                None => Err(ErrorModel::Execution(no_group_message(output, pattern))),
            },
        },
    }
}

/// The end of an extraction: the values in the order of the outputs, or the
/// first error; and what is left of the standard output.
pub struct Extraction {
    pub outcome: Result<Seq<Seq<char>>, ErrorModel>,
    pub residue: Seq<char>,
}

/// The extraction of the outputs at and after position `from`, given the
/// standard output as it stands and the values taken so far. After each
/// output, every occurrence of the text that it matched leaves the standard
/// output; an error ends the extraction and leaves the standard output as it
/// was then.
pub open spec fn extraction(
    names: Seq<Seq<char>>,
    outputs: Seq<Output>,
    from: int,
    stdout: Seq<char>,
    taken: Seq<Seq<char>>,
) -> Extraction
    decreases names.len() - from,
{
    if from < 0 || from >= names.len() || from >= outputs.len() {
        Extraction { outcome: Ok(taken), residue: stdout }
    } else {
        match extracted_one(names[from], outputs[from].pattern@, stdout) {
            Err(e) => Extraction { outcome: Err(e), residue: stdout },
            Ok((value, whole)) => extraction(
                names,
                outputs,
                from + 1,
                without_all(stdout, whole),
                taken.push(value),
            ),
        }
    }
}

/// An outcome without a value, as mathematical text.
pub open spec fn unit_outcome(r: Result<(), AtentoError>) -> Result<(), ErrorModel> {
    match r {
        Ok(()) => Ok(()),
        Err(e) => Err(e@),
    }
}

fn mentions(s: &Scan, name: &str) -> (r: bool)
    ensures
        r == used_in(s@.matches, name@),
{
    let n = s.matches.len();
    let mut i: usize = 0;
    while i < n
        invariant
            n == s.matches@.len(),
            0 <= i <= n,
            forall|k: int| 0 <= k < i ==> (#[trigger] s@.matches[k]).first() != Some(name@),
        decreases n - i,
    {
        let found = match s.matches[i].first() {
            Some(first) => same_text(first.as_str(), name),
            None => false,
        };
        assert(s@.matches[i as int] == s.matches@[i as int]@);
        if found {
            return true;
        }
        i = i + 1;
    }
    false
}

impl Step {
    /// A step for the interpreter `interpreter`, with the default timeout, an
    /// empty script and nothing declared.
    pub fn new(interpreter: &str) -> (s: Step)
        ensures
            s.name.is_none(),
            s.timeout == DEFAULT_STEP_TIMEOUT,
            s.inputs.keys().len() == 0,
            s.interpreter@ == interpreter@,
            s.script@.len() == 0,
            s.outputs.keys().len() == 0,
    {
        Step {
            name: None,
            timeout: default_step_timeout(),
            inputs: OrderedMap::new(),
            interpreter: String::from_str(interpreter),
            script: String::new(),
            outputs: OrderedMap::new(),
        }
    }

    /// The name by which messages call the step: its own, or else `id`.
    pub open spec fn label(&self, id: Seq<char>) -> Seq<char> {
        match self.name {
            Some(name) => name@,
            None => id,
        }
    }

    /// The outcome of validating the step. The first fault found decides, in
    /// this order: a placeholder of the script that names no declared input;
    /// a declared input that no placeholder names; an output whose pattern is
    /// blank or no regular expression.
    pub open spec fn validation(&self, id: Seq<char>) -> Result<(), ErrorModel> {
        let label = self.label(id);
        match regex_scan(INPUT_PLACEHOLDER_PATTERN@, self.script@) {
            None => Err(ErrorModel::Validation(unscannable_message(label))),
            Some(s) => match first_undeclared(s.matches, self.inputs.keys(), 0) {
                Some(key) => Err(ErrorModel::Validation(undeclared_message(label, key))),
                None => match first_unused(self.inputs.keys(), s.matches, 0) {
                    Some(name) => Err(ErrorModel::Validation(unused_message(label, name))),
                    None => match first_pattern_fault(
                        self.outputs.keys(),
                        self.outputs.values(),
                        label,
                        0,
                    ) {
                        Some(e) => Err(e),
                        None => Ok(()),
                    },
                },
            },
        }
    }

    fn label_of<'a>(&'a self, id: &'a str) -> (l: &'a str)
        ensures
            l@ == self.label(id@),
    {
        match &self.name {
            Some(name) => name.as_str(),
            None => id,
        }
    }

    /// Checks that the script and the declared inputs agree, in both
    /// directions, and that every output pattern is a regular expression.
    pub fn validate(&self, id: &str) -> (r: Result<(), AtentoError>)
        ensures
            unit_outcome(r) == self.validation(id@),
    {
        let label = self.label_of(id);
        let found = match scan(INPUT_PLACEHOLDER_PATTERN, self.script.as_str()) {
            Some(found) => found,
            None => {
                return Err(
                    AtentoError::Validation(
                        join3(
                            "Step '",
                            label,
                            "' script cannot be searched for input placeholders",
                        ),
                    ),
                );
            },
        };
        let ghost matches = found@.matches;
        let n = found.matches.len();
        let mut i: usize = 0;
        while i < n
            invariant
                regex_scan(INPUT_PLACEHOLDER_PATTERN@, self.script@) == Some(found@),
                label@ == self.label(id@),
                matches == found@.matches,
                n == matches.len(),
                0 <= i <= n,
                first_undeclared(matches, self.inputs.keys(), 0) == first_undeclared(
                    matches,
                    self.inputs.keys(),
                    i as int,
                ),
            decreases n - i,
        {
            assert(matches[i as int] == found.matches@[i as int]@);
            match found.matches[i].first() {
                Some(key) => {
                    if !self.inputs.contains_key(key.as_str()) {
                        return Err(
                            AtentoError::Validation(
                                join5(
                                    "Step '",
                                    label,
                                    "' script references input '",
                                    key.as_str(),
                                    "' that is not declared",
                                ),
                            ),
                        );
                    }
                },
                None => {},
            }
            i = i + 1;
        }
        let declared = self.inputs.len();
        let mut j: usize = 0;
        while j < declared
            invariant
                regex_scan(INPUT_PLACEHOLDER_PATTERN@, self.script@) == Some(found@),
                label@ == self.label(id@),
                matches == found@.matches,
                first_undeclared(matches, self.inputs.keys(), 0).is_none(),
                declared == self.inputs.keys().len(),
                0 <= j <= declared,
                first_unused(self.inputs.keys(), matches, 0) == first_unused(
                    self.inputs.keys(),
                    matches,
                    j as int,
                ),
            decreases declared - j,
        {
            let name = self.inputs.key_at(j);
            if !mentions(&found, name.as_str()) {
                return Err(
                    AtentoError::Validation(
                        join5(
                            "Step '",
                            label,
                            "' has input '",
                            name.as_str(),
                            "' that is declared but never used in the script",
                        ),
                    ),
                );
            }
            j = j + 1;
        }
        let count = self.outputs.len();
        let mut k: usize = 0;
        proof {
            self.outputs.lemma_same_length();
        }
        while k < count
            invariant
                regex_scan(INPUT_PLACEHOLDER_PATTERN@, self.script@) == Some(found@),
                label@ == self.label(id@),
                matches == found@.matches,
                first_undeclared(matches, self.inputs.keys(), 0).is_none(),
                first_unused(self.inputs.keys(), matches, 0).is_none(),
                count == self.outputs.keys().len(),
                count == self.outputs.values().len(),
                0 <= k <= count,
                first_pattern_fault(self.outputs.keys(), self.outputs.values(), label@, 0)
                    == first_pattern_fault(
                    self.outputs.keys(),
                    self.outputs.values(),
                    label@,
                    k as int,
                ),
            decreases count - k,
        {
            let name = self.outputs.key_at(k);
            let output = self.outputs.value_at(k);
            let bare = trim(output.pattern.as_str());
            if is_blank(bare.as_str()) {
                return Err(
                    AtentoError::Validation(
                        join5(
                            "Output '",
                            name.as_str(),
                            "' in step '",
                            label,
                            "' has empty capture pattern",
                        ),
                    ),
                );
            }
            match pattern_error(output.pattern.as_str()) {
                Some(reason) => {
                    return Err(
                        AtentoError::Validation(
                            join8(
                                "Output '",
                                name.as_str(),
                                "' in step '",
                                label,
                                "' has invalid regex pattern '",
                                output.pattern.as_str(),
                                "': ",
                                reason.as_str(),
                            ),
                        ),
                    );
                },
                None => {},
            }
            k = k + 1;
        }
        Ok(())
    }

    /// The timeout that governs this step when `time_left` seconds are left of
    /// the chain's budget (0: no budget).
    pub fn calculate_timeout(&self, time_left: u64) -> (t: u64)
        ensures
            t == effective_timeout(self.timeout, time_left),
            self.timeout > 0 && time_left > 0 ==> t == vstd::math::min(
                self.timeout as int,
                time_left as int,
            ),
            !(self.timeout > 0 && time_left > 0) ==> t == vstd::math::max(
                self.timeout as int,
                time_left as int,
            ),
    {
        if self.timeout > 0 && time_left > 0 {
            if self.timeout <= time_left {
                self.timeout
            } else {
                time_left
            }
        } else if self.timeout >= time_left {
            self.timeout
        } else {
            time_left
        }
    }

    /// The script with every placeholder replaced by the text of the input
    /// that it names. A placeholder that names no given input stays as it is.
    pub fn build_script(&self, inputs: &OrderedMap<String>) -> (s: String)
        ensures
            s@ == built_script(self.script@, inputs.keys(), inputs.texts()),
    {
        if is_blank(self.script.as_str()) {
            return String::new();
        }
        if inputs.is_empty() {
            return self.script.clone();
        }
        let found = match scan(INPUT_PLACEHOLDER_PATTERN, self.script.as_str()) {
            Some(found) => found,
            None => {
                return self.script.clone();
            },
        };
        let ghost names = inputs.keys();
        let ghost texts = inputs.texts();
        let ghost matches = found@.matches;
        let mut out = String::new();
        let n = found.matches.len();
        let mut i: usize = 0;
        while i < n
            invariant
                names == inputs.keys(),
                texts == inputs.texts(),
                matches == found@.matches,
                n == matches.len(),
                0 <= i <= n,
                out@ == substituted_prefix(matches, names, texts, i as int),
            decreases n - i,
        {
            let m = &found.matches[i];
            assert(matches[i as int] == m@);
            let ghost before = out@;
            out.append(m.before.as_str());
            match m.first() {
                Some(name) => match inputs.get(name.as_str()) {
                    Some(text) => {
                        out.append(text.as_str());
                    },
                    None => {
                        out.append(m.whole());
                    },
                },
                None => {
                    out.append(m.whole());
                },
            }
            assert(out@ == before + m@.before + replacement(m@, names, texts));
            i = i + 1;
        }
        out.append(found.rest.as_str());
        out
    }

    /// Takes the value of every declared output from `stdout`, in the order
    /// of the declarations. Each output takes the first capture group of the
    /// leftmost match of its pattern; the text that it matched then leaves
    /// `stdout`, so that the next output does not match it again.
    pub fn extract_outputs(&self, stdout: &mut String) -> (r: Result<
        OrderedMap<String>,
        AtentoError,
    >)
        ensures
            final(stdout)@ == extraction(
                self.outputs.keys(),
                self.outputs.values(),
                0,
                old(stdout)@,
                Seq::<Seq<char>>::empty(),
            ).residue,
            match r {
                Ok(values) => values.keys() == self.outputs.keys() && extraction(
                    self.outputs.keys(),
                    self.outputs.values(),
                    0,
                    old(stdout)@,
                    Seq::<Seq<char>>::empty(),
                ).outcome == Ok::<Seq<Seq<char>>, ErrorModel>(values.texts()),
                Err(e) => extraction(
                    self.outputs.keys(),
                    self.outputs.values(),
                    0,
                    old(stdout)@,
                    Seq::<Seq<char>>::empty(),
                ).outcome == Err::<Seq<Seq<char>>, ErrorModel>(e@),
            },
    {
        let ghost names = self.outputs.keys();
        let ghost outputs = self.outputs.values();
        let ghost whole_run = extraction(
            names,
            outputs,
            0,
            old(stdout)@,
            Seq::<Seq<char>>::empty(),
        );
        let mut values: OrderedMap<String> = OrderedMap::new();
        let n = self.outputs.len();
        let mut i: usize = 0;
        self.outputs.keys_are_distinct();
        assert(values.texts() =~= Seq::<Seq<char>>::empty());
        while i < n
            invariant
                names == self.outputs.keys(),
                outputs == self.outputs.values(),
                whole_run == extraction(
                    names,
                    outputs,
                    0,
                    old(stdout)@,
                    Seq::<Seq<char>>::empty(),
                ),
                distinct_keys(names),
                n == names.len(),
                n == outputs.len(),
                0 <= i <= n,
                values.keys() == names.subrange(0, i as int),
                whole_run == extraction(names, outputs, i as int, stdout@, values.texts()),
            decreases n - i,
        {
            let name = self.outputs.key_at(i);
            let output = self.outputs.value_at(i);
            match pattern_error(output.pattern.as_str()) {
                Some(reason) => {
                    return Err(
                        AtentoError::Execution(
                            join4(
                                "Invalid regex for output '",
                                name.as_str(),
                                "': ",
                                reason.as_str(),
                            ),
                        ),
                    );
                },
                None => {},
            }
            let capture = match first_match(output.pattern.as_str(), stdout.as_str()) {
                Some(capture) => capture,
                None => {
                    return Err(
                        AtentoError::Execution(
                            join5(
                                "Output '",
                                name.as_str(),
                                "' pattern '",
                                output.pattern.as_str(),
                                "' did not match stdout",
                            ),
                        ),
                    );
                },
            };
            let value = match capture.first() {
                Some(value) => value.clone(),
                None => {
                    return Err(
                        AtentoError::Execution(
                            join5(
                                "Output '",
                                name.as_str(),
                                "' regex '",
                                output.pattern.as_str(),
                                "' did not capture a group",
                            ),
                        ),
                    );
                },
            };
            proof {
                values.lemma_same_length();
                if values.has(name@) {
                    let j = choose|j: int| 0 <= j < values.keys().len() && values.keys()[j] == name@;
                    assert(names[j] == names[i as int]);
                }
            }
            let ghost taken = values.texts();
            let ghost value_text = value@;
            values.insert(name.clone(), value);
            let residue = remove_all(stdout.as_str(), capture.whole());
            *stdout = residue;
            proof {
                values.lemma_same_length();
                assert(values.keys() =~= names.subrange(0, i + 1));
                assert(values.texts() =~= taken.push(value_text));
            }
            i = i + 1;
        }
        assert(values.keys() =~= names);
        Ok(values)
    }

    /// The record of a run of this step with the inputs given that took
    /// `duration_ms` and in which the runner reported `outcome`.
    ///
    /// Where the runner failed, the record has the exit code -1, no output
    /// and the runner's error. Where it ran the script, the outputs are
    /// extracted from the trimmed standard output; the record has the exit
    /// code of the process, what is left of the standard output and the
    /// standard error, both trimmed and absent where empty, and either all the
    /// outputs or the error of the extraction.
    pub open spec fn concluded(
        &self,
        outcome: Result<ExecutionModel, ErrorModel>,
        inputs: TextMap,
        duration_ms: u128,
    ) -> StepRecord {
        match outcome {
            Err(e) => StepRecord {
                name: optional_text(self.name),
                duration_ms,
                exit_code: -1i32,
                inputs,
                outputs: TextMap::empty(),
                stdout: None,
                stderr: None,
                error: Some(e),
            },
            Ok(done) => {
                let end = extraction(
                    self.outputs.keys(),
                    self.outputs.values(),
                    0,
                    trimmed(done.stdout),
                    Seq::<Seq<char>>::empty(),
                );
                StepRecord {
                    name: optional_text(self.name),
                    duration_ms,
                    exit_code: done.exit_code,
                    inputs,
                    outputs: match end.outcome {
                        Ok(values) => Entries { keys: self.outputs.keys(), values },
                        Err(e) => TextMap::empty(),
                    },
                    stdout: present(trimmed(end.residue)),
                    stderr: present(trimmed(done.stderr)),
                    error: match end.outcome {
                        Ok(values) => None,
                        Err(e) => Some(e),
                    },
                }
            },
        }
    }

    fn name_copy(&self) -> (n: Option<String>)
        ensures
            n == self.name,
    {
        match &self.name {
            Some(name) => Some(name.clone()),
            None => None,
        }
    }

    /// The record of a run in which the runner reported `outcome` after
    /// `duration_ms` milliseconds.
    pub fn conclude(
        &self,
        outcome: Result<ExecutionResult, AtentoError>,
        inputs: &OrderedMap<String>,
        duration_ms: u128,
    ) -> (r: StepResult)
        ensures
            r@ == self.concluded(outcome_model(outcome), inputs.model(), duration_ms),
    {
        match outcome {
            Ok(done) => {
                let mut stdout = trim(done.stdout.as_str());
                let extracted = self.extract_outputs(&mut stdout);
                let left = trim(stdout.as_str());
                let errors = trim(done.stderr.as_str());
                let (outputs, error) = match extracted {
                    Ok(values) => (values, None),
                    Err(e) => {
                        let none: OrderedMap<String> = OrderedMap::new();
                        assert(none.texts() =~= Seq::<Seq<char>>::empty());
                        (none, Some(e))
                    },
                };
                StepResult {
                    name: self.name_copy(),
                    duration_ms,
                    exit_code: done.exit_code,
                    inputs: inputs.duplicate(),
                    outputs,
                    stdout: if is_blank(left.as_str()) {
                        None
                    } else {
                        Some(left)
                    },
                    stderr: if is_blank(errors.as_str()) {
                        None
                    } else {
                        Some(errors)
                    },
                    error,
                }
            },
            Err(e) => {
                let none: OrderedMap<String> = OrderedMap::new();
                assert(none.texts() =~= Seq::<Seq<char>>::empty());
                StepResult {
                    name: self.name_copy(),
                    duration_ms,
                    exit_code: -1,
                    inputs: inputs.duplicate(),
                    outputs: none,
                    stdout: None,
                    stderr: None,
                    error: Some(e),
                }
            },
        }
    }

    /// Runs the step: builds the script from the inputs, has the executor run
    /// it with the interpreter under the timeout that governs the step, and
    /// records what came of it.
    ///
    /// The executor is called once, with the built script, the interpreter
    /// given and the governing timeout; the record is the one that
    /// `concluded` gives for what it reported.
    pub fn run<E: CommandExecutor>(
        &self,
        executor: &E,
        inputs: &OrderedMap<String>,
        time_left: u64,
        interpreter: &Interpreter,
    ) -> (r: StepResult)
        ensures
            exists|script: &str, outcome: Result<ExecutionResult, AtentoError>|
                {
                    &&& script@ == built_script(self.script@, inputs.keys(), inputs.texts())
                    &&& call_ensures(
                        E::execute,
                        (executor, script, interpreter, effective_timeout(self.timeout, time_left)),
                        outcome,
                    )
                    &&& r@ == self.concluded(
                        outcome_model(outcome),
                        inputs.model(),
                        r.duration_ms,
                    )
                },
            exists|outcome: Result<ExecutionModel, ErrorModel>|
                r@ == self.concluded(outcome, inputs.model(), r.duration_ms),
    {
        let script = self.build_script(inputs);
        let timeout = self.calculate_timeout(time_left);
        let start = Instant::now();
        let text = script.as_str();
        let outcome = executor.execute(text, interpreter, timeout);
        let duration_ms = start.elapsed().as_millis();
        let ghost reported = outcome;
        let r = self.conclude(outcome, inputs, duration_ms);
        assert(r@ == self.concluded(outcome_model(reported), inputs.model(), r.duration_ms));
        assert(call_ensures(E::execute, (executor, text, interpreter, timeout), reported));
        r
    }
}

} // verus!
