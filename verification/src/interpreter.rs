//! The registry of interpreters: how a script of each kind is run.

use vstd::prelude::*;
use vstd::string::*;
use crate::ordered_map::{distinct_keys, lemma_position_of_present, Entries, OrderedMap};

verus! {

/// How scripts of one kind are run: the program, the arguments that precede
/// the script file, and the extension of that file.
#[derive(Debug)]
pub struct Interpreter {
    /// The program to run.
    pub command: String,
    /// The arguments before the script file.
    pub args: Vec<String>,
    /// The extension of the script file, with its dot.
    pub extension: String,
}

/// An interpreter as mathematical text.
pub struct InterpreterModel {
    pub command: Seq<char>,
    pub args: Seq<Seq<char>>,
    pub extension: Seq<char>,
}

impl View for Interpreter {
    type V = InterpreterModel;

    open spec fn view(&self) -> InterpreterModel {
        InterpreterModel {
            command: self.command@,
            args: self.args_text(),
            extension: self.extension@,
        }
    }
}

impl Clone for Interpreter {
    /// An interpreter with the same command, arguments and extension.
    fn clone(&self) -> (r: Self)
        ensures
            r@ == self@,
    {
        let mut args: Vec<String> = Vec::new();
        let n = self.args.len();
        let mut i: usize = 0;
        while i < n
            invariant
                n == self.args@.len(),
                0 <= i <= n,
                args@.len() == i,
                forall|k: int| 0 <= k < i ==> (#[trigger] args@[k])@ == self.args@[k]@,
            decreases n - i,
        {
            args.push(self.args[i].clone());
            i = i + 1;
        }
        let r = Interpreter {
            command: self.command.clone(),
            args,
            extension: self.extension.clone(),
        };
        assert(r.args_text() =~= self.args_text());
        r
    }
}

impl Interpreter {
    /// Whether the command and the extension are both non-empty.
    pub open spec fn valid(&self) -> bool {
        self.command@.len() > 0 && self.extension@.len() > 0
    }

    /// The arguments, as mathematical text.
    pub open spec fn args_text(&self) -> Seq<Seq<char>> {
        Seq::new(self.args@.len(), |i: int| self.args@[i]@)
    }

    /// The extension of the script file.
    pub fn extension(&self) -> (e: &str)
        ensures
            e@ == self.extension@,
    {
        self.extension.as_str()
    }

    /// Whether the command and the extension are both non-empty.
    pub fn is_valid(&self) -> (b: bool)
        ensures
            b == self.valid(),
    {
        self.command.as_str().unicode_len() > 0 && self.extension.as_str().unicode_len() > 0
    }
}

/// The arguments with which both PowerShell programs are run.
pub open spec fn powershell_args() -> Seq<Seq<char>> {
    seq![
        "-NoLogo"@,
        "-NoProfile"@,
        "-NonInteractive"@,
        "-ExecutionPolicy"@,
        "Bypass"@,
        "-File"@,
    ]
}

/// The built-in interpreters, in order: each key with its command, its
/// arguments and its extension.
pub open spec fn builtin_interpreters() -> Seq<(Seq<char>, Seq<char>, Seq<Seq<char>>, Seq<char>)> {
    seq![
        ("bash"@, "bash"@, Seq::<Seq<char>>::empty(), ".sh"@),
        ("batch"@, "cmd"@, seq!["/c"@], ".bat"@),
        ("powershell"@, "powershell"@, powershell_args(), ".ps1"@),
        ("pwsh"@, "pwsh"@, powershell_args(), ".ps1"@),
        ("python"@, "python3"@, Seq::<Seq<char>>::empty(), ".py"@),
        ("python3"@, "python3"@, Seq::<Seq<char>>::empty(), ".py"@),
    ]
}

/// A registry entry, as mathematical text.
pub open spec fn entry_text(entry: (String, Interpreter)) -> (
    Seq<char>,
    Seq<char>,
    Seq<Seq<char>>,
    Seq<char>,
) {
    (entry.0@, entry.1.command@, entry.1.args_text(), entry.1.extension@)
}

fn powershell_arguments() -> (args: Vec<String>)
    ensures
        Seq::new(args@.len(), |i: int| args@[i]@) == powershell_args(),
{
    let mut args: Vec<String> = Vec::new();
    args.push(String::from_str("-NoLogo"));
    args.push(String::from_str("-NoProfile"));
    args.push(String::from_str("-NonInteractive"));
    args.push(String::from_str("-ExecutionPolicy"));
    args.push(String::from_str("Bypass"));
    args.push(String::from_str("-File"));
    assert(Seq::new(args@.len(), |i: int| args@[i]@) =~= powershell_args());
    args
}

fn entry(key: &str, command: &str, args: Vec<String>, extension: &str) -> (e: (
    String,
    Interpreter,
))
    ensures
        entry_text(e) == (key@, command@, Seq::new(args@.len(), |i: int| args@[i]@), extension@),
{
    (
        String::from_str(key),
        Interpreter {
            command: String::from_str(command),
            args,
            extension: String::from_str(extension),
        },
    )
}

/// The built-in interpreters, each under its key: `bash`, `batch`,
/// `powershell`, `pwsh`, `python` and `python3`.
pub fn default_interpreters() -> (v: Vec<(String, Interpreter)>)
    ensures
        v@.len() == builtin_interpreters().len(),
        forall|i: int| 0 <= i < v@.len() ==> entry_text(#[trigger] v@[i]) == builtin_interpreters()[i],
        forall|i: int| 0 <= i < v@.len() ==> (#[trigger] v@[i]).1.valid(),
{
    let mut v: Vec<(String, Interpreter)> = Vec::new();
    let mut batch_args: Vec<String> = Vec::new();
    batch_args.push(String::from_str("/c"));
    assert(Seq::new(batch_args@.len(), |i: int| batch_args@[i]@) =~= seq!["/c"@]);
    v.push(entry("bash", "bash", Vec::new(), ".sh"));
    v.push(entry("batch", "cmd", batch_args, ".bat"));
    v.push(entry("powershell", "powershell", powershell_arguments(), ".ps1"));
    v.push(entry("pwsh", "pwsh", powershell_arguments(), ".ps1"));
    v.push(entry("python", "python3", Vec::new(), ".py"));
    v.push(entry("python3", "python3", Vec::new(), ".py"));
    proof {
        reveal_strlit("bash");
        reveal_strlit("cmd");
        reveal_strlit("powershell");
        reveal_strlit("pwsh");
        reveal_strlit("python3");
        reveal_strlit(".sh");
        reveal_strlit(".bat");
        reveal_strlit(".ps1");
        reveal_strlit(".py");
    }
    v
}

/// A registry of interpreters as mathematical text.
pub open spec fn registry_model(m: OrderedMap<Interpreter>) -> Entries<InterpreterModel> {
    Entries { keys: m.keys(), values: Seq::new(m.values().len(), |i: int| m.values()[i]@) }
}

/// The registry that holds the first `n` built-in interpreters.
pub open spec fn builtin_registry(n: int) -> Entries<InterpreterModel>
    decreases n,
{
    if n <= 0 || n > builtin_interpreters().len() {
        Entries::empty()
    } else {
        let entry = builtin_interpreters()[n - 1];
        builtin_registry(n - 1).put(
            entry.0,
            InterpreterModel { command: entry.1, args: entry.2, extension: entry.3 },
        )
    }
}

/// `base` after the first `n` entries of `extra` are stored in it, one after
/// the other. An entry of `extra` replaces the whole entry of `base` with its
/// key.
pub open spec fn overlaid(
    base: Entries<InterpreterModel>,
    extra: Entries<InterpreterModel>,
    n: int,
) -> Entries<InterpreterModel>
    decreases n,
{
    if n <= 0 || n > extra.keys.len() {
        base
    } else {
        overlaid(base, extra, n - 1).put(extra.keys[n - 1], extra.values[n - 1])
    }
}

/// Keys and values of an overlay have one length.
pub proof fn lemma_overlaid_shape(
    base: Entries<InterpreterModel>,
    extra: Entries<InterpreterModel>,
    n: int,
)
    requires
        base.keys.len() == base.values.len(),
    ensures
        overlaid(base, extra, n).keys.len() == overlaid(base, extra, n).values.len(),
    decreases n,
{
    if 0 < n <= extra.keys.len() {
        lemma_overlaid_shape(base, extra, n - 1);
        overlaid(base, extra, n - 1).lemma_put_get(
            extra.keys[n - 1],
            extra.values[n - 1],
            extra.keys[n - 1],
        );
    }
}

/// Overrides win: after an overlay, a key of `extra` holds what `extra` holds
/// for it, and every other key holds what `base` held.
pub proof fn lemma_overrides_win(
    base: Entries<InterpreterModel>,
    extra: Entries<InterpreterModel>,
    n: int,
    key: Seq<char>,
)
    requires
        base.keys.len() == base.values.len(),
        extra.keys.len() == extra.values.len(),
        distinct_keys(extra.keys),
        0 <= n <= extra.keys.len(),
    ensures
        extra.keys.subrange(0, n).contains(key) ==> overlaid(base, extra, n).get(key)
            == extra.get(key),
        !extra.keys.subrange(0, n).contains(key) ==> overlaid(base, extra, n).get(key)
            == base.get(key),
    decreases n,
{
    if n > 0 {
        let before = overlaid(base, extra, n - 1);
        let last = extra.keys[n - 1];
        lemma_overrides_win(base, extra, n - 1, key);
        lemma_overlaid_shape(base, extra, n - 1);
        before.lemma_put_get(last, extra.values[n - 1], key);
        let head = extra.keys.subrange(0, n - 1);
        let all = extra.keys.subrange(0, n);
        assert(all[n - 1] == last);
        if key == last {
            assert(extra.keys.contains(key)) by {
                assert(extra.keys[n - 1] == key);
            }
            lemma_position_of_present(extra.keys, key);
            assert(crate::ordered_map::first_position(extra.keys, key) == n - 1);
        } else {
            if all.contains(key) {
                let j = choose|j: int| 0 <= j < all.len() && all[j] == key;
                assert(head[j] == key);
            }
            if head.contains(key) {
                let j = choose|j: int| 0 <= j < head.len() && head[j] == key;
                assert(all[j] == key);
            }
        }
    }
}

/// The registry of a chain: the built-in interpreters, each replaced as a
/// whole by the one that `overrides` holds under its key, and the other
/// interpreters of `overrides` after them.
pub fn merged_interpreters(overrides: &OrderedMap<Interpreter>) -> (m: OrderedMap<Interpreter>)
    ensures
        registry_model(m) == overlaid(
            builtin_registry(builtin_interpreters().len() as int),
            registry_model(*overrides),
            overrides.keys().len() as int,
        ),
{
    let mut m: OrderedMap<Interpreter> = OrderedMap::new();
    let defaults = default_interpreters();
    let count = defaults.len();
    let mut i: usize = 0;
    assert(registry_model(m).values =~= Seq::<InterpreterModel>::empty());
    assert(registry_model(m) == Entries::<InterpreterModel>::empty());
    while i < count
        invariant
            count == defaults@.len(),
            count == builtin_interpreters().len(),
            forall|k: int|
                0 <= k < count ==> entry_text(#[trigger] defaults@[k]) == builtin_interpreters()[k],
            0 <= i <= count,
            registry_model(m) == builtin_registry(i as int),
        decreases count - i,
    {
        let key = defaults[i].0.clone();
        let value = defaults[i].1.clone();
        store(&mut m, key, value);
        i = i + 1;
    }
    let n = overrides.len();
    let mut j: usize = 0;
    proof {
        overrides.lemma_same_length();
    }
    while j < n
        invariant
            n == overrides.keys().len(),
            n == overrides.values().len(),
            0 <= j <= n,
            registry_model(m) == overlaid(
                builtin_registry(builtin_interpreters().len() as int),
                registry_model(*overrides),
                j as int,
            ),
        decreases n - j,
    {
        let key = overrides.key_at(j).clone();
        let value = overrides.value_at(j).clone();
        store(&mut m, key, value);
        j = j + 1;
    }
    m
}

fn store(m: &mut OrderedMap<Interpreter>, key: String, value: Interpreter)
    ensures
        registry_model(*final(m)) == registry_model(*old(m)).put(key@, value@),
{
    proof {
        m.lemma_same_length();
        if m.has(key@) {
            lemma_position_of_present(m.keys(), key@);
        }
    }
    let ghost before = registry_model(*m);
    let ghost known = m.has(key@);
    let ghost position = m.position(key@);
    m.insert(key, value);
    proof {
        m.lemma_same_length();
        if known {
            assert(registry_model(*m).values =~= before.values.update(position, value@));
        } else {
            assert(registry_model(*m).values =~= before.values.push(value@));
        }
    }
}

} // verus!
