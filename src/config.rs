//! Runtime configuration: which command runs a language, and how the code reaches it.
use vstd::prelude::*;
use crate::error::Error;
use crate::text::words;

verus! {

/// How the code of a block is handed to its runtime.
#[derive(Debug, Clone, Copy, PartialEq, Eq, Structural)]
pub enum ExecutionMode {
    /// The code is written to the child's standard input.
    Stdin,
    /// The code is written to a temporary file whose path is the last argument.
    File,
    /// The code itself is the last argument.
    Arg,
}

impl Default for ExecutionMode {
    fn default() -> (r: Self)
        ensures
            r == ExecutionMode::Stdin,
    {
        ExecutionMode::Stdin
    }
}

/// The execution mode named `name`: `stdin`, `file` or `arg`.
pub open spec fn mode_named(name: Seq<char>) -> Option<ExecutionMode> {
    if name == "stdin"@ {
        Some(ExecutionMode::Stdin)
    } else if name == "file"@ {
        Some(ExecutionMode::File)
    } else if name == "arg"@ {
        Some(ExecutionMode::Arg)
    } else {
        None
    }
}

impl ExecutionMode {
    /// The execution mode named `name` (`stdin`, `file` or `arg`); any other name is a
    /// `Config` error.
    pub fn from_name(name: &str) -> (r: Result<ExecutionMode, Error>)
        ensures
            match mode_named(name@) {
                Some(m) => r == Ok::<ExecutionMode, Error>(m),
                None => r matches Err(e) && e is Config,
            },
    {
        let n = String::from_str(name);
        if n == String::from_str("stdin") {
            Ok(ExecutionMode::Stdin)
        } else if n == String::from_str("file") {
            Ok(ExecutionMode::File)
        } else if n == String::from_str("arg") {
            Ok(ExecutionMode::Arg)
        } else {
            let mut msg = String::from_str("Invalid execution mode '");
            msg.append(name);
            msg.append("': expected stdin, file or arg");
            Err(Error::Config(msg))
        }
    }
}

/// The runtime of one language: a bare command, or a command with its execution mode.
#[derive(Debug, Clone, PartialEq)]
pub enum RuntimeConfig {
    /// A command whose code is delivered on standard input.
    Simple(String),
    /// A command with an explicit execution mode.
    Detailed { command: String, execution_mode: ExecutionMode },
}

impl RuntimeConfig {
    /// The command line of this runtime.
    pub open spec fn spec_command(&self) -> Seq<char> {
        match self {
            RuntimeConfig::Simple(cmd) => cmd@,
            RuntimeConfig::Detailed { command, .. } => command@,
        }
    }

    /// The execution mode of this runtime; a bare command uses standard input.
    pub open spec fn spec_mode(&self) -> ExecutionMode {
        match self {
            RuntimeConfig::Simple(_) => ExecutionMode::Stdin,
            RuntimeConfig::Detailed { execution_mode, .. } => *execution_mode,
        }
    }

    /// Returns the command string of the runtime.
    pub fn command(&self) -> (r: &str)
        ensures
            r@ == self.spec_command(),
    {
        match self {
            RuntimeConfig::Simple(cmd) => cmd.as_str(),
            RuntimeConfig::Detailed { command, .. } => command.as_str(),
        }
    }

    /// Returns the execution mode of the runtime.
    pub fn execution_mode(&self) -> (r: ExecutionMode)
        ensures
            r == self.spec_mode(),
    {
        match self {
            RuntimeConfig::Simple(_) => ExecutionMode::default(),
            RuntimeConfig::Detailed { execution_mode, .. } => *execution_mode,
        }
    }
}

/// The runtime that `entries` gives `lang`, as its command and execution mode: the last
/// entry for `lang` wins.
pub open spec fn resolve_in(entries: Seq<(String, RuntimeConfig)>, lang: Seq<char>) -> Option<
    (Seq<char>, ExecutionMode),
>
    decreases entries.len(),
{
    if entries.len() == 0 {
        None
    } else if entries.last().0@ == lang {
        Some((entries.last().1.spec_command(), entries.last().1.spec_mode()))
    } else {
        resolve_in(entries.drop_last(), lang)
    }
}

/// The index of the first `:` in `s`, if any.
pub open spec fn first_colon(s: Seq<char>) -> Option<int>
    decreases s.len(),
{
    if s.len() == 0 {
        None
    } else if s[0] == ':' {
        Some(0)
    } else {
        match first_colon(s.drop_first()) {
            Some(i) => Some(i + 1),
            None => None,
        }
    }
}

/// A runtime override `lang:command`, split at its first `:`.
pub open spec fn override_parts(s: Seq<char>) -> Option<(Seq<char>, Seq<char>)> {
    match first_colon(s) {
        Some(i) => Some((s.take(i), s.skip(i + 1))),
        None => None,
    }
}

/// The runtime of `lang` after the overrides `pairs` (language and command, in order)
/// were applied over `base`, each with mode `mode`.
pub open spec fn resolve_after(
    base: Config,
    pairs: Seq<(Seq<char>, Seq<char>)>,
    mode: ExecutionMode,
    lang: Seq<char>,
) -> Option<(Seq<char>, ExecutionMode)>
    decreases pairs.len(),
{
    if pairs.len() == 0 {
        base.resolve(lang)
    } else if pairs.last().0 == lang {
        Some((pairs.last().1, mode))
    } else {
        resolve_after(base, pairs.drop_last(), mode, lang)
    }
}

/// The first word of a command, or the whole command where it has none.
pub open spec fn binary_of(command: Seq<char>) -> Seq<char> {
    if words(command).len() > 0 {
        words(command)[0]
    } else {
        command
    }
}

/// The message for a runtime whose program is not found.
pub open spec fn missing_runtime_message(binary: Seq<char>, lang: Seq<char>) -> Seq<char> {
    "Runtime '"@ + binary + "' for language '"@ + lang + "' not found in PATH"@
}

/// The first entry whose program was not found, as its program and language.
pub open spec fn first_missing(entries: Seq<(String, RuntimeConfig)>, found: Seq<bool>) -> Option<
    (Seq<char>, Seq<char>),
>
    decreases entries.len(),
{
    if entries.len() == 0 || found.len() == 0 {
        None
    } else if !found[0] {
        Some((binary_of(entries[0].1.spec_command()), entries[0].0@))
    } else {
        first_missing(entries.drop_first(), found.drop_first())
    }
}

/// Where the last entry for `lang` stands, it decides what `resolve_in` gives.
proof fn lemma_resolve_at(entries: Seq<(String, RuntimeConfig)>, lang: Seq<char>, i: int)
    requires
        0 <= i < entries.len(),
        entries[i].0@ == lang,
        forall|j: int| i < j < entries.len() ==> entries[j].0@ != lang,
    ensures
        resolve_in(entries, lang) == Some((entries[i].1.spec_command(), entries[i].1.spec_mode())),
    decreases entries.len(),
{
    if i < entries.len() - 1 {
        lemma_resolve_at(entries.drop_last(), lang, i);
    }
}

/// Where no entry is for `lang`, `resolve_in` gives nothing.
proof fn lemma_resolve_none(entries: Seq<(String, RuntimeConfig)>, lang: Seq<char>)
    requires
        forall|j: int| 0 <= j < entries.len() ==> entries[j].0@ != lang,
    ensures
        resolve_in(entries, lang) is None,
    decreases entries.len(),
{
    if entries.len() > 0 {
        lemma_resolve_none(entries.drop_last(), lang);
    }
}

/// Replacing the last entry for a tag by another entry for it changes that tag's
/// runtime alone.
proof fn lemma_resolve_replace(
    entries: Seq<(String, RuntimeConfig)>,
    i: int,
    entry: (String, RuntimeConfig),
    lang: Seq<char>,
)
    requires
        0 <= i < entries.len(),
        entries[i].0@ == entry.0@,
        forall|j: int| i < j < entries.len() ==> entries[j].0@ != entry.0@,
    ensures
        resolve_in(entries.update(i, entry), lang) == if lang == entry.0@ {
            Some((entry.1.spec_command(), entry.1.spec_mode()))
        } else {
            resolve_in(entries, lang)
        },
    decreases entries.len(),
{
    let updated = entries.update(i, entry);
    if lang == entry.0@ {
        lemma_resolve_at(updated, lang, i);
    } else if i < entries.len() - 1 {
        assert(updated.drop_last() =~= entries.drop_last().update(i, entry));
        lemma_resolve_replace(entries.drop_last(), i, entry, lang);
    } else {
        assert(updated.drop_last() =~= entries.drop_last());
    }
}

/// The built-in runtimes: language tag, command and execution mode.
pub open spec fn builtin_runtimes() -> Seq<(Seq<char>, Seq<char>, ExecutionMode)> {
    seq![
        ("bash"@, "bash"@, ExecutionMode::Stdin),
        ("sh"@, "sh"@, ExecutionMode::Stdin),
        ("python"@, "python3"@, ExecutionMode::Stdin),
        ("ruby"@, "ruby"@, ExecutionMode::Stdin),
        ("node"@, "node"@, ExecutionMode::Stdin),
        ("javascript"@, "node"@, ExecutionMode::Stdin),
        ("js"@, "node"@, ExecutionMode::Stdin),
        ("php"@, "php"@, ExecutionMode::Stdin),
        ("perl"@, "perl"@, ExecutionMode::Stdin),
        ("jq"@, "jq"@, ExecutionMode::Stdin),
        ("go"@, "go run"@, ExecutionMode::File),
        ("golang"@, "go run"@, ExecutionMode::File),
        ("mq"@, "mq"@, ExecutionMode::Arg),
    ]
}

/// The runtime that the table `t` of tags, commands and modes gives `lang`: the last
/// row for `lang` wins.
pub open spec fn table_resolve(t: Seq<(Seq<char>, Seq<char>, ExecutionMode)>, lang: Seq<char>) -> Option<
    (Seq<char>, ExecutionMode),
>
    decreases t.len(),
{
    if t.len() == 0 {
        None
    } else if t.last().0 == lang {
        Some((t.last().1, t.last().2))
    } else {
        table_resolve(t.drop_last(), lang)
    }
}

/// Entries that hold a table row by row resolve every tag as the table does.
proof fn lemma_resolve_as_table(
    entries: Seq<(String, RuntimeConfig)>,
    t: Seq<(Seq<char>, Seq<char>, ExecutionMode)>,
    lang: Seq<char>,
)
    requires
        entries.len() == t.len(),
        forall|i: int|
            0 <= i < entries.len() ==> {
                &&& #[trigger] entries[i].0@ == t[i].0
                &&& entries[i].1.spec_command() == t[i].1
                &&& entries[i].1.spec_mode() == t[i].2
            },
    ensures
        resolve_in(entries, lang) == table_resolve(t, lang),
    decreases entries.len(),
{
    if entries.len() > 0 {
        let e = entries.drop_last();
        let u = t.drop_last();
        assert forall|i: int| 0 <= i < e.len() implies {
            &&& #[trigger] e[i].0@ == u[i].0
            &&& e[i].1.spec_command() == u[i].1
            &&& e[i].1.spec_mode() == u[i].2
        } by {
            assert(e[i] == entries[i]);
            assert(u[i] == t[i]);
            assert(entries[i].0@ == t[i].0);
        }
        assert(entries.last().0@ == t.last().0);
        lemma_resolve_as_table(e, u, lang);
    }
}

/// The built-in language tags are pairwise different.
proof fn lemma_builtin_tags_distinct()
    ensures
        forall|i: int, j: int|
            0 <= i < j < builtin_runtimes().len() ==> #[trigger] builtin_runtimes()[i].0
                != #[trigger] builtin_runtimes()[j].0,
{
    let t = builtin_runtimes();
    reveal_strlit("bash");
    reveal_strlit("sh");
    reveal_strlit("python");
    reveal_strlit("ruby");
    reveal_strlit("node");
    reveal_strlit("javascript");
    reveal_strlit("js");
    reveal_strlit("php");
    reveal_strlit("perl");
    reveal_strlit("jq");
    reveal_strlit("go");
    reveal_strlit("golang");
    reveal_strlit("mq");
    assert(t[0].0 == "bash"@);
    assert(t[1].0 == "sh"@);
    assert(t[2].0 == "python"@);
    assert(t[3].0 == "ruby"@);
    assert(t[4].0 == "node"@);
    assert(t[5].0 == "javascript"@);
    assert(t[6].0 == "js"@);
    assert(t[7].0 == "php"@);
    assert(t[8].0 == "perl"@);
    assert(t[9].0 == "jq"@);
    assert(t[10].0 == "go"@);
    assert(t[11].0 == "golang"@);
    assert(t[12].0 == "mq"@);
    assert forall|i: int, j: int| 0 <= i < j < t.len() implies #[trigger] t[i].0 != #[trigger] t[j].0 by {
        assert(t[i].0.len() != t[j].0.len() || t[i].0[0] != t[j].0[0] || t[i].0[1] != t[j].0[1]);
    }
}

/// Whether `entries` holds the built-in runtimes, one entry each, in their order: a
/// bare command for each standard-input row, a detailed entry for the others.
pub open spec fn holds_builtin_runtimes(entries: Seq<(String, RuntimeConfig)>) -> bool {
    &&& entries.len() == builtin_runtimes().len()
    &&& forall|i: int|
        0 <= i < entries.len() ==> {
            &&& #[trigger] entries[i].0@ == builtin_runtimes()[i].0
            &&& entries[i].1.spec_command() == builtin_runtimes()[i].1
            &&& entries[i].1.spec_mode() == builtin_runtimes()[i].2
            &&& (entries[i].1 is Simple <==> builtin_runtimes()[i].2 == ExecutionMode::Stdin)
        }
}

/// Whether no two entries of `entries` share a language tag.
pub open spec fn has_unique_tags(entries: Seq<(String, RuntimeConfig)>) -> bool {
    forall|i: int, j: int| 0 <= i < j < entries.len() ==> #[trigger] entries[i].0@ != #[trigger] entries[j].0@
}

/// Configuration of the task runner.
#[derive(Debug, Clone)]
pub struct Config {
    /// Runtime of each language tag; where a tag occurs twice, the later entry wins.
    pub runtimes: Vec<(String, RuntimeConfig)>,
    /// Depth of the headings that name tasks.
    pub heading_level: u8,
}

/// An entry that runs `lang` with `command`, code on standard input.
fn simple_entry(lang: &str, command: &str) -> (r: (String, RuntimeConfig))
    ensures
        r.0@ == lang@,
        r.1.spec_command() == command@,
        r.1.spec_mode() == ExecutionMode::Stdin,
        r.1 is Simple,
{
    (String::from_str(lang), RuntimeConfig::Simple(String::from_str(command)))
}

/// An entry that runs `lang` with `command` in mode `mode`.
fn detailed_entry(lang: &str, command: &str, mode: ExecutionMode) -> (r: (String, RuntimeConfig))
    ensures
        r.0@ == lang@,
        r.1.spec_command() == command@,
        r.1.spec_mode() == mode,
        r.1 is Detailed,
{
    (
        String::from_str(lang),
        RuntimeConfig::Detailed { command: String::from_str(command), execution_mode: mode },
    )
}

/// The built-in runtime table.
pub fn default_runtimes() -> (r: Vec<(String, RuntimeConfig)>)
    ensures
        holds_builtin_runtimes(r@),
        has_unique_tags(r@),
{
    let mut runtimes: Vec<(String, RuntimeConfig)> = Vec::new();
    // Languages whose code goes to standard input.
    runtimes.push(simple_entry("bash", "bash"));
    runtimes.push(simple_entry("sh", "sh"));
    runtimes.push(simple_entry("python", "python3"));
    runtimes.push(simple_entry("ruby", "ruby"));
    runtimes.push(simple_entry("node", "node"));
    runtimes.push(simple_entry("javascript", "node"));
    runtimes.push(simple_entry("js", "node"));
    runtimes.push(simple_entry("php", "php"));
    runtimes.push(simple_entry("perl", "perl"));
    runtimes.push(simple_entry("jq", "jq"));
    // Go needs a source file.
    runtimes.push(detailed_entry("go", "go run", ExecutionMode::File));
    runtimes.push(detailed_entry("golang", "go run", ExecutionMode::File));
    // mq takes its program as an argument.
    runtimes.push(detailed_entry("mq", "mq", ExecutionMode::Arg));
    proof {
        lemma_builtin_tags_distinct();
        assert forall|i: int, j: int| 0 <= i < j < runtimes@.len() implies #[trigger] runtimes@[i].0@
            != #[trigger] runtimes@[j].0@ by {
            assert(runtimes@[i].0@ == builtin_runtimes()[i].0);
            assert(runtimes@[j].0@ == builtin_runtimes()[j].0);
        }
    }
    runtimes
}

/// The default depth of task headings.
pub fn default_heading_level() -> (r: u8)
    ensures
        r == 2,
{
    2
}

impl Config {
    /// The command and execution mode configured for `lang`, if any.
    pub open spec fn resolve(&self, lang: Seq<char>) -> Option<(Seq<char>, ExecutionMode)> {
        resolve_in(self.runtimes@, lang)
    }

    /// The index of the entry that decides the runtime of `lang`.
    fn position_of(&self, lang: &str) -> (r: Option<usize>)
        ensures
            match r {
                Some(i) => {
                    &&& i < self.runtimes@.len()
                    &&& self.runtimes@[i as int].0@ == lang@
                    &&& self.resolve(lang@) == Some(
                        (
                            self.runtimes@[i as int].1.spec_command(),
                            self.runtimes@[i as int].1.spec_mode(),
                        ),
                    )
                    &&& forall|j: int|
                        i < j < self.runtimes@.len() ==> self.runtimes@[j].0@ != lang@
                },
                None => {
                    &&& self.resolve(lang@) is None
                    &&& forall|j: int| 0 <= j < self.runtimes@.len() ==> self.runtimes@[j].0@ != lang@
                },
            },
    {
        let key = String::from_str(lang);
        let mut k: usize = self.runtimes.len();
        while k > 0
            invariant
                k <= self.runtimes@.len(),
                key@ == lang@,
                forall|j: int| k <= j < self.runtimes@.len() ==> self.runtimes@[j].0@ != lang@,
            decreases k,
        {
            k = k - 1;
            if self.runtimes[k].0 == key {
                proof {
                    lemma_resolve_at(self.runtimes@, lang@, k as int);
                }
                return Some(k);
            }
        }
        proof {
            lemma_resolve_none(self.runtimes@, lang@);
        }
        None
    }

    /// Returns the command configured for `lang`, if any.
    pub fn get_runtime(&self, lang: &str) -> (r: Option<&str>)
        ensures
            match self.resolve(lang@) {
                Some(rt) => r is Some && r->0@ == rt.0,
                None => r is None,
            },
    {
        match self.position_of(lang) {
            Some(i) => Some(self.runtimes[i].1.command()),
            None => None,
        }
    }

    /// Returns the execution mode configured for `lang`; an unconfigured language
    /// reads as standard input.
    pub fn get_execution_mode(&self, lang: &str) -> (r: ExecutionMode)
        ensures
            r == match self.resolve(lang@) {
                Some(rt) => rt.1,
                None => ExecutionMode::Stdin,
            },
    {
        match self.position_of(lang) {
            Some(i) => self.runtimes[i].1.execution_mode(),
            None => ExecutionMode::default(),
        }
    }

    /// Whether `lang` has a configured runtime.
    pub fn has_runtime(&self, lang: &str) -> (r: bool)
        ensures
            r == self.resolve(lang@) is Some,
    {
        self.position_of(lang).is_some()
    }

    /// Gives `lang` the runtime `runtime`, replacing the one it had.
    pub fn set_runtime(&mut self, lang: String, runtime: RuntimeConfig)
        ensures
            final(self).heading_level == old(self).heading_level,
            has_unique_tags(old(self).runtimes@) ==> has_unique_tags(final(self).runtimes@),
            forall|l: Seq<char>|
                #[trigger] final(self).resolve(l) == if l == lang@ {
                    Some((runtime.spec_command(), runtime.spec_mode()))
                } else {
                    old(self).resolve(l)
                },
    {
        match self.position_of(lang.as_str()) {
            Some(i) => {
                let ghost before = self.runtimes@;
                let entry = (lang, runtime);
                self.runtimes.set(i, entry);
                proof {
                    assert forall|l: Seq<char>| #[trigger]
                        resolve_in(self.runtimes@, l) == if l == entry.0@ {
                            Some((entry.1.spec_command(), entry.1.spec_mode()))
                        } else {
                            resolve_in(before, l)
                        } by {
                        lemma_resolve_replace(before, i as int, entry, l);
                    }
                }
            },
            None => {
                let ghost before = self.runtimes@;
                self.runtimes.push((lang, runtime));
                assert(self.runtimes@.drop_last() =~= before);
                assert(forall|j: int| 0 <= j < before.len() ==> self.runtimes@[j] == before[j]);
            },
        }
    }
}

impl Config {
    /// A configuration from the fields of a configuration document: a missing
    /// runtime table is the built-in one, a missing heading level is 2.
    pub fn from_parts(runtimes: Option<Vec<(String, RuntimeConfig)>>, heading_level: Option<u8>) -> (r:
        Config)
        ensures
            match runtimes {
                Some(v) => r.runtimes == v,
                None => holds_builtin_runtimes(r.runtimes@) && has_unique_tags(r.runtimes@),
            },
            r.heading_level == match heading_level {
                Some(l) => l,
                None => 2u8,
            },
    {
        let runtimes = match runtimes {
            Some(v) => v,
            None => default_runtimes(),
        };
        let heading_level = match heading_level {
            Some(l) => l,
            None => default_heading_level(),
        };
        Config { runtimes, heading_level }
    }

    /// Applies the runtime overrides `overrides`, each `lang:command`, in order: each
    /// gives its language its command, with execution mode `mode`, or standard input
    /// where `mode` is `None`. Where one of them has no `:`, nothing changes and the
    /// result is a `Config` error.
    pub fn apply_runtime_overrides(&mut self, overrides: &[String], mode: Option<ExecutionMode>) -> (r:
        Result<(), Error>)
        ensures
            final(self).heading_level == old(self).heading_level,
            has_unique_tags(old(self).runtimes@) ==> has_unique_tags(final(self).runtimes@),
            (forall|i: int|
                0 <= i < overrides@.len() ==> override_parts(#[trigger] overrides@[i]@) is Some)
                ==> {
                &&& r is Ok
                &&& forall|l: Seq<char>|
                    #[trigger] final(self).resolve(l) == resolve_after(
                        *old(self),
                        overrides@.map_values(|o: String| override_parts(o@)->0),
                        match mode {
                            Some(m) => m,
                            None => ExecutionMode::Stdin,
                        },
                        l,
                    )
            },
            !(forall|i: int|
                0 <= i < overrides@.len() ==> override_parts(#[trigger] overrides@[i]@) is Some)
                ==> {
                &&& r matches Err(e) && e is Config
                &&& *final(self) == *old(self)
            },
    {
        let ghost effective = match mode {
            Some(m) => m,
            None => ExecutionMode::Stdin,
        };
        let ghost pairs = overrides@.map_values(|o: String| override_parts(o@)->0);
        let mut parsed: Vec<(String, String)> = Vec::new();
        let mut i: usize = 0;
        while i < overrides.len()
            invariant
                i <= overrides@.len(),
                parsed@.len() == i,
                forall|j: int| 0 <= j < i ==> override_parts(#[trigger] overrides@[j]@) is Some,
                forall|j: int|
                    0 <= j < i ==> (#[trigger] parsed@[j].0@, parsed@[j].1@) == override_parts(
                        overrides@[j]@,
                    )->0,
            decreases overrides@.len() - i,
        {
            match split_override(overrides[i].as_str()) {
                Some(pair) => {
                    parsed.push(pair);
                },
                None => {
                    let mut msg = String::from_str("Invalid runtime override '");
                    msg.append(overrides[i].as_str());
                    msg.append("': expected LANG:COMMAND");
                    return Err(Error::Config(msg));
                },
            }
            i = i + 1;
        }
        let ghost base = *self;
        let mut k: usize = 0;
        while k < parsed.len()
            invariant
                k <= parsed@.len(),
                parsed@.len() == overrides@.len(),
                pairs.len() == overrides@.len(),
                self.heading_level == base.heading_level,
                has_unique_tags(base.runtimes@) ==> has_unique_tags(self.runtimes@),
                effective == match mode {
                    Some(m) => m,
                    None => ExecutionMode::Stdin,
                },
                forall|j: int| 0 <= j < parsed@.len() ==> (#[trigger] parsed@[j].0@, parsed@[j].1@) == pairs[j],
                forall|l: Seq<char>|
                    #[trigger] self.resolve(l) == resolve_after(base, pairs.take(k as int), effective, l),
            decreases parsed@.len() - k,
        {
            let lang = parsed[k].0.clone();
            let command = parsed[k].1.clone();
            let runtime = match mode {
                Some(m) => RuntimeConfig::Detailed { command, execution_mode: m },
                None => RuntimeConfig::Simple(command),
            };
            assert(runtime.spec_mode() == effective);
            assert(pairs[k as int] == (lang@, runtime.spec_command()));
            let ghost prior = *self;
            self.set_runtime(lang, runtime);
            proof {
                let next = pairs.take(k as int + 1);
                assert(next.drop_last() =~= pairs.take(k as int));
                assert(next.last() == pairs[k as int]);
                assert forall|l: Seq<char>| #[trigger]
                    self.resolve(l) == resolve_after(base, next, effective, l) by {
                    assert(prior.resolve(l) == resolve_after(base, pairs.take(k as int), effective, l));
                }
            }
            k = k + 1;
        }
        assert(pairs.take(parsed@.len() as int) =~= pairs);
        Ok(())
    }

    /// The result of checking the runtimes, given for each entry whether its program
    /// was found: the first entry whose program was not found is a `Config` error.
    pub fn check_runtimes(&self, found: &[bool]) -> (r: Result<(), Error>)
        requires
            found@.len() == self.runtimes@.len(),
        ensures
            match first_missing(self.runtimes@, found@) {
                None => r is Ok,
                Some((binary, lang)) => r matches Err(Error::Config(msg)) && msg@
                    == missing_runtime_message(binary, lang),
            },
    {
        let mut i: usize = 0;
        assert(self.runtimes@.skip(0) =~= self.runtimes@);
        assert(found@.skip(0) =~= found@);
        while i < found.len()
            invariant
                i <= found@.len(),
                found@.len() == self.runtimes@.len(),
                first_missing(self.runtimes@, found@) == first_missing(
                    self.runtimes@.skip(i as int),
                    found@.skip(i as int),
                ),
            decreases found@.len() - i,
        {
            assert(self.runtimes@.skip(i as int).drop_first() =~= self.runtimes@.skip(i as int + 1));
            assert(found@.skip(i as int).drop_first() =~= found@.skip(i as int + 1));
            if !found[i] {
                let lang = &self.runtimes[i].0;
                let binary = binary_name(self.runtimes[i].1.command());
                let mut msg = String::from_str("Runtime '");
                msg.append(binary.as_str());
                msg.append("' for language '");
                msg.append(lang.as_str());
                msg.append("' not found in PATH");
                return Err(Error::Config(msg));
            }
            i = i + 1;
        }
        Ok(())
    }

    /// Checks that the program of every configured runtime is found on the search
    /// path; the first one that is not is a `Config` error.
    pub fn validate_runtimes(&self) -> (r: Result<(), Error>)
        ensures
            exists|found: Seq<bool>|
                found.len() == self.runtimes@.len() && match #[trigger] first_missing(self.runtimes@, found) {
                    None => r is Ok,
                    Some((binary, lang)) => r matches Err(Error::Config(msg)) && msg@
                        == missing_runtime_message(binary, lang),
                },
    {
        let mut found: Vec<bool> = Vec::new();
        let mut i: usize = 0;
        while i < self.runtimes.len()
            invariant
                i <= self.runtimes@.len(),
                found@.len() == i,
            decreases self.runtimes@.len() - i,
        {
            let binary = binary_name(self.runtimes[i].1.command());
            found.push(on_search_path(binary.as_str()));
            i = i + 1;
        }
        self.check_runtimes(found.as_slice())
    }
}

/// Relies on `which::which`: whether a program named `name` is found on the search
/// path. What it finds depends on the environment and the file system, so nothing is
/// stated of the answer.
#[verifier::external_body]
pub(crate) fn on_search_path(name: &str) -> (r: bool) {
    which::which(name).is_ok()
}

/// The first word of `command`, or the whole command where it has none.
fn binary_name(command: &str) -> (r: String)
    ensures
        r@ == binary_of(command@),
{
    let parts = crate::text::split_words(command);
    if parts.len() > 0 {
        parts[0].clone()
    } else {
        String::from_str(command)
    }
}

/// Splits `s` at its first `:`.
fn split_override(s: &str) -> (r: Option<(String, String)>)
    ensures
        match override_parts(s@) {
            Some(p) => r matches Some(q) && q.0@ == p.0 && q.1@ == p.1,
            None => r is None,
        },
{
    let n = s.unicode_len();
    let mut i: usize = 0;
    while i < n
        invariant
            n == s@.len(),
            i <= n,
            forall|j: int| 0 <= j < i ==> s@[j] != ':',
        decreases n - i,
    {
        if s.get_char(i) == ':' {
            proof {
                lemma_first_colon_at(s@, i as int);
            }
            let lang = String::from_str(s.substring_char(0, i));
            let command = String::from_str(s.substring_char(i + 1, n));
            assert(s@.take(i as int) =~= s@.subrange(0, i as int));
            assert(s@.skip(i as int + 1) =~= s@.subrange(i as int + 1, n as int));
            return Some((lang, command));
        }
        i = i + 1;
    }
    proof {
        lemma_first_colon_at(s@, n as int);
    }
    None
}

/// Where no `:` stands before `i` and one stands at `i` (or `i` is the end),
/// `first_colon` gives `i` (or nothing).
proof fn lemma_first_colon_at(s: Seq<char>, i: int)
    requires
        0 <= i <= s.len(),
        forall|j: int| 0 <= j < i ==> s[j] != ':',
        i < s.len() ==> s[i] == ':',
    ensures
        first_colon(s) == if i < s.len() {
            Some(i)
        } else {
            None::<int>
        },
    decreases i,
{
    if i > 0 {
        let rest = s.drop_first();
        assert forall|j: int| 0 <= j < i - 1 implies rest[j] != ':' by {
            assert(rest[j] == s[j + 1]);
        }
        lemma_first_colon_at(rest, i - 1);
    }
}

impl Default for Config {
    fn default() -> (r: Self)
        ensures
            holds_builtin_runtimes(r.runtimes@),
            has_unique_tags(r.runtimes@),
            forall|lang: Seq<char>| #[trigger]
                r.resolve(lang) == table_resolve(builtin_runtimes(), lang),
            r.heading_level == 2,
    {
        let r = Config { runtimes: default_runtimes(), heading_level: default_heading_level() };
        assert forall|lang: Seq<char>| #[trigger]
            r.resolve(lang) == table_resolve(builtin_runtimes(), lang) by {
            lemma_resolve_as_table(r.runtimes@, builtin_runtimes(), lang);
        }
        r
    }
}

} // verus!
