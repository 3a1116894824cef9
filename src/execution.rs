//! The decisions of the execution engine: how a code block is to be started, with
//! which environment, and what a section does after each block. Starting the
//! processes is the caller's part.
use vstd::prelude::*;
use crate::config::{Config, ExecutionMode};
use crate::error::Error;
use crate::runner::{Runner, Section};
use crate::text::{decimal, decimal_string, join_with_space, joined, split_words, views, words};

verus! {

/// The name of the variable that holds task argument `i`.
pub open spec fn arg_var_name(i: nat) -> Seq<char> {
    "MX_ARG_"@ + decimal(i)
}

/// The variables a child gets from the task arguments `args`: none for no arguments;
/// else `MX_ARGS`, the arguments joined by single spaces, then `MX_ARG_i` for each.
pub open spec fn task_env(args: Seq<Seq<char>>) -> Seq<(Seq<char>, Seq<char>)> {
    if args.len() == 0 {
        seq![]
    } else {
        seq![("MX_ARGS"@, joined(args, " "@))] + Seq::new(
            args.len(),
            |i: int| (arg_var_name(i as nat), args[i]),
        )
    }
}

/// The views of a sequence of name and value pairs.
pub open spec fn pair_views(v: Seq<(String, String)>) -> Seq<(Seq<char>, Seq<char>)> {
    v.map_values(|p: (String, String)| (p.0@, p.1@))
}

/// The extension of the temporary source file for language `lang`.
pub open spec fn file_extension(lang: Seq<char>) -> Seq<char> {
    if lang == "go"@ || lang == "golang"@ {
        "go"@
    } else if lang == "python"@ {
        "py"@
    } else if lang == "ruby"@ {
        "rb"@
    } else if lang == "javascript"@ || lang == "js"@ {
        "js"@
    } else if lang == "typescript"@ || lang == "ts"@ {
        "ts"@
    } else {
        lang
    }
}

/// Whether `s` reads `t`.
fn is_text(s: &String, t: &str) -> (r: bool)
    ensures
        r == (s@ == t@),
{
    *s == String::from_str(t)
}

/// The extension of the temporary source file for language `lang`.
pub fn file_extension_for(lang: &str) -> (r: String)
    ensures
        r@ == file_extension(lang@),
{
    let l = String::from_str(lang);
    if is_text(&l, "go") || is_text(&l, "golang") {
        String::from_str("go")
    } else if is_text(&l, "python") {
        String::from_str("py")
    } else if is_text(&l, "ruby") {
        String::from_str("rb")
    } else if is_text(&l, "javascript") || is_text(&l, "js") {
        String::from_str("js")
    } else if is_text(&l, "typescript") || is_text(&l, "ts") {
        String::from_str("ts")
    } else {
        l
    }
}

/// The name of the temporary source file made at time stamp `stamp`.
pub open spec fn temp_file_name_text(stamp: nat, extension: Seq<char>) -> Seq<char> {
    "mx_temp_"@ + decimal(stamp) + "."@ + extension
}

/// The name of the temporary source file made at time stamp `stamp` (nanoseconds
/// since the Unix epoch), with extension `extension`.
pub fn temp_file_name(stamp: u128, extension: &str) -> (r: String)
    ensures
        r@ == temp_file_name_text(stamp as nat, extension@),
{
    let mut name = String::from_str("mx_temp_");
    let digits = decimal_string(stamp);
    name.append(digits.as_str());
    name.append(".");
    name.append(extension);
    name
}

/// Source code to be written to a temporary file.
#[derive(Debug, Clone)]
pub struct SourceFile {
    /// The file name's extension, without the dot.
    pub extension: String,
    /// The file's contents.
    pub contents: String,
}

/// How a code block is to be started. The child's standard output and error are the
/// parent's.
#[derive(Debug, Clone)]
pub struct Invocation {
    /// The execution mode that was chosen.
    pub mode: ExecutionMode,
    /// The program to start.
    pub program: String,
    /// Its arguments; in `File` mode the caller appends the temporary file's path.
    pub args: Vec<String>,
    /// What to write to the child's standard input, which is then closed; where this
    /// is `None`, the child inherits the parent's standard input.
    pub stdin: Option<String>,
    /// The temporary file to write before the start and to remove after the child
    /// exits, whatever its status.
    pub source_file: Option<SourceFile>,
    /// Variables added to the inherited environment.
    pub env: Vec<(String, String)>,
}

/// An invocation as plain values.
pub struct InvocationView {
    pub mode: ExecutionMode,
    pub program: Seq<char>,
    pub args: Seq<Seq<char>>,
    pub stdin: Option<Seq<char>>,
    pub source_file: Option<(Seq<char>, Seq<char>)>,
    pub env: Seq<(Seq<char>, Seq<char>)>,
}

impl View for Invocation {
    type V = InvocationView;

    open spec fn view(&self) -> InvocationView {
        InvocationView {
            mode: self.mode,
            program: self.program@,
            args: views(self.args@),
            stdin: match self.stdin {
                Some(s) => Some(s@),
                None => None,
            },
            source_file: match self.source_file {
                Some(f) => Some((f.extension@, f.contents@)),
                None => None,
            },
            env: pair_views(self.env@),
        }
    }
}

/// How the runtime `runtime` (a command line and a mode) starts `code` of language
/// `lang` with task arguments `args`: the command's first word is the program and the
/// others its leading arguments; nothing where the command has no word.
pub open spec fn invocation_for(
    runtime: (Seq<char>, ExecutionMode),
    lang: Seq<char>,
    code: Seq<char>,
    args: Seq<Seq<char>>,
) -> Option<InvocationView> {
    let parts = words(runtime.0);
    if parts.len() == 0 {
        None
    } else {
        let fixed = parts.drop_first();
        Some(
            match runtime.1 {
                ExecutionMode::Stdin => InvocationView {
                    mode: ExecutionMode::Stdin,
                    program: parts[0],
                    args: fixed,
                    stdin: Some(code),
                    source_file: None,
                    env: task_env(args),
                },
                ExecutionMode::Arg => InvocationView {
                    mode: ExecutionMode::Arg,
                    program: parts[0],
                    args: fixed.push(code),
                    stdin: None,
                    source_file: None,
                    env: task_env(args),
                },
                ExecutionMode::File => InvocationView {
                    mode: ExecutionMode::File,
                    program: parts[0],
                    args: fixed,
                    stdin: None,
                    source_file: Some((file_extension(lang), code)),
                    env: task_env(args),
                },
            },
        )
    }
}

/// How `config` starts `code` of language `lang`; nothing where `lang` has no runtime
/// or its command has no word.
pub open spec fn plan_for(config: Config, lang: Seq<char>, code: Seq<char>, args: Seq<Seq<char>>) -> Option<
    InvocationView,
> {
    match config.resolve(lang) {
        Some(runtime) => invocation_for(runtime, lang, code, args),
        None => None,
    }
}

/// Whether `e` is the error for a language without a runtime.
pub open spec fn is_runtime_not_found(e: Error, lang: Seq<char>) -> bool {
    e matches Error::RuntimeNotFound(l) && l@ == lang
}

/// The index of the first block at or after `from` whose language tag is not empty;
/// the number of blocks where there is none.
pub open spec fn first_runnable(codes: Seq<(Seq<char>, Seq<char>)>, from: int) -> int
    decreases codes.len() - from,
{
    if from >= codes.len() {
        codes.len() as int
    } else if from >= 0 && codes[from].0.len() > 0 {
        from
    } else {
        first_runnable(codes, from + 1)
    }
}

/// The code reaches the child on its standard input only.
pub open spec fn delivers_on_stdin(p: InvocationView, fixed: Seq<Seq<char>>, code: Seq<char>) -> bool {
    &&& p.stdin == Some(code)
    &&& p.source_file is None
    &&& p.args == fixed
}

/// The code reaches the child in a temporary file only, whose path the caller appends.
pub open spec fn delivers_in_file(p: InvocationView, fixed: Seq<Seq<char>>, code: Seq<char>) -> bool {
    &&& p.stdin is None
    &&& p.source_file matches Some(f) && f.1 == code
    &&& p.args == fixed
}

/// The code reaches the child as its last argument only.
pub open spec fn delivers_as_arg(p: InvocationView, fixed: Seq<Seq<char>>, code: Seq<char>) -> bool {
    &&& p.stdin is None
    &&& p.source_file is None
    &&& p.args == fixed.push(code)
}

/// Dispatch is total and its strategies exclusive: a runtime whose command has a word
/// is always started, in its own mode, with the command's first word as the program;
/// and the code reaches the child on standard input exactly in `Stdin` mode, in a
/// file exactly in `File` mode, and as the last argument exactly in `Arg` mode.
pub proof fn lemma_dispatch_exclusive(
    runtime: (Seq<char>, ExecutionMode),
    lang: Seq<char>,
    code: Seq<char>,
    args: Seq<Seq<char>>,
)
    requires
        words(runtime.0).len() > 0,
    ensures
        invocation_for(runtime, lang, code, args) matches Some(p) && {
            let fixed = words(runtime.0).drop_first();
            &&& p.mode == runtime.1
            &&& p.program == words(runtime.0)[0]
            &&& (p.mode == ExecutionMode::Stdin <==> delivers_on_stdin(p, fixed, code))
            &&& (p.mode == ExecutionMode::File <==> delivers_in_file(p, fixed, code))
            &&& (p.mode == ExecutionMode::Arg <==> delivers_as_arg(p, fixed, code))
        },
{
    let fixed = words(runtime.0).drop_first();
    assert(fixed.push(code).len() != fixed.len());
}

/// Blocks without a language tag are skipped, never started and never an error: the
/// block that a step starts, or stops on, is the first block at or after its position
/// whose tag is not empty, and every block passed over has an empty tag.
pub proof fn lemma_untagged_blocks_skipped(codes: Seq<(Seq<char>, Seq<char>)>, from: int)
    requires
        0 <= from,
    ensures
        ({
            let k = first_runnable(codes, from);
            &&& k <= codes.len()
            &&& k < codes.len() ==> from <= k && codes[k].0.len() > 0
            &&& forall|j: int| from <= j < k ==> codes[j].0.len() == 0
        }),
    decreases codes.len() - from,
{
    if from < codes.len() && codes[from].0.len() == 0 {
        lemma_untagged_blocks_skipped(codes, from + 1);
    }
}

/// What the execution of a section does next.
#[derive(Debug, Clone)]
pub enum Step {
    /// Start block `block` as `invocation`.
    Run { block: usize, invocation: Invocation },
    /// Every block has run: the section succeeded.
    Done,
    /// The section stops with this error; no further block runs.
    Stop(Error),
}

impl Runner {
    /// The variables that a child gets from the task arguments `args`.
    pub fn prepare_env_vars(args: &[String]) -> (r: Vec<(String, String)>)
        ensures
            pair_views(r@) == task_env(views(args@)),
    {
        let mut env: Vec<(String, String)> = Vec::new();
        if args.len() == 0 {
            assert(pair_views(env@) =~= task_env(views(args@)));
            return env;
        }
        env.push((String::from_str("MX_ARGS"), join_with_space(args)));
        let mut i: usize = 0;
        while i < args.len()
            invariant
                i <= args@.len(),
                args@.len() > 0,
                pair_views(env@) =~= task_env(views(args@)).take(i as int + 1),
            decreases args@.len() - i,
        {
            let mut name = String::from_str("MX_ARG_");
            let digits = decimal_string(i as u128);
            name.append(digits.as_str());
            let value = args[i].clone();
            assert(views(args@)[i as int] == value@);
            assert(task_env(views(args@))[i as int + 1] == (arg_var_name(i as nat), value@));
            let ghost before = env@;
            let ghost entry = (name@, value@);
            env.push((name, value));
            assert(pair_views(env@) =~= pair_views(before).push(entry));
            assert(pair_views(env@) =~= task_env(views(args@)).take(i as int + 2));
            i = i + 1;
        }
        assert(task_env(views(args@)).take(args@.len() as int + 1) =~= task_env(views(args@)));
        env
    }

    /// Decides how to start `code` of language `lang` with task arguments `args`. A
    /// language without a runtime, or whose command has no word, is `RuntimeNotFound`.
    pub fn plan_code_with_args(&self, lang: &str, code: &str, args: &[String]) -> (r: Result<
        Invocation,
        Error,
    >)
        ensures
            match plan_for(self.spec_config(), lang@, code@, views(args@)) {
                Some(p) => r matches Ok(inv) && inv@ == p,
                None => r matches Err(e) && is_runtime_not_found(e, lang@),
            },
    {
        let config = self.config();
        let command = match config.get_runtime(lang) {
            Some(c) => c,
            None => {
                return Err(Error::RuntimeNotFound(String::from_str(lang)));
            },
        };
        let mut parts = split_words(command);
        if parts.len() == 0 {
            return Err(Error::RuntimeNotFound(String::from_str(lang)));
        }
        let mode = config.get_execution_mode(lang);
        let ghost all = parts@;
        let program = parts.remove(0);
        assert(views(parts@) =~= views(all).drop_first());
        let env = Runner::prepare_env_vars(args);
        let code_text = String::from_str(code);
        match mode {
            ExecutionMode::Stdin => Ok(
                Invocation { mode, program, args: parts, stdin: Some(code_text), source_file: None, env },
            ),
            ExecutionMode::Arg => {
                let ghost fixed = parts@;
                parts.push(code_text);
                assert(views(parts@) =~= views(fixed).push(code@));
                Ok(Invocation { mode, program, args: parts, stdin: None, source_file: None, env })
            },
            ExecutionMode::File => {
                let source = SourceFile { extension: file_extension_for(lang), contents: code_text };
                Ok(
                    Invocation {
                        mode,
                        program,
                        args: parts,
                        stdin: None,
                        source_file: Some(source),
                        env,
                    },
                )
            },
        }
    }

    /// The next step of running `section` with task arguments `args`, from block
    /// `from` on: blocks without a language tag are skipped; the first other block is
    /// started, or the section stops if its language has no runtime.
    pub fn next_step(&self, section: &Section, from: usize, args: &[String]) -> (r: Step)
        ensures
            ({
                let codes = section@.codes;
                let k = first_runnable(codes, from as int);
                if k >= codes.len() {
                    r is Done
                } else {
                    match plan_for(self.spec_config(), codes[k].0, codes[k].1, views(args@)) {
                        Some(p) => r matches Step::Run { block, invocation } && block == k
                            && invocation@ == p,
                        None => r matches Step::Stop(e) && is_runtime_not_found(e, codes[k].0),
                    }
                }
            }),
    {
        let ghost codes = section@.codes;
        let mut i: usize = from;
        while i < section.codes.len()
            invariant
                from <= i,
                codes == section@.codes,
                first_runnable(codes, from as int) == first_runnable(codes, i as int),
            decreases section.codes@.len() - i,
        {
            let block = &section.codes[i];
            if block.lang.unicode_len() > 0 {
                return match self.plan_code_with_args(block.lang.as_str(), block.code.as_str(), args) {
                    Ok(invocation) => Step::Run { block: i, invocation },
                    Err(e) => Step::Stop(e),
                };
            }
            i = i + 1;
        }
        Step::Done
    }

    /// The step after block `block` of `section` finished: a failure stops the section
    /// with an `Execution` error carrying `outcome`'s message, so no later block runs;
    /// a success goes on with the next block.
    pub fn after_block(
        &self,
        section: &Section,
        block: usize,
        outcome: Result<(), String>,
        args: &[String],
    ) -> (r: Step)
        requires
            block < section.codes@.len(),
        ensures
            match outcome {
                Err(msg) => r matches Step::Stop(e) && e matches Error::Execution(m) && m@ == msg@,
                Ok(_) => {
                    let codes = section@.codes;
                    let k = first_runnable(codes, block + 1);
                    if k >= codes.len() {
                        r is Done
                    } else {
                        match plan_for(self.spec_config(), codes[k].0, codes[k].1, views(args@)) {
                            Some(p) => r matches Step::Run { block, invocation } && block == k
                                && invocation@ == p,
                            None => r matches Step::Stop(e) && is_runtime_not_found(e, codes[k].0),
                        }
                    }
                },
            },
    {
        match outcome {
            Err(msg) => Step::Stop(Error::Execution(msg)),
            Ok(()) => {
                let n = section.codes.len();
                assert(block < n);
                self.next_step(section, block + 1, args)
            },
        }
    }
}

} // verus!
