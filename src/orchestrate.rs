//! The generator orchestrator: the inputs handed to the preprocessor and the
//! transpiler, and the order of the stages with their failure handling.

use vstd::prelude::*;
use vstd::string::StringExecFns;
use crate::text::{contains_str, contains_text};

verus! {

/// The transpiler expects a clang front end; output of any other compiler
/// family is macro-expanded first.
pub open spec fn preprocessing_needed(cc: Seq<char>) -> bool {
    !contains_text(cc, "clang"@)
}

/// Whether the synthetic source must be macro-expanded before transpiling.
pub fn needs_preprocessing(cc: &str) -> (r: bool)
    ensures
        r == preprocessing_needed(cc@),
{
    !contains_str(cc, "clang")
}

/// The file the transpiler reads and the file it writes.
pub struct TranspileFiles {
    pub input: String,
    pub output: String,
}

pub open spec fn transpile_input(expanded: bool) -> Seq<char> {
    if expanded {
        "riot-c2rust-expanded.h"@
    } else {
        "riot-c2rust.h"@
    }
}

pub open spec fn transpile_output(expanded: bool) -> Seq<char> {
    if expanded {
        "riot_c2rust_expanded.rs"@
    } else {
        "riot_c2rust.rs"@
    }
}

/// The transpiler's input and output file names for this compiler.
pub fn transpile_files(cc: &str) -> (r: TranspileFiles)
    ensures
        r.input@ == transpile_input(preprocessing_needed(cc@)),
        r.output@ == transpile_output(preprocessing_needed(cc@)),
{
    if needs_preprocessing(cc) {
        TranspileFiles {
            input: String::from_str("riot-c2rust-expanded.h"),
            output: String::from_str("riot_c2rust_expanded.rs"),
        }
    } else {
        TranspileFiles {
            input: String::from_str("riot-c2rust.h"),
            output: String::from_str("riot_c2rust.rs"),
        }
    }
}

fn push_str(v: &mut Vec<String>, s: &str)
    ensures
        final(v).deep_view() == old(v).deep_view().push(s@),
{
    let ghost before = v.deep_view();
    v.push(String::from_str(s));
    assert(v.deep_view() =~= before.push(s@));
}

fn push_all_strings(v: &mut Vec<String>, src: &Vec<String>)
    ensures
        final(v).deep_view() == old(v).deep_view() + src.deep_view(),
{
    let ghost start = v.deep_view();
    for i in 0..src.len()
        invariant
            v.deep_view() == start + src.deep_view().take(i as int),
    {
        assert(src.deep_view()[i as int] == src[i as int]@);
        push_str(v, src[i].as_str());
        assert(start + src.deep_view().take(i + 1) =~= (start + src.deep_view().take(
            i as int,
        )).push(src.deep_view()[i as int]));
    }
    assert(src.deep_view().take(src.len() as int) =~= src.deep_view());
}

/// The preprocessor's arguments: the flags, then expansion of macros only,
/// from `input` into `output`.
pub open spec fn preprocess_args(flags: Seq<Seq<char>>, input: Seq<char>, output: Seq<char>) -> Seq<
    Seq<char>,
> {
    flags + seq!["-E"@, "-fdirectives-only"@, input, "-o"@, output]
}

/// The arguments for the expansion pass over the synthetic source.
pub fn preprocess_arguments(flags: &Vec<String>, input: &str, output: &str) -> (r: Vec<String>)
    ensures
        r.deep_view() == preprocess_args(flags.deep_view(), input@, output@),
{
    let mut r: Vec<String> = Vec::new();
    push_all_strings(&mut r, flags);
    push_str(&mut r, "-E");
    push_str(&mut r, "-fdirectives-only");
    push_str(&mut r, input);
    push_str(&mut r, "-o");
    push_str(&mut r, output);
    assert(r.deep_view() =~= preprocess_args(flags.deep_view(), input@, output@));
    r
}

/// What the transpiler needs to know to parse one file.
pub struct CompileCommand {
    pub arguments: Vec<String>,
    pub directory: String,
    pub file: String,
}

/// A placeholder compiler name, the filtered flags, then the input file.
pub open spec fn command_args(flags: Seq<Seq<char>>, file: Seq<char>) -> Seq<Seq<char>> {
    seq!["any-cc"@] + flags + seq![file]
}

/// The compile command that makes the transpiler parse `file` in `directory`
/// the way the real build would.
pub fn compile_command(flags: &Vec<String>, directory: &str, file: &str) -> (r: CompileCommand)
    ensures
        r.arguments.deep_view() == command_args(flags.deep_view(), file@),
        r.directory@ == directory@,
        r.file@ == file@,
{
    let mut args: Vec<String> = Vec::new();
    push_str(&mut args, "any-cc");
    push_all_strings(&mut args, flags);
    push_str(&mut args, file);
    assert(args.deep_view() =~= command_args(flags.deep_view(), file@));
    CompileCommand {
        arguments: args,
        directory: String::from_str(directory),
        file: String::from_str(file),
    }
}

/// The transpiler's command line for a compile-commands file.
pub open spec fn transpiler_args(commands: Seq<char>) -> Seq<Seq<char>> {
    seq![
        "transpile"@,
        commands,
        "--preserve-unused-functions"@,
        "--emit-modules"@,
        "--emit-no-std"@,
        "--translate-const-macros"@,
        "--overwrite-existing"@,
        "--fail-on-error"@,
    ]
}

/// The transpiler's arguments.
pub fn transpiler_arguments(commands: &str) -> (r: Vec<String>)
    ensures
        r.deep_view() == transpiler_args(commands@),
{
    let mut r: Vec<String> = Vec::new();
    push_str(&mut r, "transpile");
    push_str(&mut r, commands);
    push_str(&mut r, "--preserve-unused-functions");
    push_str(&mut r, "--emit-modules");
    push_str(&mut r, "--emit-no-std");
    push_str(&mut r, "--translate-const-macros");
    push_str(&mut r, "--overwrite-existing");
    push_str(&mut r, "--fail-on-error");
    assert(r.deep_view() =~= transpiler_args(commands@));
    r
}

/// A stage of one run. Each consumes what the previous one produced.
#[derive(PartialEq, Eq, Structural, Clone, Copy, Debug)]
pub enum Stage {
    /// The declaration generator runs over the header closure.
    Declarations,
    /// The synthetic source is written.
    SyntheticSource,
    /// The compiler expands the synthetic source's macros.
    Preprocess,
    /// The compile-commands file for the transpiler is written.
    CompileCommands,
    /// A stale transpiler output is removed.
    ClearStale,
    /// The transpiler runs.
    Transpile,
    /// The transpiler's output is patched and the artifact written.
    Reconcile,
    /// Every artifact is written.
    Finished,
    /// The run stopped; the process exits with this code.
    Failed(i32),
}

/// What came of performing a stage.
#[derive(PartialEq, Eq, Structural, Clone, Copy, Debug)]
pub enum Outcome {
    /// The stage's work was done.
    Success,
    /// A tool exited with this status code.
    Exited(i32),
    /// A tool ended without a status code.
    NoExitCode,
    /// A file the stage works on does not exist.
    Missing,
    /// Reading or writing an artifact failed.
    IoFailure,
}

/// The stage that follows a successful one.
pub open spec fn successor(s: Stage, preprocess: bool) -> Stage {
    match s {
        Stage::Declarations => Stage::SyntheticSource,
        Stage::SyntheticSource => if preprocess {
            Stage::Preprocess
        } else {
            Stage::CompileCommands
        },
        Stage::Preprocess => Stage::CompileCommands,
        Stage::CompileCommands => Stage::ClearStale,
        Stage::ClearStale => Stage::Transpile,
        Stage::Transpile => Stage::Reconcile,
        Stage::Reconcile => Stage::Finished,
        Stage::Finished => Stage::Finished,
        Stage::Failed(c) => Stage::Failed(c),
    }
}

pub open spec fn is_terminal(s: Stage) -> bool {
    s matches Stage::Finished || s matches Stage::Failed(_)
}

/// The stage after `s` given what performing it came to: success moves on;
/// a missing file is success only when clearing a stale output; a tool's
/// non-zero status ends the run with that status, any other failure with 1.
/// Nothing is retried, and an ended run stays ended.
pub open spec fn next_stage(s: Stage, preprocess: bool, o: Outcome) -> Stage {
    if is_terminal(s) {
        s
    } else {
        match o {
            Outcome::Success => successor(s, preprocess),
            Outcome::Exited(c) => if c == 0 {
                successor(s, preprocess)
            } else {
                Stage::Failed(c)
            },
            Outcome::NoExitCode => Stage::Failed(1),
            Outcome::Missing => if s == Stage::ClearStale {
                successor(s, preprocess)
            } else {
                Stage::Failed(1)
            },
            Outcome::IoFailure => Stage::Failed(1),
        }
    }
}

fn successor_of(s: Stage, preprocess: bool) -> (r: Stage)
    ensures
        r == successor(s, preprocess),
{
    match s {
        Stage::Declarations => Stage::SyntheticSource,
        Stage::SyntheticSource => if preprocess {
            Stage::Preprocess
        } else {
            Stage::CompileCommands
        },
        Stage::Preprocess => Stage::CompileCommands,
        Stage::CompileCommands => Stage::ClearStale,
        Stage::ClearStale => Stage::Transpile,
        Stage::Transpile => Stage::Reconcile,
        Stage::Reconcile => Stage::Finished,
        Stage::Finished => Stage::Finished,
        Stage::Failed(c) => Stage::Failed(c),
    }
}

/// Decides the next stage of a run from what performing the current one
/// came to.
pub fn advance(s: Stage, preprocess: bool, o: Outcome) -> (r: Stage)
    ensures
        r == next_stage(s, preprocess, o),
{
    match s {
        Stage::Finished | Stage::Failed(_) => s,
        _ => match o {
            Outcome::Success => successor_of(s, preprocess),
            Outcome::Exited(c) => if c == 0 {
                successor_of(s, preprocess)
            } else {
                Stage::Failed(c)
            },
            Outcome::NoExitCode => Stage::Failed(1),
            Outcome::Missing => if s == Stage::ClearStale {
                successor_of(s, preprocess)
            } else {
                Stage::Failed(1)
            },
            Outcome::IoFailure => Stage::Failed(1),
        },
    }
}

/// A stage that has not ended the run is never repeated, and a failed run
/// keeps its exit code: what fails is not retried.
pub proof fn lemma_no_retry(s: Stage, preprocess: bool, o: Outcome)
    ensures
        !is_terminal(s) ==> next_stage(s, preprocess, o) != s,
        is_terminal(s) ==> next_stage(s, preprocess, o) == s,
        !is_terminal(s) && !(o matches Outcome::Success) && !(o matches Outcome::Exited(0)) && !(
        s == Stage::ClearStale && o == Outcome::Missing) ==> next_stage(s, preprocess, o) matches Stage::Failed(_),
{
}

} // verus!
