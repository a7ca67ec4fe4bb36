use riot_sys::orchestrate::{
    advance, compile_command, needs_preprocessing, preprocess_arguments, transpile_files,
    transpiler_arguments, Outcome, Stage,
};

fn strings(v: &[&str]) -> Vec<String> {
    v.iter().map(|s| s.to_string()).collect()
}

#[test]
fn only_non_clang_compilers_are_preprocessed() {
    assert!(needs_preprocessing("arm-none-eabi-gcc"));
    assert!(!needs_preprocessing("/usr/bin/clang-14"));
    let f = transpile_files("gcc");
    assert_eq!((f.input.as_str(), f.output.as_str()), ("riot-c2rust-expanded.h", "riot_c2rust_expanded.rs"));
    let f = transpile_files("clang");
    assert_eq!((f.input.as_str(), f.output.as_str()), ("riot-c2rust.h", "riot_c2rust.rs"));
}

#[test]
fn command_mirrors_flags() {
    let flags = strings(&["-Wall", "-DX=1"]);
    let c = compile_command(&flags, "/out", "riot-c2rust.h");
    assert_eq!(c.arguments, strings(&["any-cc", "-Wall", "-DX=1", "riot-c2rust.h"]));
    assert_eq!(c.directory, "/out");
    assert_eq!(c.file, "riot-c2rust.h");
    assert_eq!(
        preprocess_arguments(&flags, "in.h", "out.h"),
        strings(&["-Wall", "-DX=1", "-E", "-fdirectives-only", "in.h", "-o", "out.h"])
    );
    let t = transpiler_arguments("/out/compile_commands.json");
    assert_eq!(t[0], "transpile");
    assert_eq!(t[1], "/out/compile_commands.json");
    assert_eq!(t.len(), 8);
}

#[test]
fn stages_run_in_order_and_failures_are_final() {
    let mut s = Stage::Declarations;
    let mut seen = vec![s];
    while s != Stage::Finished {
        s = advance(s, true, Outcome::Success);
        seen.push(s);
    }
    assert_eq!(seen.len(), 8);
    assert_eq!(seen[2], Stage::Preprocess);
    assert_eq!(advance(Stage::SyntheticSource, false, Outcome::Success), Stage::CompileCommands);
    assert_eq!(advance(Stage::ClearStale, false, Outcome::Missing), Stage::Transpile);
    assert_eq!(advance(Stage::Transpile, false, Outcome::Missing), Stage::Failed(1));
    assert_eq!(advance(Stage::Transpile, false, Outcome::Exited(3)), Stage::Failed(3));
    assert_eq!(advance(Stage::Preprocess, true, Outcome::Exited(0)), Stage::CompileCommands);
    assert_eq!(advance(Stage::Preprocess, true, Outcome::NoExitCode), Stage::Failed(1));
    assert_eq!(advance(Stage::Reconcile, true, Outcome::IoFailure), Stage::Failed(1));
    assert_eq!(advance(Stage::Failed(3), true, Outcome::Success), Stage::Failed(3));
    assert_eq!(advance(Stage::Finished, true, Outcome::IoFailure), Stage::Finished);
}
