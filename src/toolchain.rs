//! The toolchain introspector: the compiler and flag set of the real build.

use vstd::prelude::*;
use vstd::string::StringExecFns;
use crate::text::{chars_of, same_text, string_of};

verus! {

/// The compiler and flags of one pipeline run.
pub struct CompileEnvironment {
    /// The real compiler executable.
    pub compiler_path: String,
    /// The flags as one shell-quoted string, as handed on to dependent builds.
    pub flag_string: String,
    /// One define per active module, already part of `flag_string`.
    pub feature_defines: Vec<String>,
    /// The flags for the generators: `flag_string` split into words, with the
    /// denied flags left out.
    pub flag_sequence: Vec<String>,
}

pub struct EnvironmentView {
    pub compiler_path: Seq<char>,
    pub flag_string: Seq<char>,
    pub feature_defines: Seq<Seq<char>>,
    pub flag_sequence: Seq<Seq<char>>,
}

impl View for CompileEnvironment {
    type V = EnvironmentView;

    open spec fn view(&self) -> EnvironmentView {
        EnvironmentView {
            compiler_path: self.compiler_path@,
            flag_string: self.flag_string@,
            feature_defines: self.feature_defines.deep_view(),
            flag_sequence: self.flag_sequence.deep_view(),
        }
    }
}

/// Missing or unusable configuration.
#[derive(PartialEq, Eq, Structural, Clone, Copy, Debug)]
pub enum ConfigError {
    /// Neither a compilation record nor an explicit compiler was given.
    NoInput,
    /// The explicit form names a compiler but no flags.
    MissingFlags,
    /// The explicit form names flags but no compiler.
    MissingCompiler,
    /// The compilation records hold no record.
    NoRecords,
    /// The chosen record has no arguments, so no compiler.
    EmptyRecord,
    /// The module list is required with the record form.
    MissingModules,
    /// The flag string is not valid shell syntax.
    UnsplittableFlags,
}

/// Flags the generators' front end rejects, or that would write build-system
/// files beside the sources.
pub open spec fn is_denied(f: Seq<char>) -> bool {
    ||| f == "-Werror"@
    ||| f == "-mno-thumb-interwork"@
    ||| f == "-Wformat-overflow"@
    ||| f == "-Wformat-truncation"@
    ||| f == "-mcmodel=medlow"@
    ||| f == "-msmall-data-limit=8"@
    ||| f == "-nostartfiles"@
    ||| f == "-fno-delete-null-pointer-checks"@
    ||| f == "-MD"@
}

pub open spec fn is_kept(f: Seq<char>) -> bool {
    !is_denied(f)
}

/// The flags that survive the deny-list, in their order.
pub open spec fn kept_flags(flags: Seq<Seq<char>>) -> Seq<Seq<char>> {
    flags.filter(keep_pred())
}

pub open spec fn keep_pred() -> spec_fn(Seq<char>) -> bool {
    |f: Seq<char>| is_kept(f)
}

/// Whether a flag is on the deny-list.
pub fn is_denied_flag(f: &str) -> (r: bool)
    ensures
        r == is_denied(f@),
{
    same_text(f, "-Werror") || same_text(f, "-mno-thumb-interwork") || same_text(
        f,
        "-Wformat-overflow",
    ) || same_text(f, "-Wformat-truncation") || same_text(f, "-mcmodel=medlow") || same_text(
        f,
        "-msmall-data-limit=8",
    ) || same_text(f, "-nostartfiles") || same_text(f, "-fno-delete-null-pointer-checks")
        || same_text(f, "-MD")
}

/// Leaves out every flag on the deny-list and keeps the others in order.
pub fn filter_flags(flags: &Vec<String>) -> (r: Vec<String>)
    ensures
        r.deep_view() == kept_flags(flags.deep_view()),
{
    let ghost s = flags.deep_view();
    let mut r: Vec<String> = Vec::new();
    for i in 0..flags.len()
        invariant
            s == flags.deep_view(),
            r.deep_view() == kept_flags(s.take(i as int)),
    {
        let ghost before = r.deep_view();
        assert(s.take(i + 1) == s.take(i as int).push(s[i as int]));
        proof {
            s.take(i as int).lemma_filter_push(s[i as int], keep_pred());
        }
        assert(s[i as int] == flags[i as int]@);
        if !is_denied_flag(flags[i].as_str()) {
            r.push(flags[i].clone());
            assert(r.deep_view() =~= before.push(s[i as int]));
        }
    }
    assert(s.take(flags.len() as int) == s);
    r
}

/// Index of the first "compile, don't link" marker in `args` at or after `i`,
/// or the length of `args`.
pub open spec fn marker_from(args: Seq<Seq<char>>, i: int) -> int
    decreases args.len() - i,
{
    if i < 0 || i >= args.len() {
        args.len() as int
    } else if args[i] == "-c"@ {
        i
    } else {
        marker_from(args, i + 1)
    }
}

/// The flags of a compiler invocation: its arguments after the compiler up to
/// the first `-c`, which starts the naming of input and output files.
pub open spec fn invocation_flags(args: Seq<Seq<char>>) -> Seq<Seq<char>> {
    if args.len() == 0 {
        Seq::empty()
    } else {
        args.subrange(1, marker_from(args, 1))
    }
}

proof fn lemma_marker_bounds(args: Seq<Seq<char>>, i: int)
    requires
        0 <= i,
    ensures
        i <= args.len() ==> i <= marker_from(args, i) <= args.len(),
    decreases args.len() - i,
{
    if i < args.len() && args[i] != "-c"@ {
        lemma_marker_bounds(args, i + 1);
    }
}

/// The flags of a compiler invocation, up to its `-c`.
pub fn flags_before_marker(args: &Vec<String>) -> (r: Vec<String>)
    ensures
        r.deep_view() == invocation_flags(args.deep_view()),
{
    let ghost s = args.deep_view();
    let mut r: Vec<String> = Vec::new();
    if args.len() == 0 {
        assert(r.deep_view() =~= invocation_flags(s));
        return r;
    }
    let mut i: usize = 1;
    while i < args.len() && !same_text(args[i].as_str(), "-c")
        invariant
            1 <= i <= args.len(),
            s == args.deep_view(),
            marker_from(s, 1) == marker_from(s, i as int),
            r.deep_view() == s.subrange(1, i as int),
        decreases args.len() - i,
    {
        assert(s[i as int] == args[i as int]@);
        let ghost before = r.deep_view();
        r.push(args[i].clone());
        assert(r.deep_view() =~= before.push(s[i as int]));
        assert(r.deep_view() =~= s.subrange(1, i + 1));
        i = i + 1;
    }
    proof {
        if i < args.len() {
            assert(s[i as int] == args[i as int]@);
        }
    }
    assert(marker_from(s, i as int) == i);
    r
}

/// The whitespace-separated words of a module list: the pieces between
/// single spaces, scanning from index `i` with `cur` collected so far.
pub open spec fn fields_from(s: Seq<char>, i: int, cur: Seq<char>) -> Seq<Seq<char>>
    decreases s.len() - i,
{
    if i < 0 || i >= s.len() {
        seq![cur]
    } else if s[i] == ' ' {
        seq![cur] + fields_from(s, i + 1, Seq::empty())
    } else {
        fields_from(s, i + 1, cur.push(s[i]))
    }
}

/// The module names of a space-separated list; empty pieces name nothing.
pub open spec fn module_names(s: Seq<char>) -> Seq<Seq<char>> {
    fields_from(s, 0, Seq::empty()).filter(|m: Seq<char>| m.len() > 0)
}

/// Splits a module list at single spaces and drops the empty pieces.
pub fn split_modules(s: &str) -> (r: Vec<String>)
    ensures
        r.deep_view() == module_names(s@),
{
    let cs = chars_of(s);
    let ghost nonempty = |m: Seq<char>| m.len() > 0;
    let mut done: Vec<String> = Vec::new();
    let ghost pieces: Seq<Seq<char>> = Seq::empty();
    let mut cur: Vec<char> = Vec::new();
    let mut i: usize = 0;
    while i < cs.len()
        invariant
            i <= cs.len(),
            cs@ == s@,
            pieces + fields_from(cs@, i as int, cur@) == fields_from(cs@, 0, Seq::empty()),
            done.deep_view() == pieces.filter(nonempty),
            nonempty == (|m: Seq<char>| m.len() > 0),
        decreases cs.len() - i,
    {
        if cs[i] == ' ' {
            proof {
                pieces.lemma_filter_push(cur@, nonempty);
            }
            if cur.len() > 0 {
                let w = string_of(&cur);
                done.push(w);
                assert(done.deep_view() =~= pieces.push(cur@).filter(nonempty));
            } else {
                assert(done.deep_view() =~= pieces.push(cur@).filter(nonempty));
            }
            assert(pieces + (seq![cur@] + fields_from(cs@, i + 1, Seq::empty())) =~= pieces.push(
                cur@,
            ) + fields_from(cs@, i + 1, Seq::empty()));
            proof {
                pieces = pieces.push(cur@);
            }
            cur = Vec::new();
        } else {
            cur.push(cs[i]);
        }
        i = i + 1;
    }
    proof {
        pieces.lemma_filter_push(cur@, nonempty);
    }
    assert(pieces + seq![cur@] =~= pieces.push(cur@));
    if cur.len() > 0 {
        let w = string_of(&cur);
        done.push(w);
    }
    assert(done.deep_view() =~= pieces.push(cur@).filter(nonempty));
    done
}

/// What `str::to_uppercase` makes of a string.
pub uninterp spec fn upper_of(s: Seq<char>) -> Seq<char>;

/// Relies on `str::to_uppercase`: the result depends on the characters alone.
#[verifier::external_body]
fn uppercase(s: &str) -> (r: String)
    ensures
        r@ == upper_of(s@),
{
    s.to_uppercase()
}

/// A character that may stand in a C identifier.
pub open spec fn is_identifier_char(c: char) -> bool {
    ('a' <= c && c <= 'z') || ('A' <= c && c <= 'Z') || ('0' <= c && c <= '9') || c == '_'
}

/// Every character that cannot stand in a C identifier made `_`.
pub open spec fn normalized(s: Seq<char>) -> Seq<char> {
    s.map_values(|c: char| if is_identifier_char(c) { c } else { '_' })
}

/// The define that announces an active module to macro conditionals.
pub open spec fn module_define(m: Seq<char>) -> Seq<char> {
    "-DMODULE_"@ + normalized(upper_of(m))
}

pub open spec fn module_defines(modules: Seq<char>) -> Seq<Seq<char>> {
    module_names(modules).map_values(|m: Seq<char>| module_define(m))
}

/// `base` with each define appended after a space.
pub open spec fn with_defines(base: Seq<char>, defines: Seq<Seq<char>>) -> Seq<char>
    decreases defines.len(),
{
    if defines.len() == 0 {
        base
    } else {
        with_defines(base, defines.drop_last()) + " "@ + defines.last()
    }
}

/// The define for an upper-cased module name: every character that cannot
/// stand in a C identifier made `_`.
pub fn define_for_upper(up: &str) -> (r: String)
    ensures
        r@ == "-DMODULE_"@ + normalized(up@),
{
    let cs = chars_of(up);
    let mut out = chars_of("-DMODULE_");
    let ghost start = out@;
    for i in 0..cs.len()
        invariant
            out@ == start + normalized(cs@.take(i as int)),
    {
        let c = cs[i];
        if ('a' <= c && c <= 'z') || ('A' <= c && c <= 'Z') || ('0' <= c && c <= '9') || c == '_' {
            out.push(c);
        } else {
            out.push('_');
        }
        assert(normalized(cs@.take(i + 1)) =~= normalized(cs@.take(i as int)).push(
            normalized(cs@)[i as int],
        ));
    }
    assert(cs@.take(cs.len() as int) == cs@);
    string_of(&out)
}

/// The define for one active module: upper case, and every character that
/// cannot stand in a C identifier made `_`.
pub fn feature_define(module: &str) -> (r: String)
    ensures
        r@ == module_define(module@),
{
    define_for_upper(uppercase(module).as_str())
}

/// The defines for every module of a space-separated list.
pub fn feature_defines(modules: &str) -> (r: Vec<String>)
    ensures
        r.deep_view() == module_defines(modules@),
{
    let names = split_modules(modules);
    let ghost ns = names.deep_view();
    let mut r: Vec<String> = Vec::new();
    for i in 0..names.len()
        invariant
            ns == names.deep_view(),
            ns == module_names(modules@),
            r.deep_view() == ns.take(i as int).map_values(|m: Seq<char>| module_define(m)),
    {
        let d = feature_define(names[i].as_str());
        let ghost before = r.deep_view();
        r.push(d);
        assert(r.deep_view() =~= before.push(d@));
        assert(ns.take(i + 1).map_values(|m: Seq<char>| module_define(m)) =~= ns.take(
            i as int,
        ).map_values(|m: Seq<char>| module_define(m)).push(module_define(ns[i as int])));
    }
    assert(ns.take(names.len() as int) == ns);
    r
}

/// Appends each define to the flag string after a space.
pub fn append_defines(base: &str, defines: &Vec<String>) -> (r: String)
    ensures
        r@ == with_defines(base@, defines.deep_view()),
{
    let ghost ds = defines.deep_view();
    let mut out = String::from_str(base);
    for i in 0..defines.len()
        invariant
            ds == defines.deep_view(),
            out@ == with_defines(base@, ds.take(i as int)),
    {
        assert(ds.take(i + 1).drop_last() == ds.take(i as int));
        assert(ds[i as int] == defines[i as int]@);
        out.append(" ");
        out.append(defines[i].as_str());
    }
    assert(ds.take(defines.len() as int) == ds);
    out
}

/// What `shlex::join` makes of a list of words.
pub uninterp spec fn shell_joined(words: Seq<Seq<char>>) -> Seq<char>;

/// Relies on `shlex::join`: the words quoted where needed and joined by single
/// spaces; the result depends on the words alone.
#[verifier::external_body]
#[allow(deprecated)]
fn shell_join(words: &Vec<String>) -> (r: String)
    ensures
        r@ == shell_joined(words.deep_view()),
{
    shlex::join(words.iter().map(|w| w.as_str()))
}

/// What `shlex::split` makes of a string: its words, or `None` where the
/// quoting is erroneous.
pub uninterp spec fn shell_words(s: Seq<char>) -> Option<Seq<Seq<char>>>;

/// Relies on `shlex::split`: the result depends on the string alone.
#[verifier::external_body]
fn shell_split(s: &str) -> (r: Option<Vec<String>>)
    ensures
        match r {
            Some(v) => shell_words(s@) == Some(v.deep_view()),
            None => shell_words(s@) is None,
        },
{
    shlex::split(s)
}

/// The environment for a compiler and a flag string.
pub open spec fn environment_of(cc: Seq<char>, flags: Seq<char>, defines: Seq<Seq<char>>) -> Result<
    EnvironmentView,
    ConfigError,
> {
    match shell_words(flags) {
        None => Err(ConfigError::UnsplittableFlags),
        Some(words) => Ok(
            EnvironmentView {
                compiler_path: cc,
                flag_string: flags,
                feature_defines: defines,
                flag_sequence: kept_flags(words),
            },
        ),
    }
}

pub open spec fn env_result_view(r: Result<CompileEnvironment, ConfigError>) -> Result<
    EnvironmentView,
    ConfigError,
> {
    match r {
        Ok(e) => Ok(e@),
        Err(e) => Err(e),
    }
}

fn build_environment(cc: &str, flags: String, defines: Vec<String>) -> (r: Result<
    CompileEnvironment,
    ConfigError,
>)
    ensures
        env_result_view(r) == environment_of(cc@, flags@, defines.deep_view()),
{
    match shell_split(flags.as_str()) {
        None => Err(ConfigError::UnsplittableFlags),
        Some(words) => {
            let kept = filter_flags(&words);
            Ok(
                CompileEnvironment {
                    compiler_path: String::from_str(cc),
                    flag_string: flags,
                    feature_defines: defines,
                    flag_sequence: kept,
                },
            )
        },
    }
}

/// The environment that a recorded compiler invocation and the active
/// modules give.
pub open spec fn record_environment(args: Seq<Seq<char>>, modules: Option<Seq<char>>) -> Result<
    EnvironmentView,
    ConfigError,
> {
    if args.len() == 0 {
        Err(ConfigError::EmptyRecord)
    } else {
        match modules {
            None => Err(ConfigError::MissingModules),
            Some(m) => environment_of(
                args[0],
                with_defines(shell_joined(invocation_flags(args)), module_defines(m)),
                module_defines(m),
            ),
        }
    }
}

/// The environment of a recorded invocation: its compiler, its flags up to
/// `-c`, and one define per active module.
pub fn environment_from_record(args: &Vec<String>, modules: Option<&str>) -> (r: Result<
    CompileEnvironment,
    ConfigError,
>)
    ensures
        env_result_view(r) == record_environment(
            args.deep_view(),
            match modules {
                Some(m) => Some(m@),
                None => None,
            },
        ),
{
    if args.len() == 0 {
        return Err(ConfigError::EmptyRecord);
    }
    let m = match modules {
        Some(m) => m,
        None => {
            return Err(ConfigError::MissingModules);
        },
    };
    assert(args.deep_view()[0] == args[0]@);
    let base = shell_join(&flags_before_marker(args));
    let defines = feature_defines(m);
    let flags = append_defines(base.as_str(), &defines);
    build_environment(args[0].as_str(), flags, defines)
}

/// The environment of an explicitly given compiler and flag string.
pub fn environment_from_explicit(cc: &str, flags: &str) -> (r: Result<
    CompileEnvironment,
    ConfigError,
>)
    ensures
        env_result_view(r) == environment_of(cc@, flags@, Seq::empty()),
{
    let defines: Vec<String> = Vec::new();
    assert(defines.deep_view() =~= Seq::<Seq<char>>::empty());
    build_environment(cc, String::from_str(flags), defines)
}

pub open spec fn str_view(o: Option<&str>) -> Option<Seq<char>> {
    match o {
        Some(s) => Some(s@),
        None => None,
    }
}

/// The environment from whichever input form is present; the record form is
/// preferred, and its first record is the one used.
pub open spec fn introspection(
    records: Option<Seq<Seq<Seq<char>>>>,
    modules: Option<Seq<char>>,
    cc: Option<Seq<char>>,
    flags: Option<Seq<char>>,
) -> Result<EnvironmentView, ConfigError> {
    match records {
        Some(rs) => if rs.len() == 0 {
            Err(ConfigError::NoRecords)
        } else {
            record_environment(rs[0], modules)
        },
        None => match (cc, flags) {
            (Some(c), Some(f)) => environment_of(c, f, Seq::empty()),
            (Some(_), None) => Err(ConfigError::MissingFlags),
            (None, Some(_)) => Err(ConfigError::MissingCompiler),
            (None, None) => Err(ConfigError::NoInput),
        },
    }
}

/// Derives the run's compile environment from the compilation records, or,
/// where there are none, from an explicit compiler and flag string.
pub fn introspect(
    records: Option<&Vec<Vec<String>>>,
    modules: Option<&str>,
    cc: Option<&str>,
    flags: Option<&str>,
) -> (r: Result<CompileEnvironment, ConfigError>)
    ensures
        env_result_view(r) == introspection(
            match records {
                Some(rs) => Some(rs.deep_view()),
                None => None,
            },
            str_view(modules),
            str_view(cc),
            str_view(flags),
        ),
{
    match records {
        Some(rs) => {
            if rs.len() == 0 {
                Err(ConfigError::NoRecords)
            } else {
                assert(rs.deep_view()[0] == rs[0].deep_view());
                environment_from_record(&rs[0], modules)
            }
        },
        None => match (cc, flags) {
            (Some(c), Some(f)) => environment_from_explicit(c, f),
            (Some(_), None) => Err(ConfigError::MissingFlags),
            (None, Some(_)) => Err(ConfigError::MissingCompiler),
            (None, None) => Err(ConfigError::NoInput),
        },
    }
}

/// How often `f` occurs in `s`.
pub open spec fn occurrences(s: Seq<Seq<char>>, f: Seq<char>) -> nat
    decreases s.len(),
{
    if s.len() == 0 {
        0
    } else {
        occurrences(s.drop_last(), f) + if s.last() == f {
            1nat
        } else {
            0nat
        }
    }
}

/// The deny-list filter leaves no denied flag, keeps every occurrence of
/// every other flag exactly once, and keeps their relative order: what comes
/// from an earlier part of the input comes first.
pub proof fn lemma_flag_filtering(flags: Seq<Seq<char>>, more: Seq<Seq<char>>)
    ensures
        forall|k: int|
            0 <= k < kept_flags(flags).len() ==> !is_denied(#[trigger] kept_flags(flags)[k]),
        forall|f: Seq<char>|
            !is_denied(f) ==> occurrences(kept_flags(flags), f) == #[trigger] occurrences(flags, f),
        forall|f: Seq<char>| is_denied(f) ==> #[trigger] occurrences(kept_flags(flags), f) == 0,
        kept_flags(flags + more) == kept_flags(flags) + kept_flags(more),
    decreases flags.len(),
{
    let keep = keep_pred();
    assert forall|k: int| 0 <= k < kept_flags(flags).len() implies !is_denied(
        #[trigger] kept_flags(flags)[k],
    ) by {
        flags.lemma_filter_pred(keep, k);
    }
    Seq::filter_distributes_over_add(flags, more, keep);
    if flags.len() > 0 {
        let init = flags.drop_last();
        lemma_flag_filtering(init, more);
        assert(flags == init.push(flags.last()));
        init.lemma_filter_push(flags.last(), keep);
        if is_kept(flags.last()) {
            assert(kept_flags(flags) == kept_flags(init).push(flags.last()));
            assert(kept_flags(flags).drop_last() =~= kept_flags(init));
            assert(kept_flags(flags).last() == flags.last());
        } else {
            assert(kept_flags(flags) == kept_flags(init));
        }
        assert forall|f: Seq<char>| !is_denied(f) implies occurrences(kept_flags(flags), f)
            == #[trigger] occurrences(flags, f) by {
            assert(occurrences(kept_flags(init), f) == occurrences(init, f));
        }
        assert forall|f: Seq<char>| is_denied(f) implies #[trigger] occurrences(
            kept_flags(flags),
            f,
        ) == 0 by {
            assert(occurrences(kept_flags(init), f) == 0);
        }
    } else {
        assert(kept_flags(flags) =~= Seq::<Seq<char>>::empty());
    }
}

} // verus!
