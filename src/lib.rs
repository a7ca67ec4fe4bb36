//! Synthesis of target-language bindings for an embedded C API: toolchain
//! introspection, macro materialization, generator orchestration and the
//! reconciliation patch pass over the transpiler's output.

pub mod catalog;
pub mod orchestrate;
pub mod patch;
pub mod text;
pub mod toolchain;

use vstd::prelude::*;
use crate::catalog::{MacroSpec, synthetic_source};
use crate::orchestrate::command_args;
use crate::patch::{PatchError, patch_outcome, patched};
use crate::toolchain::{EnvironmentView, ConfigError, introspection};

verus! {

/// Regeneration is idempotent: whatever two runs on identical inputs obtain
/// from `introspect`, `synthesize`, `compile_command` and `patch_transpiled`
/// (any results their `ensures` admit) is identical, and the patch pass
/// fails on neither run where it is defined. So two runs from a clean
/// directory write identical artifacts.
pub proof fn lemma_regeneration_idempotent(
    records: Option<Seq<Seq<Seq<char>>>>,
    modules: Option<Seq<char>>,
    cc: Option<Seq<char>>,
    flags: Option<Seq<char>>,
    header: Seq<char>,
    catalog: Seq<MacroSpec>,
    file: Seq<char>,
    transpiled: Seq<char>,
    env1: Result<EnvironmentView, ConfigError>,
    env2: Result<EnvironmentView, ConfigError>,
    source1: Seq<char>,
    source2: Seq<char>,
    patch1: Result<Seq<char>, PatchError>,
    patch2: Result<Seq<char>, PatchError>,
)
    requires
        env1 == introspection(records, modules, cc, flags),
        env2 == introspection(records, modules, cc, flags),
        source1 == synthetic_source(header, catalog),
        source2 == synthetic_source(header, catalog),
        patch1 == patch_outcome(transpiled, catalog),
        patch2 == patch_outcome(transpiled, catalog),
    ensures
        env1 == env2,
        env1 matches Ok(e) ==> env2 matches Ok(f) && command_args(e.flag_sequence, file)
            == command_args(f.flag_sequence, file),
        source1 == source2,
        patch1 == patch2,
        patched(transpiled, catalog) matches Some(t) ==> patch1 == Ok::<Seq<char>, PatchError>(t)
            && patch2 == Ok::<Seq<char>, PatchError>(t),
{
}

} // verus!
