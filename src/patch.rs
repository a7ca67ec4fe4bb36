//! The reconciliation pass: ordered textual rewrites that make the
//! transpiler's output compose with the declaration bindings.

use vstd::prelude::*;
use vstd::string::StringExecFns;
use crate::catalog::{CatalogEntry, MacroSpec, catalog_view, family_name, instantiate};
use crate::text::{
    chars_of, contains_text, copy_range, matches_at, push_all, replace_chars, replace_text, replaced, starts_at, string_of,
};

verus! {

/// How a transpiled function definition is introduced in the patched output.
#[derive(PartialEq, Eq, Structural, Clone, Copy, Debug)]
pub enum CallPolicy {
    /// Keeps the foreign calling convention: the foreign runtime calls it.
    ForeignAbi,
    /// A pure value constructor, made a constant function.
    ConstFn,
    /// Plain callable and visible.
    PublicUnsafe,
}

/// Why the patch pass gave up.
#[derive(PartialEq, Eq, Structural, Clone, Copy, Debug)]
pub enum PatchError {
    /// A function header is followed by no parameter list.
    MissingParameterList,
}

/// The header the transpiler writes in front of every function name.
pub open spec fn foreign_header() -> Seq<char> {
    "unsafe extern \"C\" fn "@
}

pub open spec fn header_of(p: CallPolicy) -> Seq<char> {
    match p {
        CallPolicy::ForeignAbi => foreign_header(),
        CallPolicy::ConstFn => "const fn "@,
        CallPolicy::PublicUnsafe => "pub unsafe fn "@,
    }
}

/// Functions that must stay callable through the foreign convention: timer
/// and message callbacks, and register accessors that constants refer to.
pub open spec fn foreign_abi_names() -> Seq<Seq<char>> {
    seq![
        "_evtimer_msg_handler"@,
        "_evtimer_mbox_handler"@,
        "__masked_builtin_arm_get_fpscr"@,
        "__masked_builtin_arm_set_fpscr"@,
        "__NVIC_SetPriority"@,
    ]
}

/// `name` is `init_` followed by the name of a scalar catalog macro.
pub open spec fn is_initializer_name(name: Seq<char>, catalog: Seq<MacroSpec>) -> bool {
    &&& name.len() > 5
    &&& name.take(5) == "init_"@
    &&& exists|k: int|
        0 <= k < catalog.len() && !(#[trigger] catalog[k]).is_array_family && catalog[k].macro_name
            == name.skip(5)
}

/// The decision table keyed by a function's exact name.
pub open spec fn policy_of(name: Seq<char>, catalog: Seq<MacroSpec>) -> CallPolicy {
    if foreign_abi_names().contains(name) {
        CallPolicy::ForeignAbi
    } else if is_initializer_name(name, catalog) {
        CallPolicy::ConstFn
    } else {
        CallPolicy::PublicUnsafe
    }
}

/// Index of the first `(` in `s` at or after `j`.
pub open spec fn paren_from(s: Seq<char>, j: int) -> Option<int>
    decreases s.len() - j,
{
    if j < 0 || j >= s.len() {
        None
    } else if s[j] == '(' {
        Some(j)
    } else {
        paren_from(s, j + 1)
    }
}

/// `s` from index `i` on, with each function header replaced by the header
/// that the decision table gives for the name that follows it; `None` where a
/// header has no `(` after it.
pub open spec fn headers_from(s: Seq<char>, i: int, catalog: Seq<MacroSpec>) -> Option<Seq<char>>
    decreases s.len() - i,
{
    if i < 0 || i >= s.len() {
        Some(Seq::empty())
    } else if foreign_header().len() > 0 && starts_at(s, i, foreign_header()) {
        let j = i + foreign_header().len();
        match paren_from(s, j) {
            None => None,
            Some(p) => match headers_from(s, j, catalog) {
                None => None,
                Some(rest) => Some(header_of(policy_of(s.subrange(j, p), catalog)) + rest),
            },
        }
    } else {
        match headers_from(s, i + 1, catalog) {
            None => None,
            Some(rest) => Some(seq![s[i]] + rest),
        }
    }
}

pub open spec fn rewritten_headers(s: Seq<char>, catalog: Seq<MacroSpec>) -> Option<Seq<char>> {
    headers_from(s, 0, catalog)
}

/// Index of the first `(` in `s` at or after `j`.
fn find_paren(s: &Vec<char>, j: usize) -> (r: Option<usize>)
    ensures
        match r {
            Some(p) => paren_from(s@, j as int) == Some(p as int),
            None => paren_from(s@, j as int) is None,
        },
    decreases s.len() - j,
{
    if j >= s.len() {
        None
    } else if s[j] == '(' {
        Some(j)
    } else {
        find_paren(s, j + 1)
    }
}

fn same_chars(a: &Vec<char>, b: &Vec<char>) -> (r: bool)
    ensures
        r == (a@ == b@),
{
    if a.len() != b.len() {
        return false;
    }
    let r = matches_at(a, 0, b);
    assert(a@.subrange(0, b@.len() as int) =~= a@);
    r
}

/// The names kept on the foreign calling convention, in table order.
pub fn foreign_abi_table() -> (r: Vec<String>)
    ensures
        r.deep_view() == foreign_abi_names(),
{
    let mut r: Vec<String> = Vec::new();
    r.push(String::from_str("_evtimer_msg_handler"));
    r.push(String::from_str("_evtimer_mbox_handler"));
    r.push(String::from_str("__masked_builtin_arm_get_fpscr"));
    r.push(String::from_str("__masked_builtin_arm_set_fpscr"));
    r.push(String::from_str("__NVIC_SetPriority"));
    assert(r.deep_view() =~= foreign_abi_names());
    r
}

fn is_foreign_abi_name(name: &Vec<char>) -> (r: bool)
    ensures
        r == foreign_abi_names().contains(name@),
{
    let table = foreign_abi_table();
    let mut i: usize = 0;
    while i < table.len()
        invariant
            i <= table.len(),
            table.deep_view() == foreign_abi_names(),
            forall|k: int| 0 <= k < i ==> foreign_abi_names()[k] != name@,
        decreases table.len() - i,
    {
        let t = chars_of(table[i].as_str());
        assert(table.deep_view()[i as int] == table[i as int]@);
        if same_chars(&t, name) {
            assert(foreign_abi_names()[i as int] == name@);
            return true;
        }
        i = i + 1;
    }
    false
}

fn is_initializer(name: &Vec<char>, catalog: &Vec<CatalogEntry>) -> (r: bool)
    ensures
        r == is_initializer_name(name@, catalog_view(catalog@)),
{
    let prefix = chars_of("init_");
    proof {
        reveal_strlit("init_");
    }
    if name.len() <= 5 || !matches_at(name, 0, &prefix) {
        assert(name@.len() > 5 ==> name@.subrange(0, 5) == name@.take(5));
        return false;
    }
    assert(name@.subrange(0, 5) == name@.take(5));
    let mut rest: Vec<char> = Vec::new();
    let mut k: usize = 5;
    while k < name.len()
        invariant
            5 <= k <= name.len(),
            rest@ == name@.subrange(5, k as int),
        decreases name.len() - k,
    {
        rest.push(name[k]);
        assert(rest@ =~= name@.subrange(5, k + 1));
        k = k + 1;
    }
    assert(rest@ == name@.skip(5));
    let ghost cv = catalog_view(catalog@);
    let mut i: usize = 0;
    while i < catalog.len()
        invariant
            i <= catalog.len(),
            cv == catalog_view(catalog@),
            rest@ == name@.skip(5),
            name@.len() > 5,
            name@.take(5) == "init_"@,
            forall|k: int|
                0 <= k < i ==> !(!(#[trigger] cv[k]).is_array_family && cv[k].macro_name
                    == name@.skip(5)),
        decreases catalog.len() - i,
    {
        let e = &catalog[i];
        if !e.is_array_family {
            let m = chars_of(e.macro_name.as_str());
            if same_chars(&m, &rest) {
                assert(cv[i as int] == e@);
                assert(!cv[i as int].is_array_family && cv[i as int].macro_name == name@.skip(5));
                return true;
            }
        }
        assert(cv[i as int] == e@);
        i = i + 1;
    }
    false
}

fn policy_chars(name: &Vec<char>, catalog: &Vec<CatalogEntry>) -> (r: CallPolicy)
    ensures
        r == policy_of(name@, catalog_view(catalog@)),
{
    if is_foreign_abi_name(name) {
        CallPolicy::ForeignAbi
    } else if is_initializer(name, catalog) {
        CallPolicy::ConstFn
    } else {
        CallPolicy::PublicUnsafe
    }
}

/// The calling convention the patched output gives a function of this name.
pub fn call_policy(name: &str, catalog: &Vec<CatalogEntry>) -> (r: CallPolicy)
    ensures
        r == policy_of(name@, catalog_view(catalog@)),
{
    policy_chars(&chars_of(name), catalog)
}

fn header_chars(p: CallPolicy) -> (r: Vec<char>)
    ensures
        r@ == header_of(p),
{
    match p {
        CallPolicy::ForeignAbi => chars_of("unsafe extern \"C\" fn "),
        CallPolicy::ConstFn => chars_of("const fn "),
        CallPolicy::PublicUnsafe => chars_of("pub unsafe fn "),
    }
}

proof fn lemma_paren_bounds(s: Seq<char>, j: int)
    ensures
        paren_from(s, j) matches Some(p) ==> j <= p < s.len() && s[p] == '(',
    decreases s.len() - j,
{
    if 0 <= j < s.len() && s[j] != '(' {
        lemma_paren_bounds(s, j + 1);
    }
}

/// Replaces each function header by the one the decision table gives for
/// the function's name; fails where a header is followed by no `(`.
pub fn rewrite_function_headers(text: &str, catalog: &Vec<CatalogEntry>) -> (r: Result<
    String,
    PatchError,
>)
    ensures
        match r {
            Ok(t) => rewritten_headers(text@, catalog_view(catalog@)) == Some(t@),
            Err(e) => e == PatchError::MissingParameterList && rewritten_headers(
                text@,
                catalog_view(catalog@),
            ) is None,
        },
{
    let ghost cv = catalog_view(catalog@);
    let s = chars_of(text);
    let h = chars_of("unsafe extern \"C\" fn ");
    proof {
        reveal_strlit("unsafe extern \"C\" fn ");
    }
    let mut out: Vec<char> = Vec::new();
    let mut i: usize = 0;
    while i < s.len()
        invariant
            i <= s.len(),
            s@ == text@,
            h@ == foreign_header(),
            h@.len() > 0,
            cv == catalog_view(catalog@),
            match headers_from(s@, i as int, cv) {
                Some(rest) => headers_from(s@, 0, cv) == Some(out@ + rest),
                None => headers_from(s@, 0, cv) is None,
            },
        decreases s.len() - i,
    {
        if matches_at(&s, i, &h) {
            let j = i + h.len();
            proof {
                lemma_paren_bounds(s@, j as int);
            }
            match find_paren(&s, j) {
                None => {
                    return Err(PatchError::MissingParameterList);
                },
                Some(p) => {
                    let name = copy_range(&s, j, p);
                    let head = header_chars(policy_chars(&name, catalog));
                    let ghost before = out@;
                    push_all(&mut out, &head);
                    proof {
                        if let Some(rest) = headers_from(s@, j as int, cv) {
                            assert(before + (head@ + rest) =~= out@ + rest);
                        }
                    }
                    i = j;
                },
            }
        } else {
            let ghost before = out@;
            out.push(s[i]);
            proof {
                if let Some(rest) = headers_from(s@, i + 1, cv) {
                    assert(before + (seq![s@[i as int]] + rest) =~= out@ + rest);
                }
            }
            i = i + 1;
        }
    }
    assert(out@ + Seq::<char>::empty() =~= out@);
    Ok(string_of(&out))
}

/// The declaration the transpiler gives a family's array.
pub open spec fn static_declaration(name: Seq<char>) -> Seq<char> {
    "#[no_mangle]\npub static mut "@ + name
}

/// The constant that replaces it.
pub open spec fn const_declaration(name: Seq<char>) -> Seq<char> {
    "pub const "@ + name
}

/// `s` with the arrays of the first `k` catalog entries made constants.
pub open spec fn constified_upto(s: Seq<char>, catalog: Seq<MacroSpec>, k: int) -> Seq<char>
    decreases k,
{
    if k <= 0 || k > catalog.len() {
        s
    } else {
        let prev = constified_upto(s, catalog, k - 1);
        let e = catalog[k - 1];
        if e.is_array_family {
            let name = family_name(e.macro_name, "n"@);
            replaced(prev, static_declaration(name), const_declaration(name))
        } else {
            prev
        }
    }
}

/// `s` with the mutable static of every family array made a constant.
pub open spec fn constified(s: Seq<char>, catalog: Seq<MacroSpec>) -> Seq<char> {
    constified_upto(s, catalog, catalog.len() as int)
}

/// Turns the generated mutable static of each family array into a constant.
pub fn constify_families(text: &str, catalog: &Vec<CatalogEntry>) -> (r: String)
    ensures
        r@ == constified(text@, catalog_view(catalog@)),
{
    let ghost cv = catalog_view(catalog@);
    let mut cur = String::from_str(text);
    let mut k: usize = 0;
    while k < catalog.len()
        invariant
            k <= catalog.len(),
            cv == catalog_view(catalog@),
            cur@ == constified_upto(text@, cv, k as int),
        decreases catalog.len() - k,
    {
        let e = &catalog[k];
        assert(cv[k as int] == e@);
        if e.is_array_family {
            let name = instantiate(e.macro_name.as_str(), "n");
            let from = String::from_str("#[no_mangle]\npub static mut ").concat(name.as_str());
            let to = String::from_str("pub const ").concat(name.as_str());
            proof {
                reveal_strlit("#[no_mangle]\npub static mut ");
            }
            cur = replace_text(cur.as_str(), from.as_str(), to.as_str());
        }
        k = k + 1;
    }
    cur
}

/// The declarations pass already provides the foreign type prefix, the
/// current toolchain spells the legacy assembly directive differently, and
/// exported body-less functions must be visible.
pub open spec fn respelled(s: Seq<char>) -> Seq<char> {
    let a = replaced(s, "use ::libc;\n"@, ""@);
    let b = replaced(a, " asm!("@, " llvm_asm!("@);
    replaced(b, "    #[no_mangle]\n    fn "@, "    #[no_mangle]\n    pub fn "@)
}

/// Drops the redundant type-prefix import, respells inline assembly, and
/// makes exported body-less functions public.
pub fn respell(text: &str) -> (r: String)
    ensures
        r@ == respelled(text@),
{
    proof {
        reveal_strlit("use ::libc;\n");
        reveal_strlit(" asm!(");
        reveal_strlit("    #[no_mangle]\n    fn ");
    }
    let a = replace_text(text, "use ::libc;\n", "");
    let b = replace_text(a.as_str(), " asm!(", " llvm_asm!(");
    replace_text(b.as_str(), "    #[no_mangle]\n    fn ", "    #[no_mangle]\n    pub fn ")
}

/// What the regular-expression engine makes of `text` when every match of
/// `pattern` is replaced by `rep`, with `$0` standing for the match.
pub uninterp spec fn pattern_replaced(pattern: Seq<char>, text: Seq<char>, rep: Seq<char>) -> Seq<
    char,
>;

/// The two whole-word patterns the pass renames by.
pub open spec fn is_rename_pattern(p: Seq<char>) -> bool {
    p == "\\bGCLK\\b"@ || p == "\\bSERCOM[0-9]\\b"@
}

/// Relies on `regex::Regex::new`, which accepts both patterns of
/// `is_rename_pattern` (word-boundary assertions, literal characters and the
/// class `[0-9]`, all documented syntax, far below the size limit), and on
/// `regex::Regex::replace_all`: every non-overlapping match is replaced, and
/// the result depends on the three strings alone.
#[verifier::external_body]
fn replace_pattern(pattern: &str, text: &str, rep: &str) -> (r: String)
    requires
        is_rename_pattern(pattern@),
    ensures
        r@ == pattern_replaced(pattern@, text@, rep@),
{
    let re = regex::Regex::new(pattern).expect("documented regex syntax");
    re.replace_all(text, rep).into_owned()
}

/// Identifiers that would collide with pattern vocabulary of the declarations
/// are renamed everywhere they occur as whole words.
pub open spec fn disambiguated(s: Seq<char>) -> Seq<char> {
    let a = pattern_replaced("\\bGCLK\\b"@, s, "GLOBAL_GCLK"@);
    pattern_replaced("\\bSERCOM[0-9]\\b"@, a, "GLOBAL_$0"@)
}

/// Renames the colliding identifiers `GCLK` and `SERCOM0` to `SERCOM9`.
pub fn disambiguate(text: &str) -> (r: String)
    ensures
        r@ == disambiguated(text@),
{
    let a = replace_pattern("\\bGCLK\\b", text, "GLOBAL_GCLK");
    replace_pattern("\\bSERCOM[0-9]\\b", a.as_str(), "GLOBAL_$0")
}

/// The rewrites that follow disambiguation: function headers by the decision
/// table, then family arrays made constants.
pub open spec fn finished(s: Seq<char>, catalog: Seq<MacroSpec>) -> Option<Seq<char>> {
    match rewritten_headers(s, catalog) {
        Some(h) => Some(constified(h, catalog)),
        None => None,
    }
}

/// The whole reconciliation pass over the transpiler's output.
pub open spec fn patched(s: Seq<char>, catalog: Seq<MacroSpec>) -> Option<Seq<char>> {
    finished(disambiguated(respelled(s)), catalog)
}

/// Applies the rewrites that follow disambiguation to its result.
pub fn finish_patch(renamed: &str, catalog: &Vec<CatalogEntry>) -> (r: Result<String, PatchError>)
    ensures
        match r {
            Ok(t) => finished(renamed@, catalog_view(catalog@)) == Some(t@),
            Err(e) => e == PatchError::MissingParameterList && finished(
                renamed@,
                catalog_view(catalog@),
            ) is None,
        },
{
    let h = rewrite_function_headers(renamed, catalog)?;
    Ok(constify_families(h.as_str(), catalog))
}

/// The outcome the reconciliation pass owes: the patched text where every
/// function header is followed by a parameter list, else the error.
pub open spec fn patch_outcome(s: Seq<char>, catalog: Seq<MacroSpec>) -> Result<
    Seq<char>,
    PatchError,
> {
    match patched(s, catalog) {
        Some(t) => Ok(t),
        None => Err(PatchError::MissingParameterList),
    }
}

pub open spec fn text_result_view(r: Result<String, PatchError>) -> Result<Seq<char>, PatchError> {
    match r {
        Ok(t) => Ok(t@),
        Err(e) => Err(e),
    }
}

/// Runs the reconciliation pass, in its fixed order, over the transpiler's
/// output.
pub fn patch_transpiled(text: &str, catalog: &Vec<CatalogEntry>) -> (r: Result<
    String,
    PatchError,
>)
    ensures
        text_result_view(r) == patch_outcome(text@, catalog_view(catalog@)),
{
    let a = respell(text);
    let b = disambiguate(a.as_str());
    finish_patch(b.as_str(), catalog)
}

proof fn lemma_paren_shift(x: Seq<char>, y: Seq<char>, j: int)
    requires
        0 <= j <= y.len(),
    ensures
        paren_from(x + y, x.len() + j) == (match paren_from(y, j) {
            Some(p) => Some(x.len() + p),
            None => None::<int>,
        }),
    decreases y.len() - j,
{
    if j < y.len() {
        assert((x + y)[x.len() + j] == y[j]);
        lemma_paren_shift(x, y, j + 1);
    }
}

proof fn lemma_headers_shift(x: Seq<char>, y: Seq<char>, j: int, c: Seq<MacroSpec>)
    requires
        0 <= j <= y.len(),
    ensures
        headers_from(x + y, x.len() + j, c) == headers_from(y, j, c),
    decreases y.len() - j,
{
    let t = x + y;
    let i = x.len() + j;
    let h = foreign_header();
    if j < y.len() {
        assert(starts_at(t, i, h) == starts_at(y, j, h)) by {
            if i + h.len() <= t.len() {
                assert(t.subrange(i, i + h.len()) =~= y.subrange(j, j + h.len()));
            }
        }
        assert(t[i] == y[j]);
        if h.len() > 0 && starts_at(y, j, h) {
            lemma_paren_shift(x, y, j + h.len());
            lemma_paren_bounds(y, j + h.len());
            lemma_headers_shift(x, y, j + h.len(), c);
            if let Some(p) = paren_from(y, j + h.len()) {
                assert(t.subrange(i + h.len(), x.len() + p) =~= y.subrange(j + h.len(), p));
            }
        } else {
            lemma_headers_shift(x, y, j + 1, c);
        }
    }
}

/// No function header starts in `t` at an index in `lo..hi`.
pub open spec fn no_header_in(t: Seq<char>, lo: int, hi: int) -> bool {
    forall|p: int| lo <= p < hi ==> !#[trigger] starts_at(t, p, foreign_header())
}

proof fn lemma_headers_clean_run(t: Seq<char>, i: int, m: int, c: Seq<MacroSpec>)
    requires
        0 <= i <= m <= t.len(),
        no_header_in(t, i, m),
    ensures
        headers_from(t, i, c) == (match headers_from(t, m, c) {
            Some(r) => Some(t.subrange(i, m) + r),
            None => None,
        }),
    decreases m - i,
{
    if i < m {
        assert(!starts_at(t, i, foreign_header()));
        lemma_headers_clean_run(t, i + 1, m, c);
        if let Some(r) = headers_from(t, m, c) {
            assert(seq![t[i]] + (t.subrange(i + 1, m) + r) =~= t.subrange(i, m) + r);
        }
    } else {
        if let Some(r) = headers_from(t, m, c) {
            assert(t.subrange(i, m) + r =~= r);
        }
    }
}

/// The name a function chunk begins with: the text before its first `(`.
pub open spec fn chunk_name(c: Seq<char>) -> Seq<char> {
    match paren_from(c, 0) {
        Some(p) => c.subrange(0, p),
        None => c,
    }
}

/// Function chunks, each introduced by the transpiler's header.
pub open spec fn joined_functions(fs: Seq<Seq<char>>) -> Seq<char>
    decreases fs.len(),
{
    if fs.len() == 0 {
        Seq::empty()
    } else {
        foreign_header() + fs[0] + joined_functions(fs.skip(1))
    }
}

/// The same chunks, each introduced by the header its name is given.
pub open spec fn reheaded_functions(fs: Seq<Seq<char>>, catalog: Seq<MacroSpec>) -> Seq<char>
    decreases fs.len(),
{
    if fs.len() == 0 {
        Seq::empty()
    } else {
        header_of(policy_of(chunk_name(fs[0]), catalog)) + fs[0] + reheaded_functions(
            fs.skip(1),
            catalog,
        )
    }
}

proof fn lemma_header_letters()
    ensures
        foreign_header().len() > 1,
        foreign_header()[0] == 'u',
        forall|k: int| 1 <= k < foreign_header().len() ==> foreign_header()[k] != 'u',
{
    reveal_strlit("unsafe extern \"C\" fn ");
    assert(foreign_header() =~= seq![
        'u', 'n', 's', 'a', 'f', 'e', ' ', 'e', 'x', 't', 'e', 'r', 'n', ' ', '"', 'C', '"', ' ',
        'f', 'n', ' ',
    ]);
}

/// A stretch of `t` that holds no header and is followed by a header or by
/// the end of `t` starts no header.
proof fn lemma_no_header_in_chunk(t: Seq<char>, lo: int, hi: int)
    requires
        0 <= lo <= hi <= t.len(),
        !contains_text(t.subrange(lo, hi), foreign_header()),
        hi == t.len() || starts_at(t, hi, foreign_header()),
    ensures
        no_header_in(t, lo, hi),
{
    let h = foreign_header();
    lemma_header_letters();
    assert forall|p: int| lo <= p < hi implies !#[trigger] starts_at(t, p, h) by {
        if starts_at(t, p, h) {
            if p + h.len() <= hi {
                assert(t.subrange(lo, hi).subrange(p - lo, p - lo + h.len()) =~= t.subrange(
                    p,
                    p + h.len(),
                ));
                assert(starts_at(t.subrange(lo, hi), p - lo, h));
            } else {
                assert(t.subrange(hi, hi + h.len())[0] == t[hi]);
                assert(t.subrange(p, p + h.len())[hi - p] == t[hi]);
            }
        }
    }
}

proof fn lemma_paren_prefix(x: Seq<char>, y: Seq<char>, j: int)
    requires
        0 <= j,
        paren_from(x, j) is Some,
    ensures
        paren_from(x + y, j) == paren_from(x, j),
    decreases x.len() - j,
{
    if j < x.len() {
        assert((x + y)[j] == x[j]);
        if x[j] != '(' {
            lemma_paren_prefix(x, y, j + 1);
        }
    }
}

proof fn lemma_paren_found(x: Seq<char>, j: int, k: int)
    requires
        0 <= j <= k < x.len(),
        x[k] == '(',
    ensures
        paren_from(x, j) is Some,
    decreases k - j,
{
    if j < k && x[j] != '(' {
        lemma_paren_found(x, j + 1, k);
    }
}

proof fn lemma_one_function(f: Seq<char>, r: Seq<char>, catalog: Seq<MacroSpec>)
    requires
        !contains_text(f, foreign_header()),
        f.contains('('),
        r.len() == 0 || starts_at(r, 0, foreign_header()),
    ensures
        headers_from(foreign_header() + f + r, 0, catalog) == (match headers_from(r, 0, catalog) {
            Some(x) => Some(header_of(policy_of(chunk_name(f), catalog)) + f + x),
            None => None,
        }),
{
    let h = foreign_header();
    lemma_header_letters();
    let t = h + f + r;
    assert(t.subrange(0, h.len() as int) =~= h);
    let k = choose|k: int| 0 <= k < f.len() && f[k] == '(';
    lemma_paren_found(f, 0, k);
    lemma_paren_bounds(f, 0);
    let p: int = paren_from(f, 0)->0;
    lemma_paren_prefix(f, r, 0);
    assert(t == h + (f + r));
    lemma_paren_shift(h, f + r, 0);
    assert(paren_from(t, h.len() as int) == Some(h.len() + p));
    assert(t.subrange(h.len() as int, h.len() + p) =~= f.subrange(0, p));
    let m = (h.len() + f.len()) as int;
    assert(t.subrange(h.len() as int, m) =~= f);
    if r.len() > 0 {
        assert(t.subrange(m, m + h.len()) =~= r.subrange(0, h.len() as int));
    }
    lemma_no_header_in_chunk(t, h.len() as int, m);
    lemma_headers_clean_run(t, h.len() as int, m, catalog);
    assert(t == (h + f) + r);
    lemma_headers_shift(h + f, r, 0, catalog);
    if let Some(x) = headers_from(r, 0, catalog) {
        assert(header_of(policy_of(chunk_name(f), catalog)) + (f + x) =~= header_of(
            policy_of(chunk_name(f), catalog),
        ) + f + x);
    }
}

proof fn lemma_functions_reheaded(fs: Seq<Seq<char>>, catalog: Seq<MacroSpec>)
    requires
        forall|i: int|
            0 <= i < fs.len() ==> !contains_text(#[trigger] fs[i], foreign_header()) && fs[i].contains(
                '(',
            ),
    ensures
        headers_from(joined_functions(fs), 0, catalog) == Some(reheaded_functions(fs, catalog)),
    decreases fs.len(),
{
    let h = foreign_header();
    if fs.len() > 0 {
        let rest = fs.skip(1);
        assert forall|i: int| 0 <= i < rest.len() implies !contains_text(
            #[trigger] rest[i],
            foreign_header(),
        ) && rest[i].contains('(') by {
            assert(rest[i] == fs[i + 1]);
        }
        lemma_functions_reheaded(rest, catalog);
        let r = joined_functions(rest);
        if rest.len() > 0 {
            assert(r == h + rest[0] + joined_functions(rest.skip(1)));
            assert(r.subrange(0, h.len() as int) =~= h);
        }
        assert(!contains_text(fs[0], h) && fs[0].contains('('));
        lemma_one_function(fs[0], r, catalog);
    }
}

/// A function definition gets exactly the header that the decision table
/// gives for its name, wherever it stands: for any text split at every
/// function header into a prelude and function chunks, each chunk holding its
/// parameter list, the rewrite keeps the prelude and introduces each chunk by
/// the header its own name is given, whatever the other chunks are.
pub proof fn lemma_convention_by_name(
    prelude: Seq<char>,
    fs: Seq<Seq<char>>,
    catalog: Seq<MacroSpec>,
)
    requires
        !contains_text(prelude, foreign_header()),
        forall|i: int|
            0 <= i < fs.len() ==> !contains_text(#[trigger] fs[i], foreign_header()) && fs[i].contains(
                '(',
            ),
    ensures
        rewritten_headers(prelude + joined_functions(fs), catalog) == Some(
            prelude + reheaded_functions(fs, catalog),
        ),
{
    let h = foreign_header();
    lemma_header_letters();
    let j = joined_functions(fs);
    let t = prelude + j;
    let b = prelude.len() as int;
    assert(t.subrange(0, b) =~= prelude);
    if fs.len() > 0 {
        assert(j == h + fs[0] + joined_functions(fs.skip(1)));
        assert(t.subrange(b, b + h.len()) =~= h);
    } else {
        assert(t =~= prelude);
    }
    lemma_no_header_in_chunk(t, 0, b);
    lemma_headers_clean_run(t, 0, b, catalog);
    lemma_headers_shift(prelude, j, 0, catalog);
    lemma_functions_reheaded(fs, catalog);
}

/// The timer and message callbacks keep the foreign calling convention,
/// whatever the catalog and wherever they stand.
pub proof fn lemma_callbacks_keep_foreign_header(catalog: Seq<MacroSpec>)
    ensures
        header_of(policy_of("_evtimer_msg_handler"@, catalog)) == foreign_header(),
        header_of(policy_of("_evtimer_mbox_handler"@, catalog)) == foreign_header(),
{
    assert(foreign_abi_names()[0] == "_evtimer_msg_handler"@);
    assert(foreign_abi_names()[1] == "_evtimer_mbox_handler"@);
}

} // verus!
