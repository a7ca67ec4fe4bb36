//! The macro catalog and the synthetic C source that makes its macros
//! reachable as typed values.

use vstd::prelude::*;
use vstd::string::StringExecFns;
use crate::text::{replace_text, replaced, same_text};

verus! {

/// One macro the bindings cannot reach on their own: a struct-valued constant
/// of type `c_type`, or, for a family, a name pattern whose `{}` stands for
/// the member's index.
pub struct CatalogEntry {
    pub macro_name: String,
    pub c_type: String,
    pub is_array_family: bool,
}

/// The mathematical content of a catalog entry.
pub struct MacroSpec {
    pub macro_name: Seq<char>,
    pub c_type: Seq<char>,
    pub is_array_family: bool,
}

impl View for CatalogEntry {
    type V = MacroSpec;

    open spec fn view(&self) -> MacroSpec {
        MacroSpec {
            macro_name: self.macro_name@,
            c_type: self.c_type@,
            is_array_family: self.is_array_family,
        }
    }
}

pub open spec fn catalog_view(c: Seq<CatalogEntry>) -> Seq<MacroSpec> {
    c.map_values(|e: CatalogEntry| e@)
}

pub open spec fn scalar_spec(name: Seq<char>, ty: Seq<char>) -> MacroSpec {
    MacroSpec { macro_name: name, c_type: ty, is_array_family: false }
}

pub open spec fn family_spec(pattern: Seq<char>, ty: Seq<char>) -> MacroSpec {
    MacroSpec { macro_name: pattern, c_type: ty, is_array_family: true }
}

/// The hand-curated catalog: struct initializers whose type the generators
/// cannot infer, and the per-button pin and mode families.
pub open spec fn default_catalog_spec() -> Seq<MacroSpec> {
    seq![
        scalar_spec("SOCK_IPV4_EP_ANY"@, "sock_udp_ep_t"@),
        scalar_spec("SOCK_IPV6_EP_ANY"@, "sock_udp_ep_t"@),
        scalar_spec("MUTEX_INIT"@, "mutex_t"@),
        scalar_spec("STATUS_NOT_FOUND"@, "thread_status_t"@),
        family_spec("BTN{}_PIN"@, "gpio_t"@),
        family_spec("BTN{}_MODE"@, "gpio_direction_t"@),
    ]
}

/// A family's name pattern with its index placeholder `{}` replaced by `sub`.
pub open spec fn family_name(pattern: Seq<char>, sub: Seq<char>) -> Seq<char> {
    replaced(pattern, "{}"@, sub)
}

/// The name of the family pattern's member (or array) for `sub`.
pub fn instantiate(pattern: &str, sub: &str) -> (r: String)
    ensures
        r@ == family_name(pattern@, sub@),
{
    proof {
        reveal_strlit("{}");
    }
    replace_text(pattern, "{}", sub)
}

fn entry(name: &str, ty: &str, family: bool) -> (r: CatalogEntry)
    ensures
        r@ == (MacroSpec { macro_name: name@, c_type: ty@, is_array_family: family }),
{
    CatalogEntry { macro_name: String::from_str(name), c_type: String::from_str(ty), is_array_family: family }
}

/// The catalog the pipeline materializes.
pub fn default_catalog() -> (r: Vec<CatalogEntry>)
    ensures
        catalog_view(r@) == default_catalog_spec(),
{
    let mut r: Vec<CatalogEntry> = Vec::new();
    r.push(entry("SOCK_IPV4_EP_ANY", "sock_udp_ep_t", false));
    r.push(entry("SOCK_IPV6_EP_ANY", "sock_udp_ep_t", false));
    r.push(entry("MUTEX_INIT", "mutex_t", false));
    r.push(entry("STATUS_NOT_FOUND", "thread_status_t", false));
    r.push(entry("BTN{}_PIN", "gpio_t", true));
    r.push(entry("BTN{}_MODE", "gpio_direction_t", true));
    assert(catalog_view(r@) =~= default_catalog_spec());
    r
}

/// How many members a macro family can have.
pub const FAMILY_SIZE: usize = 8;

/// The decimal text of a member index.
pub open spec fn index_text(i: nat) -> Seq<char> {
    if i == 0 {
        "0"@
    } else if i == 1 {
        "1"@
    } else if i == 2 {
        "2"@
    } else if i == 3 {
        "3"@
    } else if i == 4 {
        "4"@
    } else if i == 5 {
        "5"@
    } else if i == 6 {
        "6"@
    } else if i == 7 {
        "7"@
    } else if i == 8 {
        "8"@
    } else {
        "9"@
    }
}

fn index_string(i: usize) -> (r: String)
    requires
        i < 10,
    ensures
        r@ == index_text(i as nat),
{
    match i {
        0 => String::from_str("0"),
        1 => String::from_str("1"),
        2 => String::from_str("2"),
        3 => String::from_str("3"),
        4 => String::from_str("4"),
        5 => String::from_str("5"),
        6 => String::from_str("6"),
        7 => String::from_str("7"),
        8 => String::from_str("8"),
        _ => String::from_str("9"),
    }
}

/// The name of a family's member `i`.
pub open spec fn member_name(pattern: Seq<char>, i: nat) -> Seq<char> {
    family_name(pattern, index_text(i))
}

/// An accessor function for a struct-valued macro, compiled only where the
/// macro is defined.
pub open spec fn scalar_accessor(e: MacroSpec) -> Seq<char> {
    "\n#ifdef "@ + e.macro_name + "\n"@ + e.c_type + " init_"@ + e.macro_name
        + "(void) {\n    "@ + e.c_type + " result = "@ + e.macro_name
        + ";\n    return result;\n}\n#endif\n"@
}

/// The element for member `i`, present only where that member is defined.
pub open spec fn member_guard(pattern: Seq<char>, i: nat) -> Seq<char> {
    "#ifdef "@ + member_name(pattern, i) + "\n    "@ + member_name(pattern, i) + ",\n#endif\n"@
}

/// The guarded elements for members `0..n`, in index order.
pub open spec fn member_guards(pattern: Seq<char>, n: nat) -> Seq<char>
    decreases n,
{
    if n == 0 {
        Seq::empty()
    } else {
        member_guards(pattern, (n - 1) as nat) + member_guard(pattern, (n - 1) as nat)
    }
}

/// A constant array holding the family's defined members.
pub open spec fn family_array(e: MacroSpec) -> Seq<char> {
    "const "@ + e.c_type + " "@ + family_name(e.macro_name, "n"@) + "[] = {\n"@ + member_guards(
        e.macro_name,
        FAMILY_SIZE as nat,
    ) + "};\n"@
}

/// The accessors of the scalar entries, in catalog order.
pub open spec fn scalar_section(c: Seq<MacroSpec>) -> Seq<char>
    decreases c.len(),
{
    if c.len() == 0 {
        Seq::empty()
    } else {
        scalar_section(c.drop_last()) + if c.last().is_array_family {
            Seq::empty()
        } else {
            scalar_accessor(c.last())
        }
    }
}

/// The arrays of the family entries, in catalog order.
pub open spec fn family_section(c: Seq<MacroSpec>) -> Seq<char>
    decreases c.len(),
{
    if c.len() == 0 {
        Seq::empty()
    } else {
        family_section(c.drop_last()) + if c.last().is_array_family {
            family_array(c.last())
        } else {
            Seq::empty()
        }
    }
}

/// The synthetic source: the macro header followed by every scalar accessor,
/// then every family array.
pub open spec fn synthetic_source(header: Seq<char>, c: Seq<MacroSpec>) -> Seq<char> {
    header + scalar_section(c) + family_section(c)
}

fn scalar_text(e: &CatalogEntry) -> (r: String)
    ensures
        r@ == scalar_accessor(e@),
{
    let name = e.macro_name.as_str();
    let ty = e.c_type.as_str();
    let r = String::from_str("\n#ifdef ").concat(name).concat("\n").concat(ty).concat(
        " init_",
    ).concat(name).concat("(void) {\n    ").concat(ty).concat(" result = ").concat(name).concat(
        ";\n    return result;\n}\n#endif\n",
    );
    r
}

fn family_text(e: &CatalogEntry) -> (r: String)
    ensures
        r@ == family_array(e@),
{
    let generic = instantiate(e.macro_name.as_str(), "n");
    let mut guards = String::new();
    for i in 0..FAMILY_SIZE
        invariant
            guards@ == member_guards(e.macro_name@, i as nat),
    {
        let member = instantiate(e.macro_name.as_str(), index_string(i).as_str());
        guards.append("#ifdef ");
        guards.append(member.as_str());
        guards.append("\n    ");
        guards.append(member.as_str());
        guards.append(",\n#endif\n");
        assert(guards@ =~= member_guards(e.macro_name@, (i + 1) as nat));
    }
    String::from_str("const ").concat(e.c_type.as_str()).concat(" ").concat(generic.as_str()).concat(
        "[] = {\n",
    ).concat(guards.as_str()).concat("};\n")
}

/// Emits the synthetic source for the catalog after the macro header's text.
pub fn synthesize(header: &str, catalog: &Vec<CatalogEntry>) -> (r: String)
    ensures
        r@ == synthetic_source(header@, catalog_view(catalog@)),
{
    let ghost cv = catalog_view(catalog@);
    let mut scalars = String::new();
    let mut families = String::new();
    for k in 0..catalog.len()
        invariant
            cv == catalog_view(catalog@),
            scalars@ == scalar_section(cv.take(k as int)),
            families@ == family_section(cv.take(k as int)),
    {
        let e = &catalog[k];
        assert(cv.take(k + 1).drop_last() =~= cv.take(k as int));
        assert(cv.take(k + 1).last() == e@);
        if e.is_array_family {
            families.append(family_text(e).as_str());
        } else {
            scalars.append(scalar_text(e).as_str());
        }
        assert(scalars@ =~= scalar_section(cv.take(k + 1)));
        assert(families@ =~= family_section(cv.take(k + 1)));
    }
    assert(cv.take(catalog.len() as int) =~= cv);
    String::from_str(header).concat(scalars.as_str()).concat(families.as_str())
}

/// Whether `name` is among `defined`.
pub fn is_listed(defined: &Vec<String>, name: &str) -> (r: bool)
    ensures
        r == defined.deep_view().contains(name@),
{
    let mut i: usize = 0;
    while i < defined.len()
        invariant
            i <= defined.len(),
            forall|k: int| 0 <= k < i ==> defined.deep_view()[k] != name@,
        decreases defined.len() - i,
    {
        assert(defined.deep_view()[i as int] == defined[i as int]@);
        if same_text(defined[i].as_str(), name) {
            return true;
        }
        i = i + 1;
    }
    false
}

/// The indices below `n` whose member is among `defined`, ascending.
pub open spec fn present_indices(pattern: Seq<char>, defined: Seq<Seq<char>>, n: nat) -> Seq<nat>
    decreases n,
{
    if n == 0 {
        Seq::empty()
    } else {
        let prev = present_indices(pattern, defined, (n - 1) as nat);
        if defined.contains(member_name(pattern, (n - 1) as nat)) {
            prev.push((n - 1) as nat)
        } else {
            prev
        }
    }
}

/// What a family's array holds once its guards are evaluated against the
/// defined macros: the defined members, in index order.
pub open spec fn present_members(pattern: Seq<char>, defined: Seq<Seq<char>>) -> Seq<Seq<char>> {
    present_indices(pattern, defined, FAMILY_SIZE as nat).map_values(
        |i: nat| member_name(pattern, i),
    )
}

proof fn lemma_present_indices(pattern: Seq<char>, defined: Seq<Seq<char>>, n: nat)
    ensures
        forall|k: int|
            0 <= k < present_indices(pattern, defined, n).len() ==> {
                let i = #[trigger] present_indices(pattern, defined, n)[k];
                i < n && defined.contains(member_name(pattern, i))
            },
        forall|i: nat|
            i < n && defined.contains(#[trigger] member_name(pattern, i)) ==> present_indices(
                pattern,
                defined,
                n,
            ).contains(i),
        forall|a: int, b: int|
            0 <= a < b < present_indices(pattern, defined, n).len() ==> present_indices(
                pattern,
                defined,
                n,
            )[a] < present_indices(pattern, defined, n)[b],
    decreases n,
{
    if n > 0 {
        let m = (n - 1) as nat;
        lemma_present_indices(pattern, defined, m);
        let prev = present_indices(pattern, defined, m);
        if defined.contains(member_name(pattern, m)) {
            let cur = prev.push(m);
            assert(cur[prev.len() as int] == m);
            assert forall|i: nat| i < n && defined.contains(#[trigger] member_name(pattern, i))
                implies cur.contains(i) by {
                if i < m {
                    let k = choose|k: int| 0 <= k < prev.len() && prev[k] == i;
                    assert(cur[k] == i);
                } else {
                    assert(cur[prev.len() as int] == i);
                }
            }
        }
    }
}

/// A family's materialized array holds exactly the members defined for the
/// target, each once, in ascending index order: never a missing member's
/// placeholder, never reordered.
pub proof fn lemma_family_materialization(pattern: Seq<char>, defined: Seq<Seq<char>>)
    ensures
        ({
            let idx = present_indices(pattern, defined, FAMILY_SIZE as nat);
            &&& present_members(pattern, defined) == idx.map_values(
                |i: nat| member_name(pattern, i),
            )
            &&& forall|k: int|
                0 <= k < idx.len() ==> #[trigger] idx[k] < FAMILY_SIZE && defined.contains(
                    member_name(pattern, idx[k]),
                )
            &&& forall|i: nat|
                i < FAMILY_SIZE && defined.contains(#[trigger] member_name(pattern, i))
                    ==> idx.contains(i)
            &&& forall|a: int, b: int| 0 <= a < b < idx.len() ==> idx[a] < idx[b]
        }),
{
    lemma_present_indices(pattern, defined, FAMILY_SIZE as nat);
}

/// The members of a family that the guards of its array let through, given
/// the macros defined for the target.
pub fn family_members(pattern: &str, defined: &Vec<String>) -> (r: Vec<String>)
    ensures
        r.deep_view() == present_members(pattern@, defined.deep_view()),
{
    let ghost d = defined.deep_view();
    let mut r: Vec<String> = Vec::new();
    for i in 0..FAMILY_SIZE
        invariant
            d == defined.deep_view(),
            r.deep_view() == present_indices(pattern@, d, i as nat).map_values(
                |j: nat| member_name(pattern@, j),
            ),
    {
        let member = instantiate(pattern, index_string(i).as_str());
        if is_listed(defined, member.as_str()) {
            let ghost before = r.deep_view();
            r.push(member);
            assert(r.deep_view() =~= before.push(member_name(pattern@, i as nat)));
            assert(present_indices(pattern@, d, (i + 1) as nat).map_values(
                |j: nat| member_name(pattern@, j),
            ) =~= before.push(member_name(pattern@, i as nat)));
        }
    }
    r
}

/// The accessors of scalar entries whose macro is defined, in catalog order.
pub open spec fn present_accessors(c: Seq<MacroSpec>, defined: Seq<Seq<char>>) -> Seq<Seq<char>>
    decreases c.len(),
{
    if c.len() == 0 {
        Seq::empty()
    } else {
        let prev = present_accessors(c.drop_last(), defined);
        if !c.last().is_array_family && defined.contains(c.last().macro_name) {
            prev.push("init_"@ + c.last().macro_name)
        } else {
            prev
        }
    }
}

/// The accessor functions that the guards of the synthetic source let
/// through, given the macros defined for the target.
pub fn scalar_accessors(catalog: &Vec<CatalogEntry>, defined: &Vec<String>) -> (r: Vec<String>)
    ensures
        r.deep_view() == present_accessors(catalog_view(catalog@), defined.deep_view()),
{
    let ghost cv = catalog_view(catalog@);
    let ghost d = defined.deep_view();
    let mut r: Vec<String> = Vec::new();
    for k in 0..catalog.len()
        invariant
            cv == catalog_view(catalog@),
            d == defined.deep_view(),
            r.deep_view() == present_accessors(cv.take(k as int), d),
    {
        let e = &catalog[k];
        assert(cv.take(k + 1).drop_last() =~= cv.take(k as int));
        assert(cv.take(k + 1).last() == e@);
        if !e.is_array_family && is_listed(defined, e.macro_name.as_str()) {
            let name = String::from_str("init_").concat(e.macro_name.as_str());
            let ghost before = r.deep_view();
            r.push(name);
            assert(r.deep_view() =~= before.push(name@));
        }
    }
    assert(cv.take(catalog.len() as int) =~= cv);
    r
}

} // verus!
