//! The contract analyzer driver: walks every implementation block of a
//! source unit, decides which blocks hold externally callable entry points,
//! analyzes each qualifying method, and assembles the report.
//!
//! Eligibility is one shared three-way predicate: an explicit entry-point
//! attribute, a plausible externally callable method signature, or
//! declarative-macro signals (selector-like constants anywhere in the file, a
//! previously observed dispatcher, or an override-assertion marker).  When no
//! entry point qualifies, analysis fails hard with the selector count as a
//! diagnostic hint.

use vstd::prelude::*;

use crate::analyze::{analyze_function, analyze_function_spec};
use crate::cost::CostModel;
use crate::lines::{
    extract_contract_name, extract_contract_name_spec, find_function_lines, fn_lines_spec,
    lookup_fn_line, lookup_fn_line_spec,
};
use crate::model::{ImplBlock, Item, Method, SourceUnit};
use crate::text::{
    chars_match_at, lines_spec, matches_at, split_lines, starts_with_seq, starts_with_str, str_eq,
    to_chars,
};
use crate::types::{AnalysisError, ContractAnalysis, FunctionAnalysis, FunctionAnalysisV};

verus! {

/// `s` ends with `p`.
pub open spec fn ends_with_seq(s: Seq<char>, p: Seq<char>) -> bool {
    p.len() <= s.len() && matches_at(s, p, s.len() - p.len())
}

/// Whether `s` ends with `pat`.
pub fn ends_with_str(s: &str, pat: &str) -> (b: bool)
    ensures
        b == ends_with_seq(s@, pat@),
{
    let sv = to_chars(s);
    let pv = to_chars(pat);
    if pv.len() > sv.len() {
        return false;
    }
    chars_match_at(&sv, &pv, sv.len() - pv.len())
}

/// Lifecycle, storage-plumbing and dispatch helper names, plus anything
/// underscore-prefixed.  One shared predicate serves both entry-point
/// eligibility and output exclusion.
pub open spec fn is_excluded_name(name: Seq<char>) -> bool {
    ||| name == "new"@
    ||| name == "load"@
    ||| name == "load_mut"@
    ||| name == "entrypoint"@
    ||| name == "user_entrypoint"@
    ||| name == "mark_used"@
    ||| name == "required_slots"@
    ||| name == "route"@
    ||| name == "dispatch"@
    ||| starts_with_seq(name, "_"@)
}

/// Whether `name` is a lifecycle or dispatch helper that never appears in
/// the analysis output.
pub fn is_lifecycle_name(name: &str) -> (b: bool)
    ensures
        b == is_excluded_name(name@),
{
    str_eq(name, "new") || str_eq(name, "load") || str_eq(name, "load_mut") || str_eq(
        name,
        "entrypoint",
    ) || str_eq(name, "user_entrypoint") || str_eq(name, "mark_used") || str_eq(
        name,
        "required_slots",
    ) || str_eq(name, "route") || str_eq(name, "dispatch") || starts_with_str(name, "_")
}

/// A selector-like constant name.
pub open spec fn is_selector_name(name: Seq<char>) -> bool {
    starts_with_seq(name, "SELECTOR_"@) || ends_with_seq(name, "_SELECTOR"@)
}

/// Number of selector-like constants among the items.
pub open spec fn selector_count_spec(items: Seq<Item>) -> int
    decreases items.len(),
{
    if items.len() == 0 {
        0
    } else {
        selector_count_spec(items.drop_last()) + match items.last() {
            Item::Const { name } => if is_selector_name(name@) {
                1int
            } else {
                0int
            },
            _ => 0int,
        }
    }
}

/// Counts the selector-like constants of the unit.
pub fn count_selectors(unit: &SourceUnit) -> (n: usize)
    ensures
        n == selector_count_spec(unit.items@),
{
    let mut n: usize = 0;
    let mut i: usize = 0;
    while i < unit.items.len()
        invariant
            i <= unit.items@.len(),
            n <= i,
            n == selector_count_spec(unit.items@.subrange(0, i as int)),
        decreases unit.items@.len() - i,
    {
        proof {
            assert(unit.items@.subrange(0, i + 1).drop_last() =~= unit.items@.subrange(
                0,
                i as int,
            ));
        }
        match &unit.items[i] {
            Item::Const { name } => {
                if starts_with_str(name.as_str(), "SELECTOR_") || ends_with_str(
                    name.as_str(),
                    "_SELECTOR",
                ) {
                    n = n + 1;
                }
            },
            _ => {},
        }
        i = i + 1;
    }
    proof {
        assert(unit.items@.subrange(0, unit.items@.len() as int) =~= unit.items@);
    }
    n
}

/// A dispatcher method name.
pub open spec fn is_router_name(name: Seq<char>) -> bool {
    name == "route"@ || name == "user_entrypoint"@ || name == "dispatch"@
}

/// The block holds a dispatcher method.
pub open spec fn has_router_method(b: ImplBlock) -> bool {
    exists|i: int| 0 <= i < b.methods@.len() && is_router_name(#[trigger] b.methods@[i].name@)
}

/// The block carries an explicit entry-point attribute.
pub open spec fn has_entry_attr(b: ImplBlock) -> bool {
    exists|i: int|
        0 <= i < b.attrs@.len() && (#[trigger] b.attrs@[i]@ == "external"@ || b.attrs@[i]@
            == "public"@)
}

/// The block carries the override-assertion marker.
pub open spec fn has_override_attr(b: ImplBlock) -> bool {
    exists|i: int| 0 <= i < b.attrs@.len() && #[trigger] b.attrs@[i]@ == "stylus_assert_overrides"@
}

/// A plausible externally callable method: public, takes a self receiver,
/// and is not a lifecycle helper.
pub open spec fn is_abi_method(m: Method) -> bool {
    m.is_public && m.has_self_receiver && !is_excluded_name(m.name@)
}

/// The block holds a plausible externally callable method.
pub open spec fn has_abi_method(b: ImplBlock) -> bool {
    exists|i: int| 0 <= i < b.methods@.len() && is_abi_method(#[trigger] b.methods@[i])
}

/// The shared entry-point eligibility predicate: explicit attribute,
/// plausible signature, or declarative-macro signals.
pub open spec fn eligible_impl(b: ImplBlock, selectors: int, router_seen: bool) -> bool {
    ||| has_entry_attr(b)
    ||| has_abi_method(b)
    ||| selectors >= 2
    ||| router_seen
    ||| has_override_attr(b)
    ||| has_router_method(b)
}

/// Whether the target filter admits a method name.
pub open spec fn target_admits(target: Option<Seq<char>>, name: Seq<char>) -> bool {
    match target {
        Some(t) => t == name,
        None => true,
    }
}

/// The method's start line: the scan's entry for its name, else line 1.
pub open spec fn method_start_line(fl: Seq<(Seq<char>, usize)>, name: Seq<char>) -> usize {
    match lookup_fn_line_spec(fl, name) {
        Some(l) => l,
        None => 1,
    }
}

/// The analyses of one eligible block's methods, skipping lifecycle and
/// dispatch helpers and honoring the target filter.
pub open spec fn impl_funcs_spec(
    methods: Seq<Method>,
    lines: Seq<Seq<char>>,
    fl: Seq<(Seq<char>, usize)>,
    target: Option<Seq<char>>,
    cm: CostModel,
) -> Seq<FunctionAnalysisV>
    decreases methods.len(),
{
    if methods.len() == 0 {
        Seq::empty()
    } else {
        let rest = impl_funcs_spec(methods.drop_last(), lines, fl, target, cm);
        let m = methods.last();
        if !is_excluded_name(m.name@) && target_admits(target, m.name@) {
            rest.push(
                analyze_function_spec(
                    m.name@,
                    m.signature@,
                    m.body@,
                    lines,
                    method_start_line(fl, m.name@),
                    cm,
                ),
            )
        } else {
            rest
        }
    }
}

/// The analyses of the whole unit, walking the items in order and keeping
/// the router-seen state, together with that final state.
pub open spec fn unit_funcs_spec(
    items: Seq<Item>,
    lines: Seq<Seq<char>>,
    fl: Seq<(Seq<char>, usize)>,
    target: Option<Seq<char>>,
    selectors: int,
    cm: CostModel,
) -> (Seq<FunctionAnalysisV>, bool)
    decreases items.len(),
{
    if items.len() == 0 {
        (Seq::empty(), false)
    } else {
        let (funcs, router) = unit_funcs_spec(items.drop_last(), lines, fl, target, selectors, cm);
        match items.last() {
            Item::Impl(b) => (
                if eligible_impl(b, selectors, router) {
                    funcs + impl_funcs_spec(b.methods@, lines, fl, target, cm)
                } else {
                    funcs
                },
                router || has_router_method(b),
            ),
            _ => (funcs, router),
        }
    }
}

/// The functions the analysis reports for a unit.
pub open spec fn analysis_funcs_spec(
    items: Seq<Item>,
    source: Seq<char>,
    target: Option<Seq<char>>,
    cm: CostModel,
) -> Seq<FunctionAnalysisV> {
    unit_funcs_spec(
        items,
        lines_spec(source),
        fn_lines_spec(lines_spec(source)),
        target,
        selector_count_spec(items),
        cm,
    ).0
}

/// The lifecycle-exclusion law: no reported function bears a lifecycle,
/// dispatch or underscore-prefixed name, regardless of visibility or
/// markers.
pub proof fn lemma_lifecycle_never_reported(
    items: Seq<Item>,
    source: Seq<char>,
    target: Option<Seq<char>>,
    cm: CostModel,
)
    ensures
        forall|i: int|
            0 <= i < analysis_funcs_spec(items, source, target, cm).len() ==> !is_excluded_name(
                #[trigger] analysis_funcs_spec(items, source, target, cm)[i].name,
            ),
{
    lemma_unit_funcs_excluded(
        items,
        lines_spec(source),
        fn_lines_spec(lines_spec(source)),
        target,
        selector_count_spec(items),
        cm,
    );
}

proof fn lemma_impl_funcs_excluded(
    methods: Seq<Method>,
    lines: Seq<Seq<char>>,
    fl: Seq<(Seq<char>, usize)>,
    target: Option<Seq<char>>,
    cm: CostModel,
)
    ensures
        forall|i: int|
            0 <= i < impl_funcs_spec(methods, lines, fl, target, cm).len() ==> !is_excluded_name(
                #[trigger] impl_funcs_spec(methods, lines, fl, target, cm)[i].name,
            ),
    decreases methods.len(),
{
    if methods.len() > 0 {
        lemma_impl_funcs_excluded(methods.drop_last(), lines, fl, target, cm);
        let res = impl_funcs_spec(methods, lines, fl, target, cm);
        let rest = impl_funcs_spec(methods.drop_last(), lines, fl, target, cm);
        assert forall|i: int|
            0 <= i < res.len() implies !is_excluded_name(#[trigger] res[i].name) by {
            if res.len() == rest.len() + 1 && i == rest.len() {
                assert(res[i].name == methods.last().name@);
            } else {
                assert(res[i] == rest[i]);
            }
        }
    }
}

proof fn lemma_unit_funcs_excluded(
    items: Seq<Item>,
    lines: Seq<Seq<char>>,
    fl: Seq<(Seq<char>, usize)>,
    target: Option<Seq<char>>,
    selectors: int,
    cm: CostModel,
)
    ensures
        forall|i: int|
            0 <= i < unit_funcs_spec(items, lines, fl, target, selectors, cm).0.len()
                ==> !is_excluded_name(
                #[trigger] unit_funcs_spec(items, lines, fl, target, selectors, cm).0[i].name,
            ),
    decreases items.len(),
{
    if items.len() > 0 {
        lemma_unit_funcs_excluded(items.drop_last(), lines, fl, target, selectors, cm);
        let res = unit_funcs_spec(items, lines, fl, target, selectors, cm).0;
        let rest = unit_funcs_spec(items.drop_last(), lines, fl, target, selectors, cm).0;
        match items.last() {
            Item::Impl(b) => {
                lemma_impl_funcs_excluded(b.methods@, lines, fl, target, cm);
                let add = impl_funcs_spec(b.methods@, lines, fl, target, cm);
                assert forall|i: int|
                    0 <= i < res.len() implies !is_excluded_name(#[trigger] res[i].name) by {
                    if res.len() == rest.len() + add.len() && i >= rest.len() {
                        assert(res[i] == add[i - rest.len()]);
                    } else {
                        assert(res[i] == rest[i]);
                    }
                }
            },
            _ => {},
        }
    }
}

/// Whether the block carries an `external` or `public` attribute.
pub(crate) fn check_entry_attr(b: &ImplBlock) -> (r: bool)
    ensures
        r == has_entry_attr(*b),
{
    let mut i: usize = 0;
    while i < b.attrs.len()
        invariant
            i <= b.attrs@.len(),
            forall|j: int|
                0 <= j < i ==> !(#[trigger] b.attrs@[j]@ == "external"@ || b.attrs@[j]@
                    == "public"@),
        decreases b.attrs@.len() - i,
    {
        if str_eq(b.attrs[i].as_str(), "external") || str_eq(b.attrs[i].as_str(), "public") {
            proof {
                assert(b.attrs@[i as int]@ == "external"@ || b.attrs@[i as int]@ == "public"@);
            }
            return true;
        }
        i = i + 1;
    }
    false
}

/// Whether the block carries the override-assertion marker.
pub(crate) fn check_override_attr(b: &ImplBlock) -> (r: bool)
    ensures
        r == has_override_attr(*b),
{
    let mut i: usize = 0;
    while i < b.attrs.len()
        invariant
            i <= b.attrs@.len(),
            forall|j: int| 0 <= j < i ==> #[trigger] b.attrs@[j]@ != "stylus_assert_overrides"@,
        decreases b.attrs@.len() - i,
    {
        if str_eq(b.attrs[i].as_str(), "stylus_assert_overrides") {
            proof {
                assert(b.attrs@[i as int]@ == "stylus_assert_overrides"@);
            }
            return true;
        }
        i = i + 1;
    }
    false
}

/// Whether the block holds a dispatcher method.
pub(crate) fn check_router_method(b: &ImplBlock) -> (r: bool)
    ensures
        r == has_router_method(*b),
{
    let mut i: usize = 0;
    while i < b.methods.len()
        invariant
            i <= b.methods@.len(),
            forall|j: int| 0 <= j < i ==> !is_router_name(#[trigger] b.methods@[j].name@),
        decreases b.methods@.len() - i,
    {
        let name = b.methods[i].name.as_str();
        if str_eq(name, "route") || str_eq(name, "user_entrypoint") || str_eq(name, "dispatch") {
            proof {
                assert(is_router_name(b.methods@[i as int].name@));
            }
            return true;
        }
        i = i + 1;
    }
    false
}

/// Whether the block holds a plausible externally callable method.
pub(crate) fn check_abi_method(b: &ImplBlock) -> (r: bool)
    ensures
        r == has_abi_method(*b),
{
    let mut i: usize = 0;
    while i < b.methods.len()
        invariant
            i <= b.methods@.len(),
            forall|j: int| 0 <= j < i ==> !is_abi_method(#[trigger] b.methods@[j]),
        decreases b.methods@.len() - i,
    {
        let m = &b.methods[i];
        if m.is_public && m.has_self_receiver && !is_lifecycle_name(m.name.as_str()) {
            proof {
                assert(is_abi_method(b.methods@[i as int]));
            }
            return true;
        }
        i = i + 1;
    }
    false
}

/// Analyzes the methods of one eligible block.
fn analyze_impl(
    b: &ImplBlock,
    lines: &Vec<String>,
    fl: &Vec<(String, usize)>,
    target: Option<&String>,
    cm: &CostModel,
) -> (r: Vec<FunctionAnalysis>)
    requires
        cm.wf(),
    ensures
        r.deep_view() == impl_funcs_spec(b.methods@, lines.deep_view(), fl.deep_view(),
            match target {
                Some(t) => Some(t@),
                None => None,
            }, *cm),
{
    let ghost tv: Option<Seq<char>> = match target {
        Some(t) => Some(t@),
        None => None,
    };
    let mut r: Vec<FunctionAnalysis> = Vec::new();
    let mut i: usize = 0;
    while i < b.methods.len()
        invariant
            cm.wf(),
            tv == (match target {
                Some(t) => Some::<Seq<char>>(t@),
                None => None::<Seq<char>>,
            }),
            i <= b.methods@.len(),
            r.deep_view() =~= impl_funcs_spec(b.methods@.subrange(0, i as int),
                lines.deep_view(), fl.deep_view(), tv, *cm),
        decreases b.methods@.len() - i,
    {
        let m = &b.methods[i];
        let admitted = match target {
            Some(t) => str_eq(t.as_str(), m.name.as_str()),
            None => true,
        };
        if !is_lifecycle_name(m.name.as_str()) && admitted {
            let start = match lookup_fn_line(fl, m.name.as_str()) {
                Some(l) => l,
                None => 1,
            };
            let fa = analyze_function(m.name.as_str(), m.signature.as_str(), &m.body, start,
                lines, cm);
            r.push(fa);
        }
        i = i + 1;
        proof {
            assert(b.methods@.subrange(0, i as int).drop_last() =~= b.methods@.subrange(
                0,
                i - 1,
            ));
            assert(b.methods@.subrange(0, i as int).last() == b.methods@[i - 1]);
            assert(r.deep_view() =~= impl_funcs_spec(b.methods@.subrange(0, i as int),
                lines.deep_view(), fl.deep_view(), tv, *cm));
        }
    }
    proof {
        assert(b.methods@.subrange(0, b.methods@.len() as int) =~= b.methods@);
    }
    r
}

/// Analyzes a contract: discovers entry points across the unit's
/// implementation blocks, analyzes each qualifying method, and assembles
/// the report.  Fails hard, with the selector count as a diagnostic, when
/// no entry point qualifies; an empty finding list inside a function is a
/// normal result, an empty function list is not.
pub fn analyze_contract(
    unit: &SourceUnit,
    source: &str,
    target_function: Option<&String>,
    file_label: &str,
    cm: &CostModel,
) -> (r: Result<ContractAnalysis, AnalysisError>)
    requires
        cm.wf(),
    ensures
        ({
            let tv: Option<Seq<char>> = match target_function {
                Some(t) => Some(t@),
                None => None,
            };
            let funcs = analysis_funcs_spec(unit.items@, source@, tv, *cm);
            match r {
                Ok(a) => {
                    &&& funcs.len() > 0
                    &&& a.contract_name@ == extract_contract_name_spec(source@)
                    &&& a.file@ == file_label@
                    &&& a.functions.deep_view() == funcs
                },
                Err(e) => {
                    &&& funcs.len() == 0
                    &&& e matches AnalysisError::NoEntryPoints { file, selectors_found }
                        && file@ == file_label@ && selectors_found == selector_count_spec(
                        unit.items@,
                    )
                },
            }
        }),
{
    let ghost tv: Option<Seq<char>> = match target_function {
        Some(t) => Some(t@),
        None => None,
    };
    let lines = split_lines(source);
    let fl = find_function_lines(source);
    let selectors = count_selectors(unit);
    let mut funcs: Vec<FunctionAnalysis> = Vec::new();
    let mut router_seen = false;
    let mut i: usize = 0;
    while i < unit.items.len()
        invariant
            cm.wf(),
            tv == (match target_function {
                Some(t) => Some::<Seq<char>>(t@),
                None => None::<Seq<char>>,
            }),
            lines.deep_view() == lines_spec(source@),
            fl.deep_view() == fn_lines_spec(lines_spec(source@)),
            selectors == selector_count_spec(unit.items@),
            i <= unit.items@.len(),
            funcs.deep_view() =~= unit_funcs_spec(unit.items@.subrange(0, i as int),
                lines.deep_view(), fl.deep_view(), tv, selectors as int, *cm).0,
            router_seen == unit_funcs_spec(unit.items@.subrange(0, i as int), lines.deep_view(),
                fl.deep_view(), tv, selectors as int, *cm).1,
        decreases unit.items@.len() - i,
    {
        match &unit.items[i] {
            Item::Impl(b) => {
                let eligible = check_entry_attr(b) || check_abi_method(b) || selectors >= 2
                    || router_seen || check_override_attr(b) || check_router_method(b);
                if eligible {
                    let mut add = analyze_impl(b, &lines, &fl, target_function, cm);
                    funcs.append(&mut add);
                }
                if check_router_method(b) {
                    router_seen = true;
                }
            },
            _ => {},
        }
        i = i + 1;
        proof {
            assert(unit.items@.subrange(0, i as int).drop_last() =~= unit.items@.subrange(
                0,
                i - 1,
            ));
            assert(unit.items@.subrange(0, i as int).last() == unit.items@[i - 1]);
            assert(funcs.deep_view() =~= unit_funcs_spec(unit.items@.subrange(0, i as int),
                lines.deep_view(), fl.deep_view(), tv, selectors as int, *cm).0);
        }
    }
    proof {
        assert(unit.items@.subrange(0, unit.items@.len() as int) =~= unit.items@);
    }
    if funcs.len() == 0 {
        return Err(
            AnalysisError::NoEntryPoints {
                file: String::from_str(file_label),
                selectors_found: selectors,
            },
        );
    }
    let contract_name = extract_contract_name(source);
    Ok(
        ContractAnalysis {
            contract_name,
            file: String::from_str(file_label),
            functions: funcs,
        },
    )
}

} // verus!
