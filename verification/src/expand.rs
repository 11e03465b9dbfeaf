//! Preprocessing decisions around declarative contract macros: whether a
//! source needs an out-of-band macro-expansion step before the engine can
//! see its real entry points, and the cleanup of expanded output.

use vstd::prelude::*;

use crate::text::{
    contains_seq, contains_str, lines_spec, normalize_line, normalize_line_spec, split_lines,
    starts_with_seq, starts_with_str,
};

verus! {

/// Whether the source uses declarative contract macros whose expansion the
/// engine cannot see: the syntactic analysis should run on expanded source.
pub open spec fn needs_expansion_spec(s: Seq<char>) -> bool {
    ||| contains_seq(s, "sol_storage!"@)
    ||| contains_seq(s, "sol_interface!"@)
    ||| contains_seq(s, "sol!"@)
    ||| contains_seq(s, "#[entrypoint]"@)
    ||| contains_seq(s, "#[public]"@)
}

/// Whether the source needs a macro-expansion step before analysis.
pub fn needs_macro_expansion(source: &str) -> (r: bool)
    ensures
        r == needs_expansion_spec(source@),
{
    contains_str(source, "sol_storage!") || contains_str(source, "sol_interface!") || contains_str(
        source,
        "sol!",
    ) || contains_str(source, "#[entrypoint]") || contains_str(source, "#[public]")
}

/// A line worth keeping after expansion: not blank and not a comment line.
pub open spec fn kept_line(l: Seq<char>) -> bool {
    normalize_line_spec(l).len() != 0 && !starts_with_seq(normalize_line_spec(l), "//"@)
}

/// The kept lines, in order.
pub open spec fn kept_lines_spec(lines: Seq<Seq<char>>) -> Seq<Seq<char>>
    decreases lines.len(),
{
    if lines.len() == 0 {
        Seq::empty()
    } else {
        let rest = kept_lines_spec(lines.drop_last());
        if kept_line(lines.last()) {
            rest.push(lines.last())
        } else {
            rest
        }
    }
}

/// Lines joined with single newlines.
pub open spec fn join_lines_spec(lines: Seq<Seq<char>>) -> Seq<char>
    decreases lines.len(),
{
    if lines.len() == 0 {
        Seq::empty()
    } else if lines.len() == 1 {
        lines[0]
    } else {
        join_lines_spec(lines.drop_last()) + ("\n"@ + lines.last())
    }
}

/// Cleans expanded source: drops blank and comment-only lines and joins
/// the rest with newlines, as the analyzer expects.
pub fn clean_expanded_source(expanded: &str) -> (r: String)
    ensures
        r@ == join_lines_spec(kept_lines_spec(lines_spec(expanded@))),
{
    let lines = split_lines(expanded);
    let ghost lv = lines.deep_view();
    let mut kept: Vec<String> = Vec::new();
    let mut i: usize = 0;
    while i < lines.len()
        invariant
            lv == lines.deep_view(),
            lv.len() == lines@.len(),
            i <= lines@.len(),
            kept.deep_view() =~= kept_lines_spec(lv.subrange(0, i as int)),
        decreases lines@.len() - i,
    {
        let t = normalize_line(lines[i].as_str());
        if t.as_str().unicode_len() > 0 && !starts_with_str(t.as_str(), "//") {
            kept.push(lines[i].clone());
        }
        i = i + 1;
        proof {
            assert(lv.subrange(0, i as int).drop_last() =~= lv.subrange(0, i - 1));
            assert(lv.subrange(0, i as int).last() == lv[i - 1]);
            assert(kept.deep_view() =~= kept_lines_spec(lv.subrange(0, i as int)));
        }
    }
    proof {
        assert(lv.subrange(0, lv.len() as int) =~= lv);
    }
    let ghost kv = kept.deep_view();
    let mut out = String::new();
    let mut j: usize = 0;
    while j < kept.len()
        invariant
            kv == kept.deep_view(),
            kv.len() == kept@.len(),
            j <= kept@.len(),
            out@ == join_lines_spec(kv.subrange(0, j as int)),
        decreases kept@.len() - j,
    {
        if j > 0 {
            out.append("\n");
        }
        out.append(kept[j].as_str());
        j = j + 1;
        proof {
            assert(kv.subrange(0, j as int).drop_last() =~= kv.subrange(0, j - 1));
            assert(kv.subrange(0, j as int).last() == kv[j - 1]);
            if j == 1 {
                assert(out@ =~= join_lines_spec(kv.subrange(0, 1)));
            } else {
                assert(out@ =~= join_lines_spec(kv.subrange(0, j as int)));
            }
        }
    }
    proof {
        assert(kv.subrange(0, kv.len() as int) =~= kv);
    }
    out
}

} // verus!
