//! Line-level source heuristics: approximating function start lines,
//! resolving the source line of a snippet, and extracting the contract name.
//!
//! These scans work on whole source text, since the syntax model does not
//! carry span information.

use vstd::prelude::*;

use crate::entity::{extract_entity_spec, extract_storage_variable};
use crate::text::{
    contains_seq, contains_str, find_str, first_match, lines_spec, matches_at, normalize_line,
    normalize_line_spec, split_lines, starts_with_seq, starts_with_str, str_eq, trim_back,
    trim_front, trim_spaces,
};

verus! {

/// A window line matches the normalized search snippet when either contains
/// the other.
pub open spec fn norm_line_matches(line: Seq<char>, ns: Seq<char>) -> bool {
    contains_seq(normalize_line_spec(line), ns) || contains_seq(ns, normalize_line_spec(line))
}

/// First index in `[lo, hi)` whose line matches the normalized search
/// snippet, or `-1`.
pub open spec fn first_norm_match(lines: Seq<Seq<char>>, lo: int, hi: int, ns: Seq<char>) -> int
    decreases hi - lo,
{
    if lo < 0 || lo >= hi || hi > lines.len() {
        -1
    } else if norm_line_matches(lines[lo], ns) {
        lo
    } else {
        first_norm_match(lines, lo + 1, hi, ns)
    }
}

/// A window line mentions the resolved field together with a lookup or
/// mutation call.
pub open spec fn field_line_matches(line: Seq<char>, field: Seq<char>) -> bool {
    contains_seq(line, field) && (contains_seq(line, ".get("@) || contains_seq(line, ".set("@))
}

/// First index in `[lo, hi)` whose line mentions the field beside a storage
/// call, or `-1`.
pub open spec fn first_field_match(lines: Seq<Seq<char>>, lo: int, hi: int, field: Seq<char>) -> int
    decreases hi - lo,
{
    if lo < 0 || lo >= hi || hi > lines.len() {
        -1
    } else if field_line_matches(lines[lo], field) {
        lo
    } else {
        first_field_match(lines, lo + 1, hi, field)
    }
}

/// Lower bound of the search window around `start_line`.
pub open spec fn window_lo(start_line: usize) -> int {
    if start_line <= 31 {
        0
    } else {
        start_line - 31
    }
}

/// Upper bound (exclusive) of the search window around `start_line`.
pub open spec fn window_hi(start_line: usize, n_lines: int) -> int {
    if n_lines < start_line + 60 {
        n_lines
    } else {
        start_line + 60
    }
}

/// The 1-based line that [`find_exact_line`] reports for a snippet: the
/// first window line matching the normalized snippet; else the first window
/// line mentioning the snippet's entity beside a storage call; else the
/// function's start line.
pub open spec fn find_exact_line_spec(
    lines: Seq<Seq<char>>,
    search: Seq<char>,
    start_line: usize,
) -> int {
    let ns = normalize_line_spec(search);
    if ns.len() == 0 {
        start_line as int
    } else {
        let lo = window_lo(start_line);
        let hi = window_hi(start_line, lines.len() as int);
        let m1 = first_norm_match(lines, lo, hi, ns);
        if m1 >= 0 {
            m1 + 1
        } else {
            let field = extract_entity_spec(search);
            if field != "unknown"@ {
                let m2 = first_field_match(lines, lo, hi, field);
                if m2 >= 0 {
                    m2 + 1
                } else {
                    start_line as int
                }
            } else {
                start_line as int
            }
        }
    }
}

proof fn lemma_first_norm_found(lines: Seq<Seq<char>>, lo: int, hi: int, ns: Seq<char>, i: int)
    requires
        0 <= lo <= i < hi <= lines.len(),
        norm_line_matches(lines[i], ns),
        forall|j: int| lo <= j < i ==> !norm_line_matches(lines[j], ns),
    ensures
        first_norm_match(lines, lo, hi, ns) == i,
    decreases i - lo,
{
    if lo < i {
        lemma_first_norm_found(lines, lo + 1, hi, ns, i);
    }
}

proof fn lemma_first_norm_none(lines: Seq<Seq<char>>, lo: int, hi: int, ns: Seq<char>)
    requires
        forall|j: int| lo <= j < hi ==> !norm_line_matches(lines[j], ns),
    ensures
        first_norm_match(lines, lo, hi, ns) == -1,
    decreases hi - lo,
{
    if 0 <= lo && lo < hi && hi <= lines.len() {
        lemma_first_norm_none(lines, lo + 1, hi, ns);
    }
}

proof fn lemma_first_field_found(
    lines: Seq<Seq<char>>,
    lo: int,
    hi: int,
    field: Seq<char>,
    i: int,
)
    requires
        0 <= lo <= i < hi <= lines.len(),
        field_line_matches(lines[i], field),
        forall|j: int| lo <= j < i ==> !field_line_matches(lines[j], field),
    ensures
        first_field_match(lines, lo, hi, field) == i,
    decreases i - lo,
{
    if lo < i {
        lemma_first_field_found(lines, lo + 1, hi, field, i);
    }
}

proof fn lemma_first_field_none(lines: Seq<Seq<char>>, lo: int, hi: int, field: Seq<char>)
    requires
        forall|j: int| lo <= j < hi ==> !field_line_matches(lines[j], field),
    ensures
        first_field_match(lines, lo, hi, field) == -1,
    decreases hi - lo,
{
    if 0 <= lo && lo < hi && hi <= lines.len() {
        lemma_first_field_none(lines, lo + 1, hi, field);
    }
}

/// Best-effort search for the 1-based source line showing `search`, within
/// a window around `start_line`; falls back to the entity-based scan and
/// finally to `start_line` itself.
pub fn find_exact_line(lines: &Vec<String>, search: &str, start_line: usize) -> (r: usize)
    ensures
        r == find_exact_line_spec(lines.deep_view(), search@, start_line),
{
    let ghost lv = lines.deep_view();
    let ns = normalize_line(search);
    if ns.as_str().unicode_len() == 0 {
        return start_line;
    }
    let n = lines.len();
    let lo: usize = if start_line <= 31 {
        0
    } else {
        start_line - 31
    };
    let hi: usize = if n < start_line {
        n
    } else if n - start_line < 60 {
        n
    } else {
        start_line + 60
    };
    proof {
        assert(lo == window_lo(start_line));
        assert(hi == window_hi(start_line, lv.len() as int));
    }
    let mut i: usize = lo;
    while i < hi
        invariant
            lv == lines.deep_view(),
            lv.len() == lines@.len(),
            ns@ == normalize_line_spec(search@),
            ns@.len() != 0,
            lo == window_lo(start_line),
            hi == window_hi(start_line, lv.len() as int),
            lo <= i,
            i <= hi || hi < lo,
            hi <= lines@.len(),
            forall|j: int| lo <= j < i ==> !norm_line_matches(lv[j], ns@),
        decreases hi - i,
    {
        let nl = normalize_line(lines[i].as_str());
        let m = contains_str(nl.as_str(), ns.as_str()) || contains_str(ns.as_str(), nl.as_str());
        if m {
            proof {
                assert(norm_line_matches(lv[i as int], ns@));
                lemma_first_norm_found(lv, lo as int, hi as int, ns@, i as int);
            }
            return i + 1;
        }
        i = i + 1;
    }
    proof {
        lemma_first_norm_none(lv, lo as int, hi as int, ns@);
    }
    let field = extract_storage_variable(search);
    if !str_eq(field.as_str(), "unknown") {
        let mut k: usize = lo;
        while k < hi
            invariant
                lv == lines.deep_view(),
                lv.len() == lines@.len(),
                ns@ == normalize_line_spec(search@),
                ns@.len() != 0,
                lo == window_lo(start_line),
                hi == window_hi(start_line, lv.len() as int),
                field@ == extract_entity_spec(search@),
                field@ != "unknown"@,
                forall|j: int| lo <= j < hi ==> !norm_line_matches(lv[j], ns@),
                lo <= k,
                k <= hi || hi < lo,
                hi <= lines@.len(),
                forall|j: int| lo <= j < k ==> !field_line_matches(lv[j], field@),
            decreases hi - k,
        {
            let line = &lines[k];
            if contains_str(line.as_str(), field.as_str()) && (contains_str(
                line.as_str(),
                ".get(",
            ) || contains_str(line.as_str(), ".set(")) {
                proof {
                    lemma_first_norm_none(lv, lo as int, hi as int, ns@);
                    assert(field_line_matches(lv[k as int], field@));
                    lemma_first_field_found(lv, lo as int, hi as int, field@, k as int);
                }
                return k + 1;
            }
            k = k + 1;
        }
        proof {
            lemma_first_field_none(lv, lo as int, hi as int, field@);
        }
        return start_line;
    }
    start_line
}

/// The function name declared on a line, when the trimmed line begins with
/// `fn` or `pub fn`: the trimmed text between the keyword and the first
/// opening parenthesis, if nonempty.
pub open spec fn fn_name_of_line(line: Seq<char>) -> Option<Seq<char>> {
    let t = normalize_line_spec(line);
    let start: int = if starts_with_seq(t, "pub fn "@) {
        7
    } else if starts_with_seq(t, "fn "@) {
        3
    } else {
        -1
    };
    if start < 0 {
        None
    } else {
        let rest = t.subrange(start, t.len() as int);
        let par = first_match(rest, "("@);
        if par < 0 {
            None
        } else {
            let name = trim_back(trim_front(rest.subrange(0, par)));
            if name.len() == 0 {
                None
            } else {
                Some(name)
            }
        }
    }
}

/// The (name, 1-based line) pairs of the function declarations found by
/// scanning the lines in order.
pub open spec fn fn_lines_spec(lines: Seq<Seq<char>>) -> Seq<(Seq<char>, usize)>
    decreases lines.len(),
{
    if lines.len() == 0 {
        Seq::empty()
    } else {
        let rest = fn_lines_spec(lines.drop_last());
        match fn_name_of_line(lines.last()) {
            Some(nm) => rest.push((nm, lines.len() as usize)),
            None => rest,
        }
    }
}

/// Scans the source for `fn` and `pub fn` declarations and reports each
/// function's approximate 1-based starting line.  Later declarations of the
/// same bare name follow earlier ones; [`lookup_fn_line`] takes the last.
#[verifier::rlimit(100)]
#[verifier::spinoff_prover]
pub fn find_function_lines(source: &str) -> (r: Vec<(String, usize)>)
    ensures
        r.deep_view() == fn_lines_spec(lines_spec(source@)),
{
    let lines = split_lines(source);
    let ghost lv = lines.deep_view();
    let mut r: Vec<(String, usize)> = Vec::new();
    let mut i: usize = 0;
    while i < lines.len()
        invariant
            lv == lines.deep_view(),
            lv.len() == lines@.len(),
            lv == lines_spec(source@),
            i <= lines@.len(),
            r.deep_view() =~= fn_lines_spec(lv.subrange(0, i as int)),
        decreases lines@.len() - i,
    {
        let t = normalize_line(lines[i].as_str());
        let start: usize = if starts_with_str(t.as_str(), "pub fn ") {
            7
        } else if starts_with_str(t.as_str(), "fn ") {
            3
        } else {
            let ghost pre = lv.subrange(0, i + 1);
            proof {
                assert(pre.drop_last() =~= lv.subrange(0, i as int));
                assert(fn_name_of_line(lv[i as int]) is None);
            }
            i = i + 1;
            continue ;
        };
        let tn = t.as_str().unicode_len();
        proof {
            reveal_strlit("pub fn ");
            reveal_strlit("fn ");
            assert(start <= t@.len());
        }
        let rest = t.as_str().substring_char(start, tn);
        match find_str(rest, "(") {
            Some(par) => {
                let head = rest.substring_char(0, par);
                let name = trim_spaces(head);
                let ghost pre = lv.subrange(0, i + 1);
                proof {
                    assert(pre.drop_last() =~= lv.subrange(0, i as int));
                    assert(rest@ =~= normalize_line_spec(lv[i as int]).subrange(
                        start as int,
                        normalize_line_spec(lv[i as int]).len() as int,
                    ));
                    assert(head@ =~= rest@.subrange(0, par as int));
                }
                if name.as_str().unicode_len() > 0 {
                    r.push((name, i + 1));
                    proof {
                        assert(fn_name_of_line(lv[i as int]) is Some);
                        assert(r.deep_view() =~= fn_lines_spec(pre));
                    }
                } else {
                    proof {
                        assert(fn_name_of_line(lv[i as int]) is None);
                        assert(r.deep_view() =~= fn_lines_spec(pre));
                    }
                }
            },
            None => {
                let ghost pre = lv.subrange(0, i + 1);
                proof {
                    assert(rest@ =~= normalize_line_spec(lv[i as int]).subrange(
                        start as int,
                        normalize_line_spec(lv[i as int]).len() as int,
                    ));
                    assert(pre.drop_last() =~= lv.subrange(0, i as int));
                    assert(fn_name_of_line(lv[i as int]) is None);
                    assert(r.deep_view() =~= fn_lines_spec(pre));
                }
            },
        }
        i = i + 1;
    }
    proof {
        assert(lv.subrange(0, lv.len() as int) =~= lv);
    }
    r
}

/// The start line recorded for `name`, taking the latest entry, as a
/// name-keyed map overwritten in scan order would.
pub open spec fn lookup_fn_line_spec(entries: Seq<(Seq<char>, usize)>, name: Seq<char>) -> Option<
    usize,
>
    decreases entries.len(),
{
    if entries.len() == 0 {
        None
    } else if entries.last().0 == name {
        Some(entries.last().1)
    } else {
        lookup_fn_line_spec(entries.drop_last(), name)
    }
}

/// Looks up a function's recorded start line.
pub fn lookup_fn_line(entries: &Vec<(String, usize)>, name: &str) -> (r: Option<usize>)
    ensures
        r == lookup_fn_line_spec(entries.deep_view(), name@),
{
    let ghost ev = entries.deep_view();
    proof {
        assert(ev.subrange(0, ev.len() as int) =~= ev);
    }
    let mut i: usize = entries.len();
    while i > 0
        invariant
            ev == entries.deep_view(),
            ev.len() == entries@.len(),
            i <= entries@.len(),
            lookup_fn_line_spec(ev, name@) == lookup_fn_line_spec(ev.subrange(0, i as int), name@),
        decreases i,
    {
        i = i - 1;
        let entry = &entries[i];
        if str_eq(entry.0.as_str(), name) {
            proof {
                assert(ev.subrange(0, i + 1).last() == ev[i as int]);
            }
            return Some(entry.1);
        }
        proof {
            assert(ev.subrange(0, i + 1).drop_last() =~= ev.subrange(0, i as int));
            assert(ev.subrange(0, i + 1).last() == ev[i as int]);
        }
    }
    proof {
        assert(ev.subrange(0, 0) =~= Seq::<(Seq<char>, usize)>::empty());
    }
    None
}

} // verus!

verus! {

/// First index at or after `i` holding a non-whitespace character, or the
/// length.
pub open spec fn skip_ws_from(s: Seq<char>, i: int) -> int
    decreases s.len() - i,
{
    if i < 0 || i >= s.len() {
        s.len() as int
    } else if crate::text::is_ws(s[i]) {
        skip_ws_from(s, i + 1)
    } else {
        i
    }
}

/// First index at or after `i` holding a whitespace character, or the
/// length.
pub open spec fn token_end_from(s: Seq<char>, i: int) -> int
    decreases s.len() - i,
{
    if i < 0 || i >= s.len() {
        s.len() as int
    } else if crate::text::is_ws(s[i]) {
        i
    } else {
        token_end_from(s, i + 1)
    }
}

/// The third whitespace-separated token of `s`, if there is one.
pub open spec fn third_token(s: Seq<char>) -> Option<Seq<char>> {
    let a = skip_ws_from(s, 0);
    let b = token_end_from(s, a);
    let c = skip_ws_from(s, b);
    let d = token_end_from(s, c);
    let e = skip_ws_from(s, d);
    let f = token_end_from(s, e);
    if e < s.len() {
        Some(s.subrange(e, f))
    } else {
        None
    }
}

/// What [`extract_contract_name`] reports: the token after `pub struct` in
/// the text up to the following opening brace, or `Unknown`.
pub open spec fn extract_contract_name_spec(src: Seq<char>) -> Seq<char> {
    let p = first_match(src, "pub struct"@);
    if p < 0 {
        "Unknown"@
    } else {
        let after = src.subrange(p, src.len() as int);
        let e = first_match(after, "{"@);
        if e < 0 {
            "Unknown"@
        } else {
            match third_token(after.subrange(0, e)) {
                Some(t) => t,
                None => "Unknown"@,
            }
        }
    }
}

fn skip_ws_exec(v: &Vec<char>, i: usize) -> (r: usize)
    requires
        i <= v.len(),
    ensures
        r == skip_ws_from(v@, i as int),
        i <= r <= v.len(),
{
    let n = v.len();
    let mut cur = i;
    while cur < n && crate::text::is_ws_exec(v[cur])
        invariant
            n == v.len(),
            i <= cur <= n,
            skip_ws_from(v@, i as int) == skip_ws_from(v@, cur as int),
        decreases n - cur,
    {
        cur = cur + 1;
    }
    cur
}

fn token_end_exec(v: &Vec<char>, i: usize) -> (r: usize)
    requires
        i <= v.len(),
    ensures
        r == token_end_from(v@, i as int),
        i <= r <= v.len(),
{
    let n = v.len();
    let mut cur = i;
    while cur < n && !crate::text::is_ws_exec(v[cur])
        invariant
            n == v.len(),
            i <= cur <= n,
            token_end_from(v@, i as int) == token_end_from(v@, cur as int),
        decreases n - cur,
    {
        cur = cur + 1;
    }
    cur
}

/// Heuristic contract-name extraction: the type name of the first
/// `pub struct` declaration, or `Unknown`.
#[verifier::rlimit(100)]
#[verifier::spinoff_prover]
pub fn extract_contract_name(source: &str) -> (r: String)
    ensures
        r@ == extract_contract_name_spec(source@),
{
    match find_str(source, "pub struct") {
        None => String::from_str("Unknown"),
        Some(p) => {
            let n = source.unicode_len();
            let after = source.substring_char(p, n);
            match find_str(after, "{") {
                None => String::from_str("Unknown"),
                Some(e) => {
                    let decl = after.substring_char(0, e);
                    let v = crate::text::to_chars(decl);
                    let a = skip_ws_exec(&v, 0);
                    let b = token_end_exec(&v, a);
                    let c = skip_ws_exec(&v, b);
                    let d = token_end_exec(&v, c);
                    let e2 = skip_ws_exec(&v, d);
                    let f = token_end_exec(&v, e2);
                    if e2 < v.len() {
                        let name = decl.substring_char(e2, f);
                        let r = String::from_str(name);
                        proof {
                            assert(r@ =~= extract_contract_name_spec(source@));
                        }
                        r
                    } else {
                        String::from_str("Unknown")
                    }
                },
            }
        },
    }
}

} // verus!
