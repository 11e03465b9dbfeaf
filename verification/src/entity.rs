//! The entity extractor: resolves the storage field name of the first
//! self-rooted access chain in a snippet, e.g. `balances` from
//! `self.balances.get(key)`.
//!
//! A fixed reserved-word blocklist suppresses false positives from
//! re-serialized syntax noise: when the first match captures a reserved word,
//! the extractor yields the `unknown` sentinel rather than trying later
//! matches.

use vstd::prelude::*;

use crate::text::{
    chars_match_at, is_ident_char, is_ident_char_exec, is_ident_start, is_ident_start_exec,
    matches_at, strip_spaces, strip_spaces_spec, str_eq, to_chars,
};

verus! {

/// Length of the maximal identifier-character run starting at `j`.
pub open spec fn ident_run_len(s: Seq<char>, j: int) -> nat
    decreases s.len() - j,
{
    if j < 0 || j >= s.len() || !is_ident_char(s[j]) {
        0
    } else {
        1 + ident_run_len(s, j + 1)
    }
}

/// A full entity match at index `i` of the space-stripped snippet `s`:
/// `self.` followed by an identifier followed by another `.`.
pub open spec fn entity_match_at(s: Seq<char>, i: int) -> bool {
    &&& matches_at(s, "self."@, i)
    &&& i + 5 < s.len()
    &&& is_ident_start(s[i + 5])
    &&& {
        let run = ident_run_len(s, i + 5);
        i + 5 + run < s.len() && s[i + 5 + run] == '.'
    }
}

/// The identifier captured by an entity match at `i`.
pub open spec fn entity_at(s: Seq<char>, i: int) -> Seq<char> {
    s.subrange(i + 5, i + 5 + ident_run_len(s, i + 5) as int)
}

/// The reserved words that the extractor refuses as entity names.
pub open spec fn is_reserved_spec(w: Seq<char>) -> bool {
    ||| w == "mut"@
    ||| w == "ref"@
    ||| w == "as"@
    ||| w == "let"@
    ||| w == "where"@
    ||| w == "self"@
    ||| w == "get"@
    ||| w == "insert"@
}

/// What [`extract_storage_variable`] returns: the identifier of the first
/// (leftmost) entity match of the space-stripped snippet, or the `unknown`
/// sentinel when there is no match or the captured word is reserved.
/// Opaque: callers reason through [`extract_storage_variable`]'s contract.
#[verifier::opaque]
pub open spec fn extract_entity_spec(code: Seq<char>) -> Seq<char> {
    let s = strip_spaces_spec(code);
    if exists|i: int| entity_match_at(s, i) {
        let i = choose|i: int|
            entity_match_at(s, i) && forall|j: int| 0 <= j < i ==> !entity_match_at(s, j);
        if is_reserved_spec(entity_at(s, i)) {
            "unknown"@
        } else {
            entity_at(s, i)
        }
    } else {
        "unknown"@
    }
}

proof fn lemma_first_entity_exists(s: Seq<char>, i: int)
    requires
        entity_match_at(s, i),
    ensures
        exists|k: int|
            entity_match_at(s, k) && forall|j: int| 0 <= j < k ==> !entity_match_at(s, j),
    decreases i,
{
    if exists|j: int| 0 <= j < i && entity_match_at(s, j) {
        let j = choose|j: int| 0 <= j < i && entity_match_at(s, j);
        lemma_first_entity_exists(s, j);
    } else {
        assert(entity_match_at(s, i) && forall|j: int| 0 <= j < i ==> !entity_match_at(s, j));
    }
}

/// Whether `w` is one of the reserved words of the blocklist.
pub fn is_reserved_word(w: &str) -> (r: bool)
    ensures
        r == is_reserved_spec(w@),
{
    str_eq(w, "mut") || str_eq(w, "ref") || str_eq(w, "as") || str_eq(w, "let") || str_eq(
        w,
        "where",
    ) || str_eq(w, "self") || str_eq(w, "get") || str_eq(w, "insert")
}

/// Extracts the storage field name from a snippet such as
/// `self.balances.get(key)`; returns `unknown` when no self-rooted access
/// chain is found or the captured word is reserved.
pub fn extract_storage_variable(code: &str) -> (r: String)
    ensures
        r@ == extract_entity_spec(code@),
{
    let stripped = strip_spaces(code);
    let s = stripped.as_str();
    let v = to_chars(s);
    let pat = to_chars("self.");
    let n = v.len();
    let mut i: usize = 0;
    while i < n
        invariant
            v@ == strip_spaces_spec(code@),
            pat@ == "self."@,
            n == v.len(),
            i <= n,
            s@ == v@,
            stripped@ == v@,
            forall|j: int| 0 <= j < i ==> !entity_match_at(v@, j),
        decreases n - i,
    {
        let is_match = if pat.len() <= n - i && chars_match_at(&v, &pat, i) {
            if 5 < n - i && is_ident_start_exec(v[i + 5]) {
                // Maximal identifier run after `self.`.
                let mut run: usize = 1;
                while i + 5 + run < n && is_ident_char_exec(v[i + 5 + run])
                    invariant
                        v@.len() == n,
                        i + 5 < n,
                        is_ident_char(v@[i + 5]),
                        1 <= run <= n - i - 5,
                        forall|k: int| i + 5 <= k < i + 5 + run ==> is_ident_char(v@[k]),
                        ident_run_len(v@, i + 5) == run + ident_run_len(v@, i + 5 + run),
                    decreases n - run,
                {
                    run = run + 1;
                }
                proof {
                    assert(ident_run_len(v@, i + 5 + run) == 0);
                    assert(ident_run_len(v@, i + 5) == run);
                }
                if i + 5 + run < n && v[i + 5 + run] == '.' {
                    true
                } else {
                    false
                }
            } else {
                false
            }
        } else {
            false
        };
        if is_match {
            proof {
                reveal(extract_entity_spec);
                assert(entity_match_at(v@, i as int));
                lemma_first_entity_exists(v@, i as int);
                let f = choose|k: int|
                    entity_match_at(v@, k) && forall|j: int| 0 <= j < k ==> !entity_match_at(
                        v@,
                        j,
                    );
                assert(!(f < i) && !(i < f));
            }
            let run = ident_run_exec(&v, i + 5);
            let word_slice = s.substring_char(i + 5, i + 5 + run);
            let word = String::from_str(word_slice);
            proof {
                assert(word@ =~= entity_at(v@, i as int));
            }
            if is_reserved_word(word.as_str()) {
                proof {
                    reveal(extract_entity_spec);
                }
                return String::from_str("unknown");
            }
            proof {
                reveal(extract_entity_spec);
            }
            return word;
        }
        i = i + 1;
    }
    proof {
        reveal(extract_entity_spec);
        assert(forall|j: int| j >= n ==> !entity_match_at(v@, j));
    }
    String::from_str("unknown")
}

/// Computes [`ident_run_len`] at `j`.
fn ident_run_exec(v: &Vec<char>, j: usize) -> (run: usize)
    requires
        j <= v.len(),
    ensures
        run == ident_run_len(v@, j as int),
        j + run <= v.len(),
{
    let n = v.len();
    let mut run: usize = 0;
    while j + run < n && is_ident_char_exec(v[j + run])
        invariant
            n == v.len(),
            j + run <= n,
            ident_run_len(v@, j as int) == run + ident_run_len(v@, j + run),
        decreases n - run,
    {
        run = run + 1;
    }
    proof {
        assert(ident_run_len(v@, j + run) == 0);
    }
    run
}

} // verus!

verus! {

/// The blocklist law: when every entity match of a snippet captures a
/// reserved word, extraction yields the `unknown` sentinel.
#[verifier::rlimit(100)]
#[verifier::spinoff_prover]
pub proof fn lemma_reserved_only_yields_unknown(code: Seq<char>)
    requires
        forall|i: int|
            entity_match_at(strip_spaces_spec(code), i) ==> is_reserved_spec(
                entity_at(strip_spaces_spec(code), i),
            ),
    ensures
        extract_entity_spec(code) == "unknown"@,
{
    reveal(extract_entity_spec);
    let s = strip_spaces_spec(code);
    if exists|i: int| entity_match_at(s, i) {
        let w = choose|i: int| entity_match_at(s, i);
        lemma_first_entity_exists(s, w);
        let i = choose|i: int|
            entity_match_at(s, i) && forall|j: int| 0 <= j < i ==> !entity_match_at(s, j);
        assert(is_reserved_spec(entity_at(s, i)));
    }
}

} // verus!
