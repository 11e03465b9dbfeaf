//! Verified text utilities: substring matching, counting, whitespace
//! normalization, line splitting, and decimal rendering.
//!
//! The analysis heuristics are defined over canonical snippet strings, so the
//! whole crate rests on these exact specifications of what "contains",
//! "starts with" and "occurrence count" mean.

use vstd::prelude::*;

verus! {

/// Pattern `p` occurs in `s` starting exactly at index `i`.
pub open spec fn matches_at(s: Seq<char>, p: Seq<char>, i: int) -> bool {
    &&& 0 <= i
    &&& i + p.len() <= s.len()
    &&& forall|k: int| 0 <= k < p.len() ==> s[i + k] == p[k]
}

/// Pattern `p` occurs somewhere in `s`.
pub open spec fn contains_seq(s: Seq<char>, p: Seq<char>) -> bool {
    exists|i: int| matches_at(s, p, i)
}

/// `s` begins with `p`.
pub open spec fn starts_with_seq(s: Seq<char>, p: Seq<char>) -> bool {
    matches_at(s, p, 0)
}

/// Number of indices below `n` at which `p` matches in `s`.
pub open spec fn count_matches_below(s: Seq<char>, p: Seq<char>, n: int) -> nat
    decreases n,
{
    if n <= 0 {
        0
    } else {
        count_matches_below(s, p, n - 1) + if matches_at(s, p, n - 1) {
            1nat
        } else {
            0nat
        }
    }
}

/// Number of indices at which `p` matches in `s`; occurrences are counted at
/// every starting position.  (The patterns used by the analyzer, such as
/// `".get("`, cannot overlap themselves, so this coincides with the usual
/// non-overlapping occurrence count.)
pub open spec fn count_matches(s: Seq<char>, p: Seq<char>) -> nat {
    count_matches_below(s, p, s.len() as int)
}

/// First index at which `p` matches in `s`, or `-1` when it never does.
pub open spec fn first_match(s: Seq<char>, p: Seq<char>) -> int {
    if contains_seq(s, p) {
        choose|i: int|
            matches_at(s, p, i) && forall|j: int| 0 <= j < i ==> !matches_at(s, p, j)
    } else {
        -1
    }
}

proof fn lemma_first_match_exists(s: Seq<char>, p: Seq<char>, i: int)
    requires
        matches_at(s, p, i),
    ensures
        exists|k: int|
            matches_at(s, p, k) && forall|j: int| 0 <= j < k ==> !matches_at(s, p, j),
    decreases i,
{
    if exists|j: int| 0 <= j < i && matches_at(s, p, j) {
        let j = choose|j: int| 0 <= j < i && matches_at(s, p, j);
        lemma_first_match_exists(s, p, j);
    } else {
        assert(matches_at(s, p, i) && forall|j: int| 0 <= j < i ==> !matches_at(s, p, j));
    }
}

/// The characters of `s`, as an indexable vector.
pub fn to_chars(s: &str) -> (v: Vec<char>)
    ensures
        v@ == s@,
{
    let n = s.unicode_len();
    let mut v: Vec<char> = Vec::new();
    let mut i: usize = 0;
    while i < n
        invariant
            n == s@.len(),
            i <= n,
            v@ == s@.subrange(0, i as int),
        decreases n - i,
    {
        let c = s.get_char(i);
        v.push(c);
        i = i + 1;
        proof {
            assert(v@ =~= s@.subrange(0, i as int));
        }
    }
    proof {
        assert(v@ =~= s@);
    }
    v
}

/// Whether `p` matches in `s` at index `i`, on character vectors.
pub fn chars_match_at(s: &Vec<char>, p: &Vec<char>, i: usize) -> (b: bool)
    requires
        i + p.len() <= s.len(),
    ensures
        b == matches_at(s@, p@, i as int),
{
    let mut k: usize = 0;
    while k < p.len()
        invariant
            i + p.len() <= s.len(),
            k <= p.len(),
            forall|m: int| 0 <= m < k ==> s@[i + m] == p@[m],
        decreases p.len() - k,
    {
        if s[i + k] != p[k] {
            return false;
        }
        k = k + 1;
    }
    true
}

/// Whether `p` occurs in `s`, on character vectors.
pub fn chars_contain(s: &Vec<char>, p: &Vec<char>) -> (b: bool)
    ensures
        b == contains_seq(s@, p@),
{
    if p.len() > s.len() {
        proof {
            assert(forall|i: int| !matches_at(s@, p@, i));
        }
        return false;
    }
    let last = s.len() - p.len();
    let mut i: usize = 0;
    loop
        invariant
            p.len() <= s.len(),
            last == s.len() - p.len(),
            i <= last + 1,
            forall|j: int| 0 <= j < i ==> !matches_at(s@, p@, j),
        decreases last + 1 - i,
    {
        if i > last {
            proof {
                assert(forall|j: int| j > last ==> !matches_at(s@, p@, j));
            }
            return false;
        }
        if chars_match_at(s, p, i) {
            return true;
        }
        i = i + 1;
    }
}

/// Whether `pat` occurs in `s`.
pub fn contains_str(s: &str, pat: &str) -> (b: bool)
    ensures
        b == contains_seq(s@, pat@),
{
    let sv = to_chars(s);
    let pv = to_chars(pat);
    chars_contain(&sv, &pv)
}

/// Whether `s` begins with `pat`.
pub fn starts_with_str(s: &str, pat: &str) -> (b: bool)
    ensures
        b == starts_with_seq(s@, pat@),
{
    let sv = to_chars(s);
    let pv = to_chars(pat);
    if pv.len() > sv.len() {
        return false;
    }
    chars_match_at(&sv, &pv, 0)
}

/// Number of positions at which `pat` matches in `s`.
pub fn count_str(s: &str, pat: &str) -> (n: usize)
    ensures
        n == count_matches(s@, pat@),
{
    let sv = to_chars(s);
    let pv = to_chars(pat);
    if pv.len() > sv.len() {
        proof {
            lemma_count_no_match(sv@, pv@, sv@.len() as int);
        }
        return 0;
    }
    let mut i: usize = 0;
    let mut n: usize = 0;
    while i < sv.len()
        invariant
            sv@ == s@,
            pv@ == pat@,
            pv.len() <= sv.len(),
            i <= sv.len(),
            n == count_matches_below(sv@, pv@, i as int),
            n <= i,
        decreases sv.len() - i,
    {
        if i <= sv.len() - pv.len() && chars_match_at(&sv, &pv, i) {
            n = n + 1;
        }
        i = i + 1;
    }
    n
}

proof fn lemma_count_no_match(s: Seq<char>, p: Seq<char>, n: int)
    requires
        p.len() > s.len(),
    ensures
        count_matches_below(s, p, n) == 0,
    decreases n,
{
    if n > 0 {
        lemma_count_no_match(s, p, n - 1);
    }
}

/// First index at which `pat` matches in `s`, if any.
pub fn find_str(s: &str, pat: &str) -> (r: Option<usize>)
    ensures
        match r {
            Some(i) => i == first_match(s@, pat@) && matches_at(s@, pat@, i as int),
            None => !contains_seq(s@, pat@),
        },
{
    let sv = to_chars(s);
    let pv = to_chars(pat);
    if pv.len() > sv.len() {
        proof {
            assert(forall|i: int| !matches_at(s@, pat@, i));
        }
        return None;
    }
    let last = sv.len() - pv.len();
    let mut i: usize = 0;
    loop
        invariant
            sv@ == s@,
            pv@ == pat@,
            pv.len() <= sv.len(),
            last == sv.len() - pv.len(),
            i <= last + 1,
            forall|j: int| 0 <= j < i ==> !matches_at(s@, pat@, j),
        decreases last + 1 - i,
    {
        if i > last {
            proof {
                assert(forall|j: int| j > last ==> !matches_at(s@, pat@, j));
            }
            return None;
        }
        if chars_match_at(&sv, &pv, i) {
            proof {
                lemma_first_match_exists(s@, pat@, i as int);
                let f = first_match(s@, pat@);
                assert(matches_at(s@, pat@, f));
                assert(!(f < i) && !(i < f));
            }
            return Some(i);
        }
        i = i + 1;
    }
}

/// Two strings hold the same characters.
pub fn str_eq(a: &str, b: &str) -> (r: bool)
    ensures
        r == (a@ == b@),
{
    let av = to_chars(a);
    let bv = to_chars(b);
    if av.len() != bv.len() {
        return false;
    }
    let mut i: usize = 0;
    while i < av.len()
        invariant
            av@ == a@,
            bv@ == b@,
            av.len() == bv.len(),
            i <= av.len(),
            forall|k: int| 0 <= k < i ==> a@[k] == b@[k],
        decreases av.len() - i,
    {
        if av[i] != bv[i] {
            return false;
        }
        i = i + 1;
    }
    proof {
        assert(a@ =~= b@);
    }
    true
}

} // verus!

verus! {

/// ASCII whitespace, the only whitespace the heuristics recognize.
pub open spec fn is_ws(c: char) -> bool {
    c == ' ' || c == '\t' || c == '\n' || c == '\r'
}

/// A character that may start an identifier.
pub open spec fn is_ident_start(c: char) -> bool {
    ('a' <= c && c <= 'z') || ('A' <= c && c <= 'Z') || c == '_'
}

/// A character that may continue an identifier.
pub open spec fn is_ident_char(c: char) -> bool {
    is_ident_start(c) || ('0' <= c && c <= '9')
}

/// Executable mirror of [`is_ws`].
pub fn is_ws_exec(c: char) -> (b: bool)
    ensures
        b == is_ws(c),
{
    c == ' ' || c == '\t' || c == '\n' || c == '\r'
}

/// Executable mirror of [`is_ident_start`].
pub fn is_ident_start_exec(c: char) -> (b: bool)
    ensures
        b == is_ident_start(c),
{
    ('a' <= c && c <= 'z') || ('A' <= c && c <= 'Z') || c == '_'
}

/// Executable mirror of [`is_ident_char`].
pub fn is_ident_char_exec(c: char) -> (b: bool)
    ensures
        b == is_ident_char(c),
{
    is_ident_start_exec(c) || ('0' <= c && c <= '9')
}

/// `s` with every space character removed.
pub open spec fn strip_spaces_spec(s: Seq<char>) -> Seq<char>
    decreases s.len(),
{
    if s.len() == 0 {
        Seq::empty()
    } else {
        let rest = strip_spaces_spec(s.drop_last());
        if s.last() == ' ' {
            rest
        } else {
            rest.push(s.last())
        }
    }
}

/// Removes every space character from `s`.
pub fn strip_spaces(s: &str) -> (r: String)
    ensures
        r@ == strip_spaces_spec(s@),
{
    let n = s.unicode_len();
    let mut r = String::new();
    let mut i: usize = 0;
    while i < n
        invariant
            n == s@.len(),
            i <= n,
            r@ == strip_spaces_spec(s@.subrange(0, i as int)),
        decreases n - i,
    {
        let c = s.get_char(i);
        if c != ' ' {
            let piece = s.substring_char(i, i + 1);
            r.append(piece);
        }
        i = i + 1;
        proof {
            assert(s@.subrange(0, i as int).drop_last() =~= s@.subrange(0, i - 1));
            assert(s@.subrange(0, i as int).last() == s@[i - 1]);
            if s@[i - 1] != ' ' {
                assert(s@.subrange(i - 1, i as int) =~= seq![s@[i - 1]]);
                assert(r@ =~= strip_spaces_spec(s@.subrange(0, i - 1)).push(s@[i - 1]));
            }
        }
    }
    proof {
        assert(s@.subrange(0, n as int) =~= s@);
    }
    r
}

/// Every whitespace character replaced by a plain space.
pub open spec fn norm_char(c: char) -> char {
    if is_ws(c) {
        ' '
    } else {
        c
    }
}

/// Pointwise whitespace normalization of `s`.
pub open spec fn norm_ws_spec(s: Seq<char>) -> Seq<char> {
    Seq::new(s.len(), |i: int| norm_char(s[i]))
}

/// `s` without leading spaces.
pub open spec fn trim_front(s: Seq<char>) -> Seq<char>
    decreases s.len(),
{
    if s.len() > 0 && s[0] == ' ' {
        trim_front(s.drop_first())
    } else {
        s
    }
}

/// `s` without trailing spaces.
pub open spec fn trim_back(s: Seq<char>) -> Seq<char>
    decreases s.len(),
{
    if s.len() > 0 && s.last() == ' ' {
        trim_back(s.drop_last())
    } else {
        s
    }
}

/// Whitespace-normalized and trimmed form of a source line: every whitespace
/// character becomes a space, then leading and trailing spaces are dropped.
pub open spec fn normalize_line_spec(s: Seq<char>) -> Seq<char> {
    trim_back(trim_front(norm_ws_spec(s)))
}

proof fn lemma_trim_front_skip(s: Seq<char>, lo: int)
    requires
        0 <= lo <= s.len(),
        forall|j: int| 0 <= j < lo ==> s[j] == ' ',
    ensures
        trim_front(s) == trim_front(s.subrange(lo, s.len() as int)),
    decreases lo,
{
    if lo > 0 {
        assert(s.len() > 0 && s[0] == ' ');
        assert(trim_front(s) == trim_front(s.drop_first()));
        assert(s.drop_first() =~= s.subrange(1, s.len() as int));
        let t = s.subrange(1, s.len() as int);
        lemma_trim_front_skip(t, lo - 1);
        assert(t.subrange(lo - 1, t.len() as int) =~= s.subrange(lo, s.len() as int));
    } else {
        assert(s.subrange(0, s.len() as int) =~= s);
    }
}

proof fn lemma_trim_back_skip(s: Seq<char>, hi: int)
    requires
        0 <= hi <= s.len(),
        forall|j: int| hi <= j < s.len() ==> s[j] == ' ',
    ensures
        trim_back(s) == trim_back(s.subrange(0, hi)),
    decreases s.len() - hi,
{
    if hi < s.len() {
        assert(s.len() > 0 && s.last() == ' ');
        assert(trim_back(s) == trim_back(s.drop_last()));
        assert(s.drop_last() =~= s.subrange(0, s.len() - 1));
        let t = s.subrange(0, s.len() - 1);
        lemma_trim_back_skip(t, hi);
        assert(t.subrange(0, hi) =~= s.subrange(0, hi));
    } else {
        assert(s.subrange(0, hi) =~= s);
    }
}

/// Normalizes whitespace to spaces and trims both ends.
pub fn normalize_line(s: &str) -> (r: String)
    ensures
        r@ == normalize_line_spec(s@),
{
    let v = to_chars(s);
    let ghost nn = norm_ws_spec(s@);
    let n = v.len();
    let mut lo: usize = 0;
    while lo < n && is_ws_exec(v[lo])
        invariant
            v@ == s@,
            n == v.len(),
            lo <= n,
            forall|j: int| 0 <= j < lo ==> is_ws(s@[j]),
        decreases n - lo,
    {
        lo = lo + 1;
    }
    let mut hi: usize = n;
    while hi > lo && is_ws_exec(v[hi - 1])
        invariant
            v@ == s@,
            n == v.len(),
            lo <= hi <= n,
            forall|j: int| 0 <= j < lo ==> is_ws(s@[j]),
            forall|j: int| hi <= j < n ==> is_ws(s@[j]),
        decreases hi,
    {
        hi = hi - 1;
    }
    // `lo..hi` now brackets the non-blank middle; characters outside are
    // whitespace, so trimming the normalized sequence gives exactly this span.
    proof {
        assert(forall|j: int| 0 <= j < lo ==> nn[j] == ' ');
        assert(forall|j: int| hi <= j < n ==> nn[j] == ' ');
        lemma_trim_front_skip(nn, lo as int);
        let mid = nn.subrange(lo as int, n as int);
        if lo < hi {
            assert(!is_ws(s@[lo as int]));
            assert(mid[0] == nn[lo as int]);
            assert(mid[0] != ' ');
            assert(trim_front(mid) == mid);
        } else {
            assert(mid =~= mid.subrange(0, 0));
            lemma_trim_back_skip(mid, 0);
            assert(trim_back(mid) =~= Seq::<char>::empty());
        }
        lemma_trim_back_skip(mid, hi - lo);
        if lo < hi {
            assert(!is_ws(s@[hi - 1]));
            let cut = mid.subrange(0, hi - lo);
            assert(cut.last() == nn[hi - 1]);
            assert(cut.last() != ' ');
            assert(trim_back(cut) == cut);
        }
    }
    let mut r = String::new();
    let mut i: usize = lo;
    while i < hi
        invariant
            v@ == s@,
            n == v.len(),
            lo <= i <= hi <= n,
            nn == norm_ws_spec(s@),
            r@ == nn.subrange(lo as int, i as int),
        decreases hi - i,
    {
        if is_ws_exec(v[i]) {
            r.append(" ");
            proof {
                reveal_strlit(" ");
            }
        } else {
            let piece = s.substring_char(i, i + 1);
            r.append(piece);
        }
        i = i + 1;
        proof {
            assert(r@ =~= nn.subrange(lo as int, i as int));
        }
    }
    proof {
        assert(r@ =~= normalize_line_spec(s@));
    }
    r
}

} // verus!

verus! {

/// The segments of `s` separated by newline characters.  The result always
/// holds at least one segment; an empty input yields one empty segment.
pub open spec fn split_newlines(s: Seq<char>) -> Seq<Seq<char>>
    decreases s.len(),
{
    if s.len() == 0 {
        seq![Seq::<char>::empty()]
    } else if s[0] == '\n' {
        seq![Seq::<char>::empty()] + split_newlines(s.drop_first())
    } else {
        let rest = split_newlines(s.drop_first());
        seq![seq![s[0]] + rest[0]] + rest.drop_first()
    }
}

pub proof fn lemma_split_newlines_nonempty(s: Seq<char>)
    ensures
        split_newlines(s).len() >= 1,
    decreases s.len(),
{
    if s.len() > 0 {
        lemma_split_newlines_nonempty(s.drop_first());
    }
}

/// A segment with a single trailing carriage return removed.
pub open spec fn strip_cr(s: Seq<char>) -> Seq<char> {
    if s.len() > 0 && s.last() == '\r' {
        s.drop_last()
    } else {
        s
    }
}

/// The lines of `s`: newline-separated segments, each with a trailing
/// carriage return removed, and without a final empty segment (so a trailing
/// newline does not produce an extra line, and an empty input has no lines).
pub open spec fn lines_spec(s: Seq<char>) -> Seq<Seq<char>> {
    let segs = split_newlines(s);
    let kept = if segs.last().len() == 0 {
        segs.drop_last()
    } else {
        segs
    };
    kept.map(|i: int, seg: Seq<char>| strip_cr(seg))
}

/// Removes leading and trailing spaces.
pub fn trim_spaces(s: &str) -> (r: String)
    ensures
        r@ == trim_back(trim_front(s@)),
{
    let v = to_chars(s);
    let n = v.len();
    let mut lo: usize = 0;
    while lo < n && v[lo] == ' '
        invariant
            v@ == s@,
            n == v.len(),
            lo <= n,
            forall|j: int| 0 <= j < lo ==> s@[j] == ' ',
        decreases n - lo,
    {
        lo = lo + 1;
    }
    let mut hi: usize = n;
    while hi > lo && v[hi - 1] == ' '
        invariant
            v@ == s@,
            n == v.len(),
            lo <= hi <= n,
            forall|j: int| 0 <= j < lo ==> s@[j] == ' ',
            forall|j: int| hi <= j < n ==> s@[j] == ' ',
        decreases hi,
    {
        hi = hi - 1;
    }
    proof {
        lemma_trim_front_skip(s@, lo as int);
        let mid = s@.subrange(lo as int, n as int);
        if lo < hi {
            assert(mid[0] == s@[lo as int]);
            assert(trim_front(mid) == mid);
        } else {
            assert(mid =~= mid.subrange(0, 0));
            lemma_trim_back_skip(mid, 0);
            assert(trim_back(mid) =~= Seq::<char>::empty());
        }
        lemma_trim_back_skip(mid, hi - lo);
        if lo < hi {
            let cut = mid.subrange(0, hi - lo);
            assert(cut.last() == s@[hi - 1]);
            assert(trim_back(cut) == cut);
        }
    }
    let piece = s.substring_char(lo, hi);
    let r = String::from_str(piece);
    proof {
        assert(r@ =~= trim_back(trim_front(s@)));
    }
    r
}

/// Splits `s` into lines.
pub fn split_lines(s: &str) -> (r: Vec<String>)
    ensures
        r.deep_view() == lines_spec(s@),
{
    let v = to_chars(s);
    let n = v.len();
    let mut segs: Vec<String> = Vec::new();
    let mut cur = String::new();
    let mut i: usize = 0;
    proof {
        lemma_split_newlines_nonempty(s@);
        assert(s@.subrange(0, n as int) =~= s@);
        assert(split_newlines(s@) =~~= segs.deep_view() + seq![cur@ + split_newlines(
            s@.subrange(0, n as int),
        )[0]] + split_newlines(s@.subrange(0, n as int)).drop_first());
    }
    while i < n
        invariant
            v@ == s@,
            n == v.len(),
            i <= n,
            split_newlines(s@) =~~= segs.deep_view() + seq![cur@ + split_newlines(
                s@.subrange(i as int, n as int),
            )[0]] + split_newlines(s@.subrange(i as int, n as int)).drop_first(),
        decreases n - i,
    {
        let ghost pre = s@.subrange(i as int, n as int);
        proof {
            lemma_split_newlines_nonempty(pre.drop_first());
            assert(pre.drop_first() =~= s@.subrange(i + 1, n as int));
        }
        if v[i] == '\n' {
            segs.push(cur);
            cur = String::new();
            proof {
                assert(pre[0] == '\n');
            }
        } else {
            let piece = s.substring_char(i, i + 1);
            cur.append(piece);
            proof {
                assert(pre[0] != '\n');
                assert(piece@ =~= seq![s@[i as int]]);
            }
        }
        i = i + 1;
        proof {
            let post = s@.subrange(i as int, n as int);
            lemma_split_newlines_nonempty(post);
            assert(split_newlines(s@) =~~= segs.deep_view() + seq![cur@ + split_newlines(post)[0]]
                + split_newlines(post).drop_first());
        }
    }
    proof {
        assert(s@.subrange(n as int, n as int) =~= Seq::<char>::empty());
    }
    segs.push(cur);
    // Drop a final empty segment, then strip one trailing '\r' per segment.
    proof {
        assert(segs.deep_view() =~~= split_newlines(s@));
        lemma_split_newlines_nonempty(s@);
    }
    let last_is_empty = segs[segs.len() - 1].as_str().unicode_len() == 0;
    if last_is_empty {
        let _ = segs.pop();
        proof {
            assert(segs.deep_view() =~~= split_newlines(s@).drop_last());
        }
    }
    let mut out: Vec<String> = Vec::new();
    let ghost kept = segs.deep_view();
    let mut j: usize = 0;
    while j < segs.len()
        invariant
            kept == segs.deep_view(),
            j <= segs.len(),
            out@.len() == j,
            out.deep_view() =~~= kept.subrange(0, j as int).map(
                |i: int, seg: Seq<char>| strip_cr(seg),
            ),
        decreases segs.len() - j,
    {
        let seg = &segs[j];
        let m = seg.as_str().unicode_len();
        let stripped: String = if m > 0 && seg.as_str().get_char(m - 1) == '\r' {
            let head = seg.as_str().substring_char(0, m - 1);
            String::from_str(head)
        } else {
            seg.clone()
        };
        proof {
            assert(stripped@ =~= strip_cr(kept[j as int]));
        }
        out.push(stripped);
        j = j + 1;
        proof {
            let goal = kept.subrange(0, j as int).map(|i: int, seg: Seq<char>| strip_cr(seg));
            assert(out@.len() == j);
            assert(out.deep_view().len() == out@.len());
            assert(goal.len() == j);
            assert(out.deep_view().len() == goal.len());
            assert forall|q: int| 0 <= q < goal.len() implies out.deep_view()[q] == goal[q] by {
                assert(goal[q] == strip_cr(kept.subrange(0, j as int)[q]));
                assert(kept.subrange(0, j as int)[q] == kept[q]);
                if q < j - 1 {
                    assert(out.deep_view()[q] == kept.subrange(0, j - 1).map(
                        |i: int, seg: Seq<char>| strip_cr(seg),
                    )[q]);
                }
            }
            assert(out.deep_view() =~~= goal);
        }
    }
    proof {
        assert(kept.subrange(0, kept.len() as int) =~= kept);
        assert(out.deep_view() =~~= lines_spec(s@));
    }
    out
}

/// The decimal digit character for `d`.
pub open spec fn dec_digit(d: int) -> char {
    if d == 0 {
        '0'
    } else if d == 1 {
        '1'
    } else if d == 2 {
        '2'
    } else if d == 3 {
        '3'
    } else if d == 4 {
        '4'
    } else if d == 5 {
        '5'
    } else if d == 6 {
        '6'
    } else if d == 7 {
        '7'
    } else if d == 8 {
        '8'
    } else {
        '9'
    }
}

/// The decimal rendering of `n`, most significant digit first.
pub open spec fn dec_str(n: nat) -> Seq<char>
    decreases n,
{
    if n < 10 {
        seq![dec_digit(n as int)]
    } else {
        dec_str(n / 10).push(dec_digit((n % 10) as int))
    }
}

/// One decimal digit as a string slice.
fn digit_str(d: u64) -> (r: &'static str)
    requires
        d < 10,
    ensures
        r@ == seq![dec_digit(d as int)],
{
    proof {
        reveal_strlit("0");
        reveal_strlit("1");
        reveal_strlit("2");
        reveal_strlit("3");
        reveal_strlit("4");
        reveal_strlit("5");
        reveal_strlit("6");
        reveal_strlit("7");
        reveal_strlit("8");
        reveal_strlit("9");
    }
    let r = if d == 0 {
        "0"
    } else if d == 1 {
        "1"
    } else if d == 2 {
        "2"
    } else if d == 3 {
        "3"
    } else if d == 4 {
        "4"
    } else if d == 5 {
        "5"
    } else if d == 6 {
        "6"
    } else if d == 7 {
        "7"
    } else if d == 8 {
        "8"
    } else {
        "9"
    };
    proof {
        assert(r@ =~= seq![dec_digit(d as int)]);
    }
    r
}

/// Renders `n` in decimal.
pub fn u64_to_string(n: u64) -> (r: String)
    ensures
        r@ == dec_str(n as nat),
    decreases n,
{
    if n < 10 {
        String::from_str(digit_str(n))
    } else {
        let mut r = u64_to_string(n / 10);
        r.append(digit_str(n % 10));
        proof {
            assert(r@ =~= dec_str(n as nat));
        }
        r
    }
}

} // verus!

verus! {

/// A pattern found in `b` is found in `a + b` and in `b + a`.
pub proof fn lemma_contains_in_concat(a: Seq<char>, b: Seq<char>, p: Seq<char>)
    requires
        contains_seq(b, p),
    ensures
        contains_seq(a + b, p),
        contains_seq(b + a, p),
{
    let i = choose|i: int| matches_at(b, p, i);
    assert(matches_at(a + b, p, a.len() + i)) by {
        assert(forall|k: int| 0 <= k < p.len() ==> (a + b)[a.len() + i + k] == #[trigger] b[i
            + k]);
    }
    assert(matches_at(b + a, p, i)) by {
        assert(forall|k: int| 0 <= k < p.len() ==> (b + a)[i + k] == #[trigger] b[i + k]);
    }
}

/// Every pattern occurs in itself.
pub proof fn lemma_contains_self(p: Seq<char>)
    ensures
        contains_seq(p, p),
{
    assert(matches_at(p, p, 0));
}

} // verus!
