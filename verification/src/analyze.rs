//! The function analyzer: two-phase normalization of an operation list.
//!
//! Phase one sums the operations' ink; phase two fills in each operation's
//! share of that sum, in basis points.  The reported total is that same sum,
//! so every percentage is a share of the reported total and the shares add
//! up to the whole (see [`lemma_percentages_sum_to_whole`]).

use vstd::prelude::*;

use vstd::arithmetic::div_mod::lemma_fundamental_div_mod;

use crate::classify::{classify_expr, classify_expr_spec, op_v};
use crate::cost::CostModel;
use crate::lines::{find_exact_line, find_exact_line_spec};
use crate::model::{render_expr, render_expr_spec, Stmt};
use crate::text::{contains_seq, contains_str, str_eq};
use crate::types::{CategoryStats, CategoryStatsV, FunctionAnalysis, FunctionAnalysisV, Hotspot,
    HotspotV, OpV, Operation};

verus! {

/// Sum of the operations' ink estimates.
pub open spec fn ops_ink_sum(ops: Seq<OpV>) -> int
    decreases ops.len(),
{
    if ops.len() == 0 {
        0
    } else {
        ops_ink_sum(ops.drop_last()) + ops.last().ink
    }
}

/// The operation list with every percentage set to its share of `total`,
/// in basis points (floor division); all zero when `total` is not positive.
pub open spec fn with_percentages(ops: Seq<OpV>, total: int) -> Seq<OpV> {
    Seq::new(
        ops.len(),
        |i: int|
            OpV {
                percentage: if total > 0 {
                    ((ops[i].ink * 10000) / total) as u64
                } else {
                    0
                },
                ..ops[i]
            },
    )
}

/// Sum of the operations' percentage fields.
pub open spec fn pct_sum(ops: Seq<OpV>) -> int
    decreases ops.len(),
{
    if ops.len() == 0 {
        0
    } else {
        pct_sum(ops.drop_last()) + ops.last().percentage
    }
}

proof fn lemma_sum_nonneg(ops: Seq<OpV>)
    ensures
        ops_ink_sum(ops) >= 0,
    decreases ops.len(),
{
    if ops.len() > 0 {
        lemma_sum_nonneg(ops.drop_last());
    }
}

/// Every single operation's ink is at most the sum.
pub proof fn lemma_ink_le_sum(ops: Seq<OpV>, i: int)
    requires
        0 <= i < ops.len(),
    ensures
        ops[i].ink <= ops_ink_sum(ops),
    decreases ops.len(),
{
    if i == ops.len() - 1 {
        lemma_sum_nonneg(ops.drop_last());
    } else {
        lemma_ink_le_sum(ops.drop_last(), i);
        assert(ops.drop_last()[i] == ops[i]);
    }
}

proof fn lemma_pct_sum_bounds(ops: Seq<OpV>, total: int)
    requires
        total > 0,
        forall|i: int| 0 <= i < ops.len() ==> ops[i].ink <= total,
    ensures
        total * pct_sum(with_percentages(ops, total)) <= ops_ink_sum(ops) * 10000,
        ops_ink_sum(ops) * 10000 <= total * pct_sum(with_percentages(ops, total)) + total
            * ops.len() - ops.len(),
    decreases ops.len(),
{
    let w = with_percentages(ops, total);
    let n = ops.len() as int;
    if ops.len() == 0 {
        assert(w =~= Seq::<OpV>::empty());
        assert(total * pct_sum(w) == 0) by (nonlinear_arith)
            requires
                pct_sum(w) == 0,
        ;
        assert(total * n == 0) by (nonlinear_arith)
            requires
                n == 0,
        ;
    } else {
        let head = ops.drop_last();
        assert(forall|i: int| 0 <= i < head.len() ==> head[i] == ops[i]);
        lemma_pct_sum_bounds(head, total);
        assert(with_percentages(head, total) =~= w.drop_last());
        let a = ops.last().ink as int;
        let t = (a * 10000) / total;
        let r = (a * 10000) % total;
        lemma_fundamental_div_mod(a * 10000, total);
        assert(a * 10000 >= 0) by (nonlinear_arith)
            requires
                a >= 0,
        ;
        assert(a * 10000 <= total * 10000) by (nonlinear_arith)
            requires
                0 <= a <= total,
        ;
        assert(t >= 0) by (nonlinear_arith)
            requires
                total > 0,
                a * 10000 >= 0,
                a * 10000 == total * t + r,
                r < total,
        ;
        assert(t <= 10000) by (nonlinear_arith)
            requires
                total > 0,
                a * 10000 == total * t + r,
                r >= 0,
                a * 10000 <= total * 10000,
        ;
        assert(ops.last().ink * 10000 == a * 10000);
        assert(w.last().percentage == t as u64);
        assert(pct_sum(w) == pct_sum(w.drop_last()) + t);
        let sh = pct_sum(w.drop_last());
        let ah = ops_ink_sum(head);
        // Lower bound: total * (sh + t) <= ah * 10000 + a * 10000.
        assert(total * pct_sum(w) <= ops_ink_sum(ops) * 10000) by (nonlinear_arith)
            requires
                pct_sum(w) == sh + t,
                ops_ink_sum(ops) == ah + a,
                total * sh <= ah * 10000,
                total * t <= a * 10000,
        ;
        // Upper bound, adding the per-element remainder slack.
        assert(a * 10000 <= total * t + total - 1) by (nonlinear_arith)
            requires
                a * 10000 == total * t + r,
                r <= total - 1,
        ;
        assert(ops_ink_sum(ops) * 10000 <= total * pct_sum(w) + total * n - n)
            by (nonlinear_arith)
            requires
                pct_sum(w) == sh + t,
                ops_ink_sum(ops) == ah + a,
                ah * 10000 <= total * sh + total * (n - 1) - (n - 1),
                a * 10000 <= total * t + total - 1,
        ;
    }
}

/// For any function with at least one operation and positive operation ink,
/// the per-operation percentage shares sum to the whole within integer
/// tolerance: with `n` operations, the basis-point sum lies strictly above
/// `10000 - n` and at most at `10000`.
pub proof fn lemma_percentages_sum_to_whole(ops: Seq<OpV>)
    requires
        ops_ink_sum(ops) > 0,
    ensures
        10000 - ops.len() < pct_sum(with_percentages(ops, ops_ink_sum(ops))),
        pct_sum(with_percentages(ops, ops_ink_sum(ops))) <= 10000,
{
    let total = ops_ink_sum(ops);
    assert forall|i: int| 0 <= i < ops.len() implies ops[i].ink <= total by {
        lemma_ink_le_sum(ops, i);
    }
    let s = pct_sum(with_percentages(ops, total));
    let n = ops.len() as int;
    lemma_pct_sum_bounds(ops, total);
    assert(n >= 1);
    assert(s <= 10000) by (nonlinear_arith)
        requires
            total > 0,
            total * s <= total * 10000,
    ;
    assert(10000 - n < s) by (nonlinear_arith)
        requires
            total > 0,
            n >= 1,
            total * 10000 <= total * s + total * n - n,
    ;
}

/// Rebuilds one operation with a new percentage.
fn set_percentage(o: &Operation, p: u64) -> (r: Operation)
    ensures
        r.deep_view() == (OpV { percentage: p, ..o.deep_view() }),
{
    Operation {
        line: o.line,
        column: o.column,
        code: o.code.clone(),
        operation: o.operation.clone(),
        entity: o.entity.clone(),
        ink: o.ink,
        percentage: p,
        category: o.category.clone(),
        severity: o.severity.clone(),
    }
}

/// Sums the operations' ink without overflow.
pub fn sum_ops_ink(ops: &Vec<Operation>) -> (total: u128)
    ensures
        total == ops_ink_sum(ops.deep_view()),
{
    let ghost dv = ops.deep_view();
    let mut total: u128 = 0;
    let mut i: usize = 0;
    while i < ops.len()
        invariant
            dv == ops.deep_view(),
            dv.len() == ops@.len(),
            i <= ops@.len(),
            total == ops_ink_sum(dv.subrange(0, i as int)),
            total <= i * 0xffff_ffff_ffff_ffffu64,
        decreases ops@.len() - i,
    {
        proof {
            assert(dv.subrange(0, i + 1).drop_last() =~= dv.subrange(0, i as int));
            assert((i + 1) * 0xffff_ffff_ffff_ffffu64 == i * 0xffff_ffff_ffff_ffffu64
                + 0xffff_ffff_ffff_ffffu64) by (nonlinear_arith);
            assert(i * 0xffff_ffff_ffff_ffffu64 <= 0xffff_ffff_ffff_ffffu64
                * 0xffff_ffff_ffff_ffffu64) by (nonlinear_arith)
                requires
                    i <= 0xffff_ffff_ffff_ffffu64,
            ;
        }
        total = total + ops[i].ink as u128;
        i = i + 1;
    }
    proof {
        assert(dv.subrange(0, dv.len() as int) =~= dv);
    }
    total
}

/// Phase two of the normalization: every operation's percentage becomes its
/// share of the operations' total ink, in basis points.
pub fn fill_percentages(ops: &Vec<Operation>) -> (r: Vec<Operation>)
    ensures
        r.deep_view() == with_percentages(ops.deep_view(), ops_ink_sum(ops.deep_view())),
{
    let ghost dv = ops.deep_view();
    let total = sum_ops_ink(ops);
    let mut r: Vec<Operation> = Vec::new();
    let mut i: usize = 0;
    while i < ops.len()
        invariant
            dv == ops.deep_view(),
            dv.len() == ops@.len(),
            i <= ops@.len(),
            total == ops_ink_sum(dv),
            r@.len() == i,
            r.deep_view() =~= with_percentages(dv, ops_ink_sum(dv)).subrange(0, i as int),
        decreases ops@.len() - i,
    {
        let p: u64 = if total > 0 {
            proof {
                lemma_ink_le_sum(dv, i as int);
                lemma_fundamental_div_mod(ops[i as int].deep_view().ink * 10000, total as int);
                assert((ops[i as int].deep_view().ink * 10000) / (total as int) <= 10000)
                    by (nonlinear_arith)
                    requires
                        total > 0,
                        ops[i as int].deep_view().ink <= total,
                        ops[i as int].deep_view().ink >= 0,
                ;
            }
            ((ops[i].ink as u128 * 10000) / total) as u64
        } else {
            0
        };
        let op = set_percentage(&ops[i], p);
        r.push(op);
        i = i + 1;
        proof {
            assert(r.deep_view() =~= with_percentages(dv, ops_ink_sum(dv)).subrange(
                0,
                i as int,
            ));
        }
    }
    proof {
        assert(with_percentages(dv, ops_ink_sum(dv)).subrange(
            0,
            with_percentages(dv, ops_ink_sum(dv)).len() as int,
        ) =~= with_percentages(dv, ops_ink_sum(dv)));
    }
    r
}

} // verus!

verus! {

/// The hotspot drawn from one operation, before ranking.
pub open spec fn hot_of(o: OpV) -> HotspotV {
    HotspotV { line: o.line, ink: o.ink, operation: o.operation, rank: 0 }
}

/// The operations costing more than the threshold, in encounter order.
pub open spec fn hot_filter(ops: Seq<OpV>, thr: u64) -> Seq<HotspotV>
    decreases ops.len(),
{
    if ops.len() == 0 {
        Seq::empty()
    } else {
        let rest = hot_filter(ops.drop_last(), thr);
        if ops.last().ink > thr {
            rest.push(hot_of(ops.last()))
        } else {
            rest
        }
    }
}

/// Stable descending insertion: `x` goes after every element at least as
/// expensive, so equal-ink elements keep their encounter order.
pub open spec fn insert_desc(x: HotspotV, s: Seq<HotspotV>) -> Seq<HotspotV>
    decreases s.len(),
{
    if s.len() == 0 {
        seq![x]
    } else if s[0].ink >= x.ink {
        seq![s[0]] + insert_desc(x, s.drop_first())
    } else {
        seq![x] + s
    }
}

/// Stable descending insertion sort by ink.
pub open spec fn sort_desc(s: Seq<HotspotV>) -> Seq<HotspotV>
    decreases s.len(),
{
    if s.len() == 0 {
        Seq::empty()
    } else {
        insert_desc(s.last(), sort_desc(s.drop_last()))
    }
}

/// Ranks assigned in order: position `i` gets rank `i + 1`.
pub open spec fn rank_filled(s: Seq<HotspotV>) -> Seq<HotspotV> {
    Seq::new(s.len(), |i: int| HotspotV { rank: (i + 1) as usize, ..s[i] })
}

/// The function's hotspots: operations over the threshold, sorted by ink
/// descending with ties in encounter order, ranked from 1.
pub open spec fn hotspots_spec(ops: Seq<OpV>, thr: u64) -> Seq<HotspotV> {
    rank_filled(sort_desc(hot_filter(ops, thr)))
}

/// Descending order by ink.
pub open spec fn sorted_desc(s: Seq<HotspotV>) -> bool {
    forall|i: int, j: int| 0 <= i < j < s.len() ==> s[i].ink >= s[j].ink
}

proof fn lemma_insert_desc_len(x: HotspotV, s: Seq<HotspotV>)
    ensures
        insert_desc(x, s).len() == s.len() + 1,
    decreases s.len(),
{
    if s.len() > 0 && s[0].ink >= x.ink {
        lemma_insert_desc_len(x, s.drop_first());
    }
}

proof fn lemma_insert_desc_sorted(x: HotspotV, s: Seq<HotspotV>)
    requires
        sorted_desc(s),
    ensures
        sorted_desc(insert_desc(x, s)),
    decreases s.len(),
{
    let r = insert_desc(x, s);
    if s.len() == 0 {
        assert(r =~= seq![x]);
    } else if s[0].ink >= x.ink {
        let tail = s.drop_first();
        assert(sorted_desc(tail)) by {
            assert(forall|i: int, j: int|
                0 <= i < j < tail.len() ==> tail[i] == s[i + 1] && tail[j] == s[j + 1]);
        }
        lemma_insert_desc_sorted(x, tail);
        let rt = insert_desc(x, tail);
        lemma_insert_desc_len(x, tail);
        assert(r =~= seq![s[0]] + rt);
        // Every element of the inserted tail is bounded by s[0].
        assert forall|j: int| 0 <= j < rt.len() implies s[0].ink >= rt[j].ink by {
            lemma_insert_desc_index(x, tail, j);
        }
        assert(sorted_desc(r)) by {
            assert(forall|i: int, j: int|
                1 <= i < j < r.len() ==> r[i] == rt[i - 1] && r[j] == rt[j - 1]);
        }
    } else {
        assert(r =~= seq![x] + s);
        assert(forall|j: int| 0 <= j < s.len() ==> x.ink >= #[trigger] s[j].ink) by {
            assert(forall|j: int| 1 <= j < s.len() ==> s[0].ink >= #[trigger] s[j].ink);
        }
        assert(sorted_desc(r)) by {
            assert(forall|i: int, j: int|
                1 <= i < j < r.len() ==> r[i] == s[i - 1] && r[j] == s[j - 1]);
            assert(forall|j: int| 1 <= j < r.len() ==> x.ink >= #[trigger] r[j].ink);
        }
    }
}

/// An element of a stable insertion is either `x` or one of the old
/// elements; used to bound elements under a sorted head.
proof fn lemma_insert_desc_index(x: HotspotV, s: Seq<HotspotV>, j: int)
    requires
        0 <= j < insert_desc(x, s).len(),
    ensures
        insert_desc(x, s)[j] == x || exists|k: int|
            0 <= k < s.len() && insert_desc(x, s)[j] == s[k],
    decreases s.len(),
{
    lemma_insert_desc_len(x, s);
    let r = insert_desc(x, s);
    if s.len() == 0 {
    } else if s[0].ink >= x.ink {
        let tail = s.drop_first();
        if j == 0 {
            assert(r[0] == s[0]);
        } else {
            lemma_insert_desc_len(x, tail);
            lemma_insert_desc_index(x, tail, j - 1);
            assert(r[j] == insert_desc(x, tail)[j - 1]);
            if insert_desc(x, tail)[j - 1] != x {
                let k = choose|k: int|
                    0 <= k < tail.len() && insert_desc(x, tail)[j - 1] == tail[k];
                assert(tail[k] == s[k + 1]);
            }
        }
    } else {
        if j == 0 {
        } else {
            assert(r[j] == s[j - 1]);
        }
    }
}

proof fn lemma_sort_desc_props(s: Seq<HotspotV>)
    ensures
        sort_desc(s).len() == s.len(),
        sorted_desc(sort_desc(s)),
    decreases s.len(),
{
    if s.len() == 0 {
    } else {
        let head = s.drop_last();
        lemma_sort_desc_props(head);
        lemma_insert_desc_len(s.last(), sort_desc(head));
        lemma_insert_desc_sorted(s.last(), sort_desc(head));
    }
}

/// The hotspot law: the hotspots are drawn from exactly the operations
/// costing more than the threshold (the construction filters, stably sorts
/// and ranks them), their ranks are exactly `1..=N` in order with
/// `N = hot_filter(ops, thr).len()`, and their ink is non-increasing.
pub proof fn lemma_hotspot_ranks(ops: Seq<OpV>, thr: u64)
    requires
        ops.len() <= usize::MAX,
    ensures
        hotspots_spec(ops, thr).len() == hot_filter(ops, thr).len(),
        forall|i: int|
            0 <= i < hotspots_spec(ops, thr).len() ==> #[trigger] hotspots_spec(ops, thr)[i].rank
                == i + 1,
        forall|i: int, j: int|
            0 <= i < j < hotspots_spec(ops, thr).len() ==> hotspots_spec(ops, thr)[i].ink
                >= hotspots_spec(ops, thr)[j].ink,
        hotspots_spec(ops, thr).len() <= ops.len(),
{
    lemma_sort_desc_props(hot_filter(ops, thr));
    lemma_hot_filter_len(ops, thr);
    let h = hotspots_spec(ops, thr);
    assert forall|i: int| 0 <= i < h.len() implies #[trigger] h[i].rank == i + 1 by {
        assert(h[i] == (HotspotV { rank: (i + 1) as usize, ..sort_desc(hot_filter(ops, thr))[i] }));
    }
}

proof fn lemma_hot_filter_len(ops: Seq<OpV>, thr: u64)
    ensures
        hot_filter(ops, thr).len() <= ops.len(),
    decreases ops.len(),
{
    if ops.len() > 0 {
        lemma_hot_filter_len(ops.drop_last(), thr);
    }
}

} // verus!

verus! {

/// The distinct categories of the operations, in first-occurrence order.
pub open spec fn cat_keys(ops: Seq<OpV>) -> Seq<Seq<char>>
    decreases ops.len(),
{
    if ops.len() == 0 {
        Seq::empty()
    } else {
        let rest = cat_keys(ops.drop_last());
        if rest.contains(ops.last().category) {
            rest
        } else {
            rest.push(ops.last().category)
        }
    }
}

/// Number of operations in category `c`.
pub open spec fn cat_count(ops: Seq<OpV>, c: Seq<char>) -> int
    decreases ops.len(),
{
    if ops.len() == 0 {
        0
    } else {
        cat_count(ops.drop_last(), c) + if ops.last().category == c {
            1int
        } else {
            0int
        }
    }
}

/// Sum of the ink of the operations in category `c`.
pub open spec fn cat_ink(ops: Seq<OpV>, c: Seq<char>) -> int
    decreases ops.len(),
{
    if ops.len() == 0 {
        0
    } else {
        cat_ink(ops.drop_last(), c) + if ops.last().category == c {
            ops.last().ink as int
        } else {
            0int
        }
    }
}

/// A category's ink never exceeds the whole.
pub proof fn lemma_cat_ink_le_sum(ops: Seq<OpV>, c: Seq<char>)
    ensures
        0 <= cat_ink(ops, c) <= ops_ink_sum(ops),
        0 <= cat_count(ops, c) <= ops.len(),
    decreases ops.len(),
{
    if ops.len() > 0 {
        lemma_cat_ink_le_sum(ops.drop_last(), c);
    }
}

/// The statistics of category `c`: count, clamped ink total, share of the
/// operations' ink in basis points, and integer average per operation.
pub open spec fn cat_stats_of(ops: Seq<OpV>, c: Seq<char>) -> CategoryStatsV {
    let count = cat_count(ops, c);
    let total = crate::detect::clamp_u64(cat_ink(ops, c));
    let opsum = ops_ink_sum(ops);
    CategoryStatsV {
        count: count as usize,
        total_ink: total,
        percentage: if opsum > 0 {
            ((total * 10000) / opsum) as u64
        } else {
            0
        },
        avg_per_op: if count > 0 {
            (total as int / count) as u64
        } else {
            0
        },
    }
}

/// The per-category statistics, keyed in first-occurrence order.
pub open spec fn categories_spec(ops: Seq<OpV>) -> Seq<(Seq<char>, CategoryStatsV)> {
    Seq::new(cat_keys(ops).len(), |i: int| (cat_keys(ops)[i], cat_stats_of(ops, cat_keys(ops)[i])))
}

/// Aggregates count, total ink, percentage of the operations' ink and
/// average cost per category.
#[verifier::rlimit(100)]
#[verifier::spinoff_prover]
pub fn compute_categories(ops: &Vec<Operation>) -> (r: Vec<(String, CategoryStats)>)
    ensures
        r.deep_view() == categories_spec(ops.deep_view()),
{
    let ghost dv = ops.deep_view();
    let opsum = sum_ops_ink(ops);
    // First pass: the distinct categories in first-occurrence order.
    let mut keys: Vec<String> = Vec::new();
    let mut i: usize = 0;
    while i < ops.len()
        invariant
            dv == ops.deep_view(),
            dv.len() == ops@.len(),
            i <= ops@.len(),
            keys.deep_view() =~= cat_keys(dv.subrange(0, i as int)),
        decreases ops@.len() - i,
    {
        let o = &ops[i];
        if !crate::detect::vec_contains_string(&keys, o.category.as_str()) {
            keys.push(o.category.clone());
        }
        i = i + 1;
        proof {
            assert(dv.subrange(0, i as int).drop_last() =~= dv.subrange(0, i - 1));
            assert(keys.deep_view() =~= cat_keys(dv.subrange(0, i as int)));
        }
    }
    proof {
        assert(dv.subrange(0, dv.len() as int) =~= dv);
    }
    let ghost kv = keys.deep_view();
    // Second pass: the statistics per category.
    let mut r: Vec<(String, CategoryStats)> = Vec::new();
    let mut k: usize = 0;
    while k < keys.len()
        invariant
            dv == ops.deep_view(),
            kv == keys.deep_view(),
            kv.len() == keys@.len(),
            kv == cat_keys(dv),
            opsum == ops_ink_sum(dv),
            k <= keys@.len(),
            r@.len() == k,
            r.deep_view() =~= Seq::new(
                k as nat,
                |i: int| (kv[i], cat_stats_of(dv, kv[i])),
            ),
        decreases keys@.len() - k,
    {
        let key = &keys[k];
        proof {
            assert(key@ == kv[k as int]);
        }
        let mut count: usize = 0;
        let mut total: u128 = 0;
        let mut j: usize = 0;
        while j < ops.len()
            invariant
                dv == ops.deep_view(),
                dv.len() == ops@.len(),
                j <= ops@.len(),
                key@ == kv[k as int],
                count == cat_count(dv.subrange(0, j as int), key@),
                total == cat_ink(dv.subrange(0, j as int), key@),
                count <= j,
                total <= j * 0xffff_ffff_ffff_ffffu64,
            decreases ops@.len() - j,
        {
            proof {
                assert(dv.subrange(0, j + 1).drop_last() =~= dv.subrange(0, j as int));
                assert((j + 1) * 0xffff_ffff_ffff_ffffu64 == j * 0xffff_ffff_ffff_ffffu64
                    + 0xffff_ffff_ffff_ffffu64) by (nonlinear_arith);
                assert(j * 0xffff_ffff_ffff_ffffu64 <= 0xffff_ffff_ffff_ffffu64
                    * 0xffff_ffff_ffff_ffffu64) by (nonlinear_arith)
                    requires
                        j <= 0xffff_ffff_ffff_ffffu64,
                ;
            }
            if str_eq(ops[j].category.as_str(), key.as_str()) {
                count = count + 1;
                total = total + ops[j].ink as u128;
            }
            j = j + 1;
        }
        proof {
            assert(dv.subrange(0, dv.len() as int) =~= dv);
            lemma_cat_ink_le_sum(dv, key@);
        }
        let total64: u64 = if total > 0xffff_ffff_ffff_ffffu128 {
            0xffff_ffff_ffff_ffffu64
        } else {
            total as u64
        };
        let percentage: u64 = if opsum > 0 {
            proof {
                lemma_fundamental_div_mod((total64 as int) * 10000, opsum as int);
                assert(((total64 as int) * 10000) / (opsum as int) <= 10000)
                    by (nonlinear_arith)
                    requires
                        opsum > 0,
                        total64 <= total <= opsum,
                ;
            }
            ((total64 as u128 * 10000) / opsum) as u64
        } else {
            0
        };
        let avg: u64 = if count > 0 {
            total64 / (count as u64)
        } else {
            0
        };
        let stats = CategoryStats { count, total_ink: total64, percentage, avg_per_op: avg };
        proof {
            assert(stats.deep_view() == cat_stats_of(dv, kv[k as int]));
        }
        let ghost old_dv_r = r.deep_view();
        r.push((key.clone(), stats));
        k = k + 1;
        proof {
            let goal = Seq::new(k as nat, |i: int| (kv[i], cat_stats_of(dv, kv[i])));
            assert(r.deep_view().len() == k);
            assert(r.deep_view()[k - 1] == (kv[k - 1], cat_stats_of(dv, kv[k - 1])));
            assert forall|j2: int| 0 <= j2 < k implies r.deep_view()[j2] == goal[j2] by {
                assert(goal[j2] == (kv[j2], cat_stats_of(dv, kv[j2])));
                if j2 < k - 1 {
                    assert(r.deep_view()[j2] == old_dv_r[j2]);
                }
            }
            assert(r.deep_view() =~= goal);
        }
    }
    proof {
        assert(r.deep_view() =~= categories_spec(dv));
    }
    r
}

} // verus!

verus! {

/// The insertion point of `x` in `s`: before the first strictly cheaper
/// element, after every element at least as expensive.
proof fn lemma_insert_desc_at(x: HotspotV, s: Seq<HotspotV>, k: int)
    requires
        0 <= k <= s.len(),
        forall|j: int| 0 <= j < k ==> s[j].ink >= x.ink,
        k < s.len() ==> s[k].ink < x.ink,
    ensures
        insert_desc(x, s) == s.subrange(0, k) + seq![x] + s.subrange(k, s.len() as int),
    decreases k,
{
    if s.len() == 0 {
        assert(insert_desc(x, s) =~= s.subrange(0, k) + seq![x] + s.subrange(k, s.len() as int));
    } else if k == 0 {
        assert(s[0].ink < x.ink);
        assert(insert_desc(x, s) == seq![x] + s);
        assert(insert_desc(x, s) =~= s.subrange(0, 0) + seq![x] + s.subrange(0, s.len() as int));
    } else {
        let tail = s.drop_first();
        assert(forall|j: int| 0 <= j < k - 1 ==> tail[j] == s[j + 1]);
        lemma_insert_desc_at(x, tail, k - 1);
        assert(insert_desc(x, s) == seq![s[0]] + insert_desc(x, tail));
        assert(insert_desc(x, s) =~= s.subrange(0, k) + seq![x] + s.subrange(k, s.len() as int));
    }
}

/// Filters the over-threshold operations, stably sorts them by descending
/// ink, and ranks them from 1.
#[verifier::rlimit(100)]
#[verifier::spinoff_prover]
pub fn compute_hotspots(ops: &Vec<Operation>, thr: u64) -> (r: Vec<Hotspot>)
    ensures
        r.deep_view() == hotspots_spec(ops.deep_view(), thr),
{
    let ghost dv = ops.deep_view();
    // Filter.
    let mut hot: Vec<Hotspot> = Vec::new();
    let mut i: usize = 0;
    while i < ops.len()
        invariant
            dv == ops.deep_view(),
            dv.len() == ops@.len(),
            i <= ops@.len(),
            hot.deep_view() =~= hot_filter(dv.subrange(0, i as int), thr),
        decreases ops@.len() - i,
    {
        let o = &ops[i];
        if o.ink > thr {
            hot.push(Hotspot { line: o.line, ink: o.ink, operation: o.operation.clone(), rank: 0 });
        }
        i = i + 1;
        proof {
            assert(dv.subrange(0, i as int).drop_last() =~= dv.subrange(0, i - 1));
            assert(hot.deep_view() =~= hot_filter(dv.subrange(0, i as int), thr));
        }
    }
    proof {
        assert(dv.subrange(0, dv.len() as int) =~= dv);
    }
    let ghost hv = hot.deep_view();
    // Stable insertion sort, descending by ink.
    let mut sorted: Vec<Hotspot> = Vec::new();
    let mut k: usize = 0;
    while k < hot.len()
        invariant
            hv == hot.deep_view(),
            hv.len() == hot@.len(),
            k <= hot@.len(),
            sorted.deep_view() =~= sort_desc(hv.subrange(0, k as int)),
        decreases hot@.len() - k,
    {
        let x = &hot[k];
        let mut pos: usize = 0;
        while pos < sorted.len() && sorted[pos].ink >= x.ink
            invariant
                pos <= sorted@.len(),
                forall|j: int| 0 <= j < pos ==> sorted.deep_view()[j].ink >= x.deep_view().ink,
            decreases sorted@.len() - pos,
        {
            pos = pos + 1;
        }
        let ghost old_sorted = sorted.deep_view();
        let item = Hotspot { line: x.line, ink: x.ink, operation: x.operation.clone(), rank: x.rank };
        proof {
            assert(item.deep_view() == x.deep_view());
            assert(x.deep_view() == hv[k as int]);
            if pos < sorted@.len() {
                assert(old_sorted[pos as int].ink < item.deep_view().ink);
            }
            lemma_insert_desc_at(item.deep_view(), old_sorted, pos as int);
        }
        sorted.insert(pos, item);
        k = k + 1;
        proof {
            assert(hv.subrange(0, k as int).drop_last() =~= hv.subrange(0, k - 1));
            assert(hv.subrange(0, k as int).last() == hv[k - 1]);
            assert(sorted.deep_view() =~= sort_desc(hv.subrange(0, k as int)));
        }
    }
    proof {
        assert(hv.subrange(0, hv.len() as int) =~= hv);
    }
    // Ranks.
    let ghost sv = sorted.deep_view();
    let mut r: Vec<Hotspot> = Vec::new();
    let mut m: usize = 0;
    while m < sorted.len()
        invariant
            sv == sorted.deep_view(),
            sv.len() == sorted@.len(),
            m <= sorted@.len(),
            r@.len() == m,
            r.deep_view() =~= rank_filled(sv).subrange(0, m as int),
        decreases sorted@.len() - m,
    {
        let h = &sorted[m];
        let ranked = Hotspot { line: h.line, ink: h.ink, operation: h.operation.clone(), rank: m + 1 };
        proof {
            assert(ranked.deep_view() == rank_filled(sv)[m as int]);
        }
        r.push(ranked);
        m = m + 1;
        proof {
            assert(r.deep_view() =~= rank_filled(sv).subrange(0, m as int));
        }
    }
    proof {
        assert(rank_filled(sv).subrange(0, rank_filled(sv).len() as int) =~= rank_filled(sv));
        assert(r.deep_view() =~= hotspots_spec(dv, thr));
    }
    r
}

} // verus!

verus! {

/// Saturating increment, used for the guard-check line anchor.
pub open spec fn inc_sat(x: usize) -> usize {
    if x == usize::MAX {
        x
    } else {
        (x + 1) as usize
    }
}

/// The operations one statement yields: initializers and expression
/// statements are classified at their resolved source line; a guard macro
/// (`require!`/`assert!`) yields one cheap control-flow check.
pub open spec fn classify_stmt_spec(
    st: Stmt,
    lines: Seq<Seq<char>>,
    fn_start: usize,
    cm: CostModel,
) -> Seq<OpV> {
    match st {
        Stmt::Local { init, .. } => match init {
            Some(e) => classify_expr_spec(
                e,
                find_exact_line_spec(lines, render_expr_spec(e), fn_start) as usize,
                cm,
            ),
            None => Seq::empty(),
        },
        Stmt::ExprStmt { expr, .. } => classify_expr_spec(
            expr,
            find_exact_line_spec(lines, render_expr_spec(expr), fn_start) as usize,
            cm,
        ),
        Stmt::MacroStmt { text } => if contains_seq(text@, "require!"@) || contains_seq(
            text@,
            "assert!"@,
        ) {
            seq![
                op_v(
                    inc_sat(fn_start),
                    text@,
                    "require_check"@,
                    "n/a"@,
                    cm.default_cost,
                    "control_flow"@,
                    "low"@,
                ),
            ]
        } else {
            Seq::empty()
        },
        Stmt::Other { .. } => Seq::empty(),
    }
}

/// The operations of a whole body, statement by statement in source order.
pub open spec fn body_ops_spec(
    body: Seq<Stmt>,
    lines: Seq<Seq<char>>,
    fn_start: usize,
    cm: CostModel,
) -> Seq<OpV>
    decreases body.len(),
{
    if body.len() == 0 {
        Seq::empty()
    } else {
        body_ops_spec(body.drop_last(), lines, fn_start, cm) + classify_stmt_spec(
            body.last(),
            lines,
            fn_start,
            cm,
        )
    }
}

/// Classifies one statement.
pub fn classify_stmt(st: &Stmt, lines: &Vec<String>, fn_start: usize, cm: &CostModel) -> (r: Vec<
    Operation,
>)
    requires
        cm.wf(),
    ensures
        r.deep_view() == classify_stmt_spec(*st, lines.deep_view(), fn_start, *cm),
{
    match st {
        Stmt::Local { init, .. } => match init {
            Some(e) => {
                let snippet = render_expr(e);
                let line = find_exact_line(lines, snippet.as_str(), fn_start);
                classify_expr(e, line, cm)
            },
            None => Vec::new(),
        },
        Stmt::ExprStmt { expr, .. } => {
            let snippet = render_expr(expr);
            let line = find_exact_line(lines, snippet.as_str(), fn_start);
            classify_expr(expr, line, cm)
        },
        Stmt::MacroStmt { text } => {
            let mut r: Vec<Operation> = Vec::new();
            if contains_str(text.as_str(), "require!") || contains_str(text.as_str(), "assert!") {
                let anchor: usize = if fn_start == usize::MAX {
                    fn_start
                } else {
                    fn_start + 1
                };
                r.push(crate::classify::build_plain_op(anchor, text.clone(), "require_check",
                    String::from_str("n/a"), cm.default_cost, "control_flow", "low"));
            }
            proof {
                assert(r.deep_view() =~= classify_stmt_spec(*st, lines.deep_view(), fn_start,
                    *cm));
            }
            r
        },
        Stmt::Other { .. } => Vec::new(),
    }
}

/// Classifies a whole body in source order.
pub fn classify_body(body: &Vec<Stmt>, lines: &Vec<String>, fn_start: usize, cm: &CostModel) -> (r:
    Vec<Operation>)
    requires
        cm.wf(),
    ensures
        r.deep_view() == body_ops_spec(body@, lines.deep_view(), fn_start, *cm),
{
    let mut r: Vec<Operation> = Vec::new();
    let mut i: usize = 0;
    while i < body.len()
        invariant
            cm.wf(),
            i <= body@.len(),
            r.deep_view() =~= body_ops_spec(body@.subrange(0, i as int), lines.deep_view(),
                fn_start, *cm),
        decreases body@.len() - i,
    {
        let mut ops = classify_stmt(&body[i], lines, fn_start, cm);
        r.append(&mut ops);
        i = i + 1;
        proof {
            assert(body@.subrange(0, i as int).drop_last() =~= body@.subrange(0, i - 1));
            assert(body@.subrange(0, i as int).last() == body@[i - 1]);
            assert(r.deep_view() =~= body_ops_spec(body@.subrange(0, i as int),
                lines.deep_view(), fn_start, *cm));
        }
    }
    proof {
        assert(body@.subrange(0, body@.len() as int) =~= body@);
    }
    r
}

/// The function's total ink: the operations' ink sum, clamped into `u64`.
pub open spec fn total_ink_spec(ops: Seq<OpV>) -> u64 {
    crate::detect::clamp_u64(ops_ink_sum(ops))
}

/// The complete analysis of one function body.
pub open spec fn analyze_function_spec(
    name: Seq<char>,
    signature: Seq<char>,
    body: Seq<Stmt>,
    lines: Seq<Seq<char>>,
    fn_start: usize,
    cm: CostModel,
) -> FunctionAnalysisV {
    let raw = body_ops_spec(body, lines, fn_start, cm);
    let opsum = ops_ink_sum(raw);
    let ops = with_percentages(raw, opsum);
    let total = total_ink_spec(raw);
    FunctionAnalysisV {
        name,
        signature,
        start_line: fn_start,
        total_ink: total,
        gas_equivalent: (total as int / cm.ink_per_gas as int) as u64,
        operations: ops,
        categories: categories_spec(ops),
        optimizations: crate::detect::optimizations_spec(ops, cm),
        hotspots: hotspots_spec(ops, cm.hotspot_threshold),
        dry_nib_bugs: crate::detect::dry_nib_spec(ops, cm),
    }
}

/// Analyzes one function body: classifies every statement, fills in the
/// percentage shares, totals the operations' ink, and runs the aggregators
/// and detectors on the finished operation list.
#[verifier::rlimit(100)]
#[verifier::spinoff_prover]
pub fn analyze_function(
    name: &str,
    signature: &str,
    body: &Vec<Stmt>,
    fn_start_line: usize,
    lines: &Vec<String>,
    cm: &CostModel,
) -> (r: FunctionAnalysis)
    requires
        cm.wf(),
    ensures
        r.deep_view() == analyze_function_spec(name@, signature@, body@, lines.deep_view(),
            fn_start_line, *cm),
{
    let raw = classify_body(body, lines, fn_start_line, cm);
    let opsum = sum_ops_ink(&raw);
    let ops = fill_percentages(&raw);
    let total: u64 = if opsum > 0xffff_ffff_ffff_ffffu128 {
        0xffff_ffff_ffff_ffffu64
    } else {
        opsum as u64
    };
    proof {
        assert(total == total_ink_spec(raw.deep_view()));
    }
    let gas = total / cm.ink_per_gas;
    let categories = compute_categories(&ops);
    let optimizations = crate::detect::detect_optimizations(&ops, cm);
    let hotspots = compute_hotspots(&ops, cm.hotspot_threshold);
    let dry_nib_bugs = crate::detect::detect_dry_nib_bugs(&ops, cm);
    let r = FunctionAnalysis {
        name: String::from_str(name),
        signature: String::from_str(signature),
        start_line: fn_start_line,
        total_ink: total,
        gas_equivalent: gas,
        operations: ops,
        categories,
        optimizations,
        hotspots,
        dry_nib_bugs,
    };
    proof {
        assert(r.deep_view() =~~= analyze_function_spec(name@, signature@, body@,
            lines.deep_view(), fn_start_line, *cm));
    }
    r
}

} // verus!
