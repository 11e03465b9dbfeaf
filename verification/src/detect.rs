//! The dry-nib detector and the optimization detector.
//!
//! Dry-nib detection runs three independent passes whose findings are
//! combined without deduplication, since distinct root causes may coexist on
//! one line: a per-operation overcharge model, repeated-read waste, and
//! nested-access waste.  The optimization detector proposes read/write
//! separation for high-cost writes and caching for repeated reads.
//!
//! The nested-access constants intentionally follow one consistent
//! convention (round trips plus cold and warm accesses) and live in the
//! replaceable [`CostModel`]; the magnitudes are calibration policy.

use vstd::prelude::*;

use crate::cost::CostModel;
use crate::text::{count_str, str_eq};
use crate::types::{DryNibBug, DryNibBugV, OpV, Operation, Optimization, OptimizationV};

verus! {

/// Clamp an unbounded estimate into `u64`.
pub open spec fn clamp_u64(x: int) -> u64 {
    if x > u64::MAX {
        u64::MAX
    } else if x < 0 {
        0
    } else {
        x as u64
    }
}

/// A storage category.
pub open spec fn is_storage_cat(c: Seq<char>) -> bool {
    c == "storage_read"@ || c == "storage_write"@
}

/// The buffer size the host is modelled to allocate for an actual return
/// size: small returns are padded to 32, 64 or 128 bytes, larger ones are
/// rounded up to a 64-byte multiple.
pub open spec fn modeled_buffer(actual: int) -> int {
    if actual <= 8 {
        32
    } else if actual <= 32 {
        64
    } else if actual <= 64 {
        128
    } else {
        ((actual + 63) / 64) * 64
    }
}

/// Number of 32-byte words needed for `bytes`.
pub open spec fn words_of(bytes: int) -> int {
    (bytes + 31) / 32
}

/// The per-operation overcharge bug for one storage operation, if the pass
/// flags it: the modelled buffer cost exceeds the fair cost by more than the
/// threshold, or the snippet holds a nested lookup.
pub open spec fn overcharge_bug_of(o: OpV, cm: CostModel) -> DryNibBugV {
    let nested = crate::classify::lookup_calls(o.code) >= 2;
    let base: int = if o.category == "storage_read"@ {
        cm.storage_read_cost as int
    } else {
        cm.storage_write_cost as int
    };
    let buffer = modeled_buffer(cm.default_return_size as int);
    let charged = words_of(buffer) * base * (if nested {
        2int
    } else {
        1int
    });
    let fair = words_of(cm.default_return_size as int) * base;
    let over = charged - fair;
    DryNibBugV {
        line: o.line,
        operation: o.operation,
        category: o.category,
        ink_charged_estimate: clamp_u64(charged),
        actual_return_size: cm.default_return_size,
        buffer_allocated: clamp_u64(buffer) as usize,
        expected_fair_cost: clamp_u64(fair),
        overcharge_estimate: clamp_u64(over),
        severity: if over > cm.overcharge_high {
            "high"@
        } else {
            "medium"@
        },
        mitigation: if nested {
            "Cache the outer mapping value before the inner lookup"@
        } else {
            "Cache the storage value in a local variable"@
        },
    }
}

/// Whether the per-operation pass flags `o`.
pub open spec fn overcharge_flagged(o: OpV, cm: CostModel) -> bool {
    let nested = crate::classify::lookup_calls(o.code) >= 2;
    let base: int = if o.category == "storage_read"@ {
        cm.storage_read_cost as int
    } else {
        cm.storage_write_cost as int
    };
    let buffer = modeled_buffer(cm.default_return_size as int);
    let charged = words_of(buffer) * base * (if nested {
        2int
    } else {
        1int
    });
    let fair = words_of(cm.default_return_size as int) * base;
    &&& is_storage_cat(o.category)
    &&& (charged - fair > cm.overcharge_threshold || nested)
}

/// Pass one: the per-operation overcharge bugs, in encounter order.
pub open spec fn overcharge_pass_spec(ops: Seq<OpV>, cm: CostModel) -> Seq<DryNibBugV>
    decreases ops.len(),
{
    if ops.len() == 0 {
        Seq::empty()
    } else {
        let rest = overcharge_pass_spec(ops.drop_last(), cm);
        if overcharge_flagged(ops.last(), cm) {
            rest.push(overcharge_bug_of(ops.last(), cm))
        } else {
            rest
        }
    }
}

/// A read operation with a resolved entity.
pub open spec fn is_entity_read(o: OpV) -> bool {
    o.category == "storage_read"@ && o.entity != "unknown"@
}

/// The distinct entities of the resolved storage reads, in first-occurrence
/// order.
pub open spec fn read_entities(ops: Seq<OpV>) -> Seq<Seq<char>>
    decreases ops.len(),
{
    if ops.len() == 0 {
        Seq::empty()
    } else {
        let rest = read_entities(ops.drop_last());
        if is_entity_read(ops.last()) && !rest.contains(ops.last().entity) {
            rest.push(ops.last().entity)
        } else {
            rest
        }
    }
}

/// The distinct 1-based lines on which entity `e` is read, in
/// first-occurrence order.
pub open spec fn entity_lines(ops: Seq<OpV>, e: Seq<char>) -> Seq<usize>
    decreases ops.len(),
{
    if ops.len() == 0 {
        Seq::empty()
    } else {
        let rest = entity_lines(ops.drop_last(), e);
        if is_entity_read(ops.last()) && ops.last().entity == e && !rest.contains(
            ops.last().line,
        ) {
            rest.push(ops.last().line)
        } else {
            rest
        }
    }
}

/// The repeated-read bug for one entity: one record attributing
/// `(reads - 1)` read-waste units, anchored at the first occurrence's line.
/// Its operation field names the entity, so one entity yields one record.
pub open spec fn repeated_bug_of(ops: Seq<OpV>, cm: CostModel, e: Seq<char>) -> DryNibBugV {
    let lines = entity_lines(ops, e);
    let n = lines.len() as int;
    DryNibBugV {
        line: if n > 0 {
            lines[0]
        } else {
            0
        },
        operation: "repeated_read: "@ + e,
        category: "storage_read"@,
        ink_charged_estimate: clamp_u64(n * cm.repeated_read_waste),
        actual_return_size: cm.default_return_size,
        buffer_allocated: cm.default_return_size,
        expected_fair_cost: cm.repeated_read_waste,
        overcharge_estimate: clamp_u64((n - 1) * cm.repeated_read_waste),
        severity: "high"@,
        mitigation: "Cache the value in a local binding and reuse it"@,
    }
}

/// The entities the repeated-read pass flags: those read on at least
/// `repeated_read_min` distinct lines.
pub open spec fn repeated_entities(ops: Seq<OpV>, cm: CostModel, ents: Seq<Seq<char>>) -> Seq<
    Seq<char>,
>
    decreases ents.len(),
{
    if ents.len() == 0 {
        Seq::empty()
    } else {
        let rest = repeated_entities(ops, cm, ents.drop_last());
        if entity_lines(ops, ents.last()).len() >= cm.repeated_read_min {
            rest.push(ents.last())
        } else {
            rest
        }
    }
}

/// Pass two: one repeated-read bug per flagged entity, in first-occurrence
/// order of the entities.
pub open spec fn repeated_pass_spec(ops: Seq<OpV>, cm: CostModel) -> Seq<DryNibBugV> {
    let qual = repeated_entities(ops, cm, read_entities(ops));
    Seq::new(qual.len(), |i: int| repeated_bug_of(ops, cm, qual[i]))
}

/// The nested-access bug for one read operation: two host round trips with
/// cold accesses are modelled against one round trip with a warm follow-up.
pub open spec fn nested_bug_of(o: OpV, cm: CostModel) -> DryNibBugV {
    let charged = 2 * (cm.round_trip_cost + cm.cold_access_cost);
    let fair = cm.round_trip_cost + cm.cold_access_cost + cm.warm_access_cost;
    DryNibBugV {
        line: o.line,
        operation: o.operation,
        category: "storage_read"@,
        ink_charged_estimate: clamp_u64(charged),
        actual_return_size: cm.default_return_size,
        buffer_allocated: cm.default_return_size,
        expected_fair_cost: clamp_u64(fair),
        overcharge_estimate: clamp_u64(charged - fair),
        severity: "high"@,
        mitigation: "Restructure to a single direct accessor"@,
    }
}

/// Whether the nested-access pass flags `o`: a read whose snippet holds at
/// least two lookup calls.
pub open spec fn nested_flagged(o: OpV) -> bool {
    o.category == "storage_read"@ && crate::classify::lookup_calls(o.code) >= 2
}

/// Pass three: the nested-access bugs, in encounter order.
pub open spec fn nested_pass_spec(ops: Seq<OpV>, cm: CostModel) -> Seq<DryNibBugV>
    decreases ops.len(),
{
    if ops.len() == 0 {
        Seq::empty()
    } else {
        let rest = nested_pass_spec(ops.drop_last(), cm);
        if nested_flagged(ops.last()) {
            rest.push(nested_bug_of(ops.last(), cm))
        } else {
            rest
        }
    }
}

/// Stable ascending insertion by line: `x` goes after every record on an
/// earlier or equal line, so records of one line keep their pass order.
pub open spec fn insert_bug_by_line(x: DryNibBugV, s: Seq<DryNibBugV>) -> Seq<DryNibBugV>
    decreases s.len(),
{
    if s.len() == 0 {
        seq![x]
    } else if s[0].line <= x.line {
        seq![s[0]] + insert_bug_by_line(x, s.drop_first())
    } else {
        seq![x] + s
    }
}

/// Stable insertion sort of the findings by line.
pub open spec fn sort_bugs_by_line(s: Seq<DryNibBugV>) -> Seq<DryNibBugV>
    decreases s.len(),
{
    if s.len() == 0 {
        Seq::empty()
    } else {
        insert_bug_by_line(s.last(), sort_bugs_by_line(s.drop_last()))
    }
}

/// All dry-nib findings: the three passes' records, combined without
/// deduplication and sorted by line.
pub open spec fn dry_nib_spec(ops: Seq<OpV>, cm: CostModel) -> Seq<DryNibBugV> {
    sort_bugs_by_line(
        overcharge_pass_spec(ops, cm) + repeated_pass_spec(ops, cm) + nested_pass_spec(ops, cm),
    )
}

/// Whether the redundant-read-in-write rule flags `o`.
pub open spec fn write_flagged(o: OpV, cm: CostModel) -> bool {
    o.category == "storage_write"@ && o.ink > cm.write_high_cost_threshold
}

/// The read/write-separation suggestion for one flagged write.
pub open spec fn split_opt_of(o: OpV, cm: CostModel) -> OptimizationV {
    OptimizationV {
        id: "split_read_write"@,
        line: o.line,
        severity: "high"@,
        title: "Redundant read in write"@,
        description: "The write embeds a storage read; separate the read from the write"@,
        current_code: o.code,
        suggested_code: "let current = self.field.get(...); self.field.insert(...);"@,
        estimated_savings_ink: cm.write_split_saving,
        estimated_savings_percentage: 5000,
        confidence: "high"@,
    }
}

/// Rule one: one read/write-separation suggestion per write operation over
/// the high-cost threshold, in encounter order, each with the fixed saving.
pub open spec fn split_opts_spec(ops: Seq<OpV>, cm: CostModel) -> Seq<OptimizationV>
    decreases ops.len(),
{
    if ops.len() == 0 {
        Seq::empty()
    } else {
        let rest = split_opts_spec(ops.drop_last(), cm);
        if write_flagged(ops.last(), cm) {
            rest.push(split_opt_of(ops.last(), cm))
        } else {
            rest
        }
    }
}

/// The caching suggestion for one repeatedly read entity.
pub open spec fn cache_opt_of(ops: Seq<OpV>, cm: CostModel, e: Seq<char>) -> OptimizationV {
    let lines = entity_lines(ops, e);
    let n = lines.len() as int;
    OptimizationV {
        id: "cache_"@ + e,
        line: if n > 0 {
            lines[0]
        } else {
            0
        },
        severity: "medium"@,
        title: "Cache repeated storage read: self."@ + e,
        description: "The field is read on several lines; cache it to save repeated loads"@,
        current_code: "self."@ + e,
        suggested_code: "let cached_"@ + e + " = self."@ + e + ".get(...);"@,
        estimated_savings_ink: clamp_u64((n - 1) * cm.cache_read_saving),
        estimated_savings_percentage: 9200,
        confidence: "high"@,
    }
}

/// The entities the caching rule flags: those read on more than one
/// distinct line.
pub open spec fn cacheable_entities(ops: Seq<OpV>, ents: Seq<Seq<char>>) -> Seq<Seq<char>>
    decreases ents.len(),
{
    if ents.len() == 0 {
        Seq::empty()
    } else {
        let rest = cacheable_entities(ops, ents.drop_last());
        if entity_lines(ops, ents.last()).len() >= 2 {
            rest.push(ents.last())
        } else {
            rest
        }
    }
}

/// Rule two: one caching suggestion per entity read more than once, in
/// first-occurrence order; confidence is always reported high.
pub open spec fn cache_opts_spec(ops: Seq<OpV>, cm: CostModel) -> Seq<OptimizationV> {
    let qual = cacheable_entities(ops, read_entities(ops));
    Seq::new(qual.len(), |i: int| cache_opt_of(ops, cm, qual[i]))
}

/// All optimization suggestions: rule one then rule two.
pub open spec fn optimizations_spec(ops: Seq<OpV>, cm: CostModel) -> Seq<OptimizationV> {
    split_opts_spec(ops, cm) + cache_opts_spec(ops, cm)
}

} // verus!

verus! {

/// Builds one dry-nib record.
fn mk_bug(
    line: usize,
    operation: String,
    category: &str,
    charged: u64,
    actual: usize,
    buffer: usize,
    fair: u64,
    over: u64,
    severity: &str,
    mitigation: &str,
) -> (r: DryNibBug)
    ensures
        r.deep_view() == (DryNibBugV {
            line,
            operation: operation@,
            category: category@,
            ink_charged_estimate: charged,
            actual_return_size: actual,
            buffer_allocated: buffer,
            expected_fair_cost: fair,
            overcharge_estimate: over,
            severity: severity@,
            mitigation: mitigation@,
        }),
{
    DryNibBug {
        line,
        operation,
        category: String::from_str(category),
        ink_charged_estimate: charged,
        actual_return_size: actual,
        buffer_allocated: buffer,
        expected_fair_cost: fair,
        overcharge_estimate: over,
        severity: String::from_str(severity),
        mitigation: String::from_str(mitigation),
    }
}

/// Clamps a wide intermediate into `u64`.
fn clamp_u128(x: u128) -> (r: u64)
    ensures
        r == clamp_u64(x as int),
{
    if x > 0xffff_ffff_ffff_ffffu128 {
        0xffff_ffff_ffff_ffffu64
    } else {
        x as u64
    }
}

/// Pass one of the dry-nib detector: models a padded buffer for every
/// storage operation and flags those whose modelled charge exceeds the fair
/// cost by more than the threshold, or whose snippet nests lookups.
pub fn overcharge_pass(ops: &Vec<Operation>, cm: &CostModel) -> (r: Vec<DryNibBug>)
    requires
        cm.wf(),
    ensures
        r.deep_view() == overcharge_pass_spec(ops.deep_view(), *cm),
{
    let ghost dv = ops.deep_view();
    let mut r: Vec<DryNibBug> = Vec::new();
    let actual = cm.default_return_size;
    // The modelled buffer and word counts for the configured return size.
    let buffer: u64 = if actual <= 8 {
        32
    } else if actual <= 32 {
        64
    } else if actual <= 64 {
        128
    } else {
        (((actual as u64) + 63) / 64) * 64
    };
    let words: u64 = (buffer + 31) / 32;
    let fair_words: u64 = ((actual as u64) + 31) / 32;
    proof {
        assert(buffer == modeled_buffer(actual as int));
        assert(words == words_of(buffer as int));
        assert(fair_words == words_of(actual as int));
        assert(buffer <= 0x10040) by (nonlinear_arith)
            requires
                actual <= 0xffff,
                buffer == modeled_buffer(actual as int),
        ;
        assert(words <= 3000 && fair_words <= 3000) by (nonlinear_arith)
            requires
                buffer <= 0x10040,
                actual <= 0xffff,
                words == (buffer + 31) / 32,
                fair_words == (actual as u64 + 31) / 32,
        ;
    }
    let mut i: usize = 0;
    while i < ops.len()
        invariant
            cm.wf(),
            dv == ops.deep_view(),
            dv.len() == ops@.len(),
            i <= ops@.len(),
            buffer == modeled_buffer(cm.default_return_size as int),
            words == words_of(buffer as int),
            fair_words == words_of(cm.default_return_size as int),
            words <= 3000,
            fair_words <= 3000,
            actual == cm.default_return_size,
            r.deep_view() =~= overcharge_pass_spec(dv.subrange(0, i as int), *cm),
        decreases ops@.len() - i,
    {
        let o = &ops[i];
        let is_read = str_eq(o.category.as_str(), "storage_read");
        let is_write = str_eq(o.category.as_str(), "storage_write");
        let getc = count_str(o.code.as_str(), ".get(");
        let getterc = count_str(o.code.as_str(), ".getter(");
        let nested = getc >= 2 || getterc >= 2 || (getc >= 1 && getterc >= 1);
        proof {
            assert(nested == (crate::classify::lookup_calls(dv[i as int].code) >= 2));
        }
        let base: u64 = if is_read {
            cm.storage_read_cost
        } else {
            cm.storage_write_cost
        };
        let mult: u128 = if nested {
            2
        } else {
            1
        };
        proof {
            assert((words as int) * (base as int) * (mult as int) < 0x1000000000000000000000000)
                by (nonlinear_arith)
                requires
                    0 <= words <= 3000,
                    0 <= base <= 0x8000_0000_0000_0000,
                    1 <= mult <= 2,
            ;
            assert((fair_words as int) * (base as int) < 0x1000000000000000000000000)
                by (nonlinear_arith)
                requires
                    0 <= fair_words <= 3000,
                    0 <= base <= 0x8000_0000_0000_0000,
            ;
        }
        let charged: u128 = (words as u128) * (base as u128) * mult;
        let fair: u128 = (fair_words as u128) * (base as u128);
        let over: u128 = if charged >= fair {
            charged - fair
        } else {
            0
        };
        let flagged = (is_read || is_write) && (over > cm.overcharge_threshold as u128 || nested);
        proof {
            assert(charged == words_of(modeled_buffer(cm.default_return_size as int)) * (
            if dv[i as int].category == "storage_read"@ {
                cm.storage_read_cost as int
            } else {
                cm.storage_write_cost as int
            }) * (if crate::classify::lookup_calls(dv[i as int].code) >= 2 {
                2int
            } else {
                1int
            })) by (nonlinear_arith)
                requires
                    charged == (words as u128) * (base as u128) * mult,
                    words == words_of(modeled_buffer(cm.default_return_size as int)),
                    base == (if dv[i as int].category == "storage_read"@ {
                        cm.storage_read_cost
                    } else {
                        cm.storage_write_cost
                    }),
                    mult == (if crate::classify::lookup_calls(dv[i as int].code) >= 2 {
                        2int
                    } else {
                        1int
                    }),
            ;
            assert(flagged == overcharge_flagged(dv[i as int], *cm));
        }
        if flagged {
            let charged64 = clamp_u128(charged);
            let fair64 = clamp_u128(fair);
            let over64 = clamp_u128(over);
            let severity: &str = if over > cm.overcharge_high as u128 {
                "high"
            } else {
                "medium"
            };
            let mitigation: &str = if nested {
                "Cache the outer mapping value before the inner lookup"
            } else {
                "Cache the storage value in a local variable"
            };
            let buffer_us = clamp_u128(buffer as u128) as usize;
            let bug = mk_bug(o.line, o.operation.clone(), if is_read {
                "storage_read"
            } else {
                "storage_write"
            }, charged64, actual, buffer_us, fair64, over64, severity, mitigation);
            proof {
                assert(o.category@ == (if is_read {
                    "storage_read"@
                } else {
                    "storage_write"@
                }));
                assert(bug.deep_view() =~~= overcharge_bug_of(dv[i as int], *cm));
            }
            r.push(bug);
        }
        i = i + 1;
        proof {
            assert(dv.subrange(0, i as int).drop_last() =~= dv.subrange(0, i - 1));
            assert(r.deep_view() =~= overcharge_pass_spec(dv.subrange(0, i as int), *cm));
        }
    }
    proof {
        assert(dv.subrange(0, dv.len() as int) =~= dv);
    }
    r
}

} // verus!

verus! {

/// Whether the string vector holds `s`.
pub(crate) fn vec_contains_string(v: &Vec<String>, s: &str) -> (b: bool)
    ensures
        b == v.deep_view().contains(s@),
{
    let ghost dv = v.deep_view();
    let mut i: usize = 0;
    while i < v.len()
        invariant
            dv == v.deep_view(),
            dv.len() == v@.len(),
            i <= v@.len(),
            forall|j: int| 0 <= j < i ==> dv[j] != s@,
        decreases v@.len() - i,
    {
        if str_eq(v[i].as_str(), s) {
            proof {
                assert(dv[i as int] == s@);
            }
            return true;
        }
        i = i + 1;
    }
    false
}

/// Whether the line vector holds `x`.
fn vec_contains_usize(v: &Vec<usize>, x: usize) -> (b: bool)
    ensures
        b == v@.contains(x),
{
    let mut i: usize = 0;
    while i < v.len()
        invariant
            i <= v@.len(),
            forall|j: int| 0 <= j < i ==> v@[j] != x,
        decreases v@.len() - i,
    {
        if v[i] == x {
            return true;
        }
        i = i + 1;
    }
    false
}

/// The distinct entities of the resolved storage reads, in first-occurrence
/// order.
pub fn collect_read_entities(ops: &Vec<Operation>) -> (r: Vec<String>)
    ensures
        r.deep_view() == read_entities(ops.deep_view()),
{
    let ghost dv = ops.deep_view();
    let mut r: Vec<String> = Vec::new();
    let mut i: usize = 0;
    while i < ops.len()
        invariant
            dv == ops.deep_view(),
            dv.len() == ops@.len(),
            i <= ops@.len(),
            r.deep_view() =~= read_entities(dv.subrange(0, i as int)),
        decreases ops@.len() - i,
    {
        let o = &ops[i];
        if str_eq(o.category.as_str(), "storage_read") && !str_eq(o.entity.as_str(), "unknown") {
            if !vec_contains_string(&r, o.entity.as_str()) {
                r.push(o.entity.clone());
            }
        }
        i = i + 1;
        proof {
            assert(dv.subrange(0, i as int).drop_last() =~= dv.subrange(0, i - 1));
            assert(r.deep_view() =~= read_entities(dv.subrange(0, i as int)));
        }
    }
    proof {
        assert(dv.subrange(0, dv.len() as int) =~= dv);
    }
    r
}

/// The distinct lines on which entity `e` is read, in first-occurrence
/// order.
pub fn collect_entity_lines(ops: &Vec<Operation>, e: &str) -> (r: Vec<usize>)
    ensures
        r@ == entity_lines(ops.deep_view(), e@),
{
    let ghost dv = ops.deep_view();
    let mut r: Vec<usize> = Vec::new();
    let mut i: usize = 0;
    while i < ops.len()
        invariant
            dv == ops.deep_view(),
            dv.len() == ops@.len(),
            i <= ops@.len(),
            r@ =~= entity_lines(dv.subrange(0, i as int), e@),
        decreases ops@.len() - i,
    {
        let o = &ops[i];
        if str_eq(o.category.as_str(), "storage_read") && !str_eq(o.entity.as_str(), "unknown")
            && str_eq(o.entity.as_str(), e) {
            if !vec_contains_usize(&r, o.line) {
                r.push(o.line);
            }
        }
        i = i + 1;
        proof {
            assert(dv.subrange(0, i as int).drop_last() =~= dv.subrange(0, i - 1));
            assert(r@ =~= entity_lines(dv.subrange(0, i as int), e@));
        }
    }
    proof {
        assert(dv.subrange(0, dv.len() as int) =~= dv);
    }
    r
}

/// Every entity the repeated-read pass keeps is read on at least the
/// configured number of lines.
proof fn lemma_repeated_entities_qualify(ops: Seq<OpV>, cm: CostModel, ents: Seq<Seq<char>>)
    ensures
        forall|i: int|
            0 <= i < repeated_entities(ops, cm, ents).len() ==> entity_lines(
                ops,
                #[trigger] repeated_entities(ops, cm, ents)[i],
            ).len() >= cm.repeated_read_min,
    decreases ents.len(),
{
    if ents.len() > 0 {
        lemma_repeated_entities_qualify(ops, cm, ents.drop_last());
        let res = repeated_entities(ops, cm, ents);
        let rest = repeated_entities(ops, cm, ents.drop_last());
        assert forall|i: int|
            0 <= i < res.len() implies entity_lines(ops, #[trigger] res[i]).len()
            >= cm.repeated_read_min by {
            if entity_lines(ops, ents.last()).len() >= cm.repeated_read_min {
                if i < rest.len() {
                    assert(res[i] == rest[i]);
                } else {
                    assert(res[i] == ents.last());
                }
            } else {
                assert(res[i] == rest[i]);
            }
        }
    }
}

/// Pass two of the dry-nib detector: one record per entity read on at
/// least `repeated_read_min` distinct lines.
pub fn repeated_pass(ops: &Vec<Operation>, cm: &CostModel) -> (r: Vec<DryNibBug>)
    requires
        cm.wf(),
    ensures
        r.deep_view() == repeated_pass_spec(ops.deep_view(), *cm),
{
    let ghost dv = ops.deep_view();
    let ents = collect_read_entities(ops);
    let ghost ev = ents.deep_view();
    // Keep the qualifying entities.
    let mut qual: Vec<String> = Vec::new();
    let mut i: usize = 0;
    while i < ents.len()
        invariant
            cm.wf(),
            dv == ops.deep_view(),
            ev == ents.deep_view(),
            ev.len() == ents@.len(),
            i <= ents@.len(),
            qual.deep_view() =~= repeated_entities(dv, *cm, ev.subrange(0, i as int)),
        decreases ents@.len() - i,
    {
        let lines = collect_entity_lines(ops, ents[i].as_str());
        if lines.len() >= cm.repeated_read_min {
            qual.push(ents[i].clone());
        }
        i = i + 1;
        proof {
            assert(ev.subrange(0, i as int).drop_last() =~= ev.subrange(0, i - 1));
            assert(qual.deep_view() =~= repeated_entities(dv, *cm, ev.subrange(0, i as int)));
        }
    }
    proof {
        assert(ev.subrange(0, ev.len() as int) =~= ev);
    }
    let ghost qv = qual.deep_view();
    proof {
        lemma_repeated_entities_qualify(dv, *cm, ev);
    }
    // One record per qualifying entity.
    let mut r: Vec<DryNibBug> = Vec::new();
    let mut k: usize = 0;
    while k < qual.len()
        invariant
            cm.wf(),
            dv == ops.deep_view(),
            qv == qual.deep_view(),
            qv.len() == qual@.len(),
            qv == repeated_entities(dv, *cm, read_entities(dv)),
            forall|j: int|
                0 <= j < qv.len() ==> entity_lines(dv, #[trigger] qv[j]).len()
                    >= cm.repeated_read_min,
            k <= qual@.len(),
            r@.len() == k,
            r.deep_view() =~= Seq::new(k as nat, |i: int| repeated_bug_of(dv, *cm, qv[i])),
        decreases qual@.len() - k,
    {
        let e = &qual[k];
        proof {
            assert(e@ == qv[k as int]);
        }
        let lines = collect_entity_lines(ops, e.as_str());
        let n = lines.len();
        proof {
            assert(lines@ == entity_lines(dv, qv[k as int]));
            assert(n >= cm.repeated_read_min >= 1);
            assert((n as int) * (cm.repeated_read_waste as int)
                <= 0xffff_ffff_ffff_ffff_ffff_ffff_ffff_ffffu128) by (nonlinear_arith)
                requires
                    n <= 0xffff_ffff_ffff_ffffu64,
                    cm.repeated_read_waste <= 0x7fff_ffff_ffff,
            ;
            assert(((n - 1) as int) * (cm.repeated_read_waste as int)
                <= 0xffff_ffff_ffff_ffff_ffff_ffff_ffff_ffffu128) by (nonlinear_arith)
                requires
                    1 <= n <= 0xffff_ffff_ffff_ffffu64,
                    cm.repeated_read_waste <= 0x7fff_ffff_ffff,
            ;
        }
        let charged = clamp_u128((n as u128) * (cm.repeated_read_waste as u128));
        let over = clamp_u128(((n - 1) as u128) * (cm.repeated_read_waste as u128));
        let mut opname = String::from_str("repeated_read: ");
        opname.append(e.as_str());
        let bug = mk_bug(lines[0], opname, "storage_read", charged, cm.default_return_size,
            cm.default_return_size, cm.repeated_read_waste, over, "high",
            "Cache the value in a local binding and reuse it");
        proof {
            assert(bug.deep_view() =~~= repeated_bug_of(dv, *cm, qv[k as int]));
        }
        let ghost old_dv_r = r.deep_view();
        r.push(bug);
        k = k + 1;
        proof {
            let goal = Seq::new(k as nat, |i: int| repeated_bug_of(dv, *cm, qv[i]));
            assert(r@.len() == k);
            assert(r.deep_view().len() == k);
            assert(r@[k - 1] == bug);
            assert(r.deep_view()[k - 1] == bug.deep_view());
            assert(bug.deep_view() == repeated_bug_of(dv, *cm, qv[k - 1]));
            assert forall|j: int| 0 <= j < k implies r.deep_view()[j] == goal[j] by {
                assert(goal[j] == repeated_bug_of(dv, *cm, qv[j]));
                if j < k - 1 {
                    assert(r.deep_view()[j] == old_dv_r[j]);
                }
            }
            assert(r.deep_view() =~= goal);
        }
    }
    proof {
        assert(r.deep_view() =~= repeated_pass_spec(dv, *cm));
    }
    r
}

/// Pass three of the dry-nib detector: a structural record for every read
/// whose snippet holds a nested lookup.
pub fn nested_pass(ops: &Vec<Operation>, cm: &CostModel) -> (r: Vec<DryNibBug>)
    requires
        cm.wf(),
    ensures
        r.deep_view() == nested_pass_spec(ops.deep_view(), *cm),
{
    let ghost dv = ops.deep_view();
    let mut r: Vec<DryNibBug> = Vec::new();
    let charged: u64 = 2 * (cm.round_trip_cost + cm.cold_access_cost);
    let fair: u64 = cm.round_trip_cost + cm.cold_access_cost + cm.warm_access_cost;
    let over: u64 = if charged >= fair {
        charged - fair
    } else {
        0
    };
    let mut i: usize = 0;
    while i < ops.len()
        invariant
            cm.wf(),
            dv == ops.deep_view(),
            dv.len() == ops@.len(),
            i <= ops@.len(),
            charged == 2 * (cm.round_trip_cost + cm.cold_access_cost),
            fair == cm.round_trip_cost + cm.cold_access_cost + cm.warm_access_cost,
            over == clamp_u64(charged - fair),
            r.deep_view() =~= nested_pass_spec(dv.subrange(0, i as int), *cm),
        decreases ops@.len() - i,
    {
        let o = &ops[i];
        let getc = count_str(o.code.as_str(), ".get(");
        let getterc = count_str(o.code.as_str(), ".getter(");
        let nested = getc >= 2 || getterc >= 2 || (getc >= 1 && getterc >= 1);
        proof {
            assert(nested == (crate::classify::lookup_calls(dv[i as int].code) >= 2));
        }
        if str_eq(o.category.as_str(), "storage_read") && nested {
            let bug = mk_bug(o.line, o.operation.clone(), "storage_read", charged,
                cm.default_return_size, cm.default_return_size, fair, over, "high",
                "Restructure to a single direct accessor");
            proof {
                assert(bug.deep_view() =~~= nested_bug_of(dv[i as int], *cm));
            }
            r.push(bug);
        }
        i = i + 1;
        proof {
            assert(dv.subrange(0, i as int).drop_last() =~= dv.subrange(0, i - 1));
            assert(r.deep_view() =~= nested_pass_spec(dv.subrange(0, i as int), *cm));
        }
    }
    proof {
        assert(dv.subrange(0, dv.len() as int) =~= dv);
    }
    r
}

/// Ascending order by line.
pub open spec fn bugs_sorted_by_line(s: Seq<DryNibBugV>) -> bool {
    forall|i: int, j: int| 0 <= i < j < s.len() ==> s[i].line <= s[j].line
}

proof fn lemma_insert_bug_len(x: DryNibBugV, s: Seq<DryNibBugV>)
    ensures
        insert_bug_by_line(x, s).len() == s.len() + 1,
    decreases s.len(),
{
    if s.len() > 0 && s[0].line <= x.line {
        lemma_insert_bug_len(x, s.drop_first());
    }
}

proof fn lemma_insert_bug_index(x: DryNibBugV, s: Seq<DryNibBugV>, j: int)
    requires
        0 <= j < insert_bug_by_line(x, s).len(),
    ensures
        insert_bug_by_line(x, s)[j] == x || exists|k: int|
            0 <= k < s.len() && insert_bug_by_line(x, s)[j] == s[k],
    decreases s.len(),
{
    lemma_insert_bug_len(x, s);
    let r = insert_bug_by_line(x, s);
    if s.len() == 0 {
    } else if s[0].line <= x.line {
        let tail = s.drop_first();
        if j == 0 {
            assert(r[0] == s[0]);
        } else {
            lemma_insert_bug_len(x, tail);
            lemma_insert_bug_index(x, tail, j - 1);
            assert(r[j] == insert_bug_by_line(x, tail)[j - 1]);
            if insert_bug_by_line(x, tail)[j - 1] != x {
                let k = choose|k: int|
                    0 <= k < tail.len() && insert_bug_by_line(x, tail)[j - 1] == tail[k];
                assert(tail[k] == s[k + 1]);
            }
        }
    } else {
        if j > 0 {
            assert(r[j] == s[j - 1]);
        }
    }
}

proof fn lemma_insert_bug_sorted(x: DryNibBugV, s: Seq<DryNibBugV>)
    requires
        bugs_sorted_by_line(s),
    ensures
        bugs_sorted_by_line(insert_bug_by_line(x, s)),
    decreases s.len(),
{
    let r = insert_bug_by_line(x, s);
    if s.len() == 0 {
        assert(r =~= seq![x]);
    } else if s[0].line <= x.line {
        let tail = s.drop_first();
        assert(bugs_sorted_by_line(tail)) by {
            assert(forall|i: int, j: int|
                0 <= i < j < tail.len() ==> tail[i] == s[i + 1] && tail[j] == s[j + 1]);
        }
        lemma_insert_bug_sorted(x, tail);
        let rt = insert_bug_by_line(x, tail);
        lemma_insert_bug_len(x, tail);
        assert(r =~= seq![s[0]] + rt);
        assert forall|j: int| 0 <= j < rt.len() implies s[0].line <= rt[j].line by {
            lemma_insert_bug_index(x, tail, j);
        }
        assert(bugs_sorted_by_line(r)) by {
            assert(forall|i: int, j: int|
                1 <= i < j < r.len() ==> r[i] == rt[i - 1] && r[j] == rt[j - 1]);
        }
    } else {
        assert(r =~= seq![x] + s);
        assert(forall|j: int| 0 <= j < s.len() ==> x.line <= #[trigger] s[j].line) by {
            assert(forall|j: int| 1 <= j < s.len() ==> s[0].line <= #[trigger] s[j].line);
        }
        assert(bugs_sorted_by_line(r)) by {
            assert(forall|i: int, j: int|
                1 <= i < j < r.len() ==> r[i] == s[i - 1] && r[j] == s[j - 1]);
            assert(forall|j: int| 1 <= j < r.len() ==> x.line <= #[trigger] r[j].line);
        }
    }
}

proof fn lemma_sort_bugs_props(s: Seq<DryNibBugV>)
    ensures
        sort_bugs_by_line(s).len() == s.len(),
        bugs_sorted_by_line(sort_bugs_by_line(s)),
    decreases s.len(),
{
    if s.len() > 0 {
        lemma_sort_bugs_props(s.drop_last());
        lemma_insert_bug_len(s.last(), sort_bugs_by_line(s.drop_last()));
        lemma_insert_bug_sorted(s.last(), sort_bugs_by_line(s.drop_last()));
    }
}

/// The combined findings come out sorted by line, whatever the operation
/// order, and none of the three passes' records is dropped.
pub proof fn lemma_dry_nib_sorted_by_line(ops: Seq<OpV>, cm: CostModel)
    ensures
        bugs_sorted_by_line(dry_nib_spec(ops, cm)),
        dry_nib_spec(ops, cm).len() == overcharge_pass_spec(ops, cm).len() + repeated_pass_spec(
            ops,
            cm,
        ).len() + nested_pass_spec(ops, cm).len(),
{
    lemma_sort_bugs_props(
        overcharge_pass_spec(ops, cm) + repeated_pass_spec(ops, cm) + nested_pass_spec(ops, cm),
    );
}

/// The insertion point of `x`: before the first record on a later line.
proof fn lemma_insert_bug_at(x: DryNibBugV, s: Seq<DryNibBugV>, k: int)
    requires
        0 <= k <= s.len(),
        forall|j: int| 0 <= j < k ==> s[j].line <= x.line,
        k < s.len() ==> s[k].line > x.line,
    ensures
        insert_bug_by_line(x, s) == s.subrange(0, k) + seq![x] + s.subrange(k, s.len() as int),
    decreases k,
{
    if s.len() == 0 {
        assert(insert_bug_by_line(x, s) =~= s.subrange(0, k) + seq![x] + s.subrange(
            k,
            s.len() as int,
        ));
    } else if k == 0 {
        assert(s[0].line > x.line);
        assert(insert_bug_by_line(x, s) == seq![x] + s);
        assert(insert_bug_by_line(x, s) =~= s.subrange(0, 0) + seq![x] + s.subrange(
            0,
            s.len() as int,
        ));
    } else {
        let tail = s.drop_first();
        assert(forall|j: int| 0 <= j < k - 1 ==> tail[j] == s[j + 1]);
        lemma_insert_bug_at(x, tail, k - 1);
        assert(insert_bug_by_line(x, s) == seq![s[0]] + insert_bug_by_line(x, tail));
        assert(insert_bug_by_line(x, s) =~= s.subrange(0, k) + seq![x] + s.subrange(
            k,
            s.len() as int,
        ));
    }
}

/// Copies one finding.
fn copy_bug(b: &DryNibBug) -> (r: DryNibBug)
    ensures
        r.deep_view() == b.deep_view(),
{
    DryNibBug {
        line: b.line,
        operation: b.operation.clone(),
        category: b.category.clone(),
        ink_charged_estimate: b.ink_charged_estimate,
        actual_return_size: b.actual_return_size,
        buffer_allocated: b.buffer_allocated,
        expected_fair_cost: b.expected_fair_cost,
        overcharge_estimate: b.overcharge_estimate,
        severity: b.severity.clone(),
        mitigation: b.mitigation.clone(),
    }
}

/// All three dry-nib passes, combined without deduplication and sorted by
/// line; records of one line keep their pass order.
#[verifier::rlimit(100)]
#[verifier::spinoff_prover]
pub fn detect_dry_nib_bugs(ops: &Vec<Operation>, cm: &CostModel) -> (r: Vec<DryNibBug>)
    requires
        cm.wf(),
    ensures
        r.deep_view() == dry_nib_spec(ops.deep_view(), *cm),
{
    let mut combined = overcharge_pass(ops, cm);
    let mut b = repeated_pass(ops, cm);
    let mut c = nested_pass(ops, cm);
    combined.append(&mut b);
    combined.append(&mut c);
    let ghost cv = combined.deep_view();
    proof {
        assert(cv =~= overcharge_pass_spec(ops.deep_view(), *cm) + repeated_pass_spec(
            ops.deep_view(),
            *cm,
        ) + nested_pass_spec(ops.deep_view(), *cm));
    }
    let mut sorted: Vec<DryNibBug> = Vec::new();
    let mut k: usize = 0;
    while k < combined.len()
        invariant
            cv == combined.deep_view(),
            cv.len() == combined@.len(),
            k <= combined@.len(),
            sorted.deep_view() =~= sort_bugs_by_line(cv.subrange(0, k as int)),
        decreases combined@.len() - k,
    {
        let x = &combined[k];
        let mut pos: usize = 0;
        while pos < sorted.len() && sorted[pos].line <= x.line
            invariant
                pos <= sorted@.len(),
                forall|j: int| 0 <= j < pos ==> sorted.deep_view()[j].line <= x.deep_view().line,
            decreases sorted@.len() - pos,
        {
            pos = pos + 1;
        }
        let ghost old_sorted = sorted.deep_view();
        let item = copy_bug(x);
        proof {
            assert(item.deep_view() == x.deep_view());
            assert(x.deep_view() == cv[k as int]);
            if pos < sorted@.len() {
                assert(old_sorted[pos as int].line > item.deep_view().line);
            }
            lemma_insert_bug_at(item.deep_view(), old_sorted, pos as int);
        }
        sorted.insert(pos, item);
        k = k + 1;
        proof {
            assert(cv.subrange(0, k as int).drop_last() =~= cv.subrange(0, k - 1));
            assert(cv.subrange(0, k as int).last() == cv[k - 1]);
            assert(sorted.deep_view() =~= sort_bugs_by_line(cv.subrange(0, k as int)));
        }
    }
    proof {
        assert(cv.subrange(0, cv.len() as int) =~= cv);
        assert(sorted.deep_view() =~= dry_nib_spec(ops.deep_view(), *cm));
    }
    sorted
}

} // verus!

verus! {

/// Builds one optimization record.
fn mk_opt(
    id: String,
    line: usize,
    severity: &str,
    title: String,
    description: &str,
    current_code: String,
    suggested_code: String,
    savings_ink: u64,
    savings_pct: u64,
    confidence: &str,
) -> (r: Optimization)
    ensures
        r.deep_view() == (OptimizationV {
            id: id@,
            line,
            severity: severity@,
            title: title@,
            description: description@,
            current_code: current_code@,
            suggested_code: suggested_code@,
            estimated_savings_ink: savings_ink,
            estimated_savings_percentage: savings_pct,
            confidence: confidence@,
        }),
{
    Optimization {
        id,
        line,
        severity: String::from_str(severity),
        title,
        description: String::from_str(description),
        current_code,
        suggested_code,
        estimated_savings_ink: savings_ink,
        estimated_savings_percentage: savings_pct,
        confidence: String::from_str(confidence),
    }
}

/// Rule one of the optimization detector: flags every storage write over
/// the high-cost threshold as a redundant read in a write.
pub fn split_opts(ops: &Vec<Operation>, cm: &CostModel) -> (r: Vec<Optimization>)
    requires
        cm.wf(),
    ensures
        r.deep_view() == split_opts_spec(ops.deep_view(), *cm),
{
    let ghost dv = ops.deep_view();
    let mut r: Vec<Optimization> = Vec::new();
    let mut i: usize = 0;
    while i < ops.len()
        invariant
            cm.wf(),
            dv == ops.deep_view(),
            dv.len() == ops@.len(),
            i <= ops@.len(),
            r.deep_view() =~= split_opts_spec(dv.subrange(0, i as int), *cm),
        decreases ops@.len() - i,
    {
        let o = &ops[i];
        if str_eq(o.category.as_str(), "storage_write") && o.ink > cm.write_high_cost_threshold {
            let opt = mk_opt(String::from_str("split_read_write"), o.line, "high",
                String::from_str("Redundant read in write"),
                "The write embeds a storage read; separate the read from the write",
                o.code.clone(),
                String::from_str("let current = self.field.get(...); self.field.insert(...);"),
                cm.write_split_saving, 5000, "high");
            proof {
                assert(opt.deep_view() =~~= split_opt_of(dv[i as int], *cm));
            }
            r.push(opt);
        }
        i = i + 1;
        proof {
            assert(dv.subrange(0, i as int).drop_last() =~= dv.subrange(0, i - 1));
            assert(r.deep_view() =~= split_opts_spec(dv.subrange(0, i as int), *cm));
        }
    }
    proof {
        assert(dv.subrange(0, dv.len() as int) =~= dv);
    }
    r
}

/// Rule two of the optimization detector: suggests caching every entity
/// read on more than one line.
pub fn cache_opts(ops: &Vec<Operation>, cm: &CostModel) -> (r: Vec<Optimization>)
    requires
        cm.wf(),
    ensures
        r.deep_view() == cache_opts_spec(ops.deep_view(), *cm),
{
    let ghost dv = ops.deep_view();
    let ents = collect_read_entities(ops);
    let ghost ev = ents.deep_view();
    let mut qual: Vec<String> = Vec::new();
    let mut i: usize = 0;
    while i < ents.len()
        invariant
            cm.wf(),
            dv == ops.deep_view(),
            ev == ents.deep_view(),
            ev.len() == ents@.len(),
            i <= ents@.len(),
            qual.deep_view() =~= cacheable_entities(dv, ev.subrange(0, i as int)),
        decreases ents@.len() - i,
    {
        let lines = collect_entity_lines(ops, ents[i].as_str());
        if lines.len() >= 2 {
            qual.push(ents[i].clone());
        }
        i = i + 1;
        proof {
            assert(ev.subrange(0, i as int).drop_last() =~= ev.subrange(0, i - 1));
            assert(qual.deep_view() =~= cacheable_entities(dv, ev.subrange(0, i as int)));
        }
    }
    proof {
        assert(ev.subrange(0, ev.len() as int) =~= ev);
    }
    let ghost qv = qual.deep_view();
    proof {
        lemma_cacheable_entities_qualify(dv, ev);
    }
    let mut r: Vec<Optimization> = Vec::new();
    let mut k: usize = 0;
    while k < qual.len()
        invariant
            cm.wf(),
            dv == ops.deep_view(),
            qv == qual.deep_view(),
            qv.len() == qual@.len(),
            qv == cacheable_entities(dv, read_entities(dv)),
            forall|j: int|
                0 <= j < qv.len() ==> entity_lines(dv, #[trigger] qv[j]).len() >= 2,
            k <= qual@.len(),
            r@.len() == k,
            r.deep_view() =~= Seq::new(k as nat, |i: int| cache_opt_of(dv, *cm, qv[i])),
        decreases qual@.len() - k,
    {
        let e = &qual[k];
        proof {
            assert(e@ == qv[k as int]);
        }
        let lines = collect_entity_lines(ops, e.as_str());
        let n = lines.len();
        proof {
            assert(lines@ == entity_lines(dv, qv[k as int]));
            assert(n >= 2);
            assert(((n - 1) as int) * (cm.cache_read_saving as int)
                <= 0xffff_ffff_ffff_ffff_ffff_ffff_ffff_ffffu128) by (nonlinear_arith)
                requires
                    1 <= n <= 0xffff_ffff_ffff_ffffu64,
                    cm.cache_read_saving <= 0x7fff_ffff_ffff,
            ;
        }
        let savings = clamp_u128(((n - 1) as u128) * (cm.cache_read_saving as u128));
        let mut id = String::from_str("cache_");
        id.append(e.as_str());
        let mut title = String::from_str("Cache repeated storage read: self.");
        title.append(e.as_str());
        let mut cur = String::from_str("self.");
        cur.append(e.as_str());
        let mut sug = String::from_str("let cached_");
        sug.append(e.as_str());
        sug.append(" = self.");
        sug.append(e.as_str());
        sug.append(".get(...);");
        let opt = mk_opt(id, lines[0], "medium", title,
            "The field is read on several lines; cache it to save repeated loads", cur, sug,
            savings, 9200, "high");
        proof {
            assert(opt.deep_view().suggested_code =~= cache_opt_of(dv, *cm, qv[k as int]).suggested_code);
            assert(opt.deep_view().title =~= cache_opt_of(dv, *cm, qv[k as int]).title);
            assert(opt.deep_view() =~~= cache_opt_of(dv, *cm, qv[k as int]));
        }
        let ghost old_dv_r = r.deep_view();
        r.push(opt);
        k = k + 1;
        proof {
            let goal = Seq::new(k as nat, |i: int| cache_opt_of(dv, *cm, qv[i]));
            assert(r.deep_view().len() == k);
            assert(r.deep_view()[k - 1] == opt.deep_view());
            assert(opt.deep_view() == cache_opt_of(dv, *cm, qv[k - 1]));
            assert forall|j: int| 0 <= j < k implies r.deep_view()[j] == goal[j] by {
                assert(goal[j] == cache_opt_of(dv, *cm, qv[j]));
                if j < k - 1 {
                    assert(r.deep_view()[j] == old_dv_r[j]);
                }
            }
            assert(r.deep_view() =~= goal);
        }
    }
    proof {
        assert(r.deep_view() =~= cache_opts_spec(dv, *cm));
    }
    r
}

/// Every entity the caching rule keeps is read on at least two lines.
proof fn lemma_cacheable_entities_qualify(ops: Seq<OpV>, ents: Seq<Seq<char>>)
    ensures
        forall|i: int|
            0 <= i < cacheable_entities(ops, ents).len() ==> entity_lines(
                ops,
                #[trigger] cacheable_entities(ops, ents)[i],
            ).len() >= 2,
    decreases ents.len(),
{
    if ents.len() > 0 {
        lemma_cacheable_entities_qualify(ops, ents.drop_last());
        let res = cacheable_entities(ops, ents);
        let rest = cacheable_entities(ops, ents.drop_last());
        assert forall|i: int|
            0 <= i < res.len() implies entity_lines(ops, #[trigger] res[i]).len() >= 2 by {
            if entity_lines(ops, ents.last()).len() >= 2 {
                if i < rest.len() {
                    assert(res[i] == rest[i]);
                } else {
                    assert(res[i] == ents.last());
                }
            } else {
                assert(res[i] == rest[i]);
            }
        }
    }
}

/// Both optimization rules, rule one first.
pub fn detect_optimizations(ops: &Vec<Operation>, cm: &CostModel) -> (r: Vec<Optimization>)
    requires
        cm.wf(),
    ensures
        r.deep_view() == optimizations_spec(ops.deep_view(), *cm),
{
    let mut r = split_opts(ops, cm);
    let mut b = cache_opts(ops, cm);
    r.append(&mut b);
    proof {
        assert(r.deep_view() =~= optimizations_spec(ops.deep_view(), *cm));
    }
    r
}

} // verus!

verus! {

/// The distinct read entities hold no duplicates.
proof fn lemma_read_entities_distinct(ops: Seq<OpV>)
    ensures
        forall|i: int, j: int|
            0 <= i < j < read_entities(ops).len() ==> read_entities(ops)[i] != read_entities(
                ops,
            )[j],
    decreases ops.len(),
{
    if ops.len() > 0 {
        lemma_read_entities_distinct(ops.drop_last());
        let res = read_entities(ops);
        let rest = read_entities(ops.drop_last());
        assert forall|i: int, j: int| 0 <= i < j < res.len() implies res[i] != res[j] by {
            if res.len() == rest.len() + 1 {
                if j < rest.len() {
                    assert(res[i] == rest[i] && res[j] == rest[j]);
                } else {
                    assert(res[j] == ops.last().entity);
                    assert(res[i] == rest[i]);
                    assert(!rest.contains(ops.last().entity));
                }
            } else {
                assert(res[i] == rest[i] && res[j] == rest[j]);
            }
        }
    }
}

/// Filtering the entity list keeps membership of every qualifying entity.
proof fn lemma_repeated_entities_member(
    ops: Seq<OpV>,
    cm: CostModel,
    ents: Seq<Seq<char>>,
    e: Seq<char>,
)
    requires
        ents.contains(e),
        entity_lines(ops, e).len() >= cm.repeated_read_min,
    ensures
        repeated_entities(ops, cm, ents).contains(e),
    decreases ents.len(),
{
    let res = repeated_entities(ops, cm, ents);
    let rest = repeated_entities(ops, cm, ents.drop_last());
    if ents.last() == e {
        assert(res == rest.push(e));
        assert(res[res.len() - 1] == e);
    } else {
        let i = choose|i: int| 0 <= i < ents.len() && ents[i] == e;
        assert(ents.drop_last()[i] == e);
        assert(ents.drop_last().contains(e));
        lemma_repeated_entities_member(ops, cm, ents.drop_last(), e);
        let j = choose|j: int| 0 <= j < rest.len() && rest[j] == e;
        if entity_lines(ops, ents.last()).len() >= cm.repeated_read_min {
            assert(res[j] == e);
        } else {
            assert(res[j] == e);
        }
    }
}

/// Filtering keeps distinctness, and every kept entity is one of the
/// originals.
proof fn lemma_repeated_entities_distinct(ops: Seq<OpV>, cm: CostModel, ents: Seq<Seq<char>>)
    requires
        forall|i: int, j: int| 0 <= i < j < ents.len() ==> ents[i] != ents[j],
    ensures
        forall|i: int, j: int|
            0 <= i < j < repeated_entities(ops, cm, ents).len() ==> repeated_entities(
                ops,
                cm,
                ents,
            )[i] != repeated_entities(ops, cm, ents)[j],
        forall|i: int|
            0 <= i < repeated_entities(ops, cm, ents).len() ==> exists|j: int|
                0 <= j < ents.len() && ents[j] == #[trigger] repeated_entities(ops, cm, ents)[i],
    decreases ents.len(),
{
    if ents.len() > 0 {
        let head = ents.drop_last();
        assert(forall|m: int| 0 <= m < head.len() ==> head[m] == ents[m]);
        lemma_repeated_entities_distinct(ops, cm, head);
        let res = repeated_entities(ops, cm, ents);
        let rest = repeated_entities(ops, cm, head);
        let flagged = entity_lines(ops, ents.last()).len() >= cm.repeated_read_min;
        assert forall|i: int| 0 <= i < res.len() implies exists|j: int|
            0 <= j < ents.len() && ents[j] == #[trigger] res[i] by {
            if flagged {
                assert(res == rest.push(ents.last()));
                if i == rest.len() {
                    assert(ents[ents.len() - 1] == res[i]);
                } else {
                    assert(res[i] == rest[i]);
                    let j = choose|j: int| 0 <= j < head.len() && head[j] == rest[i];
                    assert(ents[j] == res[i]);
                }
            } else {
                assert(res == rest);
                let j = choose|j: int| 0 <= j < head.len() && head[j] == rest[i];
                assert(ents[j] == res[i]);
            }
        }
        assert forall|i: int, j: int| 0 <= i < j < res.len() implies res[i] != res[j] by {
            if flagged {
                assert(res == rest.push(ents.last()));
                if j == rest.len() {
                    assert(res[j] == ents.last());
                    assert(res[i] == rest[i]);
                    let m = choose|m: int| 0 <= m < head.len() && head[m] == rest[i];
                    assert(ents[m] == rest[i]);
                    assert(ents[ents.len() - 1] == ents.last());
                    if rest[i] == ents.last() {
                        assert(ents[m] == ents[ents.len() - 1] && m < ents.len() - 1);
                    }
                } else {
                    assert(res[i] == rest[i] && res[j] == rest[j]);
                }
            } else {
                assert(res == rest);
                assert(res[i] == rest[i] && res[j] == rest[j]);
            }
        }
    }
}

/// Prefix concatenation is cancellative.
proof fn lemma_prefix_cancel(p: Seq<char>, a: Seq<char>, b: Seq<char>)
    requires
        p + a == p + b,
    ensures
        a == b,
{
    assert(a =~= (p + a).subrange(p.len() as int, (p + a).len() as int));
    assert(b =~= (p + b).subrange(p.len() as int, (p + b).len() as int));
}

/// The repeated-read law: an entity read on at least `repeated_read_min`
/// distinct lines yields exactly one repeated-read record; the record is
/// anchored at the first occurrence's line and attributes
/// `(reads - 1)` read-waste units.
pub proof fn lemma_repeated_read_detection(ops: Seq<OpV>, cm: CostModel, e: Seq<char>)
    requires
        cm.repeated_read_min >= 1,
        read_entities(ops).contains(e),
        entity_lines(ops, e).len() >= cm.repeated_read_min,
    ensures
        exists|i: int|
            0 <= i < repeated_pass_spec(ops, cm).len() && repeated_pass_spec(ops, cm)[i]
                == repeated_bug_of(ops, cm, e),
        forall|i: int, j: int|
            (0 <= i < repeated_pass_spec(ops, cm).len() && 0 <= j < repeated_pass_spec(
                ops,
                cm,
            ).len() && repeated_pass_spec(ops, cm)[i] == repeated_bug_of(ops, cm, e)
                && repeated_pass_spec(ops, cm)[j] == repeated_bug_of(ops, cm, e)) ==> i == j,
        repeated_bug_of(ops, cm, e).line == entity_lines(ops, e)[0],
        repeated_bug_of(ops, cm, e).overcharge_estimate == clamp_u64(
            (entity_lines(ops, e).len() - 1) * cm.repeated_read_waste,
        ),
{
    let ents = read_entities(ops);
    let qual = repeated_entities(ops, cm, ents);
    let bugs = repeated_pass_spec(ops, cm);
    lemma_read_entities_distinct(ops);
    lemma_repeated_entities_distinct(ops, cm, ents);
    lemma_repeated_entities_member(ops, cm, ents, e);
    let i = choose|i: int| 0 <= i < qual.len() && qual[i] == e;
    assert(bugs[i] == repeated_bug_of(ops, cm, e));
    assert forall|a: int, b: int|
        (0 <= a < bugs.len() && 0 <= b < bugs.len() && bugs[a] == repeated_bug_of(ops, cm, e)
            && bugs[b] == repeated_bug_of(ops, cm, e)) implies a == b by {
        assert(bugs[a] == repeated_bug_of(ops, cm, qual[a]));
        assert(bugs[b] == repeated_bug_of(ops, cm, qual[b]));
        assert("repeated_read: "@ + qual[a] == "repeated_read: "@ + e);
        lemma_prefix_cancel("repeated_read: "@, qual[a], e);
        assert("repeated_read: "@ + qual[b] == "repeated_read: "@ + e);
        lemma_prefix_cancel("repeated_read: "@, qual[b], e);
        assert(qual[a] == qual[b]);
    }
    assert(entity_lines(ops, e).len() >= 1);
}

/// Number of write operations over the high-cost threshold.
pub open spec fn flagged_write_count(ops: Seq<OpV>, cm: CostModel) -> int
    decreases ops.len(),
{
    if ops.len() == 0 {
        0
    } else {
        flagged_write_count(ops.drop_last(), cm) + if write_flagged(ops.last(), cm) {
            1int
        } else {
            0int
        }
    }
}

/// The redundant-read-in-write law: rule one emits exactly one suggestion
/// per write operation over the threshold, each with the fixed estimated
/// saving.
pub proof fn lemma_redundant_read_in_write(ops: Seq<OpV>, cm: CostModel)
    ensures
        split_opts_spec(ops, cm).len() == flagged_write_count(ops, cm),
        forall|i: int|
            0 <= i < split_opts_spec(ops, cm).len() ==> #[trigger] split_opts_spec(
                ops,
                cm,
            )[i].estimated_savings_ink == cm.write_split_saving,
    decreases ops.len(),
{
    if ops.len() > 0 {
        lemma_redundant_read_in_write(ops.drop_last(), cm);
        let res = split_opts_spec(ops, cm);
        let rest = split_opts_spec(ops.drop_last(), cm);
        assert forall|i: int|
            0 <= i < res.len() implies #[trigger] res[i].estimated_savings_ink
            == cm.write_split_saving by {
            if write_flagged(ops.last(), cm) {
                if i < rest.len() {
                    assert(res[i] == rest[i]);
                } else {
                    assert(res[i] == split_opt_of(ops.last(), cm));
                }
            } else {
                assert(res[i] == rest[i]);
            }
        }
    }
}

/// A write with an embedded read is always flagged by rule one: the
/// classifier costs it at double the write base, which the well-formed
/// calibration places above the high-cost threshold.
pub proof fn lemma_embedded_write_is_flagged(s: Seq<char>, line: usize, cm: CostModel)
    requires
        cm.wf(),
        crate::classify::is_embedded_read_write(s),
    ensures
        crate::classify::write_ops_spec(s, line, cm).len() == 3,
        write_flagged(crate::classify::write_ops_spec(s, line, cm)[0], cm),
{
    let w = crate::classify::write_ops_spec(s, line, cm);
    assert(w[0].ink == (2 * cm.storage_write_cost) as u64);
    assert(w[0].ink > cm.write_high_cost_threshold);
}

} // verus!
