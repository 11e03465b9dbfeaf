//! The instrumentor: a second, rewriting traversal of the syntax tree that
//! wraps every storage or otherwise expensive statement of an eligible
//! implementation block in measurement probes, and appends a self-contained
//! runtime tracking module to the rendered output.
//!
//! Each instrumented statement consumes one globally unique probe id (see
//! [`lemma_probe_ids_sequential`]).  The probes are guarded by the
//! instrumentation build flag; the unguarded copy of every original
//! statement passes through verbatim, so with the flag off the program's
//! behavior is unchanged.  Eligibility reuses the driver's shared
//! entry-point predicate.

use vstd::prelude::*;

use crate::driver::{count_selectors, eligible_impl, has_router_method, selector_count_spec};
use crate::model::{
    render_attrs_spec, render_expr, render_expr_spec, render_item_spec, render_stmt,
    render_stmt_spec, render_stmts_spec, Expr, Item, Method, SourceUnit, Stmt,
};
use crate::text::{contains_seq, contains_str, dec_str, u64_to_string};

verus! {

/// One instrumentation record: the probe's unique id and the classified
/// type of the wrapped operation.
#[derive(Debug, Clone)]
pub struct InstrumentedOperation {
    /// The probe's unique id, assigned sequentially from 0.
    pub probe_id: u32,
    /// The classified operation type, e.g. `storage_read`.
    pub operation_type: String,
    /// Line number; span information is not tracked, so always 0.
    pub line: usize,
}

/// Ghost view of an [`InstrumentedOperation`].
#[verifier::ext_equal]
pub ghost struct InstrumentedOperationV {
    pub probe_id: u32,
    pub operation_type: Seq<char>,
    pub line: usize,
}

impl DeepView for InstrumentedOperation {
    type V = InstrumentedOperationV;

    open spec fn deep_view(&self) -> InstrumentedOperationV {
        InstrumentedOperationV {
            probe_id: self.probe_id,
            operation_type: self.operation_type@,
            line: self.line,
        }
    }
}

/// A snippet that touches contract storage.
pub open spec fn is_storage_snippet(s: Seq<char>) -> bool {
    contains_seq(s, "self."@) && (contains_seq(s, ".get("@) || contains_seq(s, ".insert("@)
        || contains_seq(s, ".set("@) || !contains_seq(s, "("@))
}

/// A snippet holding an expensive host operation.
pub open spec fn is_expensive_snippet(s: Seq<char>) -> bool {
    ||| contains_seq(s, "msg::sender()"@)
    ||| contains_seq(s, "msg::value()"@)
    ||| contains_seq(s, "evm::log("@)
    ||| contains_seq(s, "block::"@)
    ||| contains_seq(s, ".call("@)
    ||| contains_seq(s, "Call::new"@)
    ||| contains_seq(s, "keccak256"@)
    ||| contains_seq(s, "sha256"@)
}

/// The probe type for a snippet, when one applies.
pub open spec fn classify_snippet_spec(s: Seq<char>) -> Option<Seq<char>> {
    if contains_seq(s, ".get("@) || contains_seq(s, ".at("@) {
        Some("storage_read"@)
    } else if contains_seq(s, ".insert("@) || contains_seq(s, ".set("@) {
        Some("storage_write"@)
    } else if contains_seq(s, "evm::log("@) {
        Some("event_emit"@)
    } else if contains_seq(s, "msg::sender()"@) {
        Some("msg_sender"@)
    } else if contains_seq(s, "msg::value()"@) {
        Some("msg_value"@)
    } else if contains_seq(s, "block::"@) {
        Some("block_info"@)
    } else {
        None
    }
}

/// The probe type of a statement: a `let` initializer or expression
/// statement whose snippet is a storage or expensive operation.
pub open spec fn stmt_probe_type(st: Stmt) -> Option<Seq<char>> {
    match st {
        Stmt::Local { init, .. } => match init {
            Some(e) => {
                let s = render_expr_spec(e);
                if is_storage_snippet(s) || is_expensive_snippet(s) {
                    classify_snippet_spec(s)
                } else {
                    None
                }
            },
            None => None,
        },
        Stmt::ExprStmt { expr, .. } => {
            let s = render_expr_spec(expr);
            if is_storage_snippet(s) || is_expensive_snippet(s) {
                classify_snippet_spec(s)
            } else {
                None
            }
        },
        _ => None,
    }
}

/// Whether an expression is a storage operation at statement granularity.
pub fn is_storage_operation(e: &Expr) -> (r: bool)
    ensures
        r == is_storage_snippet(render_expr_spec(*e)),
{
    let s = render_expr(e);
    contains_str(s.as_str(), "self.") && (contains_str(s.as_str(), ".get(") || contains_str(
        s.as_str(),
        ".insert(",
    ) || contains_str(s.as_str(), ".set(") || !contains_str(s.as_str(), "("))
}

/// Whether an expression holds an expensive host operation.
pub fn is_expensive_operation(e: &Expr) -> (r: bool)
    ensures
        r == is_expensive_snippet(render_expr_spec(*e)),
{
    let s = render_expr(e);
    contains_str(s.as_str(), "msg::sender()") || contains_str(s.as_str(), "msg::value()")
        || contains_str(s.as_str(), "evm::log(") || contains_str(s.as_str(), "block::")
        || contains_str(s.as_str(), ".call(") || contains_str(s.as_str(), "Call::new")
        || contains_str(s.as_str(), "keccak256") || contains_str(s.as_str(), "sha256")
}

/// The probe type of an expression, when one applies.
pub fn classify_operation(e: &Expr) -> (r: Option<&'static str>)
    ensures
        match r {
            Some(t) => classify_snippet_spec(render_expr_spec(*e)) == Some(t@),
            None => classify_snippet_spec(render_expr_spec(*e)) is None,
        },
{
    let s = render_expr(e);
    if contains_str(s.as_str(), ".get(") || contains_str(s.as_str(), ".at(") {
        Some("storage_read")
    } else if contains_str(s.as_str(), ".insert(") || contains_str(s.as_str(), ".set(") {
        Some("storage_write")
    } else if contains_str(s.as_str(), "evm::log(") {
        Some("event_emit")
    } else if contains_str(s.as_str(), "msg::sender()") {
        Some("msg_sender")
    } else if contains_str(s.as_str(), "msg::value()") {
        Some("msg_value")
    } else if contains_str(s.as_str(), "block::") {
        Some("block_info")
    } else {
        None
    }
}

/// One output line of a method body: indented statement text.
pub open spec fn body_line(t: Seq<char>) -> Seq<char> {
    "    "@ + t + "\n"@
}

/// The rendered probe block replacing one wrapped statement.  A storage
/// read is captured into a binding so its result size can be measured; any
/// other operation keeps the plain statement between the probes.  The
/// original statement always appears verbatim on the path taken when the
/// instrumentation flag is off.
pub open spec fn inject_block_text(st: Stmt, op_type: Seq<char>, id: u32) -> Seq<char> {
    let ids = dec_str(id as nat);
    let before = body_line(
        "#[cfg(feature = \"ink-profiling\")] let __ink_before = __ink_profiling::probe_before("@
            + ids + ");"@,
    );
    if contains_seq(op_type, "storage_read"@) {
        before + body_line(
            "#[cfg(feature = \"ink-profiling\")] let __result = { "@ + render_stmt_spec(st)
                + " };"@,
        ) + body_line("#[cfg(not(feature = \"ink-profiling\"))] "@ + render_stmt_spec(st))
            + body_line(
            "#[cfg(feature = \"ink-profiling\")] { let __size = core::mem::size_of_val(&__result); __ink_profiling::probe_after_with_size("@
                + ids + ", __ink_before, __size, Some(\""@ + op_type + "\")); __result }"@,
        )
    } else {
        before + body_line(render_stmt_spec(st)) + body_line(
            "#[cfg(feature = \"ink-profiling\")] __ink_profiling::probe_after("@ + ids
                + ", __ink_before, Some(\""@ + op_type + "\"));"@,
        )
    }
}

/// The record written for one wrapped statement.
pub open spec fn probe_record(op_type: Seq<char>, id: u32) -> InstrumentedOperationV {
    InstrumentedOperationV { probe_id: id, operation_type: op_type, line: 0 }
}

/// The instrumented text of a method body, with the records written and the
/// next free probe id.  A statement is wrapped when it has a probe type and
/// a fresh id is still available; everything else passes through verbatim.
pub open spec fn inst_stmts_spec(stmts: Seq<Stmt>, c: u32) -> (Seq<char>, Seq<
    InstrumentedOperationV,
>, u32)
    decreases stmts.len(),
{
    if stmts.len() == 0 {
        (Seq::empty(), Seq::empty(), c)
    } else {
        let (text, recs, c1) = inst_stmts_spec(stmts.drop_last(), c);
        let st = stmts.last();
        match stmt_probe_type(st) {
            Some(t) => if c1 < u32::MAX {
                (
                    text + inject_block_text(st, t, c1),
                    recs.push(probe_record(t, c1)),
                    (c1 + 1) as u32,
                )
            } else {
                (text + body_line(render_stmt_spec(st)), recs, c1)
            },
            None => (text + body_line(render_stmt_spec(st)), recs, c1),
        }
    }
}

/// The instrumented text of a method.
pub open spec fn inst_method_spec(m: Method, c: u32) -> (Seq<char>, Seq<InstrumentedOperationV>, u32
) {
    let (body, recs, c1) = inst_stmts_spec(m.body@, c);
    (crate::model::method_vis_spec(m) + m.signature@ + " {\n"@ + body + "}\n"@, recs, c1)
}

/// The instrumented text of a method sequence.
pub open spec fn inst_methods_spec(methods: Seq<Method>, c: u32) -> (Seq<char>, Seq<
    InstrumentedOperationV,
>, u32)
    decreases methods.len(),
{
    if methods.len() == 0 {
        (Seq::empty(), Seq::empty(), c)
    } else {
        let (text, recs, c1) = inst_methods_spec(methods.drop_last(), c);
        let (mt, mrecs, c2) = inst_method_spec(methods.last(), c1);
        (text + mt, recs + mrecs, c2)
    }
}

/// The instrumented text of the items: eligible implementation blocks get
/// instrumented bodies, everything else renders unchanged.  The dispatcher
/// state threads forward exactly as in the analyzer's discovery.
pub open spec fn inst_items_spec(items: Seq<Item>, c: u32, selectors: int, router: bool) -> (
    Seq<char>,
    Seq<InstrumentedOperationV>,
    u32,
    bool,
)
    decreases items.len(),
{
    if items.len() == 0 {
        (Seq::empty(), Seq::empty(), c, router)
    } else {
        let (text, recs, c1, r1) = inst_items_spec(items.drop_last(), c, selectors, router);
        match items.last() {
            Item::Impl(b) => if eligible_impl(b, selectors, r1) {
                let (bt, brecs, c2) = inst_methods_spec(b.methods@, c1);
                (
                    text + render_attrs_spec(b.attrs.deep_view()) + "impl "@
                        + crate::model::impl_header_spec(b) + " {\n"@ + bt + "}\n"@,
                    recs + brecs,
                    c2,
                    r1 || has_router_method(b),
                )
            } else {
                (
                    text + render_item_spec(items.last()),
                    recs,
                    c1,
                    r1 || has_router_method(b),
                )
            },
            _ => (text + render_item_spec(items.last()), recs, c1, r1),
        }
    }
}

/// The whole instrumented output of a unit: the rewritten items followed by
/// the generated runtime tracking module.
pub open spec fn instrument_spec(items: Seq<Item>, c: u32) -> (Seq<char>, Seq<
    InstrumentedOperationV,
>, u32) {
    let (text, recs, c1, r) = inst_items_spec(items, c, selector_count_spec(items), false);
    (text + runtime_module_spec(), recs, c1)
}

/// The probe-id law: the records written by one instrumentation run carry
/// strictly increasing, consecutive ids starting at the first free id.
pub proof fn lemma_probe_ids_sequential(stmts: Seq<Stmt>, c: u32)
    ensures
        forall|k: int|
            0 <= k < inst_stmts_spec(stmts, c).1.len() ==> #[trigger] inst_stmts_spec(
                stmts,
                c,
            ).1[k].probe_id == c + k,
        inst_stmts_spec(stmts, c).2 == c + inst_stmts_spec(stmts, c).1.len(),
    decreases stmts.len(),
{
    if stmts.len() > 0 {
        lemma_probe_ids_sequential(stmts.drop_last(), c);
        let (text, recs, c1) = inst_stmts_spec(stmts.drop_last(), c);
        let res = inst_stmts_spec(stmts, c);
        assert forall|k: int| 0 <= k < res.1.len() implies #[trigger] res.1[k].probe_id == c
            + k by {
            match stmt_probe_type(stmts.last()) {
                Some(t) => {
                    if c1 < u32::MAX {
                        if k < recs.len() {
                            assert(res.1[k] == recs[k]);
                        } else {
                            assert(res.1[k] == probe_record(t, c1));
                        }
                    } else {
                        assert(res.1[k] == recs[k]);
                    }
                },
                None => {
                    assert(res.1[k] == recs[k]);
                },
            }
        }
    }
}

/// The id law lifted to method sequences.
pub proof fn lemma_probe_ids_sequential_methods(methods: Seq<Method>, c: u32)
    ensures
        forall|k: int|
            0 <= k < inst_methods_spec(methods, c).1.len() ==> #[trigger] inst_methods_spec(
                methods,
                c,
            ).1[k].probe_id == c + k,
        inst_methods_spec(methods, c).2 == c + inst_methods_spec(methods, c).1.len(),
    decreases methods.len(),
{
    if methods.len() > 0 {
        lemma_probe_ids_sequential_methods(methods.drop_last(), c);
        let (text, recs, c1) = inst_methods_spec(methods.drop_last(), c);
        lemma_probe_ids_sequential(methods.last().body@, c1);
        let res = inst_methods_spec(methods, c);
        let mrecs = inst_method_spec(methods.last(), c1).1;
        assert forall|k: int| 0 <= k < res.1.len() implies #[trigger] res.1[k].probe_id == c
            + k by {
            if k < recs.len() {
                assert(res.1[k] == recs[k]);
            } else {
                assert(res.1[k] == mrecs[k - recs.len()]);
            }
        }
    }
}

/// The id law lifted to whole units: one run's records carry strictly
/// increasing, consecutive ids.
pub proof fn lemma_probe_ids_sequential_items(items: Seq<Item>, c: u32, selectors: int, router: bool)
    ensures
        forall|k: int|
            0 <= k < inst_items_spec(items, c, selectors, router).1.len()
                ==> #[trigger] inst_items_spec(items, c, selectors, router).1[k].probe_id == c + k,
        inst_items_spec(items, c, selectors, router).2 == c + inst_items_spec(
            items,
            c,
            selectors,
            router,
        ).1.len(),
    decreases items.len(),
{
    if items.len() > 0 {
        lemma_probe_ids_sequential_items(items.drop_last(), c, selectors, router);
        let (text, recs, c1, r1) = inst_items_spec(items.drop_last(), c, selectors, router);
        let res = inst_items_spec(items, c, selectors, router);
        match items.last() {
            Item::Impl(b) => {
                if eligible_impl(b, selectors, r1) {
                    lemma_probe_ids_sequential_methods(b.methods@, c1);
                    let brecs = inst_methods_spec(b.methods@, c1).1;
                    assert forall|k: int| 0 <= k < res.1.len() implies #[trigger] res.1[k].probe_id
                        == c + k by {
                        if k < recs.len() {
                            assert(res.1[k] == recs[k]);
                        } else {
                            assert(res.1[k] == brecs[k - recs.len()]);
                        }
                    }
                }
            },
            _ => {},
        }
    }
}

/// The generated runtime tracking module, as source text: a process-wide
/// tracker behind one mutual-exclusion lock, probe entry points, and the
/// runtime dry-nib checks applied to measured ink deltas.  Its thresholds
/// are tuned independently of the static detector's, since it observes
/// measured deltas rather than estimates.
pub open spec fn runtime_module_spec() -> Seq<char> {
    "\n#[cfg(feature = \"ink-profiling\")]\nmod __ink_profiling {\n"@
        + "    use std::collections::HashMap;\n    use std::sync::Mutex;\n"@
        + "    static INK_TRACKER: Mutex<Option<InkTracker>> = Mutex::new(None);\n"@
        + "    pub struct ProbeData { pub probe_id: u32, pub ink_before: u64, pub ink_after: u64, pub count: u64, pub return_data_size: Option<usize>, pub operation_type: Option<String> }\n"@
        + "    #[derive(Clone, Debug)]\n    pub struct DryNibBug { pub probe_id: u32, pub operation: String, pub ink_charged: u64, pub actual_return_size: usize, pub expected_overhead: u64, pub overcharge_amount: u64 }\n"@
        + "    pub struct InkTracker { probe_data: HashMap<u32, ProbeData>, dry_nib_detections: Vec<DryNibBug>, start_ink: u64 }\n"@
        + "    impl InkTracker {\n"@
        + "        pub fn init() { let mut t = INK_TRACKER.lock().unwrap(); *t = Some(InkTracker { probe_data: HashMap::new(), dry_nib_detections: Vec::new(), start_ink: Self::read_ink_counter() }); }\n"@
        + "        pub fn record_before(_id: u32) -> u64 { Self::read_ink_counter() }\n"@
        + "        pub fn record_after(probe_id: u32, ink_before: u64, operation_type: Option<&str>) { let ink_after = Self::read_ink_counter(); let used = ink_before.saturating_sub(ink_after); let mut t = INK_TRACKER.lock().unwrap(); if let Some(tr) = t.as_mut() { tr.note(probe_id, ink_before, ink_after, None, operation_type); if let Some(op) = operation_type { Self::check_dry_nib(&mut tr.dry_nib_detections, probe_id, op, used); } } }\n"@
        + "        pub fn record_after_with_size(probe_id: u32, ink_before: u64, size: usize, operation_type: Option<&str>) { let ink_after = Self::read_ink_counter(); let used = ink_before.saturating_sub(ink_after); let mut t = INK_TRACKER.lock().unwrap(); if let Some(tr) = t.as_mut() { tr.note(probe_id, ink_before, ink_after, Some(size), operation_type); if let Some(op) = operation_type { Self::check_dry_nib_with_size(&mut tr.dry_nib_detections, probe_id, op, used, size); } } }\n"@
        + "        fn note(&mut self, probe_id: u32, ink_before: u64, ink_after: u64, size: Option<usize>, operation_type: Option<&str>) { let e = self.probe_data.entry(probe_id).or_insert(ProbeData { probe_id, ink_before, ink_after, count: 0, return_data_size: None, operation_type: operation_type.map(|s| s.to_string()) }); e.ink_after = ink_after; e.count += 1; if size.is_some() { e.return_data_size = size; } }\n"@
        + "        fn check_dry_nib(detections: &mut Vec<DryNibBug>, probe_id: u32, operation: &str, ink_charged: u64) { let expected = if operation.contains(\"storage_read\") { 650_000 } else if operation.contains(\"storage_write\") { 900_000 } else if operation.contains(\"msg_sender\") { 80_000 } else { 50_000 }; let tolerance = 200_000; if ink_charged > expected + tolerance { detections.push(DryNibBug { probe_id, operation: operation.to_string(), ink_charged, actual_return_size: 0, expected_overhead: expected, overcharge_amount: ink_charged - expected }); } }\n"@
        + "        fn check_dry_nib_with_size(detections: &mut Vec<DryNibBug>, probe_id: u32, operation: &str, ink_charged: u64, actual_size: usize) { let base = if operation.contains(\"storage_read\") { 650_000 } else { 900_000 }; let expected = base + (actual_size as u64) * 30; let tolerance = 250_000u64.max(expected / 4); if ink_charged > expected + tolerance { detections.push(DryNibBug { probe_id, operation: operation.to_string(), ink_charged, actual_return_size: actual_size, expected_overhead: expected, overcharge_amount: ink_charged - expected }); } }\n"@
        + "        pub fn dump_report() -> String { let t = INK_TRACKER.lock().unwrap(); match t.as_ref() { Some(tr) => { let mut out = String::new(); for (id, d) in &tr.probe_data { out.push_str(&format!(\"probe {} ({:?}): {} ink\\n\", id, d.operation_type, d.ink_before.saturating_sub(d.ink_after))); } for bug in &tr.dry_nib_detections { out.push_str(&format!(\"dry nib at probe {}: {} charged {} expected {} over {}\\n\", bug.probe_id, bug.operation, bug.ink_charged, bug.expected_overhead, bug.overcharge_amount)); } out }, None => String::new() } }\n"@
        + "        #[cfg(target_arch = \"wasm32\")]\n        fn read_ink_counter() -> u64 { stylus_sdk::hostio::ink_left() }\n"@
        + "        #[cfg(not(target_arch = \"wasm32\"))]\n        fn read_ink_counter() -> u64 { use std::time::{SystemTime, UNIX_EPOCH}; SystemTime::now().duration_since(UNIX_EPOCH).unwrap().as_nanos() as u64 }\n"@
        + "    }\n"@
        + "    pub fn probe_before(id: u32) -> u64 { InkTracker::record_before(id) }\n"@
        + "    pub fn probe_after(id: u32, before: u64, operation_type: Option<&str>) { InkTracker::record_after(id, before, operation_type) }\n"@
        + "    pub fn probe_after_with_size(id: u32, before: u64, size: usize, operation_type: Option<&str>) { InkTracker::record_after_with_size(id, before, size, operation_type) }\n"@
        + "}\n"@
}

} // verus!

verus! {

/// Builds the generated runtime tracking module text.
fn runtime_module_text() -> (r: String)
    ensures
        r@ == runtime_module_spec(),
{
    let mut r = String::from_str("\n#[cfg(feature = \"ink-profiling\")]\nmod __ink_profiling {\n");
    r.append("    use std::collections::HashMap;\n    use std::sync::Mutex;\n");
    r.append("    static INK_TRACKER: Mutex<Option<InkTracker>> = Mutex::new(None);\n");
    r.append("    pub struct ProbeData { pub probe_id: u32, pub ink_before: u64, pub ink_after: u64, pub count: u64, pub return_data_size: Option<usize>, pub operation_type: Option<String> }\n");
    r.append("    #[derive(Clone, Debug)]\n    pub struct DryNibBug { pub probe_id: u32, pub operation: String, pub ink_charged: u64, pub actual_return_size: usize, pub expected_overhead: u64, pub overcharge_amount: u64 }\n");
    r.append("    pub struct InkTracker { probe_data: HashMap<u32, ProbeData>, dry_nib_detections: Vec<DryNibBug>, start_ink: u64 }\n");
    r.append("    impl InkTracker {\n");
    r.append("        pub fn init() { let mut t = INK_TRACKER.lock().unwrap(); *t = Some(InkTracker { probe_data: HashMap::new(), dry_nib_detections: Vec::new(), start_ink: Self::read_ink_counter() }); }\n");
    r.append("        pub fn record_before(_id: u32) -> u64 { Self::read_ink_counter() }\n");
    r.append("        pub fn record_after(probe_id: u32, ink_before: u64, operation_type: Option<&str>) { let ink_after = Self::read_ink_counter(); let used = ink_before.saturating_sub(ink_after); let mut t = INK_TRACKER.lock().unwrap(); if let Some(tr) = t.as_mut() { tr.note(probe_id, ink_before, ink_after, None, operation_type); if let Some(op) = operation_type { Self::check_dry_nib(&mut tr.dry_nib_detections, probe_id, op, used); } } }\n");
    r.append("        pub fn record_after_with_size(probe_id: u32, ink_before: u64, size: usize, operation_type: Option<&str>) { let ink_after = Self::read_ink_counter(); let used = ink_before.saturating_sub(ink_after); let mut t = INK_TRACKER.lock().unwrap(); if let Some(tr) = t.as_mut() { tr.note(probe_id, ink_before, ink_after, Some(size), operation_type); if let Some(op) = operation_type { Self::check_dry_nib_with_size(&mut tr.dry_nib_detections, probe_id, op, used, size); } } }\n");
    r.append("        fn note(&mut self, probe_id: u32, ink_before: u64, ink_after: u64, size: Option<usize>, operation_type: Option<&str>) { let e = self.probe_data.entry(probe_id).or_insert(ProbeData { probe_id, ink_before, ink_after, count: 0, return_data_size: None, operation_type: operation_type.map(|s| s.to_string()) }); e.ink_after = ink_after; e.count += 1; if size.is_some() { e.return_data_size = size; } }\n");
    r.append("        fn check_dry_nib(detections: &mut Vec<DryNibBug>, probe_id: u32, operation: &str, ink_charged: u64) { let expected = if operation.contains(\"storage_read\") { 650_000 } else if operation.contains(\"storage_write\") { 900_000 } else if operation.contains(\"msg_sender\") { 80_000 } else { 50_000 }; let tolerance = 200_000; if ink_charged > expected + tolerance { detections.push(DryNibBug { probe_id, operation: operation.to_string(), ink_charged, actual_return_size: 0, expected_overhead: expected, overcharge_amount: ink_charged - expected }); } }\n");
    r.append("        fn check_dry_nib_with_size(detections: &mut Vec<DryNibBug>, probe_id: u32, operation: &str, ink_charged: u64, actual_size: usize) { let base = if operation.contains(\"storage_read\") { 650_000 } else { 900_000 }; let expected = base + (actual_size as u64) * 30; let tolerance = 250_000u64.max(expected / 4); if ink_charged > expected + tolerance { detections.push(DryNibBug { probe_id, operation: operation.to_string(), ink_charged, actual_return_size: actual_size, expected_overhead: expected, overcharge_amount: ink_charged - expected }); } }\n");
    r.append("        pub fn dump_report() -> String { let t = INK_TRACKER.lock().unwrap(); match t.as_ref() { Some(tr) => { let mut out = String::new(); for (id, d) in &tr.probe_data { out.push_str(&format!(\"probe {} ({:?}): {} ink\\n\", id, d.operation_type, d.ink_before.saturating_sub(d.ink_after))); } for bug in &tr.dry_nib_detections { out.push_str(&format!(\"dry nib at probe {}: {} charged {} expected {} over {}\\n\", bug.probe_id, bug.operation, bug.ink_charged, bug.expected_overhead, bug.overcharge_amount)); } out }, None => String::new() } }\n");
    r.append("        #[cfg(target_arch = \"wasm32\")]\n        fn read_ink_counter() -> u64 { stylus_sdk::hostio::ink_left() }\n");
    r.append("        #[cfg(not(target_arch = \"wasm32\"))]\n        fn read_ink_counter() -> u64 { use std::time::{SystemTime, UNIX_EPOCH}; SystemTime::now().duration_since(UNIX_EPOCH).unwrap().as_nanos() as u64 }\n");
    r.append("    }\n");
    r.append("    pub fn probe_before(id: u32) -> u64 { InkTracker::record_before(id) }\n");
    r.append("    pub fn probe_after(id: u32, before: u64, operation_type: Option<&str>) { InkTracker::record_after(id, before, operation_type) }\n");
    r.append("    pub fn probe_after_with_size(id: u32, before: u64, size: usize, operation_type: Option<&str>) { InkTracker::record_after_with_size(id, before, size, operation_type) }\n");
    r.append("}\n");
    proof {
        assert(r@ =~= runtime_module_spec());
    }
    r
}

/// The instrumentor: assigns unique probe ids and records what it wraps.
#[derive(Debug)]
pub struct Instrumentor {
    /// The next free probe id.
    pub probe_counter: u32,
    /// The operations wrapped so far, in id order.
    pub instrumented_operations: Vec<InstrumentedOperation>,
}

impl Instrumentor {
    /// A fresh instrumentor with no probes assigned.
    pub fn new() -> (r: Instrumentor)
        ensures
            r.probe_counter == 0,
            r.instrumented_operations@.len() == 0,
    {
        Instrumentor { probe_counter: 0, instrumented_operations: Vec::new() }
    }

    /// The operations wrapped so far.
    pub fn get_instrumented_operations(&self) -> (r: &Vec<InstrumentedOperation>)
        ensures
            r == &self.instrumented_operations,
    {
        &self.instrumented_operations
    }

    /// Hands out the next unique probe id.
    pub fn next_probe_id(&mut self) -> (id: u32)
        requires
            old(self).probe_counter < u32::MAX,
        ensures
            id == old(self).probe_counter,
            final(self).probe_counter == old(self).probe_counter + 1,
            final(self).instrumented_operations == old(self).instrumented_operations,
    {
        let id = self.probe_counter;
        self.probe_counter = self.probe_counter + 1;
        id
    }

    /// Wraps one statement in probes: a guarded before-probe, the original
    /// statement (captured into a binding for storage reads, so the result
    /// size can be measured), and a guarded after-probe.  Consumes one
    /// probe id and records the operation.
    pub fn inject_probe(&mut self, stmt: &Stmt, operation_type: &str) -> (r: Vec<Stmt>)
        requires
            old(self).probe_counter < u32::MAX,
        ensures
            final(self).probe_counter == old(self).probe_counter + 1,
            final(self).instrumented_operations.deep_view() == old(
                self,
            ).instrumented_operations.deep_view().push(
                probe_record(operation_type@, old(self).probe_counter),
            ),
            render_stmts_spec(r@) == inject_block_text(*stmt, operation_type@,
                old(self).probe_counter),
            r@.len() == (if contains_seq(operation_type@, "storage_read"@) {
                4int
            } else {
                3int
            }),
    {
        let id = self.next_probe_id();
        self.instrumented_operations.push(
            InstrumentedOperation {
                probe_id: id,
                operation_type: String::from_str(operation_type),
                line: 0,
            },
        );
        proof {
            assert(final(self).instrumented_operations.deep_view() =~= old(
                self,
            ).instrumented_operations.deep_view().push(
                probe_record(operation_type@, old(self).probe_counter),
            ));
        }
        let ids = u64_to_string(id as u64);
        let mut before = String::from_str(
            "#[cfg(feature = \"ink-profiling\")] let __ink_before = __ink_profiling::probe_before(",
        );
        before.append(ids.as_str());
        before.append(");");
        let mut r: Vec<Stmt> = Vec::new();
        r.push(Stmt::Other { text: before });
        if contains_str(operation_type, "storage_read") {
            let st_text = render_stmt(stmt);
            let mut capture = String::from_str(
                "#[cfg(feature = \"ink-profiling\")] let __result = { ",
            );
            capture.append(st_text.as_str());
            capture.append(" };");
            r.push(Stmt::Other { text: capture });
            let mut plain = String::from_str("#[cfg(not(feature = \"ink-profiling\"))] ");
            plain.append(st_text.as_str());
            r.push(Stmt::Other { text: plain });
            let mut after = String::from_str(
                "#[cfg(feature = \"ink-profiling\")] { let __size = core::mem::size_of_val(&__result); __ink_profiling::probe_after_with_size(",
            );
            after.append(ids.as_str());
            after.append(", __ink_before, __size, Some(\"");
            after.append(operation_type);
            after.append("\")); __result }");
            r.push(Stmt::Other { text: after });
            proof {
                reveal_with_fuel(render_stmts_spec, 6);
                let whole = r@;
                let s3 = whole.drop_last();
                let s2 = s3.drop_last();
                let s1 = s2.drop_last();
                assert(s1.drop_last() =~= Seq::<Stmt>::empty());
                assert(s1.last() == whole[0] && s2.last() == whole[1] && s3.last() == whole[2]);
                assert(Seq::<char>::empty() + ("    "@ + render_stmt_spec(whole[0]) + "\n"@)
                    =~= "    "@ + render_stmt_spec(whole[0]) + "\n"@);
                assert(render_stmts_spec(whole) =~= inject_block_text(*stmt, operation_type@,
                    old(self).probe_counter));
            }
            r
        } else {
            r.push(stmt_copy(stmt));
            let mut after = String::from_str(
                "#[cfg(feature = \"ink-profiling\")] __ink_profiling::probe_after(",
            );
            after.append(ids.as_str());
            after.append(", __ink_before, Some(\"");
            after.append(operation_type);
            after.append("\"));");
            r.push(Stmt::Other { text: after });
            proof {
                reveal_with_fuel(render_stmts_spec, 5);
                let s = r@;
                assert(s.drop_last().drop_last().drop_last() =~= Seq::<Stmt>::empty());
                assert(render_stmts_spec(r@) =~= inject_block_text(*stmt, operation_type@,
                    old(self).probe_counter));
            }
            r
        }
    }
}

/// A statement with the same rendered text, carried as plain text so the
/// rewrite can own it.
fn stmt_copy(st: &Stmt) -> (r: Stmt)
    ensures
        render_stmt_spec(r) == render_stmt_spec(*st),
{
    let text = render_stmt(st);
    let r = Stmt::Other { text };
    r
}

} // verus!

verus! {

impl Instrumentor {
    /// Rewrites one method body: wraps each storage or expensive statement
    /// in probes, passes everything else through verbatim, and returns the
    /// rewritten body text.
    pub fn instrument_stmts(&mut self, stmts: &Vec<Stmt>) -> (r: String)
        ensures
            r@ == inst_stmts_spec(stmts@, old(self).probe_counter).0,
            final(self).instrumented_operations.deep_view() == old(
                self,
            ).instrumented_operations.deep_view() + inst_stmts_spec(
                stmts@,
                old(self).probe_counter,
            ).1,
            final(self).probe_counter == inst_stmts_spec(stmts@, old(self).probe_counter).2,
    {
        let ghost c0 = self.probe_counter;
        let ghost recs0 = self.instrumented_operations.deep_view();
        let mut out = String::new();
        let mut i: usize = 0;
        while i < stmts.len()
            invariant
                i <= stmts@.len(),
                out@ == inst_stmts_spec(stmts@.subrange(0, i as int), c0).0,
                self.instrumented_operations.deep_view() =~= recs0 + inst_stmts_spec(
                    stmts@.subrange(0, i as int),
                    c0,
                ).1,
                self.probe_counter == inst_stmts_spec(stmts@.subrange(0, i as int), c0).2,
            decreases stmts@.len() - i,
        {
            let st = &stmts[i];
            let probe_type: Option<&'static str> = match st {
                Stmt::Local { init, .. } => match init {
                    Some(e) => {
                        if is_storage_operation(e) || is_expensive_operation(e) {
                            classify_operation(e)
                        } else {
                            None
                        }
                    },
                    None => None,
                },
                Stmt::ExprStmt { expr, .. } => {
                    if is_storage_operation(expr) || is_expensive_operation(expr) {
                        classify_operation(expr)
                    } else {
                        None
                    }
                },
                _ => None,
            };
            proof {
                match probe_type {
                    Some(t) => {
                        assert(stmt_probe_type(stmts@[i as int]) == Some(t@));
                    },
                    None => {
                        assert(stmt_probe_type(stmts@[i as int]) is None);
                    },
                }
            }
            match probe_type {
                Some(t) => {
                    if self.probe_counter < u32::MAX {
                        let probes = self.inject_probe(st, t);
                        let block = crate::model::render_stmts(&probes);
                        out.append(block.as_str());
                    } else {
                        out.append("    ");
                        let line = render_stmt(st);
                        out.append(line.as_str());
                        out.append("\n");
                    }
                },
                None => {
                    out.append("    ");
                    let line = render_stmt(st);
                    out.append(line.as_str());
                    out.append("\n");
                },
            }
            i = i + 1;
            proof {
                assert(stmts@.subrange(0, i as int).drop_last() =~= stmts@.subrange(0, i - 1));
                assert(stmts@.subrange(0, i as int).last() == stmts@[i - 1]);
                assert(out@ =~= inst_stmts_spec(stmts@.subrange(0, i as int), c0).0);
                assert(self.instrumented_operations.deep_view() =~= recs0 + inst_stmts_spec(
                    stmts@.subrange(0, i as int),
                    c0,
                ).1);
            }
        }
        proof {
            assert(stmts@.subrange(0, stmts@.len() as int) =~= stmts@);
        }
        out
    }

    /// Rewrites the methods of one eligible block.
    pub fn instrument_methods(&mut self, methods: &Vec<Method>) -> (r: String)
        ensures
            r@ == inst_methods_spec(methods@, old(self).probe_counter).0,
            final(self).instrumented_operations.deep_view() == old(
                self,
            ).instrumented_operations.deep_view() + inst_methods_spec(
                methods@,
                old(self).probe_counter,
            ).1,
            final(self).probe_counter == inst_methods_spec(methods@, old(self).probe_counter).2,
    {
        let ghost c0 = self.probe_counter;
        let ghost recs0 = self.instrumented_operations.deep_view();
        let mut out = String::new();
        let mut i: usize = 0;
        while i < methods.len()
            invariant
                i <= methods@.len(),
                out@ == inst_methods_spec(methods@.subrange(0, i as int), c0).0,
                self.instrumented_operations.deep_view() =~= recs0 + inst_methods_spec(
                    methods@.subrange(0, i as int),
                    c0,
                ).1,
                self.probe_counter == inst_methods_spec(methods@.subrange(0, i as int), c0).2,
            decreases methods@.len() - i,
        {
            let m = &methods[i];
            if m.is_public {
                out.append("pub ");
            }
            out.append(m.signature.as_str());
            out.append(" {\n");
            let body = self.instrument_stmts(&m.body);
            out.append(body.as_str());
            out.append("}\n");
            i = i + 1;
            proof {
                assert(methods@.subrange(0, i as int).drop_last() =~= methods@.subrange(
                    0,
                    i - 1,
                ));
                assert(methods@.subrange(0, i as int).last() == methods@[i - 1]);
                assert(out@ =~= inst_methods_spec(methods@.subrange(0, i as int), c0).0);
                assert(self.instrumented_operations.deep_view() =~= recs0 + inst_methods_spec(
                    methods@.subrange(0, i as int),
                    c0,
                ).1);
            }
        }
        proof {
            assert(methods@.subrange(0, methods@.len() as int) =~= methods@);
        }
        out
    }

    /// Instruments a whole source unit: eligible implementation blocks get
    /// probe-wrapped bodies, everything else renders unchanged, and the
    /// generated runtime tracking module follows the rewritten source.
    pub fn instrument(&mut self, unit: &SourceUnit) -> (r: String)
        ensures
            r@ == instrument_spec(unit.items@, old(self).probe_counter).0,
            final(self).instrumented_operations.deep_view() == old(
                self,
            ).instrumented_operations.deep_view() + instrument_spec(
                unit.items@,
                old(self).probe_counter,
            ).1,
            final(self).probe_counter == instrument_spec(unit.items@, old(self).probe_counter).2,
    {
        let ghost c0 = self.probe_counter;
        let ghost recs0 = self.instrumented_operations.deep_view();
        let selectors = count_selectors(unit);
        let mut out = String::new();
        let mut router_seen = false;
        let mut i: usize = 0;
        while i < unit.items.len()
            invariant
                selectors == selector_count_spec(unit.items@),
                i <= unit.items@.len(),
                out@ == inst_items_spec(unit.items@.subrange(0, i as int), c0,
                    selectors as int, false).0,
                self.instrumented_operations.deep_view() =~= recs0 + inst_items_spec(
                    unit.items@.subrange(0, i as int),
                    c0,
                    selectors as int,
                    false,
                ).1,
                self.probe_counter == inst_items_spec(unit.items@.subrange(0, i as int), c0,
                    selectors as int, false).2,
                router_seen == inst_items_spec(unit.items@.subrange(0, i as int), c0,
                    selectors as int, false).3,
            decreases unit.items@.len() - i,
        {
            match &unit.items[i] {
                Item::Impl(b) => {
                    let eligible = crate::driver::check_entry_attr(b)
                        || crate::driver::check_abi_method(b) || selectors >= 2 || router_seen
                        || crate::driver::check_override_attr(b)
                        || crate::driver::check_router_method(b);
                    if eligible {
                        let mut j: usize = 0;
                        while j < b.attrs.len()
                            invariant
                                j <= b.attrs@.len(),
                                out@ == inst_items_spec(unit.items@.subrange(0, i as int), c0,
                                    selectors as int, false).0 + render_attrs_spec(
                                    b.attrs.deep_view().subrange(0, j as int),
                                ),
                            decreases b.attrs@.len() - j,
                        {
                            out.append("#[");
                            out.append(b.attrs[j].as_str());
                            out.append("]\n");
                            j = j + 1;
                            proof {
                                assert(b.attrs.deep_view().subrange(0, j as int).drop_last()
                                    =~= b.attrs.deep_view().subrange(0, j - 1));
                                assert(b.attrs.deep_view().subrange(0, j as int).last()
                                    == b.attrs.deep_view()[j - 1]);
                                assert(out@ =~= inst_items_spec(
                                    unit.items@.subrange(0, i as int),
                                    c0,
                                    selectors as int,
                                    false,
                                ).0 + render_attrs_spec(
                                    b.attrs.deep_view().subrange(0, j as int),
                                ));
                            }
                        }
                        proof {
                            assert(b.attrs.deep_view().subrange(0, b.attrs.deep_view().len() as int)
                                =~= b.attrs.deep_view());
                        }
                        out.append("impl ");
                        match &b.trait_path {
                            Some(t) => {
                                out.append(t.as_str());
                                out.append(" for ");
                                out.append(b.self_type.as_str());
                            },
                            None => {
                                out.append(b.self_type.as_str());
                            },
                        }
                        out.append(" {\n");
                        let body = self.instrument_methods(&b.methods);
                        out.append(body.as_str());
                        out.append("}\n");
                    } else {
                        let t = crate::model::render_item(&unit.items[i]);
                        out.append(t.as_str());
                    }
                    if crate::driver::check_router_method(b) {
                        router_seen = true;
                    }
                },
                _ => {
                    let t = crate::model::render_item(&unit.items[i]);
                    out.append(t.as_str());
                },
            }
            i = i + 1;
            proof {
                assert(unit.items@.subrange(0, i as int).drop_last() =~= unit.items@.subrange(
                    0,
                    i - 1,
                ));
                assert(unit.items@.subrange(0, i as int).last() == unit.items@[i - 1]);
                assert(out@ =~= inst_items_spec(unit.items@.subrange(0, i as int), c0,
                    selectors as int, false).0);
                assert(self.instrumented_operations.deep_view() =~= recs0 + inst_items_spec(
                    unit.items@.subrange(0, i as int),
                    c0,
                    selectors as int,
                    false,
                ).1);
            }
        }
        proof {
            assert(unit.items@.subrange(0, unit.items@.len() as int) =~= unit.items@);
        }
        let runtime = runtime_module_text();
        out.append(runtime.as_str());
        out
    }

    /// Renders a unit unchanged and appends the generated runtime tracking
    /// module: the rewritten output's final form.
    pub fn generate_instrumented_code(&self, unit: &SourceUnit) -> (r: String)
        ensures
            r@ == crate::model::render_unit_spec(unit.items@) + runtime_module_spec(),
    {
        let mut out = crate::model::render_unit(&unit.items);
        let runtime = runtime_module_text();
        out.append(runtime.as_str());
        out
    }
}

impl Default for Instrumentor {
    /// A fresh instrumentor, as [`Instrumentor::new`] builds it.
    fn default() -> (r: Instrumentor)
        ensures
            r.probe_counter == 0,
            r.instrumented_operations@.len() == 0,
    {
        Instrumentor::new()
    }
}

} // verus!

verus! {

/// The rewrite keeps the original: every probe block holds the wrapped
/// statement's text verbatim, on the path taken when the instrumentation
/// flag is off, so disabling the flag leaves the program's statements
/// unchanged.
pub proof fn lemma_original_statement_preserved(st: Stmt, op_type: Seq<char>, id: u32)
    ensures
        crate::text::contains_seq(inject_block_text(st, op_type, id), render_stmt_spec(st)),
{
    let rst = render_stmt_spec(st);
    let ids = dec_str(id as nat);
    crate::text::lemma_contains_self(rst);
    if contains_seq(op_type, "storage_read"@) {
        // The statement sits in the guarded-off copy.
        let inner = "#[cfg(not(feature = \"ink-profiling\"))] "@ + rst;
        crate::text::lemma_contains_in_concat("#[cfg(not(feature = \"ink-profiling\"))] "@, rst,
            rst);
        crate::text::lemma_contains_in_concat("    "@, inner, rst);
        crate::text::lemma_contains_in_concat("\n"@, "    "@ + inner, rst);
        assert(body_line(inner) == "    "@ + inner + "\n"@);
        let before = body_line(
            "#[cfg(feature = \"ink-profiling\")] let __ink_before = __ink_profiling::probe_before("@
                + ids + ");"@,
        );
        let capture = body_line(
            "#[cfg(feature = \"ink-profiling\")] let __result = { "@ + rst + " };"@,
        );
        let tail = body_line(
            "#[cfg(feature = \"ink-profiling\")] { let __size = core::mem::size_of_val(&__result); __ink_profiling::probe_after_with_size("@
                + ids + ", __ink_before, __size, Some(\""@ + op_type + "\")); __result }"@,
        );
        assert(contains_seq("    "@ + inner + "\n"@, rst));
        crate::text::lemma_contains_in_concat(before + capture, body_line(inner), rst);
        crate::text::lemma_contains_in_concat(tail, before + capture + body_line(inner), rst);
        assert(inject_block_text(st, op_type, id) == before + capture + body_line(inner) + tail);
    } else {
        let before = body_line(
            "#[cfg(feature = \"ink-profiling\")] let __ink_before = __ink_profiling::probe_before("@
                + ids + ");"@,
        );
        let tail = body_line(
            "#[cfg(feature = \"ink-profiling\")] __ink_profiling::probe_after("@ + ids
                + ", __ink_before, Some(\""@ + op_type + "\"));"@,
        );
        crate::text::lemma_contains_in_concat("    "@, rst, rst);
        crate::text::lemma_contains_in_concat("\n"@, "    "@ + rst, rst);
        assert(contains_seq("    "@ + rst + "\n"@, rst));
        crate::text::lemma_contains_in_concat(before, body_line(rst), rst);
        crate::text::lemma_contains_in_concat(tail, before + body_line(rst), rst);
        assert(inject_block_text(st, op_type, id) == before + body_line(rst) + tail);
    }
}

} // verus!
