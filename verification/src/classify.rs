//! The expression classifier: a pure recursive pass over an expression tree
//! that emits an ordered sequence of [`Operation`] records, depth-first and
//! left-to-right.
//!
//! Each visited node is judged by its canonical snippet text (reads, writes,
//! host-context queries, events, external calls, hashing); recursion then
//! covers call targets and arguments, both operands of binary expressions,
//! index bases and indices, and field bases.  A method-call receiver is
//! visited unless it is itself a method call, whose outer call covers it;
//! this avoids double counting chained receivers.  Any other overlap between
//! a node's snippet and its children's is tolerated: the detection is
//! syntactic, and its false positives are communicated through severity
//! labels, not certainty claims.

use vstd::prelude::*;

use crate::cost::CostModel;
use crate::entity::{extract_entity_spec, extract_storage_variable};
use crate::model::{render_expr, render_expr_spec, Expr};
use crate::text::{contains_seq, contains_str, count_matches, count_str, starts_with_seq,
    starts_with_str, str_eq};
use crate::types::{OpV, Operation};

verus! {

/// Number of lookup calls (`get` or `getter`) in a snippet.
pub open spec fn lookup_calls(s: Seq<char>) -> nat {
    count_matches(s, ".get("@) + count_matches(s, ".getter("@)
}

/// A self-rooted snippet with at least one lookup call and a resolvable
/// entity: a storage read through `get` or `getter`.
pub open spec fn is_lookup_read(s: Seq<char>) -> bool {
    &&& contains_seq(s, "self."@)
    &&& lookup_calls(s) >= 1
    &&& extract_entity_spec(s) != "unknown"@
}

/// Two or more lookup calls in one snippet: a nested access.
pub open spec fn is_nested_read(s: Seq<char>) -> bool {
    lookup_calls(s) >= 2
}

/// A bare self-rooted access chain with no call: a direct storage read.
pub open spec fn is_direct_read(s: Seq<char>) -> bool {
    &&& starts_with_seq(s, "self."@)
    &&& !contains_seq(s, "("@)
    &&& !contains_seq(s, " "@)
}

/// A self-rooted snippet with a mutating call: a storage write.
pub open spec fn is_storage_write_snippet(s: Seq<char>) -> bool {
    &&& contains_seq(s, "self."@)
    &&& (contains_seq(s, ".insert("@) || contains_seq(s, ".set("@))
}

/// A write whose snippet also holds a lookup call; costed at double the
/// write base and classified `map::upsert`.
pub open spec fn is_embedded_read_write(s: Seq<char>) -> bool {
    is_storage_write_snippet(s) && lookup_calls(s) >= 1
}

/// An operation record before the percentage fill-in.
pub open spec fn op_v(
    line: usize,
    code: Seq<char>,
    operation: Seq<char>,
    entity: Seq<char>,
    ink: u64,
    category: Seq<char>,
    severity: Seq<char>,
) -> OpV {
    OpV { line, column: 0, code, operation, entity, ink, percentage: 0, category, severity }
}

/// The storage-read operations a snippet yields: a lookup read emits the
/// lookup itself, the underlying load, and the field access; a direct read
/// emits a single load.
pub open spec fn read_ops_spec(s: Seq<char>, line: usize, cm: CostModel) -> Seq<OpV> {
    if is_lookup_read(s) {
        let entity = extract_entity_spec(s);
        let name = if is_nested_read(s) {
            "nested_map_get"@
        } else {
            "map::get"@
        };
        seq![
            op_v(line, s, name, entity, cm.storage_read_cost, "storage_read"@, "high"@),
            op_v(line, s, "storage::load"@, entity, cm.storage_read_cost, "storage_read"@, "high"@),
            op_v(
                line,
                "self."@ + entity,
                "storage_field_access"@,
                entity,
                cm.storage_read_cost,
                "storage_read"@,
                "high"@,
            ),
        ]
    } else if is_direct_read(s) {
        seq![
            op_v(
                line,
                s,
                "storage::load"@,
                extract_entity_spec(s),
                cm.storage_read_cost,
                "storage_read"@,
                "high"@,
            ),
        ]
    } else {
        Seq::empty()
    }
}

/// The storage-write operations a snippet yields; an embedded read adds the
/// read's load and field access beside the doubled-cost upsert.
pub open spec fn write_ops_spec(s: Seq<char>, line: usize, cm: CostModel) -> Seq<OpV> {
    if is_storage_write_snippet(s) {
        let entity = extract_entity_spec(s);
        if is_embedded_read_write(s) {
            seq![
                op_v(
                    line,
                    s,
                    "map::upsert"@,
                    entity,
                    (2 * cm.storage_write_cost) as u64,
                    "storage_write"@,
                    "high"@,
                ),
                op_v(
                    line,
                    s,
                    "storage::load"@,
                    entity,
                    cm.storage_read_cost,
                    "storage_read"@,
                    "high"@,
                ),
                op_v(
                    line,
                    "self."@ + entity,
                    "storage_field_access"@,
                    entity,
                    cm.storage_read_cost,
                    "storage_read"@,
                    "high"@,
                ),
            ]
        } else {
            seq![
                op_v(
                    line,
                    s,
                    "map::insert"@,
                    entity,
                    cm.storage_write_cost,
                    "storage_write"@,
                    "high"@,
                ),
            ]
        }
    } else {
        Seq::empty()
    }
}

/// The host-context, event, external-call and hashing operations a snippet
/// yields, by literal call-name matching.
pub open spec fn call_ops_spec(s: Seq<char>, line: usize, cm: CostModel) -> Seq<OpV> {
    let entity = extract_entity_spec(s);
    (if contains_seq(s, "msg::sender()"@) {
        seq![op_v(line, s, "msg::sender()"@, entity, cm.ctx_identity_cost, "evm_context"@, "low"@)]
    } else {
        Seq::empty()
    }) + (if contains_seq(s, "msg::value()"@) {
        seq![op_v(line, s, "msg::value()"@, entity, cm.ctx_value_cost, "evm_context"@, "low"@)]
    } else {
        Seq::empty()
    }) + (if contains_seq(s, "block::"@) {
        seq![op_v(line, s, "block::query"@, entity, cm.ctx_block_cost, "evm_context"@, "low"@)]
    } else {
        Seq::empty()
    }) + (if contains_seq(s, "evm::log("@) {
        seq![op_v(line, s, "event"@, entity, cm.event_cost, "event"@, "medium"@)]
    } else {
        Seq::empty()
    }) + (if contains_seq(s, ".call("@) || contains_seq(s, "Call::new"@) {
        seq![
            op_v(line, s, "external_call"@, entity, cm.external_call_cost, "external_call"@,
            "high"@),
        ]
    } else {
        Seq::empty()
    }) + (if contains_seq(s, "keccak256"@) || contains_seq(s, "sha256"@) {
        seq![op_v(line, s, "crypto"@, entity, cm.crypto_cost, "crypto"@, "medium"@)]
    } else {
        Seq::empty()
    })
}

/// Everything one visited node contributes, before recursion.
pub open spec fn node_ops_spec(s: Seq<char>, line: usize, cm: CostModel) -> Seq<OpV> {
    read_ops_spec(s, line, cm) + write_ops_spec(s, line, cm) + call_ops_spec(s, line, cm)
}

/// Some segment of a path mentions a storage-like identifier.
pub open spec fn path_has_storage_segment(segs: Seq<Seq<char>>) -> bool {
    exists|i: int| 0 <= i < segs.len() && segment_is_storage_like(segs[i])
}

/// Whether a compound-assignment target resolves to storage: some path
/// segment or field name mentions a storage-like identifier.
pub open spec fn chain_has_storage_segment(e: Expr) -> bool
    decreases e,
{
    match e {
        Expr::Path { segments } => path_has_storage_segment(segments.deep_view()),
        Expr::Field { base, name } => segment_is_storage_like(name@) || chain_has_storage_segment(
            *base,
        ),
        Expr::Index { base, .. } => chain_has_storage_segment(*base),
        _ => false,
    }
}

/// A storage-like identifier.
pub open spec fn segment_is_storage_like(name: Seq<char>) -> bool {
    ||| contains_seq(name, "storage"@)
    ||| contains_seq(name, "balances"@)
    ||| contains_seq(name, "map"@)
    ||| contains_seq(name, "vec"@)
}

/// A compound assignment operator.
pub open spec fn is_compound_assign(op: Seq<char>) -> bool {
    op == "+="@ || op == "-="@
}

/// The full classification of one expression: this node's contribution
/// followed by the children's, depth-first and left-to-right.
pub open spec fn classify_expr_spec(e: Expr, line: usize, cm: CostModel) -> Seq<OpV>
    decreases e, 1int,
{
    node_ops_spec(render_expr_spec(e), line, cm) + child_ops_spec(e, line, cm)
}

/// The children's contribution, per the recursion rules of the module
/// documentation.
pub open spec fn child_ops_spec(e: Expr, line: usize, cm: CostModel) -> Seq<OpV>
    decreases e, 0int,
{
    match e {
        Expr::MethodCall { receiver, args, .. } => (if (*receiver) matches Expr::MethodCall {
            ..
        } {
            Seq::empty()
        } else {
            classify_expr_spec(*receiver, line, cm)
        }) + classify_args_spec(args@, 0, line, cm),
        Expr::Call { callee, args } => classify_expr_spec(*callee, line, cm) + classify_args_spec(
            args@,
            0,
            line,
            cm,
        ),
        Expr::Binary { op, left, right } => classify_expr_spec(*left, line, cm)
            + classify_expr_spec(*right, line, cm) + (if is_compound_assign(op@)
            && chain_has_storage_segment(*left) {
            seq![
                op_v(
                    line,
                    render_expr_spec(e),
                    "storage::store"@,
                    extract_entity_spec(render_expr_spec(e)),
                    cm.storage_write_cost,
                    "storage_write"@,
                    "high"@,
                ),
            ]
        } else {
            Seq::empty()
        }),
        Expr::Field { base, .. } => classify_expr_spec(*base, line, cm),
        Expr::Index { base, index } => classify_expr_spec(*base, line, cm) + classify_expr_spec(
            *index,
            line,
            cm,
        ),
        _ => Seq::empty(),
    }
}

/// The classification of the argument list `args[i..]`.
pub open spec fn classify_args_spec(args: Seq<Expr>, i: int, line: usize, cm: CostModel) -> Seq<
    OpV,
>
    decreases args, args.len() - i,
{
    if i < 0 || i >= args.len() {
        Seq::empty()
    } else {
        classify_expr_spec(args[i], line, cm) + classify_args_spec(args, i + 1, line, cm)
    }
}

/// Builds one operation record.
pub(crate) fn build_plain_op(
    line: usize,
    code: String,
    operation: &str,
    entity: String,
    ink: u64,
    category: &str,
    severity: &str,
) -> (r: Operation)
    ensures
        r.deep_view() == op_v(line, code@, operation@, entity@, ink, category@, severity@),
{
    mk_op(line, code, operation, entity, ink, category, severity)
}

/// Builds one operation record.
fn mk_op(
    line: usize,
    code: String,
    operation: &str,
    entity: String,
    ink: u64,
    category: &str,
    severity: &str,
) -> (r: Operation)
    ensures
        r.deep_view() == op_v(line, code@, operation@, entity@, ink, category@, severity@),
{
    Operation {
        line,
        column: 0,
        code,
        operation: String::from_str(operation),
        entity,
        ink,
        percentage: 0,
        category: String::from_str(category),
        severity: String::from_str(severity),
    }
}

/// The storage-read part of one snippet's classification.
#[verifier::rlimit(80)]
fn read_ops_exec(s: &str, line: usize, cm: &CostModel) -> (r: Vec<Operation>)
    requires
        cm.wf(),
    ensures
        r.deep_view() == read_ops_spec(s@, line, *cm),
{
    let entity = extract_storage_variable(s);
    let mentions_self = contains_str(s, "self.");
    let getc = count_str(s, ".get(");
    let getterc = count_str(s, ".getter(");
    let has_lookup = getc >= 1 || getterc >= 1;
    let nested = getc >= 2 || getterc >= 2 || (getc >= 1 && getterc >= 1);
    let mut ops: Vec<Operation> = Vec::new();
    if mentions_self && has_lookup && !str_eq(entity.as_str(), "unknown") {
        let name: &str = if nested {
            "nested_map_get"
        } else {
            "map::get"
        };
        ops.push(mk_op(line, String::from_str(s), name, entity.clone(), cm.storage_read_cost,
            "storage_read", "high"));
        ops.push(mk_op(line, String::from_str(s), "storage::load", entity.clone(),
            cm.storage_read_cost, "storage_read", "high"));
        let mut field_code = String::from_str("self.");
        field_code.append(entity.as_str());
        ops.push(mk_op(line, field_code, "storage_field_access", entity.clone(),
            cm.storage_read_cost, "storage_read", "high"));
    } else if starts_with_str(s, "self.") && !contains_str(s, "(") && !contains_str(s, " ") {
        ops.push(mk_op(line, String::from_str(s), "storage::load", entity.clone(),
            cm.storage_read_cost, "storage_read", "high"));
    }
    proof {
        assert(ops.deep_view() =~= read_ops_spec(s@, line, *cm));
    }
    ops
}

/// The storage-write part of one snippet's classification.
#[verifier::rlimit(80)]
fn write_ops_exec(s: &str, line: usize, cm: &CostModel) -> (r: Vec<Operation>)
    requires
        cm.wf(),
    ensures
        r.deep_view() == write_ops_spec(s@, line, *cm),
{
    let entity = extract_storage_variable(s);
    let mentions_self = contains_str(s, "self.");
    let getc = count_str(s, ".get(");
    let getterc = count_str(s, ".getter(");
    let has_lookup = getc >= 1 || getterc >= 1;
    let mut ops: Vec<Operation> = Vec::new();
    if mentions_self && (contains_str(s, ".insert(") || contains_str(s, ".set(")) {
        if has_lookup {
            ops.push(mk_op(line, String::from_str(s), "map::upsert", entity.clone(),
                2 * cm.storage_write_cost, "storage_write", "high"));
            ops.push(mk_op(line, String::from_str(s), "storage::load", entity.clone(),
                cm.storage_read_cost, "storage_read", "high"));
            let mut field_code = String::from_str("self.");
            field_code.append(entity.as_str());
            ops.push(mk_op(line, field_code, "storage_field_access", entity.clone(),
                cm.storage_read_cost, "storage_read", "high"));
        } else {
            ops.push(mk_op(line, String::from_str(s), "map::insert", entity.clone(),
                cm.storage_write_cost, "storage_write", "high"));
        }
    }
    proof {
        assert(ops.deep_view() =~= write_ops_spec(s@, line, *cm));
    }
    ops
}

/// The host-context, event, external-call and hashing part of one snippet's
/// classification.
#[verifier::rlimit(100)]
#[verifier::spinoff_prover]
fn call_ops_exec(s: &str, line: usize, cm: &CostModel) -> (r: Vec<Operation>)
    requires
        cm.wf(),
    ensures
        r.deep_view() == call_ops_spec(s@, line, *cm),
{
    let entity = extract_storage_variable(s);
    let mut calls: Vec<Operation> = Vec::new();
    let ghost mut g_call = Seq::<OpV>::empty();
    if contains_str(s, "msg::sender()") {
        calls.push(mk_op(line, String::from_str(s), "msg::sender()", entity.clone(),
            cm.ctx_identity_cost, "evm_context", "low"));
    }
    proof {
        g_call = g_call + (if contains_seq(s@, "msg::sender()"@) {
            seq![op_v(line, s@, "msg::sender()"@, entity@, cm.ctx_identity_cost, "evm_context"@,
                "low"@)]
        } else {
            Seq::empty()
        });
        assert(calls.deep_view() =~= g_call);
    }
    if contains_str(s, "msg::value()") {
        calls.push(mk_op(line, String::from_str(s), "msg::value()", entity.clone(),
            cm.ctx_value_cost, "evm_context", "low"));
    }
    proof {
        g_call = g_call + (if contains_seq(s@, "msg::value()"@) {
            seq![op_v(line, s@, "msg::value()"@, entity@, cm.ctx_value_cost, "evm_context"@,
                "low"@)]
        } else {
            Seq::empty()
        });
        assert(calls.deep_view() =~= g_call);
    }
    if contains_str(s, "block::") {
        calls.push(mk_op(line, String::from_str(s), "block::query", entity.clone(),
            cm.ctx_block_cost, "evm_context", "low"));
    }
    proof {
        g_call = g_call + (if contains_seq(s@, "block::"@) {
            seq![op_v(line, s@, "block::query"@, entity@, cm.ctx_block_cost, "evm_context"@,
                "low"@)]
        } else {
            Seq::empty()
        });
        assert(calls.deep_view() =~= g_call);
    }
    if contains_str(s, "evm::log(") {
        calls.push(mk_op(line, String::from_str(s), "event", entity.clone(), cm.event_cost,
            "event", "medium"));
    }
    proof {
        g_call = g_call + (if contains_seq(s@, "evm::log("@) {
            seq![op_v(line, s@, "event"@, entity@, cm.event_cost, "event"@, "medium"@)]
        } else {
            Seq::empty()
        });
        assert(calls.deep_view() =~= g_call);
    }
    if contains_str(s, ".call(") || contains_str(s, "Call::new") {
        calls.push(mk_op(line, String::from_str(s), "external_call", entity.clone(),
            cm.external_call_cost, "external_call", "high"));
    }
    proof {
        g_call = g_call + (if contains_seq(s@, ".call("@) || contains_seq(s@, "Call::new"@) {
            seq![op_v(line, s@, "external_call"@, entity@, cm.external_call_cost,
                "external_call"@, "high"@)]
        } else {
            Seq::empty()
        });
        assert(calls.deep_view() =~= g_call);
    }
    if contains_str(s, "keccak256") || contains_str(s, "sha256") {
        calls.push(mk_op(line, String::from_str(s), "crypto", entity.clone(), cm.crypto_cost,
            "crypto", "medium"));
    }
    proof {
        g_call = g_call + (if contains_seq(s@, "keccak256"@) || contains_seq(s@, "sha256"@) {
            seq![op_v(line, s@, "crypto"@, entity@, cm.crypto_cost, "crypto"@, "medium"@)]
        } else {
            Seq::empty()
        });
        assert(calls.deep_view() =~= g_call);
        assert(g_call =~= call_ops_spec(s@, line, *cm));
    }
    calls
}

/// Classifies one snippet, without recursion.
#[verifier::rlimit(80)]
fn node_ops(s: &str, line: usize, cm: &CostModel) -> (r: Vec<Operation>)
    requires
        cm.wf(),
    ensures
        r.deep_view() == node_ops_spec(s@, line, *cm),
{
    let mut ops = read_ops_exec(s, line, cm);
    let mut w = write_ops_exec(s, line, cm);
    let mut c = call_ops_exec(s, line, cm);
    ops.append(&mut w);
    ops.append(&mut c);
    proof {
        assert(ops.deep_view() =~= node_ops_spec(s@, line, *cm));
    }
    ops
}

/// Executable mirror of [`chain_has_storage_segment`].
#[verifier::loop_isolation(false)]
fn chain_has_storage_segment_exec(e: &Expr) -> (b: bool)
    ensures
        b == chain_has_storage_segment(*e),
    decreases *e,
{
    match e {
        Expr::Path { segments } => {
            let ghost segs = segments.deep_view();
            let mut i: usize = 0;
            while i < segments.len()
                invariant
                    segs == segments.deep_view(),
                    i <= segments@.len(),
                    segs.len() == segments@.len(),
                    forall|j: int| 0 <= j < i ==> !segment_is_storage_like(segs[j]),
                decreases segments@.len() - i,
            {
                let seg = &segments[i];
                if contains_str(seg.as_str(), "storage") || contains_str(seg.as_str(), "balances")
                    || contains_str(seg.as_str(), "map") || contains_str(seg.as_str(), "vec") {
                    proof {
                        assert(segment_is_storage_like(segs[i as int]));
                        assert(path_has_storage_segment(segs));
                    }
                    return true;
                }
                i = i + 1;
            }
            proof {
                assert(!path_has_storage_segment(segs));
            }
            false
        },
        Expr::Field { base, name } => {
            if contains_str(name.as_str(), "storage") || contains_str(name.as_str(), "balances")
                || contains_str(name.as_str(), "map") || contains_str(name.as_str(), "vec") {
                true
            } else {
                chain_has_storage_segment_exec(base)
            }
        },
        Expr::Index { base, .. } => chain_has_storage_segment_exec(base),
        _ => false,
    }
}

/// Classifies one expression tree into its ordered operation sequence.
#[verifier::rlimit(80)]
pub fn classify_expr(e: &Expr, line: usize, cm: &CostModel) -> (r: Vec<Operation>)
    requires
        cm.wf(),
    ensures
        r.deep_view() == classify_expr_spec(*e, line, *cm),
    decreases *e, 1int,
{
    let snippet = render_expr(e);
    let mut ops = node_ops(snippet.as_str(), line, cm);
    let mut children = child_ops(e, line, cm);
    ops.append(&mut children);
    proof {
        assert(ops.deep_view() =~= classify_expr_spec(*e, line, *cm));
    }
    ops
}

/// Classifies the children of one node.
#[verifier::rlimit(80)]
fn child_ops(e: &Expr, line: usize, cm: &CostModel) -> (r: Vec<Operation>)
    requires
        cm.wf(),
    ensures
        r.deep_view() == child_ops_spec(*e, line, *cm),
    decreases *e, 0int,
{
    match e {
        Expr::MethodCall { receiver, args, .. } => {
            let mut ops: Vec<Operation> = if matches!(**receiver, Expr::MethodCall { .. }) {
                Vec::new()
            } else {
                classify_expr(receiver, line, cm)
            };
            let mut rest = classify_args(args, 0, line, cm);
            ops.append(&mut rest);
            proof {
                assert(ops.deep_view() =~= child_ops_spec(*e, line, *cm));
            }
            ops
        },
        Expr::Call { callee, args } => {
            let mut ops = classify_expr(callee, line, cm);
            let mut rest = classify_args(args, 0, line, cm);
            ops.append(&mut rest);
            proof {
                assert(ops.deep_view() =~= child_ops_spec(*e, line, *cm));
            }
            ops
        },
        Expr::Binary { op, left, right } => {
            let mut ops = classify_expr(left, line, cm);
            let mut rest = classify_expr(right, line, cm);
            ops.append(&mut rest);
            let compound = str_eq(op.as_str(), "+=") || str_eq(op.as_str(), "-=");
            if compound && chain_has_storage_segment_exec(left) {
                let code = render_expr(e);
                let entity = extract_storage_variable(code.as_str());
                ops.push(mk_op(line, code, "storage::store", entity, cm.storage_write_cost,
                    "storage_write", "high"));
            }
            proof {
                assert(ops.deep_view() =~= child_ops_spec(*e, line, *cm));
            }
            ops
        },
        Expr::Field { base, .. } => {
            let ops = classify_expr(base, line, cm);
            proof {
                assert(ops.deep_view() =~= child_ops_spec(*e, line, *cm));
            }
            ops
        },
        Expr::Index { base, index } => {
            let mut ops = classify_expr(base, line, cm);
            let mut rest = classify_expr(index, line, cm);
            ops.append(&mut rest);
            proof {
                assert(ops.deep_view() =~= child_ops_spec(*e, line, *cm));
            }
            ops
        },
        _ => Vec::new(),
    }
}

/// Classifies the argument list from `i` on.
#[verifier::rlimit(80)]
fn classify_args(args: &Vec<Expr>, i: usize, line: usize, cm: &CostModel) -> (r: Vec<Operation>)
    requires
        cm.wf(),
    ensures
        r.deep_view() == classify_args_spec(args@, i as int, line, *cm),
    decreases args@, args@.len() - i,
{
    if i >= args.len() {
        Vec::new()
    } else {
        let mut ops = classify_expr(&args[i], line, cm);
        let mut rest = classify_args(args, i + 1, line, cm);
        ops.append(&mut rest);
        proof {
            assert(ops.deep_view() =~= classify_args_spec(args@, i as int, line, *cm));
        }
        ops
    }
}

} // verus!
