//! End-to-end behavior of the analyzer: entity extraction, classification,
//! percentage normalization, hotspot ranking, detectors, entry-point
//! discovery and the hard no-entry-points failure.

use inkwell::analyze::analyze_function;
use inkwell::cost::{estimate_ink_cost, CostModel};
use inkwell::classify::classify_expr;
use inkwell::detect::{detect_dry_nib_bugs, detect_optimizations, repeated_pass};
use inkwell::driver::analyze_contract;
use inkwell::entity::{extract_storage_variable, is_reserved_word};
use inkwell::expand::{clean_expanded_source, needs_macro_expansion};
use inkwell::lines::{extract_contract_name, find_exact_line, find_function_lines, lookup_fn_line};
use inkwell::model::{Expr, ImplBlock, Item, Method, SourceUnit, Stmt};
use inkwell::reporter::Reporter;
use inkwell::text::{split_lines, u64_to_string};
use inkwell::types::{AnalysisError, Operation};

fn seg_path(segments: &[&str]) -> Expr {
    Expr::Path {
        segments: segments.iter().map(|s| s.to_string()).collect(),
    }
}

fn storage_field(name: &str) -> Expr {
    Expr::Field {
        base: Box::new(seg_path(&["self"])),
        name: name.to_string(),
    }
}

fn call_method(receiver: Expr, method: &str, args: Vec<Expr>) -> Expr {
    Expr::MethodCall {
        receiver: Box::new(receiver),
        method: method.to_string(),
        args,
    }
}

fn read_op(line: usize, entity: &str) -> Operation {
    Operation {
        line,
        column: 0,
        code: format!("self.{}.get(key)", entity),
        operation: "map::get".to_string(),
        entity: entity.to_string(),
        ink: 1_200_000,
        percentage: 0,
        category: "storage_read".to_string(),
        severity: "high".to_string(),
    }
}

#[test]
fn test_entity_extraction_resolves_field() {
    assert_eq!(extract_storage_variable("self.balances.get(key)"), "balances");
    assert_eq!(extract_storage_variable("self . balances . get ( key )"), "balances");
    assert_eq!(extract_storage_variable("x + y"), "unknown");
    assert_eq!(extract_storage_variable("self.total_supply"), "unknown");
}

#[test]
fn test_entity_extraction_rejects_reserved_words() {
    // The first self-rooted match captures only a blocklisted token.
    assert_eq!(extract_storage_variable("self.get.balances"), "unknown");
    assert_eq!(extract_storage_variable("self.insert.field"), "unknown");
    assert!(is_reserved_word("mut"));
    assert!(is_reserved_word("insert"));
    assert!(!is_reserved_word("balances"));
}

#[test]
fn test_classifier_lookup_read_triple() {
    let cm = CostModel::new();
    let e = call_method(storage_field("balances"), "get", vec![seg_path(&["key"])]);
    let ops = classify_expr(&e, 7, &cm);

    // The node's triple, then the visited receiver's direct read.
    assert_eq!(ops.len(), 4);
    assert_eq!(ops[0].operation, "map::get");
    assert_eq!(ops[1].operation, "storage::load");
    assert_eq!(ops[2].operation, "storage_field_access");
    for op in &ops[..3] {
        assert_eq!(op.entity, "balances");
    }
    assert_eq!(ops[3].operation, "storage::load");
    assert_eq!(ops[3].code, "self.balances");
    assert_eq!(ops[3].entity, "unknown");
    for op in &ops {
        assert_eq!(op.category, "storage_read");
        assert_eq!(op.ink, 1_200_000);
        assert_eq!(op.line, 7);
    }
}

#[test]
fn test_classifier_getter_lookup() {
    let cm = CostModel::new();
    let e = call_method(storage_field("balances"), "getter", vec![seg_path(&["key"])]);
    let ops = classify_expr(&e, 1, &cm);

    assert_eq!(ops.len(), 4);
    assert_eq!(ops[0].operation, "map::get");
    assert_eq!(ops[0].entity, "balances");
    assert_eq!(ops[0].category, "storage_read");
    assert_eq!(ops[0].ink, 1_200_000);
}

#[test]
fn test_classifier_nested_read_and_upsert() {
    let cm = CostModel::new();
    // self.allowances.get(owner).insert(spender, amount)
    let inner = call_method(storage_field("allowances"), "get", vec![seg_path(&["owner"])]);
    let e = call_method(inner, "insert", vec![seg_path(&["spender"]), seg_path(&["amount"])]);
    let ops = classify_expr(&e, 3, &cm);

    // The write is an upsert at double the write base.
    let upsert: Vec<&Operation> = ops.iter().filter(|o| o.operation == "map::upsert").collect();
    assert_eq!(upsert.len(), 1);
    assert_eq!(upsert[0].ink, 3_000_000);
    assert_eq!(upsert[0].category, "storage_write");
    assert_eq!(upsert[0].entity, "allowances");
}

#[test]
fn test_classifier_host_calls() {
    let cm = CostModel::new();
    let sender = Expr::Call {
        callee: Box::new(seg_path(&["msg", "sender"])),
        args: vec![],
    };
    let ops = classify_expr(&sender, 1, &cm);
    assert_eq!(ops.len(), 1);
    assert_eq!(ops[0].operation, "msg::sender()");
    assert_eq!(ops[0].category, "evm_context");
    assert_eq!(ops[0].ink, 200_000);

    let hash = Expr::Call {
        callee: Box::new(seg_path(&["keccak256"])),
        args: vec![seg_path(&["data"])],
    };
    let ops = classify_expr(&hash, 1, &cm);
    // The call itself and its visited callee both match the literal.
    assert_eq!(ops.len(), 2);
    for op in &ops {
        assert_eq!(op.category, "crypto");
        assert_eq!(op.ink, 500_000);
    }
}

fn transfer_body() -> Vec<Stmt> {
    vec![
        Stmt::Local {
            pat: "balance".to_string(),
            init: Some(call_method(storage_field("balances"), "get", vec![seg_path(&["key"])])),
        },
        Stmt::ExprStmt {
            expr: call_method(
                storage_field("counters"),
                "insert",
                vec![seg_path(&["key"]), seg_path(&["value"])],
            ),
            semi: true,
        },
    ]
}

#[test]
fn test_percentages_sum_to_whole() {
    let cm = CostModel::new();
    let lines: Vec<String> = Vec::new();
    let fa = analyze_function("transfer", "fn transfer()", &transfer_body(), 1, &lines, &cm);

    // 5 reads at 1.2M plus 1 write at 1.5M: 7.5M of operation ink.
    assert_eq!(fa.operations.len(), 6);
    let sum: u64 = fa.operations.iter().map(|o| o.percentage).sum();
    let n = fa.operations.len() as u64;
    assert!(sum <= 10_000);
    assert!(sum > 10_000 - n);
    assert_eq!(fa.operations[0].percentage, 1600);
    assert_eq!(fa.operations[4].percentage, 2000);
}

#[test]
fn test_total_ink_is_operation_sum() {
    let cm = CostModel::new();
    let lines: Vec<String> = Vec::new();
    let fa = analyze_function("transfer", "fn transfer()", &transfer_body(), 1, &lines, &cm);

    // The reported total is exactly the operations' ink sum.
    let sum: u64 = fa.operations.iter().map(|o| o.ink).sum();
    assert_eq!(fa.total_ink, sum);
    assert_eq!(fa.total_ink, 7_500_000);
    assert_eq!(fa.gas_equivalent, 750);
}

#[test]
fn test_hotspot_ranks_contiguous_and_sorted() {
    let cm = CostModel::new();
    let lines: Vec<String> = Vec::new();
    let fa = analyze_function("transfer", "fn transfer()", &transfer_body(), 1, &lines, &cm);

    assert_eq!(fa.hotspots.len(), 6);
    for (i, h) in fa.hotspots.iter().enumerate() {
        assert_eq!(h.rank, i + 1);
    }
    assert_eq!(fa.hotspots[0].ink, 1_500_000);
    assert_eq!(fa.hotspots[0].operation, "map::insert");
    // Equal-ink hotspots keep their encounter order.
    assert_eq!(fa.hotspots[1].operation, "map::get");
    assert_eq!(fa.hotspots[2].operation, "storage::load");
    assert_eq!(fa.hotspots[3].operation, "storage_field_access");
}

#[test]
fn test_category_stats_grouping() {
    let cm = CostModel::new();
    let lines: Vec<String> = Vec::new();
    let fa = analyze_function("transfer", "fn transfer()", &transfer_body(), 1, &lines, &cm);

    assert_eq!(fa.categories.len(), 2);
    assert_eq!(fa.categories[0].0, "storage_read");
    assert_eq!(fa.categories[0].1.count, 5);
    assert_eq!(fa.categories[0].1.total_ink, 6_000_000);
    assert_eq!(fa.categories[0].1.avg_per_op, 1_200_000);
    assert_eq!(fa.categories[0].1.percentage, 8_000);
    assert_eq!(fa.categories[1].0, "storage_write");
    assert_eq!(fa.categories[1].1.count, 1);
    assert_eq!(fa.categories[1].1.total_ink, 1_500_000);
    assert_eq!(fa.categories[1].1.percentage, 2_000);
}

#[test]
fn test_repeated_read_yields_one_bug() {
    let cm = CostModel::new();
    // The same entity read on three distinct lines.
    let ops = vec![read_op(2, "balances"), read_op(5, "balances"), read_op(9, "balances")];
    let bugs = repeated_pass(&ops, &cm);

    assert_eq!(bugs.len(), 1);
    assert_eq!(bugs[0].line, 2);
    assert_eq!(bugs[0].overcharge_estimate, 2 * 1_200_000);
    assert_eq!(bugs[0].severity, "high");
    assert_eq!(bugs[0].operation, "repeated_read: balances");
}

#[test]
fn test_dry_nib_findings_sorted_by_line() {
    let cm = CostModel::new();
    // Two reads of different entities, given out of line order.
    let ops = vec![read_op(9, "supply"), read_op(2, "balances")];
    let bugs = detect_dry_nib_bugs(&ops, &cm);

    assert_eq!(bugs.len(), 2);
    assert_eq!(bugs[0].line, 2);
    assert_eq!(bugs[1].line, 9);
}

#[test]
fn test_two_reads_do_not_trigger_repeated_bug() {
    let cm = CostModel::new();
    let ops = vec![read_op(2, "balances"), read_op(5, "balances")];
    let bugs = repeated_pass(&ops, &cm);
    assert_eq!(bugs.len(), 0);
}

#[test]
fn test_embedded_write_yields_split_optimization() {
    let cm = CostModel::new();
    let inner = call_method(storage_field("allowances"), "get", vec![seg_path(&["owner"])]);
    let e = call_method(inner, "insert", vec![seg_path(&["spender"]), seg_path(&["amount"])]);
    let ops = classify_expr(&e, 3, &cm);
    let opts = detect_optimizations(&ops, &cm);

    let splits: Vec<_> = opts.iter().filter(|o| o.id == "split_read_write").collect();
    assert_eq!(splits.len(), 1);
    assert_eq!(splits[0].estimated_savings_ink, 1_500_000);
    assert_eq!(splits[0].confidence, "high");
}

#[test]
fn test_caching_suggested_for_multi_line_reads() {
    let cm = CostModel::new();
    let ops = vec![read_op(2, "balances"), read_op(5, "balances")];
    let opts = detect_optimizations(&ops, &cm);

    let caches: Vec<_> = opts.iter().filter(|o| o.id == "cache_balances").collect();
    assert_eq!(caches.len(), 1);
    assert_eq!(caches[0].line, 2);
    assert_eq!(caches[0].estimated_savings_ink, 13_200_000);
    assert_eq!(caches[0].confidence, "high");
    assert!(caches[0].suggested_code.contains("let cached_balances = self.balances.get(...);"));
}

#[test]
fn test_overcharge_pass_models_padded_buffer() {
    let cm = CostModel::new();
    let ops = vec![read_op(4, "balances")];
    let bugs = detect_dry_nib_bugs(&ops, &cm);

    assert!(bugs.len() >= 1);
    assert_eq!(bugs[0].line, 4);
    assert_eq!(bugs[0].actual_return_size, 32);
    assert_eq!(bugs[0].buffer_allocated, 64);
    assert_eq!(bugs[0].ink_charged_estimate, 2_400_000);
    assert_eq!(bugs[0].expected_fair_cost, 1_200_000);
    assert_eq!(bugs[0].overcharge_estimate, 1_200_000);
    assert_eq!(bugs[0].severity, "medium");
}

fn entry_unit(methods: Vec<Method>) -> SourceUnit {
    SourceUnit {
        items: vec![Item::Impl(ImplBlock {
            trait_path: None,
            self_type: "Token".to_string(),
            attrs: vec!["external".to_string()],
            methods,
        })],
    }
}

fn public_method(name: &str, body: Vec<Stmt>) -> Method {
    Method {
        name: name.to_string(),
        signature: format!("fn {}(&mut self)", name),
        is_public: true,
        has_self_receiver: true,
        body,
    }
}

#[test]
fn test_lifecycle_names_never_reported() {
    let cm = CostModel::new();
    let unit = entry_unit(vec![
        public_method("new", vec![]),
        public_method("entrypoint", vec![]),
        public_method("transfer", transfer_body()),
    ]);
    let result = analyze_contract(&unit, "pub struct Token {\n}\n", None, "src/lib.rs", &cm);

    let analysis = result.expect("entry points should be found");
    assert_eq!(analysis.functions.len(), 1);
    assert_eq!(analysis.functions[0].name, "transfer");
    assert_eq!(analysis.contract_name, "Token");
}

#[test]
fn test_no_entry_points_is_hard_failure() {
    let cm = CostModel::new();
    // Only a private helper: nothing qualifies.
    let unit = SourceUnit {
        items: vec![Item::Impl(ImplBlock {
            trait_path: None,
            self_type: "Helper".to_string(),
            attrs: vec![],
            methods: vec![Method {
                name: "internal_only".to_string(),
                signature: "fn internal_only(&self)".to_string(),
                is_public: false,
                has_self_receiver: true,
                body: vec![],
            }],
        })],
    };
    let result = analyze_contract(&unit, "fn internal_only() {}\n", None, "src/lib.rs", &cm);

    match result {
        Ok(_) => panic!("analysis must fail without entry points"),
        Err(AnalysisError::NoEntryPoints { file, selectors_found }) => {
            assert_eq!(file, "src/lib.rs");
            assert_eq!(selectors_found, 0);
        }
    }
}

#[test]
fn test_selector_constants_reported_in_failure() {
    let cm = CostModel::new();
    let unit = SourceUnit {
        items: vec![
            Item::Const { name: "SELECTOR_TRANSFER".to_string() },
            Item::Const { name: "APPROVE_SELECTOR".to_string() },
        ],
    };
    let result = analyze_contract(&unit, "", None, "src/lib.rs", &cm);

    match result {
        Ok(_) => panic!("no functions exist"),
        Err(AnalysisError::NoEntryPoints { selectors_found, .. }) => {
            assert_eq!(selectors_found, 2);
        }
    }
}

#[test]
fn test_target_function_filter() {
    let cm = CostModel::new();
    let unit = entry_unit(vec![
        public_method("transfer", transfer_body()),
        public_method("approve", vec![]),
    ]);
    let target = "approve".to_string();
    let result = analyze_contract(&unit, "", Some(&target), "src/lib.rs", &cm);

    let analysis = result.expect("the targeted function exists");
    assert_eq!(analysis.functions.len(), 1);
    assert_eq!(analysis.functions[0].name, "approve");
}

#[test]
fn test_cost_model_estimates() {
    let cm = CostModel::new();
    assert_eq!(estimate_ink_cost(&cm, "map::get", "storage_read"), 1_200_000);
    assert_eq!(estimate_ink_cost(&cm, "map::insert", "storage_write"), 1_500_000);
    assert_eq!(estimate_ink_cost(&cm, "map::upsert", "storage_write"), 3_000_000);
    assert_eq!(estimate_ink_cost(&cm, "msg::sender()", "evm_context"), 200_000);
    assert_eq!(estimate_ink_cost(&cm, "msg::value()", "evm_context"), 250_000);
    assert_eq!(estimate_ink_cost(&cm, "block::query", "evm_context"), 300_000);
    assert_eq!(estimate_ink_cost(&cm, "other", "evm_context"), 350_000);
    assert_eq!(estimate_ink_cost(&cm, "event", "event"), 350_000);
    assert_eq!(estimate_ink_cost(&cm, "external_call", "external_call"), 2_500_000);
    assert_eq!(estimate_ink_cost(&cm, "crypto", "crypto"), 500_000);
    assert_eq!(estimate_ink_cost(&cm, "x", "assignment"), 80_000);
    assert_eq!(estimate_ink_cost(&cm, "x", "something_else"), 50_000);
    // Host context queries are ordered identity < value < block < default.
    assert!(cm.ctx_identity_cost < cm.ctx_value_cost);
    assert!(cm.ctx_value_cost < cm.ctx_block_cost);
    assert!(cm.ctx_block_cost < cm.ctx_default_cost);
}

#[test]
fn test_find_function_lines_scan() {
    let source = "fn foo() {\n}\npub fn bar(a: u32) {\n}\n";
    let entries = find_function_lines(source);

    assert_eq!(entries.len(), 2);
    assert_eq!(entries[0], ("foo".to_string(), 1));
    assert_eq!(entries[1], ("bar".to_string(), 3));
    assert_eq!(lookup_fn_line(&entries, "bar"), Some(3));
    assert_eq!(lookup_fn_line(&entries, "baz"), None);
}

#[test]
fn test_extract_contract_name_scan() {
    assert_eq!(extract_contract_name("pub struct Token {\n    x: u32,\n}"), "Token");
    assert_eq!(extract_contract_name("fn main() {}"), "Unknown");
}

#[test]
fn test_find_exact_line_window() {
    let lines = split_lines("fn t() {\n    let x = self.balances.get(k);\n}\n");
    assert_eq!(find_exact_line(&lines, "self.balances.get(k)", 1), 2);
    assert_eq!(find_exact_line(&lines, "nothing like this", 1), 1);
}

#[test]
fn test_decimal_rendering() {
    assert_eq!(u64_to_string(0), "0");
    assert_eq!(u64_to_string(7), "7");
    assert_eq!(u64_to_string(12345), "12345");
    assert_eq!(u64_to_string(1_200_000), "1200000");
}

#[test]
fn test_macro_expansion_detection() {
    assert!(needs_macro_expansion("sol_storage! { pub struct T {} }"));
    assert!(needs_macro_expansion("#[entrypoint]\nfn f() {}"));
    assert!(!needs_macro_expansion("fn plain() {}"));
}

#[test]
fn test_clean_expanded_source_drops_noise() {
    let cleaned = clean_expanded_source("a\n\n// comment\nb\n");
    assert_eq!(cleaned, "a\nb");
}

#[test]
fn test_reporter_configuration() {
    let r = Reporter::new("detailed", 100_000, true);
    assert_eq!(r.output_format, "detailed");
    assert!(r.use_color);
}

#[test]
fn test_single_operation_takes_whole_share() {
    let cm = CostModel::new();
    let lines: Vec<String> = Vec::new();
    let body = vec![Stmt::ExprStmt {
        expr: Expr::Call {
            callee: Box::new(seg_path(&["msg", "sender"])),
            args: vec![],
        },
        semi: true,
    }];
    let fa = analyze_function("who", "fn who()", &body, 1, &lines, &cm);

    assert_eq!(fa.operations.len(), 1);
    assert_eq!(fa.operations[0].percentage, 10_000);
    assert_eq!(fa.total_ink, 200_000);
    assert_eq!(fa.gas_equivalent, 20);
    assert_eq!(fa.hotspots.len(), 0);
}

#[test]
fn test_find_exact_line_entity_fallback() {
    let lines = split_lines("fn f() {\n    let q = 1;\n    self.balances.set(other);\n}\n");
    // The snippet differs textually, but the entity scan finds the line
    // holding the field beside a storage call.
    assert_eq!(find_exact_line(&lines, "self.balances.set(amount)", 1), 3);
}
