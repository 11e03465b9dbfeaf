//! Instrumentor behavior: probe id assignment, eligibility, injected
//! statement shape, and the generated runtime module.

use inkwell::instrument::Instrumentor;
use inkwell::model::{Expr, ImplBlock, Item, Method, SourceUnit, Stmt};

fn path(segments: &[&str]) -> Expr {
    Expr::Path {
        segments: segments.iter().map(|s| s.to_string()).collect(),
    }
}

fn self_field(name: &str) -> Expr {
    Expr::Field {
        base: Box::new(path(&["self"])),
        name: name.to_string(),
    }
}

fn method_call(receiver: Expr, method: &str, args: Vec<Expr>) -> Expr {
    Expr::MethodCall {
        receiver: Box::new(receiver),
        method: method.to_string(),
        args,
    }
}

fn msg_sender() -> Expr {
    Expr::Call {
        callee: Box::new(path(&["msg", "sender"])),
        args: vec![],
    }
}

fn lit(text: &str) -> Expr {
    Expr::Lit {
        text: text.to_string(),
    }
}

fn simple_method(name: &str, is_public: bool, body: Vec<Stmt>) -> Method {
    Method {
        name: name.to_string(),
        signature: format!("fn {}(&mut self)", name),
        is_public,
        has_self_receiver: true,
        body,
    }
}

fn external_impl(contract: &str, methods: Vec<Method>) -> SourceUnit {
    SourceUnit {
        items: vec![Item::Impl(ImplBlock {
            trait_path: None,
            self_type: contract.to_string(),
            attrs: vec!["external".to_string()],
            methods,
        })],
    }
}

#[test]
fn test_instrumented_operations_tracking() {
    let mut instrumentor = Instrumentor::new();

    // #[external] impl Contract, with one storage read and one storage write.
    let read = Stmt::Local {
        pat: "balance".to_string(),
        init: Some(method_call(self_field("balances"), "get", vec![msg_sender()])),
    };
    let write = Stmt::ExprStmt {
        expr: method_call(
            self_field("balances"),
            "insert",
            vec![
                msg_sender(),
                Expr::Binary {
                    op: "-".to_string(),
                    left: Box::new(path(&["balance"])),
                    right: Box::new(lit("100")),
                },
            ],
        ),
        semi: true,
    };
    let unit = external_impl("Contract", vec![simple_method("transfer", true, vec![read, write])]);

    let _ = instrumentor.instrument(&unit);
    let ops = instrumentor.get_instrumented_operations();

    assert!(ops.len() >= 2); // At least storage read and write
    assert!(ops.iter().any(|op| op.operation_type == "storage_read"));
    assert!(ops.iter().any(|op| op.operation_type == "storage_write"));
}

#[test]
fn test_non_external_not_instrumented() {
    let mut instrumentor = Instrumentor::new();

    // impl Helper, with a private helper only: nothing is eligible.
    let body = vec![Stmt::Local {
        pat: "value".to_string(),
        init: Some(path(&["some_value"])),
    }];
    let unit = SourceUnit {
        items: vec![Item::Impl(ImplBlock {
            trait_path: None,
            self_type: "Helper".to_string(),
            attrs: vec![],
            methods: vec![Method {
                name: "internal_fn".to_string(),
                signature: "fn internal_fn(&self)".to_string(),
                is_public: false,
                has_self_receiver: true,
                body,
            }],
        })],
    };

    let _ = instrumentor.instrument(&unit);

    // Should not instrument internal functions
    let ops = instrumentor.get_instrumented_operations();
    assert_eq!(ops.len(), 0);
}

#[test]
fn test_probe_id_generation() {
    let mut instrumentor = Instrumentor::new();

    assert_eq!(instrumentor.next_probe_id(), 0);
    assert_eq!(instrumentor.next_probe_id(), 1);
    assert_eq!(instrumentor.next_probe_id(), 2);
}

#[test]
fn test_is_storage_operation_detection() {
    // self.balances.get(addr)
    let expr = method_call(self_field("balances"), "get", vec![path(&["addr"])]);
    assert!(inkwell::instrument::is_storage_operation(&expr));

    // self.count.insert(5)
    let expr = method_call(self_field("count"), "insert", vec![lit("5")]);
    assert!(inkwell::instrument::is_storage_operation(&expr));

    // local_var + 5
    let expr = Expr::Binary {
        op: "+".to_string(),
        left: Box::new(path(&["local_var"])),
        right: Box::new(lit("5")),
    };
    assert!(!inkwell::instrument::is_storage_operation(&expr));
}

#[test]
fn test_instrument_multiple_functions() {
    let mut instrumentor = Instrumentor::new();

    let transfer = simple_method(
        "transfer",
        true,
        vec![
            Stmt::Local {
                pat: "balance".to_string(),
                init: Some(method_call(self_field("balances"), "get", vec![msg_sender()])),
            },
            Stmt::ExprStmt {
                expr: method_call(
                    self_field("balances"),
                    "insert",
                    vec![path(&["to"]), path(&["amount"])],
                ),
                semi: true,
            },
        ],
    );
    let approve = simple_method(
        "approve",
        true,
        vec![Stmt::ExprStmt {
            expr: method_call(
                self_field("allowances"),
                "insert",
                vec![msg_sender(), path(&["spender"])],
            ),
            semi: true,
        }],
    );
    let unit = external_impl("Token", vec![transfer, approve]);

    let _ = instrumentor.instrument(&unit);

    let ops = instrumentor.get_instrumented_operations();
    assert!(ops.len() >= 3); // Multiple storage operations across functions
}

#[test]
fn test_generated_runtime_includes_all_components() {
    let instrumentor = Instrumentor::new();
    let unit = SourceUnit { items: vec![] };

    let code = instrumentor.generate_instrumented_code(&unit);

    // Verify runtime components are present
    assert!(code.contains("mod __ink_profiling"));
    assert!(code.contains("INK_TRACKER"));
    assert!(code.contains("InkTracker"));
    assert!(code.contains("ProbeData"));
    assert!(code.contains("probe_before"));
    assert!(code.contains("probe_after"));
    assert!(code.contains("read_ink_counter"));
}

#[test]
fn test_default_implementation() {
    let instrumentor = Instrumentor::default();
    assert_eq!(instrumentor.probe_counter, 0);
    assert_eq!(instrumentor.instrumented_operations.len(), 0);
}

#[test]
fn test_inject_probe_generates_correct_statements() {
    let mut instrumentor = Instrumentor::new();
    // let x = 5;
    let stmt = Stmt::Local {
        pat: "x".to_string(),
        init: Some(lit("5")),
    };

    let probes = instrumentor.inject_probe(&stmt, "test_op");

    assert_eq!(probes.len(), 3); // before, stmt, after
    assert_eq!(instrumentor.get_instrumented_operations().len(), 1);
    assert_eq!(
        instrumentor.get_instrumented_operations()[0].operation_type,
        "test_op"
    );
}

#[test]
fn test_instrument_storage_operations() {
    let mut instrumentor = Instrumentor::new();

    let body = vec![
        Stmt::Local {
            pat: "current".to_string(),
            init: Some(method_call(self_field("count"), "get", vec![])),
        },
        Stmt::ExprStmt {
            expr: method_call(
                self_field("count"),
                "insert",
                vec![Expr::Binary {
                    op: "+".to_string(),
                    left: Box::new(path(&["current"])),
                    right: Box::new(lit("1")),
                }],
            ),
            semi: true,
        },
    ];
    let unit = external_impl("Counter", vec![simple_method("increment", true, body)]);

    let instrumented = instrumentor.instrument(&unit);

    assert!(instrumented.contains("probe_before"));
    assert!(instrumented.contains("probe_after"));
    assert!(instrumented.contains("InkTracker"));
    assert!(instrumented.contains("DryNibBug"));
}

#[test]
fn test_dry_nib_detection_structures() {
    let mut instrumentor = Instrumentor::new();
    let body = vec![Stmt::ExprStmt {
        expr: method_call(self_field("value"), "get", vec![]),
        semi: false,
    }];
    let unit = external_impl("Contract", vec![Method {
        name: "read".to_string(),
        signature: "fn read(&self) -> U256".to_string(),
        is_public: true,
        has_self_receiver: true,
        body,
    }]);

    let result = instrumentor.instrument(&unit);
    assert!(result.contains("dry_nib_detections"));
    assert!(result.contains("check_dry_nib"));
}

#[test]
fn test_probe_ids_strictly_increase_across_functions() {
    let mut instrumentor = Instrumentor::new();

    let read = Stmt::Local {
        pat: "balance".to_string(),
        init: Some(method_call(self_field("balances"), "get", vec![msg_sender()])),
    };
    let write = Stmt::ExprStmt {
        expr: method_call(self_field("balances"), "insert", vec![msg_sender()]),
        semi: true,
    };
    let unit = external_impl("Contract", vec![simple_method("bump", true, vec![read, write])]);

    let _ = instrumentor.instrument(&unit);
    let ops = instrumentor.get_instrumented_operations();

    assert_eq!(ops.len(), 2);
    assert_eq!(ops[0].probe_id, 0);
    assert_eq!(ops[1].probe_id, 1);
    assert_eq!(ops[0].operation_type, "storage_read");
    assert_eq!(ops[1].operation_type, "storage_write");
}

#[test]
fn test_uninstrumented_statement_passes_through() {
    let mut instrumentor = Instrumentor::new();

    // A statement that matches nothing passes through verbatim, and the
    // flag-off copy of an instrumented statement appears in the output.
    let plain = Stmt::Local {
        pat: "y".to_string(),
        init: Some(lit("7")),
    };
    let read = Stmt::Local {
        pat: "v".to_string(),
        init: Some(method_call(self_field("value"), "get", vec![])),
    };
    let unit = external_impl("Contract", vec![simple_method("peek", true, vec![plain, read])]);

    let out = instrumentor.instrument(&unit);
    assert!(out.contains("let y = 7;"));
    assert!(out.contains("#[cfg(not(feature = \"ink-profiling\"))] let v = self.value.get();"));
}
