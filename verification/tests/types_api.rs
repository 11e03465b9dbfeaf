//! Construction and invariant checks of the report types.  Percentages are
//! integer basis points: 5000 means 50.00 %.

use inkwell::types::{
    CategoryStats, CodeAction, ContractAnalysis, Decorations, DryNibBug, FunctionAnalysis,
    GutterDecoration, Hotspot, HoverDecoration, InlineDecoration, Optimization, Replacement,
    VsCodeDecorations,
};

#[test]
fn test_contract_analysis_creation() {
    let analysis = ContractAnalysis {
        contract_name: "TestContract".to_string(),
        file: "src/lib.rs".to_string(),
        functions: Vec::new(),
    };

    assert_eq!(analysis.contract_name, "TestContract");
    assert_eq!(analysis.file, "src/lib.rs");
    assert_eq!(analysis.functions.len(), 0);
}

#[test]
fn test_category_stats_calculation() {
    let stats = CategoryStats {
        count: 5,
        total_ink: 5_000_000,
        percentage: 5000,
        avg_per_op: 1_000_000,
    };

    assert_eq!(stats.count, 5);
    assert_eq!(stats.total_ink, 5_000_000);
    assert_eq!(stats.avg_per_op, 1_000_000);
    assert_eq!(stats.avg_per_op * stats.count as u64, stats.total_ink);
}

#[test]
fn test_hotspot_ordering() {
    let mut hotspots = vec![
        Hotspot {
            line: 10,
            ink: 1_500_000,
            operation: "storage_write".to_string(),
            rank: 0,
        },
        Hotspot {
            line: 20,
            ink: 2_500_000,
            operation: "external_call".to_string(),
            rank: 0,
        },
        Hotspot {
            line: 15,
            ink: 2_000_000,
            operation: "storage_read".to_string(),
            rank: 0,
        },
    ];

    hotspots.sort_by(|a, b| b.ink.cmp(&a.ink));
    for (idx, hotspot) in hotspots.iter_mut().enumerate() {
        hotspot.rank = idx + 1;
    }

    assert_eq!(hotspots[0].rank, 1);
    assert_eq!(hotspots[0].ink, 2_500_000);
    assert_eq!(hotspots[1].rank, 2);
    assert_eq!(hotspots[2].rank, 3);
}

#[test]
fn test_optimization_structure() {
    let opt = Optimization {
        id: "cache_balance".to_string(),
        line: 42,
        severity: "high".to_string(),
        title: "Cache storage read".to_string(),
        description: "Balance is read multiple times".to_string(),
        current_code: "let x = self.balance.get()".to_string(),
        suggested_code: "let cached = self.balance.get()".to_string(),
        estimated_savings_ink: 1_200_000,
        estimated_savings_percentage: 5000,
        confidence: "high".to_string(),
    };

    assert_eq!(opt.id, "cache_balance");
    assert_eq!(opt.estimated_savings_ink, 1_200_000);
    assert!(opt.estimated_savings_percentage > 0);
}

#[test]
fn test_vscode_decorations_complete_structure() {
    let decorations = VsCodeDecorations {
        file: "src/lib.rs".to_string(),
        function: "transfer".to_string(),
        total_ink: 5_000_000,
        gas_equivalent: 500,
        decorations: Decorations {
            inline: vec![InlineDecoration {
                line: 10,
                text: "1.2M ink".to_string(),
                color: "red".to_string(),
            }],
            gutter: vec![GutterDecoration {
                line: 10,
                icon: "flame".to_string(),
                severity: "high".to_string(),
            }],
            hovers: vec![HoverDecoration {
                line: 10,
                markdown: "### Storage Read\n1.2M ink".to_string(),
            }],
            code_actions: vec![CodeAction {
                line: 10,
                title: "Cache this read".to_string(),
                replacement: Replacement {
                    start_line: 10,
                    end_line: 10,
                    new_text: "let cached = ...".to_string(),
                },
            }],
        },
    };

    assert_eq!(decorations.total_ink, 5_000_000);
    assert_eq!(decorations.decorations.inline.len(), 1);
    assert_eq!(decorations.decorations.gutter.len(), 1);
    assert_eq!(decorations.decorations.hovers.len(), 1);
    assert_eq!(decorations.decorations.code_actions.len(), 1);
}

#[test]
fn test_function_analysis_with_all_fields() {
    let categories = vec![(
        "storage".to_string(),
        CategoryStats {
            count: 3,
            total_ink: 3_000_000,
            percentage: 6000,
            avg_per_op: 1_000_000,
        },
    )];

    let func = FunctionAnalysis {
        name: "transfer".to_string(),
        signature: "transfer(to: Address, amount: U256)".to_string(),
        start_line: 3,
        total_ink: 5_000_000,
        gas_equivalent: 500,
        operations: vec![],
        categories,
        optimizations: vec![],
        hotspots: vec![],
        dry_nib_bugs: vec![],
    };

    assert_eq!(func.name, "transfer");
    assert_eq!(func.total_ink, 5_000_000);
    assert_eq!(func.gas_equivalent, 500);
    assert_eq!(func.categories.len(), 1);
}

#[test]
fn test_dry_nib_bug_structure() {
    let bug = DryNibBug {
        line: 42,
        operation: "msg::sender()".to_string(),
        category: "evm_context".to_string(),
        ink_charged_estimate: 300_000,
        actual_return_size: 20,
        buffer_allocated: 32,
        expected_fair_cost: 200_000,
        overcharge_estimate: 100_000,
        severity: "medium".to_string(),
        mitigation: "Cache the result".to_string(),
    };

    assert_eq!(bug.line, 42);
    assert_eq!(bug.actual_return_size, 20);
    assert_eq!(bug.buffer_allocated, 32);
    assert!(bug.overcharge_estimate > 0);
}

#[test]
fn test_function_analysis_with_dry_nib_bugs() {
    let func = FunctionAnalysis {
        name: "transfer".to_string(),
        signature: "transfer(...)".to_string(),
        start_line: 76,
        total_ink: 5_000_000,
        gas_equivalent: 500,
        operations: vec![],
        categories: Vec::new(),
        optimizations: vec![],
        hotspots: vec![],
        dry_nib_bugs: vec![DryNibBug {
            line: 10,
            operation: "msg::sender()".to_string(),
            category: "evm_context".to_string(),
            ink_charged_estimate: 300_000,
            actual_return_size: 20,
            buffer_allocated: 32,
            expected_fair_cost: 200_000,
            overcharge_estimate: 100_000,
            severity: "medium".to_string(),
            mitigation: "Cache result".to_string(),
        }],
    };

    assert_eq!(func.dry_nib_bugs.len(), 1);
    assert_eq!(func.dry_nib_bugs[0].overcharge_estimate, 100_000);
}
