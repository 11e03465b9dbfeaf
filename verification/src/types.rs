//! Result types of a contract analysis.
//!
//! Percentages are carried as integer basis points (hundredths of a percent),
//! so a value of `2550` means 25.50 %.  Function analyses are held in an
//! ordered list tolerant of duplicate bare names, since same-named methods in
//! different implementation blocks are legitimate.

use vstd::prelude::*;

verus! {

/// Top-level result of a contract analysis.
#[derive(Debug, Clone)]
pub struct ContractAnalysis {
    /// Name of the contract, usually taken from the first `pub struct`.
    pub contract_name: String,
    /// Label of the analyzed source file (reporting only).
    pub file: String,
    /// Per-function analyses, in traversal order.
    pub functions: Vec<FunctionAnalysis>,
}

/// Detailed analysis of a single entry-point function.
#[derive(Debug, Clone)]
pub struct FunctionAnalysis {
    /// Function name, without parameters.
    pub name: String,
    /// Full signature text.
    pub signature: String,
    /// Approximate 1-based starting line in the source file.
    pub start_line: usize,
    /// Estimated total ink: the sum of the operations' ink estimates.
    pub total_ink: u64,
    /// Rough gas equivalent of `total_ink`.
    pub gas_equivalent: u64,
    /// Every detected expensive operation, in classification order.
    pub operations: Vec<Operation>,
    /// Aggregated statistics per category, in first-occurrence order.
    pub categories: Vec<(String, CategoryStats)>,
    /// Suggested optimizations.
    pub optimizations: Vec<Optimization>,
    /// Most expensive individual operations, ranked from 1.
    pub hotspots: Vec<Hotspot>,
    /// Detected dry-nib overcharge bugs.
    pub dry_nib_bugs: Vec<DryNibBug>,
}

/// A single detected expensive operation.
#[derive(Debug, Clone)]
pub struct Operation {
    /// 1-based source line of the operation.
    pub line: usize,
    /// Column; span information is not tracked, so always 0.
    pub column: usize,
    /// Canonical source snippet.
    pub code: String,
    /// Classified operation name, e.g. `map::get` or `nested_map_get`.
    pub operation: String,
    /// Resolved storage entity name, or `unknown`.
    pub entity: String,
    /// Estimated ink cost of this operation.
    pub ink: u64,
    /// Share of the function's operation ink, in basis points.
    pub percentage: u64,
    /// Broad category, e.g. `storage_read` or `evm_context`.
    pub category: String,
    /// Severity label: `high`, `medium` or `low`.
    pub severity: String,
}

/// Ghost view of an [`Operation`].
#[verifier::ext_equal]
pub ghost struct OpV {
    pub line: usize,
    pub column: usize,
    pub code: Seq<char>,
    pub operation: Seq<char>,
    pub entity: Seq<char>,
    pub ink: u64,
    pub percentage: u64,
    pub category: Seq<char>,
    pub severity: Seq<char>,
}

impl DeepView for Operation {
    type V = OpV;

    open spec fn deep_view(&self) -> OpV {
        OpV {
            line: self.line,
            column: self.column,
            code: self.code@,
            operation: self.operation@,
            entity: self.entity@,
            ink: self.ink,
            percentage: self.percentage,
            category: self.category@,
            severity: self.severity@,
        }
    }
}

/// Statistics for one category of operations within a function.
#[derive(Debug, Clone)]
pub struct CategoryStats {
    /// Number of operations in the category.
    pub count: usize,
    /// Sum of the category's ink costs.
    pub total_ink: u64,
    /// Share of the function's operation ink, in basis points.
    pub percentage: u64,
    /// Average ink per operation (integer division; 0 when count is 0).
    pub avg_per_op: u64,
}

/// Ghost view of a [`CategoryStats`].
#[verifier::ext_equal]
pub ghost struct CategoryStatsV {
    pub count: usize,
    pub total_ink: u64,
    pub percentage: u64,
    pub avg_per_op: u64,
}

impl DeepView for CategoryStats {
    type V = CategoryStatsV;

    open spec fn deep_view(&self) -> CategoryStatsV {
        CategoryStatsV {
            count: self.count,
            total_ink: self.total_ink,
            percentage: self.percentage,
            avg_per_op: self.avg_per_op,
        }
    }
}

/// A suggested optimization opportunity.
#[derive(Debug, Clone)]
pub struct Optimization {
    /// Identifier, e.g. `cache_balances`.
    pub id: String,
    /// 1-based line where the optimization applies.
    pub line: usize,
    /// Severity label.
    pub severity: String,
    /// Short title.
    pub title: String,
    /// Explanation of the issue.
    pub description: String,
    /// The problematic pattern, for display.
    pub current_code: String,
    /// Suggested replacement snippet.
    pub suggested_code: String,
    /// Estimated ink saved if applied.
    pub estimated_savings_ink: u64,
    /// Estimated reduction of the function's ink, in basis points.
    pub estimated_savings_percentage: u64,
    /// Confidence label.
    pub confidence: String,
}

/// Ghost view of an [`Optimization`].
#[verifier::ext_equal]
pub ghost struct OptimizationV {
    pub id: Seq<char>,
    pub line: usize,
    pub severity: Seq<char>,
    pub title: Seq<char>,
    pub description: Seq<char>,
    pub current_code: Seq<char>,
    pub suggested_code: Seq<char>,
    pub estimated_savings_ink: u64,
    pub estimated_savings_percentage: u64,
    pub confidence: Seq<char>,
}

impl DeepView for Optimization {
    type V = OptimizationV;

    open spec fn deep_view(&self) -> OptimizationV {
        OptimizationV {
            id: self.id@,
            line: self.line,
            severity: self.severity@,
            title: self.title@,
            description: self.description@,
            current_code: self.current_code@,
            suggested_code: self.suggested_code@,
            estimated_savings_ink: self.estimated_savings_ink,
            estimated_savings_percentage: self.estimated_savings_percentage,
            confidence: self.confidence@,
        }
    }
}

/// A high-ink individual operation.
#[derive(Debug, Clone)]
pub struct Hotspot {
    /// 1-based source line.
    pub line: usize,
    /// Ink cost of the single operation.
    pub ink: u64,
    /// Operation name.
    pub operation: String,
    /// Rank among the function's hotspots; 1 is the most expensive.
    pub rank: usize,
}

/// Ghost view of a [`Hotspot`].
#[verifier::ext_equal]
pub ghost struct HotspotV {
    pub line: usize,
    pub ink: u64,
    pub operation: Seq<char>,
    pub rank: usize,
}

impl DeepView for Hotspot {
    type V = HotspotV;

    open spec fn deep_view(&self) -> HotspotV {
        HotspotV { line: self.line, ink: self.ink, operation: self.operation@, rank: self.rank }
    }
}

/// A suspected cost-accounting defect: a host call charged for a
/// rounded-up buffer larger than the data it actually returns.
#[derive(Debug, Clone)]
pub struct DryNibBug {
    /// 1-based line of the problematic call.
    pub line: usize,
    /// Operation that triggered the detection.
    pub operation: String,
    /// Category of the operation.
    pub category: String,
    /// Estimated ink charged, including buffer overhead.
    pub ink_charged_estimate: u64,
    /// Actual size of the returned data, in bytes.
    pub actual_return_size: usize,
    /// Size of the buffer modelled as allocated, in bytes.
    pub buffer_allocated: usize,
    /// Fair cost based on the actual return size.
    pub expected_fair_cost: u64,
    /// Estimated overcharge.
    pub overcharge_estimate: u64,
    /// Severity label.
    pub severity: String,
    /// Suggested mitigation.
    pub mitigation: String,
}

/// Ghost view of a [`DryNibBug`].
#[verifier::ext_equal]
pub ghost struct DryNibBugV {
    pub line: usize,
    pub operation: Seq<char>,
    pub category: Seq<char>,
    pub ink_charged_estimate: u64,
    pub actual_return_size: usize,
    pub buffer_allocated: usize,
    pub expected_fair_cost: u64,
    pub overcharge_estimate: u64,
    pub severity: Seq<char>,
    pub mitigation: Seq<char>,
}

impl DeepView for DryNibBug {
    type V = DryNibBugV;

    open spec fn deep_view(&self) -> DryNibBugV {
        DryNibBugV {
            line: self.line,
            operation: self.operation@,
            category: self.category@,
            ink_charged_estimate: self.ink_charged_estimate,
            actual_return_size: self.actual_return_size,
            buffer_allocated: self.buffer_allocated,
            expected_fair_cost: self.expected_fair_cost,
            overcharge_estimate: self.overcharge_estimate,
            severity: self.severity@,
            mitigation: self.mitigation@,
        }
    }
}

/// Ghost view of a [`FunctionAnalysis`].
#[verifier::ext_equal]
pub ghost struct FunctionAnalysisV {
    pub name: Seq<char>,
    pub signature: Seq<char>,
    pub start_line: usize,
    pub total_ink: u64,
    pub gas_equivalent: u64,
    pub operations: Seq<OpV>,
    pub categories: Seq<(Seq<char>, CategoryStatsV)>,
    pub optimizations: Seq<OptimizationV>,
    pub hotspots: Seq<HotspotV>,
    pub dry_nib_bugs: Seq<DryNibBugV>,
}

impl DeepView for FunctionAnalysis {
    type V = FunctionAnalysisV;

    open spec fn deep_view(&self) -> FunctionAnalysisV {
        FunctionAnalysisV {
            name: self.name@,
            signature: self.signature@,
            start_line: self.start_line,
            total_ink: self.total_ink,
            gas_equivalent: self.gas_equivalent,
            operations: self.operations.deep_view(),
            categories: self.categories.deep_view(),
            optimizations: self.optimizations.deep_view(),
            hotspots: self.hotspots.deep_view(),
            dry_nib_bugs: self.dry_nib_bugs.deep_view(),
        }
    }
}

/// Why an analysis failed.  Heuristic mis-classification is not an error;
/// an empty bug or optimization list is a normal result.
#[derive(Debug, Clone)]
pub enum AnalysisError {
    /// No externally callable function qualified.  `selectors_found` counts
    /// selector-like constants seen in the file; a nonzero count suggests the
    /// input needs a macro-expansion step before this engine can see the real
    /// entry points.
    NoEntryPoints { file: String, selectors_found: usize },
}

/// Root structure for editor decoration data.
#[derive(Debug, Clone)]
pub struct VsCodeDecorations {
    /// Analyzed source file label.
    pub file: String,
    /// Function name, or a label covering all functions.
    pub function: String,
    /// Sum of ink across all functions.
    pub total_ink: u64,
    /// Sum of gas equivalents.
    pub gas_equivalent: u64,
    /// The decorations to apply.
    pub decorations: Decorations,
}

/// The decoration sets for one file.
#[derive(Debug, Default, Clone)]
pub struct Decorations {
    /// Text shown inline after a line.
    pub inline: Vec<InlineDecoration>,
    /// Icons shown in the gutter.
    pub gutter: Vec<GutterDecoration>,
    /// Hover tooltips.
    pub hovers: Vec<HoverDecoration>,
    /// Quick-fix suggestions.
    pub code_actions: Vec<CodeAction>,
}

/// Inline text decoration.
#[derive(Debug, Clone)]
pub struct InlineDecoration {
    /// 1-based line number.
    pub line: usize,
    /// Text to display.
    pub text: String,
    /// Color theme key.
    pub color: String,
}

/// Gutter icon decoration.
#[derive(Debug, Clone)]
pub struct GutterDecoration {
    /// 1-based line number.
    pub line: usize,
    /// Icon name.
    pub icon: String,
    /// Severity level.
    pub severity: String,
}

/// Hover tooltip content.
#[derive(Debug, Clone)]
pub struct HoverDecoration {
    /// 1-based line number.
    pub line: usize,
    /// Markdown-formatted content.
    pub markdown: String,
}

/// Quick-fix suggestion.
#[derive(Debug, Clone)]
pub struct CodeAction {
    /// 1-based line number.
    pub line: usize,
    /// Title shown in the action menu.
    pub title: String,
    /// Replacement to apply.
    pub replacement: Replacement,
}

/// Text replacement instruction for a code action.
#[derive(Debug, Clone)]
pub struct Replacement {
    /// Starting line, inclusive.
    pub start_line: usize,
    /// Ending line, inclusive.
    pub end_line: usize,
    /// New text for the range.
    pub new_text: String,
}

} // verus!
