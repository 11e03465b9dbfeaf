//! Report configuration.  Rendering itself (console colors, JSON and editor
//! decorations) is left to the surrounding tooling, which consumes the
//! analysis values; the library only carries the chosen format and color
//! preference.

use vstd::prelude::*;

verus! {

/// Formatting preferences for analysis reports.
#[derive(Debug, Clone)]
pub struct Reporter {
    /// Requested output format: `compact`, `detailed` or `json`.
    pub output_format: String,
    /// Whether colored terminal output is wanted.
    pub use_color: bool,
}

impl Reporter {
    /// A reporter for the given format and color preference.  The threshold
    /// argument is reserved for future filtering and is not used.
    pub fn new(output_format: &str, _threshold: u64, use_color: bool) -> (r: Reporter)
        ensures
            r.output_format@ == output_format@,
            r.use_color == use_color,
    {
        Reporter { output_format: String::from_str(output_format), use_color }
    }
}

} // verus!
