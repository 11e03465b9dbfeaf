//! The cost model: every ink estimate and detection threshold of the engine,
//! collected in one replaceable configuration value.
//!
//! The constants are calibration policy, not measured ground truth; the
//! defaults reflect observed magnitudes of the target runtime, and callers
//! may substitute their own model as the runtime's accounting changes.  Host
//! context queries are ordered identity < value < block metadata < default.

use vstd::prelude::*;

use crate::text::{contains_seq, contains_str, str_eq};

verus! {

/// All numeric policy of the analyzer.
#[derive(Debug, Clone, Copy)]
pub struct CostModel {
    /// Base cost of one storage read.
    pub storage_read_cost: u64,
    /// Base cost of one storage write; doubled when the write embeds a read.
    pub storage_write_cost: u64,
    /// Cost of an identity query (`msg::sender`), the cheapest context call.
    pub ctx_identity_cost: u64,
    /// Cost of a value query (`msg::value`).
    pub ctx_value_cost: u64,
    /// Cost of a block-metadata query (`block::*`).
    pub ctx_block_cost: u64,
    /// Cost of any other host-context query, the dearest.
    pub ctx_default_cost: u64,
    /// Flat cost of an event emission.
    pub event_cost: u64,
    /// Flat cost of an external call, the highest flat constant.
    pub external_call_cost: u64,
    /// Flat cost of a cryptographic hash.
    pub crypto_cost: u64,
    /// Cost of a plain assignment.
    pub assignment_cost: u64,
    /// Cost of an unclassified operation, and of a guard check.
    pub default_cost: u64,
    /// An operation costing more than this is a hotspot.
    pub hotspot_threshold: u64,
    /// Ink per gas unit, for the gas-equivalent figure.
    pub ink_per_gas: u64,
    /// A storage write costing more than this is flagged
    /// "redundant read in write".
    pub write_high_cost_threshold: u64,
    /// Fixed estimated saving of separating such a write from its read.
    pub write_split_saving: u64,
    /// Estimated saving per repeated read beyond the first, for the caching
    /// suggestion.
    pub cache_read_saving: u64,
    /// Reads of one entity (on distinct lines) needed to flag repeated-read
    /// waste.
    pub repeated_read_min: usize,
    /// Modelled waste per repeated read beyond the first.
    pub repeated_read_waste: u64,
    /// Modelled actual return size of a storage operation, in bytes.
    pub default_return_size: usize,
    /// Overcharge beyond this is flagged by the per-operation pass.
    pub overcharge_threshold: u64,
    /// Overcharge beyond this is high severity.
    pub overcharge_high: u64,
    /// Modelled cost of one host round trip (nested-access pass).
    pub round_trip_cost: u64,
    /// Modelled cost of a cold storage access (nested-access pass).
    pub cold_access_cost: u64,
    /// Modelled cost of a warm storage access (nested-access pass).
    pub warm_access_cost: u64,
}

impl CostModel {
    /// The arithmetic and ordering conditions the engine's proofs rest on:
    /// context costs ordered as documented, and every quantity the detectors
    /// compute staying within `u64`.
    pub open spec fn wf(self) -> bool {
        &&& 0 < self.ctx_identity_cost < self.ctx_value_cost < self.ctx_block_cost
            < self.ctx_default_cost
        &&& 0 < self.storage_read_cost
        &&& 0 < self.storage_write_cost
        &&& self.storage_write_cost <= 0x7fff_ffff_ffff_ffff
        &&& self.storage_read_cost <= 0x1fff_ffff_ffff_ffff
        &&& self.write_high_cost_threshold < 2 * self.storage_write_cost
        &&& 0 < self.ink_per_gas
        &&& 0 < self.repeated_read_min
        &&& self.round_trip_cost + self.cold_access_cost <= 0x3fff_ffff_ffff_ffff
        &&& self.warm_access_cost <= 0x3fff_ffff_ffff_ffff
        &&& self.default_return_size <= 0xffff
        &&& 0 < self.repeated_read_waste
        &&& self.repeated_read_waste <= 0x7fff_ffff_ffff
        &&& self.cache_read_saving <= 0x7fff_ffff_ffff
    }

    /// The default calibration.
    pub open spec fn default_spec() -> CostModel {
        CostModel {
            storage_read_cost: 1_200_000,
            storage_write_cost: 1_500_000,
            ctx_identity_cost: 200_000,
            ctx_value_cost: 250_000,
            ctx_block_cost: 300_000,
            ctx_default_cost: 350_000,
            event_cost: 350_000,
            external_call_cost: 2_500_000,
            crypto_cost: 500_000,
            assignment_cost: 80_000,
            default_cost: 50_000,
            hotspot_threshold: 1_000_000,
            ink_per_gas: 10_000,
            write_high_cost_threshold: 2_000_000,
            write_split_saving: 1_500_000,
            cache_read_saving: 13_200_000,
            repeated_read_min: 3,
            repeated_read_waste: 1_200_000,
            default_return_size: 32,
            overcharge_threshold: 1_000_000,
            overcharge_high: 2_000_000,
            round_trip_cost: 2_400_000,
            cold_access_cost: 1_200_000,
            warm_access_cost: 120_000,
        }
    }

    /// The default calibration.
    pub fn new() -> (r: CostModel)
        ensures
            r == CostModel::default_spec(),
            r.wf(),
    {
        CostModel {
            storage_read_cost: 1_200_000,
            storage_write_cost: 1_500_000,
            ctx_identity_cost: 200_000,
            ctx_value_cost: 250_000,
            ctx_block_cost: 300_000,
            ctx_default_cost: 350_000,
            event_cost: 350_000,
            external_call_cost: 2_500_000,
            crypto_cost: 500_000,
            assignment_cost: 80_000,
            default_cost: 50_000,
            hotspot_threshold: 1_000_000,
            ink_per_gas: 10_000,
            write_high_cost_threshold: 2_000_000,
            write_split_saving: 1_500_000,
            cache_read_saving: 13_200_000,
            repeated_read_min: 3,
            repeated_read_waste: 1_200_000,
            default_return_size: 32,
            overcharge_threshold: 1_000_000,
            overcharge_high: 2_000_000,
            round_trip_cost: 2_400_000,
            cold_access_cost: 1_200_000,
            warm_access_cost: 120_000,
        }
    }
}

impl Default for CostModel {
    /// The default calibration.
    fn default() -> (r: CostModel)
        ensures
            r == CostModel::default_spec(),
            r.wf(),
    {
        CostModel::new()
    }
}

/// The estimate [`estimate_ink_cost`] returns for a classified operation
/// name and category.
pub open spec fn estimate_ink_spec(cm: CostModel, operation: Seq<char>, category: Seq<char>) -> u64 {
    if category == "storage_read"@ {
        cm.storage_read_cost
    } else if category == "storage_write"@ {
        if contains_seq(operation, "upsert"@) {
            (2 * cm.storage_write_cost) as u64
        } else {
            cm.storage_write_cost
        }
    } else if category == "evm_context"@ {
        if contains_seq(operation, "msg::sender"@) {
            cm.ctx_identity_cost
        } else if contains_seq(operation, "msg::value"@) {
            cm.ctx_value_cost
        } else if contains_seq(operation, "block::"@) {
            cm.ctx_block_cost
        } else {
            cm.ctx_default_cost
        }
    } else if category == "event"@ {
        cm.event_cost
    } else if category == "external_call"@ {
        cm.external_call_cost
    } else if category == "crypto"@ {
        cm.crypto_cost
    } else if category == "assignment"@ {
        cm.assignment_cost
    } else {
        cm.default_cost
    }
}

/// Ink estimate for one classified operation.  An `upsert` write (a write
/// with an embedded read) costs double the write base, per the calibration's
/// embedded-read rule.
pub fn estimate_ink_cost(cm: &CostModel, operation: &str, category: &str) -> (r: u64)
    requires
        cm.wf(),
    ensures
        r == estimate_ink_spec(*cm, operation@, category@),
{
    if str_eq(category, "storage_read") {
        cm.storage_read_cost
    } else if str_eq(category, "storage_write") {
        if contains_str(operation, "upsert") {
            2 * cm.storage_write_cost
        } else {
            cm.storage_write_cost
        }
    } else if str_eq(category, "evm_context") {
        if contains_str(operation, "msg::sender") {
            cm.ctx_identity_cost
        } else if contains_str(operation, "msg::value") {
            cm.ctx_value_cost
        } else if contains_str(operation, "block::") {
            cm.ctx_block_cost
        } else {
            cm.ctx_default_cost
        }
    } else if str_eq(category, "event") {
        cm.event_cost
    } else if str_eq(category, "external_call") {
        cm.external_call_cost
    } else if str_eq(category, "crypto") {
        cm.crypto_cost
    } else if str_eq(category, "assignment") {
        cm.assignment_cost
    } else {
        cm.default_cost
    }
}

} // verus!
