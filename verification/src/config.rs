//! The per-run configuration: everything one diff run needs, built once from
//! command-line input plus config-file contents and read-only afterwards.

use vstd::prelude::*;

use crate::remapping::RemappingEntry;

verus! {

/// One run's configuration. `remappings` is the resolved, ordered remapping
/// set; `chain_id` has been checked to be positive; the rest is carried to
/// the flattener, the explorer lookup and the diff presenter unchanged.
#[derive(Debug, Clone, PartialEq, Eq)]
pub struct UtilsConfig {
    pub etherscan_token: String,
    pub contract_address: String,
    pub chain_id: u64,
    pub src: String,
    pub remappings: Vec<RemappingEntry>,
    pub file_path: String,
    pub color_output: bool,
}

} // verus!
