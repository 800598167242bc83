//! What a packet met in the netfilter tables.

use vstd::prelude::*;

verus! {

/// Nft event section.
#[derive(Clone, Debug, PartialEq, Eq)]
pub struct NftEvent {
    pub table_name: String,
    pub chain_name: String,
    pub verdict: String,
    pub verdict_chain_name: Option<String>,
    pub table_handle: i64,
    pub chain_handle: i64,
    pub rule_handle: Option<i64>,
    pub policy: bool,
}

} // verus!
