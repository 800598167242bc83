//! The factories of the sections that are built from raw records.

pub mod builtin;
pub mod common;
pub mod ovs;
pub mod skb;
pub mod skb_tracking;
