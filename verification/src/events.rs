//! Typed event sections and the event that aggregates them.

pub mod common;
pub mod ct;
pub mod event;
pub mod kernel;
pub mod nft;
pub mod ovs;
pub mod section;
pub mod skb;
pub mod skb_drop;
pub mod skb_tracking;
pub mod startup;
pub mod user;
