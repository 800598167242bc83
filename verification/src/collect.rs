//! Collectors: what each of them has to offer, the registry that holds them
//! and the steps of their common life.

pub mod collector;
pub mod collectors;
pub mod modules;
pub mod ovs;
pub mod probe_spec;
pub mod skb_tracking;
