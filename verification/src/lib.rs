//! Packet-tracing event pipeline: raw frame decoding, typed event sections,
//! probe catalogue, tracking-map sweeping and per-packet series sorting.

pub mod bytes;
pub mod cli;
pub mod collect;
pub mod decode;
pub mod display;
pub mod encode;
pub mod error;
pub mod events;
pub mod factories;
pub mod factory;
pub mod fmt;
pub mod gc;
pub mod helpers;
pub mod inspect;
pub mod packet;
pub mod probe;
pub mod probe_manager;
pub mod raw;
pub mod reader;
pub mod section_id;
pub mod text;
pub mod sort;
pub mod sorter;
pub mod sorter_laws;
pub mod tracking;
