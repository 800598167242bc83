//! Events as text.

pub mod ct;
pub mod event;
pub mod format;
pub mod sections;
pub mod series;
pub mod skb;
pub mod skb_text;
