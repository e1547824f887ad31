//! Subscription aggregation and routing-config synthesis.
//!
//! The crate decodes base64 subscription payloads into proxy-node
//! descriptors, one per scheme-specific URI, filters and classifies them by
//! label, and merges the result into the outbound groups of a template
//! document.
pub mod classify;
pub mod codec;
pub mod filter;
pub mod json;
pub mod node;
pub mod sign;
pub mod strutil;
pub mod subs;
pub mod synth;
pub mod uri;
