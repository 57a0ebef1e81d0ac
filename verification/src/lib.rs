//! Interpreting free-form descriptions of target image dimensions.
//!
//! The crate extracts `width x height` phrases (with optional unit tokens)
//! from an utterance, classifies each phrase into a resolvable or ambiguous
//! scenario, and drives a turn-based conversation that ends in a confirmed
//! pixel size or a cancellation.

pub mod extract;
pub mod num;
pub mod resize;
pub mod session;
pub mod unit;
