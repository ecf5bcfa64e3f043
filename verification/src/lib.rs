//! Canonical condition-argument sanitizers for a CLVM node graph.
//!
//! Condition arguments arrive as untyped nodes of an externally owned
//! allocator (every node is an atom, a byte string, or a pair of nodes).
//! Before the validation engine may trust such an argument, it is decoded
//! and held against a canonical, minimal encoding; malformed or
//! non-minimal encodings are rejected the same way by every caller.

pub mod clvm;
pub mod condition_sanitizers;
pub mod flags;
pub mod sanitize_int;
pub mod validation_error;
