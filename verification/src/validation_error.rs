//! The error taxonomy, and the one gate through which every sanitizer
//! confirms that an argument is a leaf.

use vstd::prelude::*;

use crate::clvm::{atom_view, node_atom_bytes, node_is_atom, node_is_pair_node, valid_node};
use clvmr::allocator::{Allocator, NodePtr};

verus! {

/// Why a condition argument was rejected. The caller picks which kind a
/// generic size check reports, so one sanitizer can serve several
/// condition types with a context-specific error identity.
#[derive(Clone, Copy, Debug, PartialEq, Eq)]
pub enum ErrorCode {
    InvalidCondition,
    InvalidCoinAmount,
    InvalidMessageMode,
}

/// A rejected argument: the offending node handle, and the kind of
/// failure. Errors are ordinary return values, never panics.
#[derive(Clone, Copy, Debug, PartialEq, Eq)]
pub struct ValidationErr(pub NodePtr, pub ErrorCode);

/// Extract the byte content of an atom node; a pair fails with the
/// caller-supplied error kind, carrying the offending handle.
pub fn atom(a: &Allocator, n: NodePtr, code: ErrorCode) -> (r: Result<Vec<u8>, ValidationErr>)
    requires
        valid_node(*a, n),
    ensures
        r is Ok <==> node_is_atom(*a, n),
        r matches Ok(buf) ==> atom_view(*a, n) == Some(buf@),
        r matches Err(e) ==> e == ValidationErr(n, code),
{
    if node_is_pair_node(a, n) {
        Err(ValidationErr(n, code))
    } else {
        Ok(node_atom_bytes(a, n))
    }
}

} // verus!
