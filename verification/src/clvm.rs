//! The read-only view of clvmr's node arena.
//!
//! Nodes live in an externally owned, append-only `clvmr::Allocator`; a
//! `NodePtr` is an opaque handle into it. The sanitizers only ever ask
//! three things of the arena: whether a handle names an atom or a pair,
//! the byte content of an atom, and whether that content reads as a small
//! machine-word integer. Each question goes through one trusted wrapper
//! below; everything past those wrappers is verified.

use vstd::prelude::*;

use clvmr::allocator::{Allocator, NodePtr, SExp};

verus! {

#[verifier::external_type_specification]
#[verifier::external_body]
pub struct ExAllocator(Allocator);

#[verifier::external_type_specification]
#[verifier::external_body]
pub struct ExNodePtr(NodePtr);

/// Whether `n` is a handle that `a` itself handed out. Handles taken from
/// a different allocator may make clvmr index out of bounds, so every
/// wrapper asks for this.
pub uninterp spec fn valid_node(a: Allocator, n: NodePtr) -> bool;

/// Whether the node behind `n` is an atom (a leaf byte string) rather
/// than a pair.
pub uninterp spec fn node_is_atom(a: Allocator, n: NodePtr) -> bool;

/// The byte content of the atom behind `n`.
pub uninterp spec fn node_bytes(a: Allocator, n: NodePtr) -> Seq<u8>;

/// The byte content of `n` if it is an atom, and nothing for a pair.
pub open spec fn atom_view(a: Allocator, n: NodePtr) -> Option<Seq<u8>> {
    if node_is_atom(a, n) {
        Some(node_bytes(a, n))
    } else {
        None
    }
}

/// What clvmr reads out of an atom's bytes as a small number: the
/// big-endian value, provided the bytes are the canonical encoding of a
/// non-negative integer below 2^26 (at most four bytes; a first byte with
/// its sign bit set reads as negative; a leading zero the next byte does
/// not require, or a lone zero byte, is non-canonical; four bytes whose
/// first exceeds 0x03 hold more than 26 bits).
pub open spec fn spec_small_number(b: Seq<u8>) -> Option<u32> {
    if b.len() == 0 {
        Some(0u32)
    } else if b.len() > 4 || (b.len() == 1 && b[0] == 0) || b[0] & 0x80 != 0 || (b[0] == 0
        && b.len() >= 2 && b[1] & 0x80 == 0) || (b.len() == 4 && b[0] > 0x03) {
        None
    } else {
        Some(crate::sanitize_int::be_val(b) as u32)
    }
}

/// Relies on `Allocator::sexp`: tells a pair from an atom; every node is
/// one of the two.
#[verifier::external_body]
pub(crate) fn node_is_pair_node(a: &Allocator, n: NodePtr) -> (r: bool)
    requires
        valid_node(*a, n),
    ensures
        valid_node(*a, n) ==> r == !node_is_atom(*a, n),
{
    matches!(a.sexp(n), SExp::Pair(_, _))
}

/// Relies on `Allocator::atom`: the byte content of an atom node (it
/// panics on a pair, so a pair is left out here).
#[verifier::external_body]
pub(crate) fn node_atom_bytes(a: &Allocator, n: NodePtr) -> (r: Vec<u8>)
    requires
        valid_node(*a, n),
        node_is_atom(*a, n),
    ensures
        valid_node(*a, n) ==> r@ == node_bytes(*a, n),
{
    a.atom(n).as_ref().to_vec()
}

/// Relies on `Allocator::small_number`: for an atom it returns exactly
/// the value that `spec_small_number` reads out of the atom's bytes
/// (clvmr stores such atoms either verbatim or pre-decoded, and answers
/// the same for both forms), and nothing for a pair.
#[verifier::external_body]
pub(crate) fn node_small_number(a: &Allocator, n: NodePtr) -> (r: Option<u32>)
    requires
        valid_node(*a, n),
    ensures
        valid_node(*a, n) ==> r == if node_is_atom(*a, n) {
            spec_small_number(node_bytes(*a, n))
        } else {
            None::<u32>
        },
{
    a.small_number(n)
}

} // verus!
