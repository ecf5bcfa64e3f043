//! The condition-argument sanitizers.
//!
//! The condition dispatcher calls exactly one of these per argument slot.
//! Each borrows the node arena read-only, confirms the argument is a leaf
//! through [`crate::validation_error::atom`], and checks it against the
//! rule for its slot; every failure is an ordinary return value carrying
//! the offending handle.

use vstd::prelude::*;

use crate::clvm::{atom_view, node_small_number, spec_small_number, valid_node};
use crate::flags::NO_UNKNOWN_CONDS;
use crate::sanitize_int::{sanitize_uint, spec_sanitize_uint, SanitizedUint};
use crate::validation_error::{atom, ErrorCode, ValidationErr};
use clvmr::allocator::{Allocator, NodePtr};

verus! {

/// What checking an atom's length against an exact size yields.
pub open spec fn spec_sanitize_hash(
    av: Option<Seq<u8>>,
    n: NodePtr,
    size: int,
    code: ErrorCode,
) -> Result<NodePtr, ValidationErr> {
    match av {
        Some(b) => if b.len() == size {
            Ok(n)
        } else {
            Err(ValidationErr(n, code))
        },
        None => Err(ValidationErr(n, code)),
    }
}

/// Confirm that the argument is an atom of exactly `size` bytes, and hand
/// the same handle back; anything else fails with the caller's error kind.
pub fn sanitize_hash(a: &Allocator, n: NodePtr, size: usize, code: ErrorCode) -> (r: Result<
    NodePtr,
    ValidationErr,
>)
    requires
        valid_node(*a, n),
    ensures
        r == spec_sanitize_hash(atom_view(*a, n), n, size as int, code),
{
    let buf = match atom(a, n, code) {
        Ok(buf) => buf,
        Err(e) => {
            return Err(e);
        },
    };
    if buf.len() != size {
        Err(ValidationErr(n, code))
    } else {
        Ok(n)
    }
}

/// What parsing an atom as a coin amount yields: the decoded value when
/// it is in range, and the caller's error kind for a pair and for either
/// overflow.
pub open spec fn spec_parse_amount(av: Option<Seq<u8>>, n: NodePtr, code: ErrorCode) -> Result<
    u64,
    ValidationErr,
> {
    match av {
        Some(b) => match spec_sanitize_uint(b, 8) {
            SanitizedUint::InRange(v) => Ok(v),
            _ => Err(ValidationErr(n, code)),
        },
        None => Err(ValidationErr(n, code)),
    }
}

/// Parse the argument as a coin amount: a canonically encoded value of at
/// most eight bytes, so the result always fits 64 bits.
pub fn parse_amount(a: &Allocator, n: NodePtr, code: ErrorCode) -> (r: Result<u64, ValidationErr>)
    requires
        valid_node(*a, n),
    ensures
        r == spec_parse_amount(atom_view(*a, n), n, code),
{
    // amounts are not allowed to exceed 2^64. i.e. 8 bytes
    match sanitize_uint(a, n, 8, code) {
        Err(e) => Err(e),
        Ok(SanitizedUint::NegativeOverflow) => Err(ValidationErr(n, code)),
        Ok(SanitizedUint::PositiveOverflow) => Err(ValidationErr(n, code)),
        Ok(SanitizedUint::InRange(amount)) => Ok(amount),
    }
}

/// What checking an announcement message against the 1024-byte bound
/// yields.
pub open spec fn spec_sanitize_announce_msg(av: Option<Seq<u8>>, n: NodePtr, code: ErrorCode)
    -> Result<NodePtr, ValidationErr> {
    match av {
        Some(b) => if b.len() <= 1024 {
            Ok(n)
        } else {
            Err(ValidationErr(n, code))
        },
        None => Err(ValidationErr(n, code)),
    }
}

/// Confirm that the argument is an atom of at most 1024 bytes, and hand
/// the same handle back.
pub fn sanitize_announce_msg(a: &Allocator, n: NodePtr, code: ErrorCode) -> (r: Result<
    NodePtr,
    ValidationErr,
>)
    requires
        valid_node(*a, n),
    ensures
        r == spec_sanitize_announce_msg(atom_view(*a, n), n, code),
{
    let buf = match atom(a, n, code) {
        Ok(buf) => buf,
        Err(e) => {
            return Err(e);
        },
    };
    if buf.len() > 1024 {
        Err(ValidationErr(n, code))
    } else {
        Ok(n)
    }
}

/// Whether a message mode passes under the given policy flags: only the
/// low six bits may be set, and the stricter mempool policy additionally
/// asks that the sender's committed-bits group and the receiver's
/// committed-bits group each name at least the parent id or the puzzle
/// hash.
pub open spec fn spec_mode_allowed(mode: u32, flags: u32) -> bool {
    &&& mode & !0b111111u32 == 0
    &&& (flags & NO_UNKNOWN_CONDS == 0 || (mode & 0b000110 != 0 && mode & 0b110000 != 0))
}

/// What validating a message-mode argument yields: the numeric mode when
/// the atom reads as a small non-negative integer that the policy allows,
/// and an invalid-message-mode error otherwise.
pub open spec fn spec_sanitize_message_mode(av: Option<Seq<u8>>, n: NodePtr, flags: u32) -> Result<
    u32,
    ValidationErr,
> {
    match av {
        Some(b) => match spec_small_number(b) {
            Some(mode) => if spec_mode_allowed(mode, flags) {
                Ok(mode)
            } else {
                Err(ValidationErr(n, ErrorCode::InvalidMessageMode))
            },
            None => Err(ValidationErr(n, ErrorCode::InvalidMessageMode)),
        },
        None => Err(ValidationErr(n, ErrorCode::InvalidMessageMode)),
    }
}

/// Decode and police the six-bit mode field of a cross-spend message
/// condition under the active policy flags.
pub fn sanitize_message_mode(a: &Allocator, node: NodePtr, flags: u32) -> (r: Result<
    u32,
    ValidationErr,
>)
    requires
        valid_node(*a, node),
    ensures
        r == spec_sanitize_message_mode(atom_view(*a, node), node, flags),
{
    let Some(mode) = node_small_number(a, node) else {
        return Err(ValidationErr(node, ErrorCode::InvalidMessageMode));
    };
    // only 6 bits are allowed to be set
    if (mode & !0b111111u32) != 0 {
        return Err(ValidationErr(node, ErrorCode::InvalidMessageMode));
    }
    // both the sender and the receiver must commit to *something*
    // the mode flags are: parent, puzzle, amount. First for the sender,
    // then for the receiver
    if (flags & NO_UNKNOWN_CONDS) != 0 {
        // in mempool mode, we only accept message modes where at least the
        // parent or the puzzle hash is committed to, for both the sender
        // and receiver
        if (mode & 0b000110) == 0 || (mode & 0b110000) == 0 {
            return Err(ValidationErr(node, ErrorCode::InvalidMessageMode));
        }
    }
    Ok(mode)
}

/// Under plain consensus policy, every mode that reads as a small number
/// and keeps to the low six bits is accepted.
pub proof fn lemma_mode_permissive_accepts(b: Seq<u8>, n: NodePtr, flags: u32, mode: u32)
    requires
        flags & NO_UNKNOWN_CONDS == 0,
        spec_small_number(b) == Some(mode),
        mode & !0b111111u32 == 0,
    ensures
        spec_sanitize_message_mode(Some(b), n, flags) == Ok::<u32, ValidationErr>(mode),
{
}

/// A mode with any bit outside the low six set is rejected under either
/// policy.
pub proof fn lemma_mode_high_bits_rejected(b: Seq<u8>, n: NodePtr, flags: u32, mode: u32)
    requires
        spec_small_number(b) == Some(mode),
        mode & !0b111111u32 != 0,
    ensures
        spec_sanitize_message_mode(Some(b), n, flags) == Err::<u32, ValidationErr>(
            ValidationErr(n, ErrorCode::InvalidMessageMode),
        ),
{
}

/// Under the stricter mempool policy a mode passes exactly when it is a
/// six-bit value in which the sender group and the receiver group each
/// commit to the parent id or the puzzle hash.
pub proof fn lemma_mode_strict_iff(b: Seq<u8>, n: NodePtr, flags: u32, mode: u32)
    requires
        flags & NO_UNKNOWN_CONDS != 0,
        spec_small_number(b) == Some(mode),
    ensures
        spec_sanitize_message_mode(Some(b), n, flags) == Ok::<u32, ValidationErr>(mode) <==> (mode
            & !0b111111u32 == 0 && mode & 0b000110 != 0 && mode & 0b110000 != 0),
{
}

/// A vector of `len` zero bytes.
pub fn zero_vec(len: usize) -> (r: Vec<u8>)
    ensures
        r@.len() == len,
        forall|j: int| 0 <= j < len ==> r@[j] == 0u8,
{
    let mut ret = Vec::<u8>::new();
    let mut i: usize = 0;
    while i < len
        invariant
            i <= len,
            ret@.len() == i,
            forall|j: int| 0 <= j < i ==> ret@[j] == 0u8,
        decreases len - i,
    {
        ret.push(0);
        i += 1;
    }
    ret
}

} // verus!
