//! The canonical unsigned-integer decoder.
//!
//! A value is encoded as the shortest big-endian byte string whose first
//! byte's sign bit reflects the value's sign: the empty string denotes
//! zero, and a leading `0x00` byte is permitted only when its removal
//! would make the following byte read as negative. The decoder classifies
//! a byte string against a caller-supplied maximum width, without ever
//! interpreting what the number means.

use vstd::prelude::*;

use crate::clvm::{atom_view, valid_node};
use crate::validation_error::{atom, ErrorCode, ValidationErr};
use clvmr::allocator::{Allocator, NodePtr};

verus! {

/// Outcome of decoding a byte string as a bounded, canonically encoded,
/// non-negative integer. Callers choose how to treat each case.
#[derive(Clone, Copy, Debug, PartialEq, Eq)]
pub enum SanitizedUint {
    InRange(u64),
    NegativeOverflow,
    PositiveOverflow,
}

/// The big-endian value of a byte string.
pub open spec fn be_val(b: Seq<u8>) -> nat
    decreases b.len(),
{
    if b.len() == 0 {
        0
    } else {
        (be_val(b.drop_last()) * 256 + b.last()) as nat
    }
}

/// 256 to the power `n`: the number of byte strings of length `n`.
pub open spec fn pow256(n: nat) -> nat
    decreases n,
{
    if n == 0 {
        1
    } else {
        256 * pow256((n - 1) as nat)
    }
}

/// The minimal big-endian byte string for `v`, with no leading zero at all.
pub open spec fn be_bytes(v: nat) -> Seq<u8>
    decreases v,
{
    if v == 0 {
        Seq::empty()
    } else {
        be_bytes(v / 256).push((v % 256) as u8)
    }
}

/// The canonical encoding of a non-negative value: the minimal big-endian
/// bytes, with one leading zero exactly when the first byte would
/// otherwise read as negative.
pub open spec fn canonical_encoding(v: nat) -> Seq<u8> {
    let b = be_bytes(v);
    if b.len() > 0 && b[0] & 0x80 != 0 {
        seq![0u8] + b
    } else {
        b
    }
}

/// What decoding a byte string `b` against a maximum width `w` yields.
///
/// In order: a string longer than `w + 1` bytes cannot fit even with the
/// one permitted leading zero; a first byte with its sign bit set encodes
/// a negative value; a string of exactly `w + 1` bytes must spend its
/// extra byte on the permitted leading zero; and a leading zero that the
/// following byte does not require is a redundant, non-canonical byte,
/// rejected at any length. What remains is in range.
pub open spec fn spec_sanitize_uint(b: Seq<u8>, w: int) -> SanitizedUint {
    if b.len() > w + 1 {
        SanitizedUint::PositiveOverflow
    } else if b.len() > 0 && b[0] & 0x80 != 0 {
        SanitizedUint::NegativeOverflow
    } else if b.len() == w + 1 && b[0] != 0 {
        SanitizedUint::PositiveOverflow
    } else if b.len() > 0 && b[0] == 0 && (b.len() == 1 || b[1] & 0x80 == 0) {
        SanitizedUint::PositiveOverflow
    } else {
        SanitizedUint::InRange(be_val(b) as u64)
    }
}

/// The big-endian value of a byte string is below 256 to its length.
pub proof fn lemma_be_val_bound(b: Seq<u8>)
    ensures
        be_val(b) < pow256(b.len()),
    decreases b.len(),
{
    if b.len() > 0 {
        lemma_be_val_bound(b.drop_last());
        assert(pow256(b.len()) == 256 * pow256((b.len() - 1) as nat));
    }
}

/// Powers of 256 grow with the exponent.
pub proof fn lemma_pow256_le(m: nat, n: nat)
    requires
        m <= n,
    ensures
        pow256(m) <= pow256(n),
    decreases n,
{
    if m < n {
        lemma_pow256_le(m, (n - 1) as nat);
        assert(pow256(n) == 256 * pow256((n - 1) as nat));
    }
}

/// A leading zero byte does not change the big-endian value.
pub proof fn lemma_be_val_zero_prefix(b: Seq<u8>)
    requires
        b.len() > 0,
        b[0] == 0,
    ensures
        be_val(b) == be_val(b.subrange(1, b.len() as int)),
    decreases b.len(),
{
    if b.len() == 1 {
        assert(b.drop_last() =~= Seq::<u8>::empty());
        assert(b.subrange(1, 1) =~= Seq::<u8>::empty());
    } else {
        lemma_be_val_zero_prefix(b.drop_last());
        assert(b.drop_last().subrange(1, b.len() - 1) =~= b.subrange(
            1,
            b.len() as int,
        ).drop_last());
        assert(b.subrange(1, b.len() as int).last() == b.last());
    }
}

/// Appending a byte multiplies the value by 256 and adds the byte.
pub proof fn lemma_be_val_push(b: Seq<u8>, x: u8)
    ensures
        be_val(b.push(x)) == be_val(b) * 256 + x,
{
    assert(b.push(x).drop_last() =~= b);
    assert(b.push(x).last() == x);
}

/// The minimal bytes of `v` decode back to `v`.
pub proof fn lemma_be_bytes_val(v: nat)
    ensures
        be_val(be_bytes(v)) == v,
    decreases v,
{
    if v > 0 {
        lemma_be_bytes_val(v / 256);
        lemma_be_val_push(be_bytes(v / 256), (v % 256) as u8);
    }
}

/// A value below 256 to the `n` needs at most `n` minimal bytes.
pub proof fn lemma_be_bytes_len(v: nat, n: nat)
    requires
        v < pow256(n),
    ensures
        be_bytes(v).len() <= n,
    decreases n,
{
    if v > 0 {
        assert(pow256(n) == 256 * pow256((n - 1) as nat));
        assert(v / 256 < pow256((n - 1) as nat));
        lemma_be_bytes_len(v / 256, (n - 1) as nat);
    }
}

/// The minimal bytes of a non-zero value never start with a zero byte.
pub proof fn lemma_be_bytes_first(v: nat)
    requires
        v > 0,
    ensures
        be_bytes(v).len() > 0,
        be_bytes(v)[0] != 0,
    decreases v,
{
    if v / 256 > 0 {
        lemma_be_bytes_first(v / 256);
    } else {
        assert(be_bytes(v / 256) =~= Seq::<u8>::empty());
        assert(be_bytes(v) =~= Seq::<u8>::empty().push((v % 256) as u8));
        assert(v % 256 == v);
    }
}

/// Decode a byte string as a canonically encoded non-negative integer of
/// at most `max_width` bytes.
pub fn decode_canonical_uint(buf: &[u8], max_width: usize) -> (r: SanitizedUint)
    requires
        max_width <= 8,
    ensures
        r == spec_sanitize_uint(buf@, max_width as int),
{
    let len = buf.len();
    if len > max_width + 1 {
        return SanitizedUint::PositiveOverflow;
    }
    if len == 0 {
        return SanitizedUint::InRange(0);
    }
    if buf[0] & 0x80 != 0 {
        return SanitizedUint::NegativeOverflow;
    }
    if len == max_width + 1 && buf[0] != 0 {
        return SanitizedUint::PositiveOverflow;
    }
    if buf[0] == 0 && (len == 1 || buf[1] & 0x80 == 0) {
        return SanitizedUint::PositiveOverflow;
    }
    // A surviving leading zero is the one the second byte requires; the
    // value itself lives in the at most eight bytes that follow it.
    let start: usize = if buf[0] == 0 {
        1
    } else {
        0
    };
    proof {
        assert(len - start <= 8);
    }
    let mut val: u64 = 0;
    let mut i: usize = start;
    while i < len
        invariant
            start <= i <= len,
            len == buf@.len(),
            len - start <= 8,
            val == be_val(buf@.subrange(start as int, i as int)),
            val < pow256((i - start) as nat),
        decreases len - i,
    {
        proof {
            lemma_pow256_le((i - start) as nat, 7);
            assert(pow256(7) == 256 * pow256(6));
            assert(pow256(6) == 256 * pow256(5));
            assert(pow256(5) == 256 * pow256(4));
            assert(pow256(4) == 256 * pow256(3));
            assert(pow256(3) == 256 * pow256(2));
            assert(pow256(2) == 256 * pow256(1));
            assert(pow256(1) == 256 * pow256(0));
            assert(buf@.subrange(start as int, i + 1).drop_last() =~= buf@.subrange(
                start as int,
                i as int,
            ));
            assert(buf@.subrange(start as int, i + 1).last() == buf@[i as int]);
        }
        val = val * 256 + buf[i] as u64;
        i += 1;
    }
    proof {
        if start == 1 {
            lemma_be_val_zero_prefix(buf@);
        }
        assert(buf@.subrange(start as int, len as int) =~= if start == 1 {
            buf@.subrange(1, buf@.len() as int)
        } else {
            buf@
        });
    }
    SanitizedUint::InRange(val)
}

/// What decoding a node against a maximum width yields: a pair fails
/// with the caller's error kind, an atom is classified by its bytes.
pub open spec fn spec_sanitize_uint_node(
    av: Option<Seq<u8>>,
    n: NodePtr,
    w: int,
    code: ErrorCode,
) -> Result<SanitizedUint, ValidationErr> {
    match av {
        Some(b) => Ok(spec_sanitize_uint(b, w)),
        None => Err(ValidationErr(n, code)),
    }
}

/// Decode a node as a bounded, canonically encoded, non-negative integer:
/// the single numeric gate behind the amount parser.
pub fn sanitize_uint(a: &Allocator, n: NodePtr, max_size: usize, code: ErrorCode) -> (r: Result<
    SanitizedUint,
    ValidationErr,
>)
    requires
        valid_node(*a, n),
        max_size <= 8,
    ensures
        r == spec_sanitize_uint_node(atom_view(*a, n), n, max_size as int, code),
{
    let buf = match atom(a, n, code) {
        Ok(buf) => buf,
        Err(e) => {
            return Err(e);
        },
    };
    Ok(decode_canonical_uint(buf.as_slice(), max_size))
}

/// Short byte strings that read as non-negative, with no redundant
/// leading zero, decode to their big-endian value.
pub proof fn lemma_short_nonnegative_in_range(b: Seq<u8>, w: int)
    requires
        0 <= w <= 8,
        b.len() <= w,
        b.len() > 0 ==> b[0] & 0x80 == 0,
        b.len() > 0 && b[0] == 0 ==> b.len() >= 2 && b[1] & 0x80 != 0,
    ensures
        spec_sanitize_uint(b, w) == SanitizedUint::InRange(be_val(b) as u64),
        be_val(b) < pow256(8),
{
    lemma_be_val_bound(b);
    lemma_pow256_le(b.len(), 8);
    if b.len() > 0 && b[0] == 0 {
        assert(0u8 & 0x80 == 0) by (bit_vector);
    }
}

/// A byte string that fits the width budget and whose first byte has its
/// sign bit set encodes a negative value.
pub proof fn lemma_negative_rejected(b: Seq<u8>, w: int)
    requires
        w >= 0,
        b.len() <= w + 1,
        b.len() > 0,
        b[0] & 0x80 != 0,
    ensures
        spec_sanitize_uint(b, w) == SanitizedUint::NegativeOverflow,
{
}

/// A string of exactly `w + 1` bytes whose leading zero shields a byte
/// with its sign bit set is in range: the zero is the one the encoding
/// permits, and it does not change the value.
pub proof fn lemma_guarded_leading_zero_in_range(b: Seq<u8>, w: int)
    requires
        1 <= w <= 8,
        b.len() == w + 1,
        b[0] == 0,
        b[1] & 0x80 != 0,
    ensures
        spec_sanitize_uint(b, w) == SanitizedUint::InRange(
            be_val(b.subrange(1, b.len() as int)) as u64,
        ),
        be_val(b) == be_val(b.subrange(1, b.len() as int)),
        be_val(b) < pow256(8),
{
    assert(0u8 & 0x80 == 0) by (bit_vector);
    lemma_be_val_zero_prefix(b);
    lemma_be_val_bound(b.subrange(1, b.len() as int));
    lemma_pow256_le(b.subrange(1, b.len() as int).len(), 8);
}

/// A leading zero that the following byte does not require is redundant,
/// and the string is rejected as non-canonical at any length.
pub proof fn lemma_redundant_leading_zero_rejected(b: Seq<u8>, w: int)
    requires
        w >= 0,
        b.len() > 0,
        b[0] == 0,
        b.len() == 1 || b[1] & 0x80 == 0,
    ensures
        spec_sanitize_uint(b, w) == SanitizedUint::PositiveOverflow,
{
    assert(0u8 & 0x80 == 0) by (bit_vector);
}

/// Byte strings longer than `w + 1` cannot fit the width budget.
pub proof fn lemma_oversize_rejected(b: Seq<u8>, w: int)
    requires
        b.len() > w + 1,
    ensures
        spec_sanitize_uint(b, w) == SanitizedUint::PositiveOverflow,
{
}

/// Re-decoding the canonical re-encoding of an in-range value reproduces
/// that value.
pub proof fn lemma_reencode_round_trip(b: Seq<u8>, w: int, v: u64)
    requires
        0 <= w <= 8,
        spec_sanitize_uint(b, w) == SanitizedUint::InRange(v),
    ensures
        spec_sanitize_uint(canonical_encoding(v as nat), w) == SanitizedUint::InRange(v),
{
    // The decoded value is the big-endian value of `b`, and it fits `w` bytes.
    if b.len() > 0 && b[0] == 0 {
        lemma_be_val_zero_prefix(b);
        lemma_be_val_bound(b.subrange(1, b.len() as int));
        lemma_pow256_le(b.subrange(1, b.len() as int).len(), w as nat);
    } else {
        lemma_be_val_bound(b);
        lemma_pow256_le(b.len(), w as nat);
    }
    lemma_pow256_le(w as nat, 8);
    assert(pow256(8) == 0x1_0000_0000_0000_0000) by {
        reveal_with_fuel(pow256, 9);
    }
    assert(be_val(b) < pow256(w as nat));
    assert(v == be_val(b));
    lemma_decode_of_encoding(v as nat, w);
}

/// Decoding the canonical encoding of a value that fits `w` bytes yields
/// that value.
pub proof fn lemma_decode_of_encoding(v: nat, w: int)
    requires
        0 <= w <= 8,
        v < pow256(w as nat),
    ensures
        spec_sanitize_uint(canonical_encoding(v), w) == SanitizedUint::InRange(v as u64),
{
    lemma_be_bytes_val(v);
    lemma_be_bytes_len(v, w as nat);
    lemma_pow256_le(w as nat, 8);
    assert(pow256(8) == 0x1_0000_0000_0000_0000) by {
        reveal_with_fuel(pow256, 9);
    }
    let b = be_bytes(v);
    let enc = canonical_encoding(v);
    if v == 0 {
        assert(enc =~= Seq::<u8>::empty());
    } else {
        lemma_be_bytes_first(v);
        if b[0] & 0x80 != 0 {
            assert(enc == seq![0u8] + b);
            assert(enc.len() == b.len() + 1);
            assert(enc[0] == 0);
            assert(enc[1] == b[0]);
            assert(0u8 & 0x80 == 0) by (bit_vector);
            lemma_be_val_zero_prefix(enc);
            assert(enc.subrange(1, enc.len() as int) =~= b);
        }
    }
}

/// Encode a value in its canonical byte string: minimal big-endian bytes,
/// with one leading zero exactly when the first byte would otherwise read
/// as negative.
pub fn encode_canonical_uint(v: u64) -> (r: Vec<u8>)
    ensures
        r@ == canonical_encoding(v as nat),
{
    let mut out: Vec<u8> = Vec::new();
    let mut tmp: u64 = v;
    while tmp > 0
        invariant
            be_bytes(v as nat) == be_bytes(tmp as nat) + out@,
        decreases tmp,
    {
        let ghost prev = tmp;
        let ghost prev_out = out@;
        let d: u8 = (tmp % 256) as u8;
        out.insert(0, d);
        tmp = tmp / 256;
        proof {
            assert(be_bytes(prev as nat) == be_bytes(tmp as nat).push(d));
            assert(be_bytes(tmp as nat).push(d) + prev_out =~= be_bytes(tmp as nat) + out@);
        }
    }
    proof {
        assert(be_bytes(v as nat) =~= out@);
    }
    if out.len() > 0 && out[0] & 0x80 != 0 {
        out.insert(0, 0);
        proof {
            assert(out@ =~= seq![0u8] + be_bytes(v as nat));
        }
    }
    out
}

} // verus!
