//! Policy flags threaded through a validation pass.

use vstd::prelude::*;

verus! {

/// The policy bit that asks for the stricter mempool/standardness rules
/// on top of plain consensus validation. The caller sets it once per
/// validation pass.
pub const NO_UNKNOWN_CONDS: u32 = 0x20000;

} // verus!
