//! Throttling of outgoing local-cursor awareness updates (about 30 Hz).
//!
//! A cursor update is emitted only when the position changed since the
//! last emitted one and at least [`MIN_INTERVAL_MS`] elapsed since the
//! last emission ; the very first update is always emitted.

use vstd::prelude::*;

verus! {

/// Minimum interval between two cursor emissions, in milliseconds.
pub const MIN_INTERVAL_MS: u64 = 33;

/// Whether a cursor update is emitted now : the cursor `moved` since the
/// last emitted position, and either nothing was emitted yet
/// (`elapsed_ms` is `None`) or at least [`MIN_INTERVAL_MS`] milliseconds
/// elapsed since the last emission.
pub fn cursor_should_emit(moved: bool, elapsed_ms: Option<u128>) -> (emit: bool)
    ensures
        emit == (moved && match elapsed_ms {
            None => true,
            Some(ms) => ms >= MIN_INTERVAL_MS,
        }),
{
    if !moved {
        return false;
    }
    match elapsed_ms {
        None => true,
        Some(ms) => ms >= MIN_INTERVAL_MS as u128,
    }
}

} // verus!
