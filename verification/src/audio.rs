//! The sound played when a message from someone else arrives.

use vstd::prelude::*;

verus! {

/// Plays the new-message sound. Audio output is not wired up: the call
/// does nothing.
pub fn play_notification() {
}

} // verus!
