//! Play-state classification helpers.

use vstd::prelude::*;
use crate::types::PlayState;

verus! {

/// Returns true if the play state is a playing one.
pub fn is_playing(s: PlayState) -> (r: bool)
    ensures
        r == (s == PlayState::Playing || s == PlayState::Looping),
{
    match s {
        PlayState::Playing | PlayState::Looping => true,
        _ => false,
    }
}

/// Returns true if the play state is a stopping one.
pub fn is_stopping(s: PlayState) -> (r: bool)
    ensures
        r == (s == PlayState::Cued || s == PlayState::Ended || s == PlayState::Loading),
{
    match s {
        PlayState::Cued | PlayState::Ended | PlayState::Loading => true,
        _ => false,
    }
}

} // verus!
