//! Cue helpers shared by the analysis file converters.

use vstd::prelude::*;
use crate::entities::{CueAndLoop, HotcueButton};

verus! {

/// The entry `make_cue_loop_entry` builds: a loop, or a cue point, that is
/// a hot one when a button is given; nothing for an entry that is neither a
/// cue nor a loop, button or not.
pub open spec fn cue_loop_entry(is_cue: bool, is_loop: bool, offset: u32, length: i64, button: Option<HotcueButton>) -> Option<CueAndLoop> {
    match button {
        Some(b) => if is_loop {
            Some(CueAndLoop::HotLoop { offset, length, button: b, label: None, color: None })
        } else if is_cue {
            Some(CueAndLoop::HotCue { offset, button: b, label: None, color: None })
        } else {
            None
        },
        None => if is_loop {
            Some(CueAndLoop::Loop { offset, length, label: None, color: None })
        } else if is_cue {
            Some(CueAndLoop::CuePoint { offset, label: None, color: None })
        } else {
            None
        },
    }
}

/// Create a CueAndLoop entry given common parameters. `None` when the entry
/// is neither a cue nor a loop (likely a leftover that was removed).
pub fn make_cue_loop_entry(is_cue: bool, is_loop: bool, offset: u32, length: i64, button: Option<HotcueButton>) -> (r: Option<CueAndLoop>)
    ensures
        r == cue_loop_entry(is_cue, is_loop, offset, length, button),
{
    match button {
        Some(b) => if is_loop {
            Some(CueAndLoop::HotLoop { offset, length, button: b, label: None, color: None })
        } else if is_cue {
            Some(CueAndLoop::HotCue { offset, button: b, label: None, color: None })
        } else {
            None
        },
        None => if is_loop {
            Some(CueAndLoop::Loop { offset, length, label: None, color: None })
        } else if is_cue {
            Some(CueAndLoop::CuePoint { offset, label: None, color: None })
        } else {
            None
        },
    }
}

} // verus!
