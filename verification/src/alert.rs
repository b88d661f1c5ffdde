//! The alert sink's side of the watch: which sound goes with which alert.
//!
//! Playing a sound is left to the caller. It blocks until the sound has
//! ended, and a sound that cannot be played ends the process.

use vstd::prelude::*;
use vstd::string::*;
use crate::tracker::AlertKind;

verus! {

/// The path of the sound for an alert, from the directory in which the
/// process runs.
pub open spec fn cue_of(kind: AlertKind) -> Seq<char> {
    match kind {
        AlertKind::UpwardBreak => "../big_pimpin.mp3"@,
        AlertKind::DownwardBreak => "../nooo.mp3"@,
    }
}

impl AlertKind {
    /// The path of the sound that goes with this alert.
    pub fn cue_path(&self) -> (path: &'static str)
        ensures
            path@ == cue_of(*self),
    {
        match self {
            AlertKind::UpwardBreak => "../big_pimpin.mp3",
            AlertKind::DownwardBreak => "../nooo.mp3",
        }
    }
}

/// The two alerts have different sounds.
pub proof fn law_cues_differ()
    ensures
        cue_of(AlertKind::UpwardBreak) != cue_of(AlertKind::DownwardBreak),
{
    reveal_strlit("../big_pimpin.mp3");
    reveal_strlit("../nooo.mp3");
    assert(cue_of(AlertKind::UpwardBreak).len() == 17);
}

} // verus!
