//! What the repeat-last-emoji hotkey does when pressed.

use vstd::prelude::*;

use crate::prefs::UiPrefs;
use crate::safe_mode::{is_denied, json_string_array, DENYLIST_JSON};

verus! {

/// The outcome of a press of the repeat-last hotkey.
#[derive(Debug, Clone, PartialEq, Eq)]
pub enum RepeatAction {
    /// Nothing was triggered yet.
    NothingRecent,
    /// The last emoji is hidden by safe mode; the UI shows a notice.
    Blocked(String),
    /// Trigger the last emoji again.
    Trigger(String),
}

pub open spec fn denied_spec(id: Seq<char>) -> bool {
    json_string_array(DENYLIST_JSON@) matches Some(ids) && ids.contains(id)
}

/// The repeat-last hotkey repeats the most recent emoji, unless safe
/// mode is on and that emoji is on the denylist.
pub fn repeat_last(prefs: &UiPrefs) -> (res: RepeatAction)
    ensures
        match res {
            RepeatAction::NothingRecent => prefs.recents@.len() == 0,
            RepeatAction::Blocked(id) => prefs.recents@.len() > 0 && id@ == prefs.recents@[0]@
                && prefs.safe_mode && denied_spec(id@),
            RepeatAction::Trigger(id) => prefs.recents@.len() > 0 && id@ == prefs.recents@[0]@
                && !(prefs.safe_mode && denied_spec(id@)),
        },
{
    match prefs.last() {
        None => RepeatAction::NothingRecent,
        Some(id) => {
            if prefs.safe_mode && is_denied(id) {
                RepeatAction::Blocked(id.to_owned())
            } else {
                RepeatAction::Trigger(id.to_owned())
            }
        },
    }
}

} // verus!
