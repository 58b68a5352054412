//! The emoji ids hidden when "safe mode" is on: a hand-curated list of
//! suggestive or rude emoji, bundled as JSON so that the daemon and the
//! UI agree on the same set without coordinating at runtime.

use vstd::prelude::*;

use crate::text::{chars_of, eq_chars, views_of_strings};

verus! {

/// The bundled denylist, a JSON array of emoji ids.
pub const DENYLIST_JSON: &'static str = "[\"middle_finger\", \"middle_finger_light_skin_tone\", \"middle_finger_medium_light_skin_tone\", \"middle_finger_medium_skin_tone\", \"middle_finger_medium_dark_skin_tone\", \"middle_finger_dark_skin_tone\", \"eggplant\", \"peach\", \"pile_of_poo\", \"face_vomiting\", \"see_no_evil_monkey\", \"kiss_mark\", \"tongue\", \"drop_of_blood\", \"syringe\", \"pill\", \"cigarette\", \"bomb\", \"pistol\", \"skull_and_crossbones\", \"face_with_symbols_on_mouth\"]";

/// What `serde_json` reads from `text` as a JSON array of strings:
/// the strings in order, or `None` when `text` is not such an array.
pub uninterp spec fn json_string_array(text: Seq<char>) -> Option<Seq<Seq<char>>>;

/// `serde_json::from_str::<Vec<String>>`: the strings of a JSON array,
/// named by `json_string_array`.
#[verifier::external_body]
fn parse_string_array(text: &str) -> (res: Option<Vec<String>>)
    ensures
        match res {
            Some(v) => json_string_array(text@) == Some(views_of_strings(v@)),
            None => json_string_array(text@) is None,
        },
{
    serde_json::from_str::<Vec<String>>(text).ok()
}

/// The ids on the bundled denylist; `None` if the bundled text does not
/// read as a JSON array of strings.
pub fn denied_ids() -> (res: Option<Vec<String>>)
    ensures
        match res {
            Some(v) => json_string_array(DENYLIST_JSON@) == Some(views_of_strings(v@)),
            None => json_string_array(DENYLIST_JSON@) is None,
        },
{
    parse_string_array(DENYLIST_JSON)
}

/// Whether `id` is one of `ids`.
pub fn is_denied_in(ids: &Vec<String>, id: &str) -> (res: bool)
    ensures
        res == views_of_strings(ids@).contains(id@),
{
    let target = chars_of(id);
    let mut i: usize = 0;
    while i < ids.len()
        invariant
            i <= ids@.len(),
            target@ == id@,
            forall|q: int| 0 <= q < i ==> ids@[q]@ != id@,
        decreases ids@.len() - i,
    {
        let candidate = chars_of(ids[i].as_str());
        if eq_chars(&candidate, &target) {
            assert(views_of_strings(ids@)[i as int] == id@);
            return true;
        }
        i = i + 1;
    }
    assert forall|q: int| 0 <= q < views_of_strings(ids@).len() implies views_of_strings(ids@)[q] != id@ by {
        assert(views_of_strings(ids@)[q] == ids@[q]@);
    }
    false
}

/// `true` when `id` should be hidden under safe mode. A bundled list
/// that does not read as a JSON array of strings hides nothing.
pub fn is_denied(id: &str) -> (res: bool)
    ensures
        res == (json_string_array(DENYLIST_JSON@) matches Some(ids) && ids.contains(id@)),
{
    match denied_ids() {
        Some(ids) => is_denied_in(&ids, id),
        None => false,
    }
}

} // verus!
