//! User-facing preferences: recently triggered emoji, favorites, hotkey
//! bindings, color scheme and safe mode.

use vstd::prelude::*;

use crate::config::StoredConfig;
use crate::text::{chars_of, eq_chars, views_of_strings};

verus! {

/// How many recently triggered emoji are remembered.
pub const RECENTS_LIMIT: usize = 12;

/// The color scheme used when none was chosen.
pub const DEFAULT_COLOR_SCHEME: &'static str = "dark";

#[derive(Debug, Clone)]
pub struct UiPrefs {
    /// Most recently triggered emoji ids, most recent first.
    pub recents: Vec<String>,
    pub favorites: Vec<String>,
    pub hotkey_toggle: Option<String>,
    pub hotkey_repeat: Option<String>,
    /// CSS `color-scheme`: "dark" forces dark widgets, "light dark"
    /// follows the system preference.
    pub color_scheme: String,
    /// When `true`, the picker hides emoji on the safe-mode denylist.
    pub safe_mode: bool,
}

pub open spec fn other_than(id: Seq<char>) -> spec_fn(Seq<char>) -> bool {
    |x: Seq<char>| x != id
}

/// Drops every occurrence of `id`.
pub open spec fn without(s: Seq<Seq<char>>, id: Seq<char>) -> Seq<Seq<char>> {
    s.filter(other_than(id))
}

pub open spec fn min_nat(a: nat, b: nat) -> nat {
    if a <= b {
        a
    } else {
        b
    }
}

/// `id` moved to the front of `recents`, other occurrences dropped, and
/// the list cut to `RECENTS_LIMIT`.
pub open spec fn recorded(recents: Seq<Seq<char>>, id: Seq<char>) -> Seq<Seq<char>> {
    let moved = seq![id] + without(recents, id);
    moved.take(min_nat(moved.len(), RECENTS_LIMIT as nat) as int)
}

/// What `record` does to `recents`, and whether the list changed: a
/// list that already starts with `id` is left alone.
pub open spec fn record_outcome(recents: Seq<Seq<char>>, id: Seq<char>) -> (Seq<Seq<char>>, bool) {
    if recents.len() > 0 && recents[0] == id {
        (recents, false)
    } else {
        (recorded(recents, id), true)
    }
}

/// Index of the first `id` in `s` at or after `i`, or -1.
pub open spec fn index_from(s: Seq<Seq<char>>, id: Seq<char>, i: int) -> int
    decreases s.len() - i,
{
    if i < 0 || i >= s.len() {
        -1
    } else if s[i] == id {
        i
    } else {
        index_from(s, id, i + 1)
    }
}

/// What `toggle_favorite` does to `favorites`, and the returned flag:
/// the first `id` is removed (flag `false`), or `id` is appended when
/// absent (flag `true`).
pub open spec fn toggle_outcome(favorites: Seq<Seq<char>>, id: Seq<char>) -> (Seq<Seq<char>>, bool) {
    let k = index_from(favorites, id, 0);
    if k >= 0 {
        (favorites.remove(k), false)
    } else {
        (favorites.push(id), true)
    }
}

pub open spec fn no_duplicates(s: Seq<Seq<char>>) -> bool {
    forall|i: int, j: int| 0 <= i < j < s.len() ==> s[i] != s[j]
}

impl Default for UiPrefs {
    fn default() -> (res: Self)
        ensures
            res.recents@.len() == 0,
            res.favorites@.len() == 0,
            res.hotkey_toggle is None,
            res.hotkey_repeat is None,
            res.color_scheme@ == DEFAULT_COLOR_SCHEME@,
            !res.safe_mode,
    {
        UiPrefs {
            recents: Vec::new(),
            favorites: Vec::new(),
            hotkey_toggle: None,
            hotkey_repeat: None,
            color_scheme: DEFAULT_COLOR_SCHEME.to_owned(),
            safe_mode: false,
        }
    }
}

fn clone_strings(v: &Vec<String>) -> (res: Vec<String>)
    ensures
        res@ == v@,
{
    let mut out: Vec<String> = Vec::new();
    let mut i: usize = 0;
    while i < v.len()
        invariant
            i <= v@.len(),
            out@ == v@.take(i as int),
        decreases v@.len() - i,
    {
        out.push(v[i].clone());
        i = i + 1;
        assert(out@ =~= v@.take(i as int));
    }
    assert(v@.take(v@.len() as int) =~= v@);
    out
}

fn clone_opt_string(v: &Option<String>) -> (res: Option<String>)
    ensures
        res == *v,
{
    match v {
        Some(s) => Some(s.clone()),
        None => None,
    }
}

impl UiPrefs {
    /// The preferences stored in `stored`: recents cut to
    /// `RECENTS_LIMIT`, "dark" when no color scheme was stored, and safe
    /// mode off when none was stored.
    pub fn from_stored(stored: &StoredConfig) -> (res: Self)
        ensures
            res.recents@ == stored.recents@.take(
                min_nat(stored.recents@.len(), RECENTS_LIMIT as nat) as int,
            ),
            res.favorites@ == stored.favorites@,
            res.hotkey_toggle == stored.hotkey_toggle,
            res.hotkey_repeat == stored.hotkey_repeat,
            res.color_scheme@ == (match stored.color_scheme {
                Some(c) => c@,
                None => DEFAULT_COLOR_SCHEME@,
            }),
            res.safe_mode == (match stored.safe_mode {
                Some(b) => b,
                None => false,
            }),
    {
        let mut recents = clone_strings(&stored.recents);
        recents.truncate(RECENTS_LIMIT);
        UiPrefs {
            recents,
            favorites: clone_strings(&stored.favorites),
            hotkey_toggle: clone_opt_string(&stored.hotkey_toggle),
            hotkey_repeat: clone_opt_string(&stored.hotkey_repeat),
            color_scheme: match &stored.color_scheme {
                Some(c) => c.clone(),
                None => DEFAULT_COLOR_SCHEME.to_owned(),
            },
            safe_mode: match stored.safe_mode {
                Some(b) => b,
                None => false,
            },
        }
    }

    /// Pushes `id` to the front of recents (deduplicated, capped at
    /// `RECENTS_LIMIT`). Returns `true` if the list changed.
    pub fn record(&mut self, id: &str) -> (changed: bool)
        ensures
            (views_of_strings(final(self).recents@), changed) == record_outcome(
                views_of_strings(old(self).recents@),
                id@,
            ),
            final(self).favorites == old(self).favorites,
            final(self).hotkey_toggle == old(self).hotkey_toggle,
            final(self).hotkey_repeat == old(self).hotkey_repeat,
            final(self).color_scheme == old(self).color_scheme,
            final(self).safe_mode == old(self).safe_mode,
    {
        let target = chars_of(id);
        if self.recents.len() > 0 && eq_chars(&chars_of(self.recents[0].as_str()), &target) {
            return false;
        }
        let ghost r = views_of_strings(self.recents@);
        let ghost pred = other_than(id@);
        let mut kept: Vec<String> = Vec::new();
        kept.push(id.to_owned());
        let mut i: usize = 0;
        assert(r.take(0) =~= Seq::<Seq<char>>::empty());
        while i < self.recents.len()
            invariant
                i <= self.recents@.len(),
                r == views_of_strings(self.recents@),
                target@ == id@,
                pred == other_than(id@),
                views_of_strings(kept@) == seq![id@] + r.take(i as int).filter(pred),
            decreases self.recents@.len() - i,
        {
            let ghost before = views_of_strings(kept@);
            assert(r.take(i + 1) =~= r.take(i as int).push(r[i as int]));
            proof {
                r.take(i as int).lemma_filter_push(r[i as int], pred);
            }
            if !eq_chars(&chars_of(self.recents[i].as_str()), &target) {
                kept.push(self.recents[i].clone());
                assert(views_of_strings(kept@) =~= before.push(r[i as int]));
            }
            i = i + 1;
        }
        assert(r.take(r.len() as int) =~= r);
        kept.truncate(RECENTS_LIMIT);
        assert(views_of_strings(kept@) =~= recorded(r, id@));
        self.recents = kept;
        true
    }

    /// Toggles `id` in favorites. Returns the new favorite state.
    pub fn toggle_favorite(&mut self, id: &str) -> (is_favorite: bool)
        ensures
            (views_of_strings(final(self).favorites@), is_favorite) == toggle_outcome(
                views_of_strings(old(self).favorites@),
                id@,
            ),
            final(self).recents == old(self).recents,
            final(self).hotkey_toggle == old(self).hotkey_toggle,
            final(self).hotkey_repeat == old(self).hotkey_repeat,
            final(self).color_scheme == old(self).color_scheme,
            final(self).safe_mode == old(self).safe_mode,
    {
        let target = chars_of(id);
        let ghost f = views_of_strings(self.favorites@);
        let mut i: usize = 0;
        let mut found = false;
        while i < self.favorites.len()
            invariant_except_break
                !found,
            invariant
                i <= self.favorites@.len(),
                f == views_of_strings(self.favorites@),
                target@ == id@,
                index_from(f, id@, 0) == index_from(f, id@, i as int),
            ensures
                i <= self.favorites@.len(),
                f == views_of_strings(self.favorites@),
                index_from(f, id@, 0) == index_from(f, id@, i as int),
                found ==> i < self.favorites@.len() && f[i as int] == id@,
                !found ==> i == self.favorites@.len(),
            decreases self.favorites@.len() - i,
        {
            if eq_chars(&chars_of(self.favorites[i].as_str()), &target) {
                assert(f[i as int] == id@);
                found = true;
                break;
            }
            i = i + 1;
        }
        if found {
            self.favorites.remove(i);
            assert(views_of_strings(self.favorites@) =~= f.remove(i as int));
            false
        } else {
            self.favorites.push(id.to_owned());
            assert(views_of_strings(self.favorites@) =~= f.push(id@));
            true
        }
    }

    /// A copy with the same fields.
    pub fn clone_fields(&self) -> (res: Self)
        ensures
            res.recents@ == self.recents@,
            res.favorites@ == self.favorites@,
            res.hotkey_toggle == self.hotkey_toggle,
            res.hotkey_repeat == self.hotkey_repeat,
            res.color_scheme == self.color_scheme,
            res.safe_mode == self.safe_mode,
    {
        UiPrefs {
            recents: clone_strings(&self.recents),
            favorites: clone_strings(&self.favorites),
            hotkey_toggle: clone_opt_string(&self.hotkey_toggle),
            hotkey_repeat: clone_opt_string(&self.hotkey_repeat),
            color_scheme: self.color_scheme.clone(),
            safe_mode: self.safe_mode,
        }
    }

    /// The most recently triggered emoji id, if any.
    pub fn last(&self) -> (res: Option<&str>)
        ensures
            match res {
                Some(s) => self.recents@.len() > 0 && s@ == self.recents@[0]@,
                None => self.recents@.len() == 0,
            },
    {
        if self.recents.len() > 0 {
            Some(self.recents[0].as_str())
        } else {
            None
        }
    }
}


proof fn lemma_filter_no_duplicates(s: Seq<Seq<char>>, p: spec_fn(Seq<char>) -> bool)
    requires
        no_duplicates(s),
    ensures
        no_duplicates(s.filter(p)),
        forall|x: Seq<char>| #[trigger] s.filter(p).contains(x) ==> s.contains(x) && p(x),
    decreases s.len(),
{
    reveal(Seq::filter);
    if s.len() > 0 {
        let rest = s.drop_last();
        assert(no_duplicates(rest)) by {
            assert forall|i: int, j: int| 0 <= i < j < rest.len() implies rest[i] != rest[j] by {
                assert(rest[i] == s[i] && rest[j] == s[j]);
            }
        }
        lemma_filter_no_duplicates(rest, p);
        assert forall|x: Seq<char>| #[trigger] s.filter(p).contains(x) implies s.contains(x) && p(
            x,
        ) by {
            if rest.filter(p).contains(x) {
                let k = choose|k: int| 0 <= k < rest.len() && rest[k] == x;
                assert(s[k] == x);
            } else {
                assert(x == s.last());
                assert(s[s.len() - 1] == x);
            }
        }
        if p(s.last()) {
            let f = rest.filter(p);
            assert(!f.contains(s.last())) by {
                if f.contains(s.last()) {
                    let k = choose|k: int| 0 <= k < rest.len() && rest[k] == s.last();
                    assert(s[k] == s[s.len() - 1]);
                }
            }
            assert forall|i: int, j: int| 0 <= i < j < f.push(s.last()).len() implies f.push(
                s.last(),
            )[i] != f.push(s.last())[j] by {
                if j == f.len() {
                    assert(f.contains(f[i]));
                }
            }
        }
    }
}

/// Recording `id` makes it the most recent entry, and a list of at most
/// `RECENTS_LIMIT` entries stays within that limit.
pub proof fn law_record_puts_id_first(recents: Seq<Seq<char>>, id: Seq<char>)
    ensures
        record_outcome(recents, id).0.len() > 0,
        record_outcome(recents, id).0[0] == id,
        recents.len() <= RECENTS_LIMIT ==> record_outcome(recents, id).0.len() <= RECENTS_LIMIT,
{
}

/// Recording the same id twice in a row changes nothing the second time.
pub proof fn law_record_twice_is_noop(recents: Seq<Seq<char>>, id: Seq<char>)
    ensures
        record_outcome(record_outcome(recents, id).0, id) == (record_outcome(recents, id).0, false),
{
}

/// Recording keeps a list of distinct ids distinct, and the id recorded
/// appears exactly once.
pub proof fn law_record_keeps_ids_distinct(recents: Seq<Seq<char>>, id: Seq<char>)
    requires
        no_duplicates(recents),
    ensures
        no_duplicates(record_outcome(recents, id).0),
{
    if !(recents.len() > 0 && recents[0] == id) {
        let p = other_than(id);
        lemma_filter_no_duplicates(recents, p);
        let f = without(recents, id);
        let moved = seq![id] + f;
        assert forall|i: int, j: int| 0 <= i < j < moved.len() implies moved[i] != moved[j] by {
            if i == 0 {
                assert(moved[j] == f[j - 1]);
                assert(f.contains(f[j - 1]));
            } else {
                assert(moved[i] == f[i - 1] && moved[j] == f[j - 1]);
            }
        }
        let r = record_outcome(recents, id).0;
        assert forall|i: int, j: int| 0 <= i < j < r.len() implies r[i] != r[j] by {
            assert(r[i] == moved[i] && r[j] == moved[j]);
        }
    }
}

proof fn lemma_index_from(s: Seq<Seq<char>>, id: Seq<char>, i: int)
    requires
        0 <= i,
    ensures
        index_from(s, id, i) == -1 || index_from(s, id, i) >= i,
        index_from(s, id, i) == -1 <==> (forall|k: int| i <= k < s.len() ==> s[k] != id),
        index_from(s, id, i) >= 0 ==> i <= index_from(s, id, i) < s.len() && s[index_from(
            s,
            id,
            i,
        )] == id && (forall|k: int| i <= k < index_from(s, id, i) ==> s[k] != id),
    decreases s.len() - i,
{
    if i < s.len() && s[i] != id {
        lemma_index_from(s, id, i + 1);
    }
}

/// `toggle_favorite` reports `true` exactly when `id` was not a
/// favorite; on a list of distinct ids it reports the new membership and
/// keeps the ids distinct.
pub proof fn law_toggle_reports_membership(favorites: Seq<Seq<char>>, id: Seq<char>)
    ensures
        toggle_outcome(favorites, id).1 == !favorites.contains(id),
        no_duplicates(favorites) ==> toggle_outcome(favorites, id).0.contains(id) == toggle_outcome(
            favorites,
            id,
        ).1,
        no_duplicates(favorites) ==> no_duplicates(toggle_outcome(favorites, id).0),
{
    lemma_index_from(favorites, id, 0);
    let k = index_from(favorites, id, 0);
    let r = toggle_outcome(favorites, id).0;
    if k >= 0 {
        assert(favorites.contains(id));
        if no_duplicates(favorites) {
            assert(!r.contains(id)) by {
                if r.contains(id) {
                    let j = choose|j: int| 0 <= j < r.len() && r[j] == id;
                    if j < k {
                        assert(r[j] == favorites[j]);
                    } else {
                        assert(r[j] == favorites[j + 1]);
                    }
                }
            }
            assert forall|a: int, b: int| 0 <= a < b < r.len() implies r[a] != r[b] by {
                let fa = if a < k {
                    a
                } else {
                    a + 1
                };
                let fb = if b < k {
                    b
                } else {
                    b + 1
                };
                assert(r[a] == favorites[fa] && r[b] == favorites[fb]);
            }
        }
    } else {
        assert(!favorites.contains(id)) by {
            if favorites.contains(id) {
                let j = choose|j: int| 0 <= j < favorites.len() && favorites[j] == id;
            }
        }
        assert(r[r.len() - 1] == id);
        if no_duplicates(favorites) {
            assert forall|a: int, b: int| 0 <= a < b < r.len() implies r[a] != r[b] by {
                if b == r.len() - 1 {
                    assert(r[a] == favorites[a]);
                }
            }
        }
    }
}

/// Toggling an id that is not a favorite twice restores the favorites.
pub proof fn law_toggle_twice_restores(favorites: Seq<Seq<char>>, id: Seq<char>)
    requires
        !favorites.contains(id),
    ensures
        toggle_outcome(toggle_outcome(favorites, id).0, id) == (favorites, false),
{
    lemma_index_from(favorites, id, 0);
    assert(index_from(favorites, id, 0) == -1) by {
        if index_from(favorites, id, 0) >= 0 {
            assert(favorites[index_from(favorites, id, 0)] == id);
        }
    }
    let once = favorites.push(id);
    lemma_index_from(once, id, 0);
    assert(index_from(once, id, 0) == favorites.len()) by {
        assert(forall|k: int| 0 <= k < favorites.len() ==> once[k] == favorites[k]);
        assert(forall|k: int| 0 <= k < favorites.len() ==> favorites[k] != id);
        assert(once[favorites.len() as int] == id);
    }
    assert(once.remove(favorites.len() as int) =~= favorites);
}

} // verus!
