//! The emoji asset library: the bundled catalog's entries, the styles an
//! emoji can be shown in, the order styles are tried in, and which
//! downloads a lookup needs.

use vstd::prelude::*;

use crate::cache::{asset_path, CacheRoot, EmojiId};
use crate::protocol::EmojiInfo;
use crate::text::{chars_of, eq_chars};

verus! {

/// A rendering style of an emoji.
#[derive(Debug, Clone, Copy, PartialEq, Eq, Hash, Structural)]
pub enum Style {
    Animated,
    Render3D,
    Color,
    Flat,
    HighContrast,
}

/// A skin-tone variant.
#[derive(Debug, Clone, Copy, PartialEq, Eq, Hash, Structural)]
pub enum SkinTone {
    /// No skin-tone modifier.
    NoTone,
    Default,
    Light,
    MediumLight,
    Medium,
    MediumDark,
    Dark,
}

/// The styles the Fluent library falls back through: animated, then the
/// static 3D render.
pub fn fallback_chain() -> (res: Vec<Style>)
    ensures
        res@ == seq![Style::Animated, Style::Render3D],
{
    let mut v = Vec::new();
    v.push(Style::Animated);
    v.push(Style::Render3D);
    assert(v@ =~= seq![Style::Animated, Style::Render3D]);
    v
}

/// The styles tried for a lookup: `preferred` first, then the fallback
/// chain with `preferred` left out.
pub open spec fn other_style(preferred: Style) -> spec_fn(Style) -> bool {
    |s: Style| s != preferred
}

pub open spec fn resolution_order_spec(preferred: Style, chain: Seq<Style>) -> Seq<Style> {
    seq![preferred] + chain.filter(other_style(preferred))
}

pub fn resolution_order(preferred: Style, chain: &[Style]) -> (res: Vec<Style>)
    ensures
        res@ == resolution_order_spec(preferred, chain@),
{
    let ghost pred = other_style(preferred);
    let mut out: Vec<Style> = Vec::new();
    out.push(preferred);
    let mut i: usize = 0;
    assert(chain@.take(0) =~= Seq::<Style>::empty());
    while i < chain.len()
        invariant
            i <= chain@.len(),
            pred == other_style(preferred),
            out@ == seq![preferred] + chain@.take(i as int).filter(pred),
        decreases chain@.len() - i,
    {
        assert(chain@.take(i + 1) =~= chain@.take(i as int).push(chain@[i as int]));
        proof {
            chain@.take(i as int).lemma_filter_push(chain@[i as int], pred);
        }
        let ghost before = out@;
        if chain[i] != preferred {
            out.push(chain[i]);
            assert(out@ =~= before.push(chain@[i as int]));
        }
        i = i + 1;
    }
    assert(chain@.take(chain@.len() as int) =~= chain@);
    out
}

/// The (style, tone) lookups a trigger tries in turn: every style of the
/// resolution order for the animated style without a tone, then the
/// same with the default tone.
pub open spec fn activation_attempts_spec(chain: Seq<Style>) -> Seq<(Style, SkinTone)> {
    let order = resolution_order_spec(Style::Animated, chain);
    order.map_values(|s: Style| (s, SkinTone::NoTone)) + order.map_values(
        |s: Style| (s, SkinTone::Default),
    )
}

pub fn activation_attempts(chain: &[Style]) -> (res: Vec<(Style, SkinTone)>)
    ensures
        res@ == activation_attempts_spec(chain@),
{
    let order = resolution_order(Style::Animated, chain);
    let mut out: Vec<(Style, SkinTone)> = Vec::new();
    let mut i: usize = 0;
    while i < order.len()
        invariant
            i <= order@.len(),
            out@ == order@.take(i as int).map_values(|s: Style| (s, SkinTone::NoTone)),
        decreases order@.len() - i,
    {
        out.push((order[i], SkinTone::NoTone));
        i = i + 1;
        assert(out@ =~= order@.take(i as int).map_values(|s: Style| (s, SkinTone::NoTone)));
    }
    let mut j: usize = 0;
    assert(order@.take(order@.len() as int) =~= order@);
    while j < order.len()
        invariant
            j <= order@.len(),
            out@ == order@.map_values(|s: Style| (s, SkinTone::NoTone)) + order@.take(
                j as int,
            ).map_values(|s: Style| (s, SkinTone::Default)),
        decreases order@.len() - j,
    {
        out.push((order[j], SkinTone::Default));
        j = j + 1;
        assert(out@ =~= order@.map_values(|s: Style| (s, SkinTone::NoTone)) + order@.take(
            j as int,
        ).map_values(|s: Style| (s, SkinTone::Default)));
    }
    assert(order@.take(order@.len() as int) =~= order@);
    out
}

/// The cache holds one tone per emoji; no tone and the default tone
/// are the same asset, the others are not available.
pub fn tone_available(tone: SkinTone) -> (res: bool)
    ensures
        res == (tone == SkinTone::NoTone || tone == SkinTone::Default),
{
    match tone {
        SkinTone::NoTone | SkinTone::Default => true,
        _ => false,
    }
}

/// Which cached asset a style is drawn from.
#[derive(Debug, Clone, Copy, PartialEq, Eq, Structural)]
pub enum AssetKind {
    /// The animated PNG.
    Animated,
    /// The static 3D preview.
    Static,
}

/// The asset a style needs; `None` for the styles the cache does not
/// hold.
pub fn asset_for_style(style: Style) -> (res: Option<AssetKind>)
    ensures
        res == (match style {
            Style::Animated => Some(AssetKind::Animated),
            Style::Render3D => Some(AssetKind::Static),
            _ => None::<AssetKind>,
        }),
{
    match style {
        Style::Animated => Some(AssetKind::Animated),
        Style::Render3D => Some(AssetKind::Static),
        _ => None,
    }
}

/// One entry of the bundled catalog.
#[derive(Debug, Clone)]
pub struct CatalogEntry {
    pub id: String,
    pub name: String,
    pub glyph: String,
    pub group: String,
    pub keywords: Vec<String>,
    pub has_animated: bool,
    /// Upstream path of the static 3D preview; empty when there is none.
    pub static_path: String,
    /// Upstream path of the animated PNG; empty when there is none.
    pub animated_path: String,
}

/// The first entry of `entries` whose id is `id`.
pub open spec fn first_entry(entries: Seq<CatalogEntry>, id: Seq<char>) -> Option<CatalogEntry>
    decreases entries.len(),
{
    if entries.len() == 0 {
        None
    } else if entries[0].id@ == id {
        Some(entries[0])
    } else {
        first_entry(entries.drop_first(), id)
    }
}

proof fn lemma_first_entry_at(entries: Seq<CatalogEntry>, id: Seq<char>, k: int)
    requires
        0 <= k < entries.len(),
        entries[k].id@ == id,
        forall|j: int| 0 <= j < k ==> (#[trigger] entries[j]).id@ != id,
    ensures
        first_entry(entries, id) == Some(entries[k]),
    decreases k,
{
    if k > 0 {
        assert(entries[0].id@ != id);
        lemma_first_entry_at(entries.drop_first(), id, k - 1);
    }
}

proof fn lemma_first_entry_none(entries: Seq<CatalogEntry>, id: Seq<char>)
    requires
        forall|j: int| 0 <= j < entries.len() ==> (#[trigger] entries[j]).id@ != id,
    ensures
        first_entry(entries, id) is None,
    decreases entries.len(),
{
    if entries.len() > 0 {
        assert(entries[0].id@ != id);
        lemma_first_entry_none(entries.drop_first(), id);
    }
}

/// The bundled emoji catalog.
#[derive(Debug, Clone)]
pub struct Catalog {
    entries: Vec<CatalogEntry>,
}

impl Catalog {
    pub fn new(entries: Vec<CatalogEntry>) -> (res: Self)
        ensures
            res.entries_spec() == entries@,
    {
        Catalog { entries }
    }

    pub closed spec fn entries_spec(&self) -> Seq<CatalogEntry> {
        self.entries@
    }

    pub fn entries(&self) -> (res: &Vec<CatalogEntry>)
        ensures
            res@ == self.entries_spec(),
    {
        &self.entries
    }

    pub fn len(&self) -> (res: usize)
        ensures
            res == self.entries_spec().len(),
    {
        self.entries.len()
    }

    /// Position of the first entry whose id is `id`.
    pub fn position(&self, id: &EmojiId) -> (res: Option<usize>)
        ensures
            match res {
                Some(k) => k < self.entries_spec().len() && self.entries_spec()[k as int].id@ == id@
                    && forall|j: int| 0 <= j < k ==> (#[trigger] self.entries_spec()[j]).id@ != id@,
                None => forall|j: int|
                    0 <= j < self.entries_spec().len() ==> (#[trigger] self.entries_spec()[j]).id@
                        != id@,
            },
    {
        let target = chars_of(id.as_str());
        let mut i: usize = 0;
        while i < self.entries.len()
            invariant
                i <= self.entries@.len(),
                target@ == id@,
                forall|j: int| 0 <= j < i ==> (#[trigger] self.entries@[j]).id@ != id@,
            decreases self.entries@.len() - i,
        {
            if eq_chars(&chars_of(self.entries[i].id.as_str()), &target) {
                return Some(i);
            }
            i = i + 1;
        }
        None
    }

    /// The first entry whose id is `id`.
    pub fn get(&self, id: &EmojiId) -> (res: Option<&CatalogEntry>)
        ensures
            match res {
                Some(e) => exists|k: int|
                    0 <= k < self.entries_spec().len() && self.entries_spec()[k] == *e && e.id@
                        == id@ && forall|j: int|
                        0 <= j < k ==> (#[trigger] self.entries_spec()[j]).id@ != id@,
                None => forall|j: int|
                    0 <= j < self.entries_spec().len() ==> (#[trigger] self.entries_spec()[j]).id@
                        != id@,
            },
            match res {
                Some(e) => first_entry(self.entries_spec(), id@) == Some(*e),
                None => first_entry(self.entries_spec(), id@) is None,
            },
    {
        let target = chars_of(id.as_str());
        let mut i: usize = 0;
        while i < self.entries.len()
            invariant
                i <= self.entries@.len(),
                target@ == id@,
                forall|j: int| 0 <= j < i ==> (#[trigger] self.entries@[j]).id@ != id@,
            decreases self.entries@.len() - i,
        {
            if eq_chars(&chars_of(self.entries[i].id.as_str()), &target) {
                assert(self.entries_spec()[i as int] == self.entries@[i as int]);
                proof {
                    lemma_first_entry_at(self.entries@, id@, i as int);
                }
                return Some(&self.entries[i]);
            }
            i = i + 1;
        }
        proof {
            lemma_first_entry_none(self.entries@, id@);
        }
        None
    }
}

fn clone_strings(v: &Vec<String>) -> (res: Vec<String>)
    ensures
        res@ == v@,
{
    let mut out: Vec<String> = Vec::new();
    let mut i: usize = 0;
    while i < v.len()
        invariant
            i <= v@.len(),
            out@ == v@.take(i as int),
        decreases v@.len() - i,
    {
        out.push(v[i].clone());
        i = i + 1;
        assert(out@ =~= v@.take(i as int));
    }
    assert(v@.take(v@.len() as int) =~= v@);
    out
}

/// How a catalog entry is listed to the UI: its fields, and where its
/// static preview is cached.
pub fn emoji_info(entry: &CatalogEntry, cache: &CacheRoot) -> (res: EmojiInfo)
    ensures
        res.id == entry.id,
        res.name == entry.name,
        res.glyph == entry.glyph,
        res.group == entry.group,
        res.keywords@ == entry.keywords@,
        res.has_animated == entry.has_animated,
        res.preview_path@ == asset_path(cache@, "previews"@, entry.id@),
{
    let id = EmojiId::new(entry.id.clone());
    EmojiInfo {
        id: entry.id.clone(),
        name: entry.name.clone(),
        glyph: entry.glyph.clone(),
        group: entry.group.clone(),
        keywords: clone_strings(&entry.keywords),
        has_animated: entry.has_animated,
        preview_path: cache.preview_path(&id),
    }
}

/// Every catalog entry as the UI sees it, in catalog order.
pub fn list_emoji(catalog: &Catalog, cache: &CacheRoot) -> (res: Vec<EmojiInfo>)
    ensures
        res@.len() == catalog.entries_spec().len(),
        forall|i: int|
            0 <= i < res@.len() ==> {
                let e = catalog.entries_spec()[i];
                &&& (#[trigger] res@[i]).id == e.id
                &&& res@[i].name == e.name
                &&& res@[i].glyph == e.glyph
                &&& res@[i].group == e.group
                &&& res@[i].keywords@ == e.keywords@
                &&& res@[i].has_animated == e.has_animated
                &&& res@[i].preview_path@ == asset_path(cache@, "previews"@, e.id@)
            },
{
    let entries = catalog.entries();
    let mut out: Vec<EmojiInfo> = Vec::new();
    let mut i: usize = 0;
    while i < entries.len()
        invariant
            i <= entries@.len(),
            entries@ == catalog.entries_spec(),
            out@.len() == i,
            forall|k: int|
                0 <= k < i ==> {
                    let e = catalog.entries_spec()[k];
                    &&& (#[trigger] out@[k]).id == e.id
                    &&& out@[k].name == e.name
                    &&& out@[k].glyph == e.glyph
                    &&& out@[k].group == e.group
                    &&& out@[k].keywords@ == e.keywords@
                    &&& out@[k].has_animated == e.has_animated
                    &&& out@[k].preview_path@ == asset_path(cache@, "previews"@, e.id@)
                },
        decreases entries@.len() - i,
    {
        out.push(emoji_info(&entries[i], cache));
        i = i + 1;
    }
    out
}

/// A download the library needs: the cache file and the upstream path.
#[derive(Debug, Clone)]
pub struct Fetch {
    pub dest: String,
    pub upstream_path: String,
}

/// The static preview download of an entry; none when the entry has no
/// static path.
pub fn static_fetch(entry: &CatalogEntry, cache: &CacheRoot) -> (res: Option<Fetch>)
    ensures
        match res {
            Some(f) => entry.static_path@.len() > 0 && f.dest@ == asset_path(
                cache@,
                "previews"@,
                entry.id@,
            ) && f.upstream_path == entry.static_path,
            None => entry.static_path@.len() == 0,
        },
{
    if entry.static_path.as_str().is_empty() {
        return None;
    }
    let id = EmojiId::new(entry.id.clone());
    Some(Fetch { dest: cache.preview_path(&id), upstream_path: entry.static_path.clone() })
}

/// The animated download of an entry; none when the entry has no
/// animation or no animated path.
pub fn animated_fetch(entry: &CatalogEntry, cache: &CacheRoot) -> (res: Option<Fetch>)
    ensures
        match res {
            Some(f) => entry.has_animated && entry.animated_path@.len() > 0 && f.dest@
                == asset_path(cache@, "animated"@, entry.id@) && f.upstream_path
                == entry.animated_path,
            None => !entry.has_animated || entry.animated_path@.len() == 0,
        },
{
    if !entry.has_animated || entry.animated_path.as_str().is_empty() {
        return None;
    }
    let id = EmojiId::new(entry.id.clone());
    Some(Fetch { dest: cache.animated_path(&id), upstream_path: entry.animated_path.clone() })
}

/// A frame delay given as a fraction `num / den` of milliseconds, in
/// microseconds; a zero denominator reads as 100 ms.
pub fn frame_delay_micros(num: u32, den: u32) -> (res: u64)
    ensures
        res == (if den == 0 {
            100_000
        } else {
            (num as int * 1000) / den as int
        }),
{
    if den == 0 {
        return 100_000;
    }
    (num as u64) * 1000 / (den as u64)
}

/// What looking up `(emoji, style, tone)` needs from the cache: the kind
/// of asset, where it is cached and its upstream path. `None` when the
/// tone is not cached, the emoji is not in the catalog, the style has no
/// cached asset, or the entry has no such asset.
pub open spec fn lookup_plan_spec(
    entries: Seq<CatalogEntry>,
    root: Seq<char>,
    emoji: Seq<char>,
    style: Style,
    tone: SkinTone,
) -> Option<(AssetKind, Seq<char>, Seq<char>)> {
    if !(tone == SkinTone::NoTone || tone == SkinTone::Default) {
        None
    } else {
        match first_entry(entries, emoji) {
            None => None,
            Some(e) => match style {
                Style::Animated => if e.has_animated && e.animated_path@.len() > 0 {
                    Some((AssetKind::Animated, asset_path(root, "animated"@, e.id@), e.animated_path@))
                } else {
                    None
                },
                Style::Render3D => if e.static_path@.len() > 0 {
                    Some((AssetKind::Static, asset_path(root, "previews"@, e.id@), e.static_path@))
                } else {
                    None
                },
                _ => None,
            },
        }
    }
}

/// The cache holds one tone per asset: a lookup in the default skin tone
/// reads exactly what the tone-less lookup reads, for every catalog,
/// emoji and style; any other tone finds nothing. Where the catalog's
/// first entry for `emoji` has an animated PNG, an animated lookup in
/// either of those tones plans it, cached under `animated`; where it has
/// a static render, a 3D lookup plans that, cached under `previews`.
pub proof fn law_default_tone_reads_the_toneless_cache(
    entries: Seq<CatalogEntry>,
    root: Seq<char>,
    emoji: Seq<char>,
    style: Style,
    tone: SkinTone,
)
    ensures
        lookup_plan_spec(entries, root, emoji, style, SkinTone::Default) == lookup_plan_spec(
            entries,
            root,
            emoji,
            style,
            SkinTone::NoTone,
        ),
        !(tone == SkinTone::NoTone || tone == SkinTone::Default) ==> lookup_plan_spec(
            entries,
            root,
            emoji,
            style,
            tone,
        ) is None,
        (tone == SkinTone::NoTone || tone == SkinTone::Default) ==> match first_entry(entries, emoji) {
            Some(e) => {
                &&& (e.has_animated && e.animated_path@.len() > 0 ==> lookup_plan_spec(
                    entries,
                    root,
                    emoji,
                    Style::Animated,
                    tone,
                ) == Some((AssetKind::Animated, asset_path(root, "animated"@, emoji), e.animated_path@)))
                &&& (e.static_path@.len() > 0 ==> lookup_plan_spec(
                    entries,
                    root,
                    emoji,
                    Style::Render3D,
                    tone,
                ) == Some((AssetKind::Static, asset_path(root, "previews"@, emoji), e.static_path@)))
            },
            None => lookup_plan_spec(entries, root, emoji, style, tone) is None,
        },
{
    lemma_first_entry_id(entries, emoji);
}

proof fn lemma_first_entry_id(entries: Seq<CatalogEntry>, id: Seq<char>)
    ensures
        first_entry(entries, id) matches Some(e) ==> e.id@ == id,
    decreases entries.len(),
{
    if entries.len() > 0 && entries[0].id@ != id {
        lemma_first_entry_id(entries.drop_first(), id);
    }
}

/// The cached asset a lookup reads, and the download that fills it.
#[derive(Debug, Clone)]
pub struct LookupPlan {
    pub kind: AssetKind,
    pub fetch: Fetch,
}

/// Plans the lookup of `emoji` in `style` and `tone`: only the
/// tone-less (or default-tone) animated PNG and static 3D render are
/// cached.
pub fn lookup_plan(catalog: &Catalog, cache: &CacheRoot, emoji: &EmojiId, style: Style, tone: SkinTone) -> (res: Option<LookupPlan>)
    ensures
        match res {
            Some(p) => lookup_plan_spec(catalog.entries_spec(), cache@, emoji@, style, tone) == Some(
                (p.kind, p.fetch.dest@, p.fetch.upstream_path@),
            ),
            None => lookup_plan_spec(catalog.entries_spec(), cache@, emoji@, style, tone) is None,
        },
{
    if !tone_available(tone) {
        return None;
    }
    let entry = match catalog.get(emoji) {
        Some(e) => e,
        None => {
            return None;
        },
    };
    match asset_for_style(style) {
        Some(AssetKind::Animated) => match animated_fetch(entry, cache) {
            Some(f) => Some(LookupPlan { kind: AssetKind::Animated, fetch: f }),
            None => None,
        },
        Some(AssetKind::Static) => match static_fetch(entry, cache) {
            Some(f) => Some(LookupPlan { kind: AssetKind::Static, fetch: f }),
            None => None,
        },
        None => None,
    }
}

/// The next move of a lookup that tries its candidates in turn.
#[derive(Debug, Clone, Copy, PartialEq, Eq, Structural)]
pub enum ResolveStep {
    /// Candidate `i` had an asset: use it.
    Found(usize),
    /// Try candidate `i`.
    Try(usize),
    /// No candidate had an asset.
    Exhausted,
}

/// After candidate `attempt` of `attempts` was looked up: stop at the
/// first hit, else go on to the next candidate while there is one.
pub fn resolve_step(attempt: usize, attempts: usize, hit: bool) -> (res: ResolveStep)
    requires
        attempt < attempts,
    ensures
        res == (if hit {
            ResolveStep::Found(attempt)
        } else if attempt + 1 < attempts {
            ResolveStep::Try((attempt + 1) as usize)
        } else {
            ResolveStep::Exhausted
        }),
{
    if hit {
        ResolveStep::Found(attempt)
    } else if attempt + 1 < attempts {
        ResolveStep::Try(attempt + 1)
    } else {
        ResolveStep::Exhausted
    }
}

/// Where resolving lands when candidate `i` on reports `hits`: the first
/// hit from `i` on, or `None`.
pub open spec fn resolved_from(hits: Seq<bool>, i: int) -> Option<int>
    decreases hits.len() - i,
{
    if i < 0 || i >= hits.len() {
        None
    } else if hits[i] {
        Some(i)
    } else {
        resolved_from(hits, i + 1)
    }
}

/// Resolving from candidate `i` on (each miss moving on one candidate, as
/// `resolve_step` does) lands on the first candidate that has an asset,
/// and on none only when no candidate from `i` on has one.
pub proof fn law_resolution_takes_first_hit(hits: Seq<bool>, i: int)
    requires
        0 <= i,
    ensures
        resolved_from(hits, i) matches Some(k) ==> i <= k < hits.len() && hits[k] && forall|j: int|
            i <= j < k ==> !hits[j],
        resolved_from(hits, i) is None ==> forall|j: int| i <= j < hits.len() ==> !hits[j],
    decreases hits.len() - i,
{
    if i < hits.len() && !hits[i] {
        law_resolution_takes_first_hit(hits, i + 1);
    }
}

} // verus!
