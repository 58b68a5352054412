//! Where emoji assets live: the on-disk cache layout
//! (`<root>/{previews,animated}/<id>.png`) and the upstream URLs they are
//! fetched from.

use vstd::prelude::*;

use crate::text::{chars_of, concat, string_from};

verus! {

/// A catalog key such as `"fire"`.
#[derive(Debug, Clone, PartialEq, Eq, Hash)]
pub struct EmojiId(String);

impl View for EmojiId {
    type V = Seq<char>;

    closed spec fn view(&self) -> Seq<char> {
        self.0@
    }
}

impl EmojiId {
    pub fn new(s: String) -> (res: Self)
        ensures
            res@ == s@,
    {
        EmojiId(s)
    }

    pub fn as_str(&self) -> (res: &str)
        ensures
            res@ == self@,
    {
        self.0.as_str()
    }
}

/// `Path::join` on Unix: an absolute `part` replaces `base`; otherwise
/// `part` is appended with one `'/'` between them unless `base` is empty
/// or already ends with one.
pub open spec fn join_path(base: Seq<char>, part: Seq<char>) -> Seq<char> {
    if part.len() > 0 && part[0] == '/' {
        part
    } else if base.len() == 0 || base.last() == '/' {
        base + part
    } else {
        base + seq!['/'] + part
    }
}

pub fn join(base: &str, part: &str) -> (res: String)
    ensures
        res@ == join_path(base@, part@),
{
    let b = chars_of(base);
    let p = chars_of(part);
    if p.len() > 0 && p[0] == '/' {
        return string_from(&p);
    }
    if b.len() == 0 || b[b.len() - 1] == '/' {
        return string_from(&concat(&b, &p));
    }
    let mut sep: Vec<char> = Vec::new();
    sep.push('/');
    let with_sep = concat(&b, &sep);
    assert(sep@ =~= seq!['/']);
    string_from(&concat(&with_sep, &p))
}

/// The cache directory, `$XDG_CACHE_HOME/gobcam` by default.
#[derive(Debug, Clone)]
pub struct CacheRoot {
    root: String,
}

impl View for CacheRoot {
    type V = Seq<char>;

    closed spec fn view(&self) -> Seq<char> {
        self.root@
    }
}

/// `<root>/<dir>/<id>.png`.
pub open spec fn asset_path(root: Seq<char>, dir: Seq<char>, id: Seq<char>) -> Seq<char> {
    join_path(join_path(root, dir), id + ".png"@)
}

impl CacheRoot {
    /// A cache rooted at `root` (whose subdirectories already exist).
    pub fn with_path(root: String) -> (res: Self)
        ensures
            res@ == root@,
    {
        CacheRoot { root }
    }

    pub fn root(&self) -> (res: &str)
        ensures
            res@ == self@,
    {
        self.root.as_str()
    }

    /// Where the static preview of `id` is cached.
    pub fn preview_path(&self, id: &EmojiId) -> (res: String)
        ensures
            res@ == asset_path(self@, "previews"@, id@),
    {
        let dir = join(self.root.as_str(), "previews");
        let mut name = id.as_str().to_owned();
        name.append(".png");
        join(dir.as_str(), name.as_str())
    }

    /// Where the animated PNG of `id` is cached.
    pub fn animated_path(&self, id: &EmojiId) -> (res: String)
        ensures
            res@ == asset_path(self@, "animated"@, id@),
    {
        let dir = join(self.root.as_str(), "animated");
        let mut name = id.as_str().to_owned();
        name.append(".png");
        join(dir.as_str(), name.as_str())
    }
}

/// Which upstream repository an asset comes from.
#[derive(Debug, Clone, Copy, PartialEq, Eq, Structural)]
pub enum Base {
    Static,
    Animated,
}

pub const STATIC_BASE: &'static str = "https://raw.githubusercontent.com/microsoft/fluentui-emoji/main/";

pub const ANIMATED_BASE: &'static str = "https://media.githubusercontent.com/media/microsoft/fluentui-emoji-animated/main/";

/// Every space replaced by `%20` (upstream paths hold spaces; the rest
/// of their characters are URL-safe).
pub open spec fn encode_spaces(s: Seq<char>) -> Seq<char>
    decreases s.len(),
{
    if s.len() == 0 {
        s
    } else {
        encode_spaces(s.drop_last()) + if s.last() == ' ' {
            seq!['%', '2', '0']
        } else {
            seq![s.last()]
        }
    }
}

pub open spec fn url_spec(base: Base, path: Seq<char>) -> Seq<char> {
    (match base {
        Base::Static => STATIC_BASE@,
        Base::Animated => ANIMATED_BASE@,
    }) + encode_spaces(path)
}

proof fn lemma_encoded_has_no_space(s: Seq<char>)
    ensures
        forall|i: int| 0 <= i < encode_spaces(s).len() ==> #[trigger] encode_spaces(s)[i] != ' ',
    decreases s.len(),
{
    if s.len() > 0 {
        lemma_encoded_has_no_space(s.drop_last());
        let head = encode_spaces(s.drop_last());
        let tail = if s.last() == ' ' {
            seq!['%', '2', '0']
        } else {
            seq![s.last()]
        };
        assert forall|i: int| 0 <= i < encode_spaces(s).len() implies #[trigger] encode_spaces(s)[i] != ' ' by {
            if i >= head.len() {
                assert(encode_spaces(s)[i] == tail[i - head.len()]);
            } else {
                assert(encode_spaces(s)[i] == head[i]);
            }
        }
    }
}

/// A download URL never holds a space, whatever the upstream path
/// holds, and it starts with the repository's base.
pub proof fn law_urls_have_no_spaces(base: Base, path: Seq<char>)
    ensures
        !url_spec(base, path).contains(' '),
        url_spec(base, path).take(
            (match base {
                Base::Static => STATIC_BASE@,
                Base::Animated => ANIMATED_BASE@,
            }).len() as int,
        ) == (match base {
            Base::Static => STATIC_BASE@,
            Base::Animated => ANIMATED_BASE@,
        }),
{
    reveal_strlit("https://raw.githubusercontent.com/microsoft/fluentui-emoji/main/");
    reveal_strlit("https://media.githubusercontent.com/media/microsoft/fluentui-emoji-animated/main/");
    lemma_encoded_has_no_space(path);
    let b = match base {
        Base::Static => STATIC_BASE@,
        Base::Animated => ANIMATED_BASE@,
    };
    let u = url_spec(base, path);
    assert(u.take(b.len() as int) =~= b);
    if u.contains(' ') {
        let k = choose|k: int| 0 <= k < u.len() && u[k] == ' ';
        if k < b.len() {
            assert(b[k] == ' ');
        } else {
            assert(encode_spaces(path)[k - b.len()] == ' ');
        }
    }
}

/// The download URL of the upstream asset at `path`.
pub fn url_for(base: Base, path: &str) -> (res: String)
    ensures
        res@ == url_spec(base, path@),
{
    let p = chars_of(path);
    let mut out = match base {
        Base::Static => chars_of(STATIC_BASE),
        Base::Animated => chars_of(ANIMATED_BASE),
    };
    let ghost prefix = out@;
    let mut i: usize = 0;
    while i < p.len()
        invariant
            i <= p@.len(),
            out@ == prefix + encode_spaces(p@.take(i as int)),
        decreases p@.len() - i,
    {
        assert(p@.take(i + 1).drop_last() =~= p@.take(i as int));
        let ghost before = out@;
        if p[i] == ' ' {
            out.push('%');
            out.push('2');
            out.push('0');
            assert(out@ =~= before + seq!['%', '2', '0']);
        } else {
            out.push(p[i]);
            assert(out@ =~= before + seq![p@[i as int]]);
        }
        i = i + 1;
    }
    assert(p@.take(p@.len() as int) =~= p@);
    string_from(&out)
}

/// `path` with `"." + ext` appended, keeping its own extension
/// (`foo.png` becomes `foo.png.tmp`).
pub fn with_extension(path: &str, ext: &str) -> (res: String)
    ensures
        res@ == path@ + "."@ + ext@,
{
    let mut s = path.to_owned();
    s.append(".");
    s.append(ext);
    s
}

/// The default cache directory: `gobcam` under `$XDG_CACHE_HOME`, else
/// under `$HOME/.cache`; `None` when neither variable is set.
pub fn default_cache_dir(xdg_cache_home: Option<&str>, home: Option<&str>) -> (res: Option<String>)
    ensures
        match (xdg_cache_home, home) {
            (Some(x), _) => res matches Some(r) && r@ == join_path(x@, "gobcam"@),
            (None, Some(h)) => res matches Some(r) && r@ == join_path(
                join_path(h@, ".cache"@),
                "gobcam"@,
            ),
            (None, None) => res is None,
        },
{
    match xdg_cache_home {
        Some(x) => Some(join(x, "gobcam")),
        None => match home {
            Some(h) => Some(join(join(h, ".cache").as_str(), "gobcam")),
            None => None,
        },
    }
}

} // verus!
