//! Asset references: costume images and sounds are named `<md5>.<extension>`
//! and stored in the archive as `<numeric id>.<extension>`. The registry hands
//! out one handle per distinct `(md5, extension)` key, so records that share
//! a key share the loaded asset, whatever their numeric ids.
use vstd::prelude::*;
use vstd::string::*;

verus! {

/// A handle to a loaded asset: its position in the registry.
pub type AssetHandle = usize;

/// One asset to load: its content key and where the archive holds it.
#[derive(Debug)]
pub struct AssetEntry {
    pub md5: String,
    pub extension: String,
    /// The numeric id of the first record that named this asset; the archive
    /// file is `<archive_id>.<extension>`.
    pub archive_id: i32,
}

/// The distinct assets a project refers to, in the order first named.
#[derive(Debug)]
pub struct AssetRegistry {
    entries: Vec<AssetEntry>,
}

/// The content key of an asset.
pub open spec fn entry_key(e: AssetEntry) -> (Seq<char>, Seq<char>) {
    (e.md5@, e.extension@)
}

impl AssetRegistry {
    /// The keys of the registered assets; the handle of each is its position.
    pub closed spec fn keys(&self) -> Seq<(Seq<char>, Seq<char>)> {
        self.entries@.map_values(|e: AssetEntry| entry_key(e))
    }

    /// The numeric id recorded for each registered asset.
    pub closed spec fn archive_ids(&self) -> Seq<i32> {
        self.entries@.map_values(|e: AssetEntry| e.archive_id)
    }

    /// No key is registered twice.
    pub open spec fn wf(&self) -> bool {
        forall|i: int, j: int|
            0 <= i < j < self.keys().len() ==> #[trigger] self.keys()[i] != #[trigger] self.keys()[j]
    }

    pub fn new() -> (r: AssetRegistry)
        ensures
            r.wf(),
            r.keys().len() == 0,
            r.archive_ids().len() == 0,
    {
        let r = AssetRegistry { entries: Vec::new() };
        assert(r.keys() =~= Seq::empty());
        r
    }

    pub fn len(&self) -> (r: usize)
        ensures
            r == self.keys().len(),
            r == self.archive_ids().len(),
    {
        self.entries.len()
    }

    /// The entry behind handle `h`.
    pub fn entry(&self, h: AssetHandle) -> (r: &AssetEntry)
        requires
            h < self.keys().len(),
        ensures
            entry_key(*r) == self.keys()[h as int],
            r.archive_id == self.archive_ids()[h as int],
    {
        &self.entries[h]
    }

    /// The handle for the key `(md5, extension)`: the one already given to
    /// that key, else a new one, recorded with `archive_id`.
    pub fn resolve(&mut self, md5: &String, extension: &String, archive_id: i32) -> (r: AssetHandle)
        requires
            old(self).wf(),
        ensures
            final(self).wf(),
            r < final(self).keys().len(),
            final(self).keys()[r as int] == (md5@, extension@),
            old(self).keys().contains((md5@, extension@)) ==> final(self).keys() == old(self).keys()
                && final(self).archive_ids() == old(self).archive_ids(),
            !old(self).keys().contains((md5@, extension@)) ==> final(self).keys() == old(self).keys().push(
                (md5@, extension@),
            ) && final(self).archive_ids() == old(self).archive_ids().push(archive_id),
    {
        let mut i: usize = 0;
        while i < self.entries.len()
            invariant
                self.wf(),
                *self == *old(self),
                0 <= i <= self.keys().len(),
                self.keys().len() == self.entries@.len(),
                forall|t: int| 0 <= t < i ==> self.keys()[t] != (md5@, extension@),
            decreases self.entries@.len() - i,
        {
            if self.entries[i].md5 == *md5 && self.entries[i].extension == *extension {
                proof {
                    assert(self.keys()[i as int] == (md5@, extension@));
                }
                return i;
            }
            i += 1;
        }
        proof {
            assert forall|t: int| 0 <= t < self.keys().len() implies self.keys()[t] != (md5@, extension@) by {}
        }
        let ghost old_keys = self.keys();
        let ghost old_ids = self.archive_ids();
        self.entries.push(AssetEntry { md5: md5.clone(), extension: extension.clone(), archive_id });
        proof {
            assert(self.keys() =~= old_keys.push((md5@, extension@)));
            assert(self.archive_ids() =~= old_ids.push(archive_id));
        }
        i
    }
}

/// `k2` keeps every handle of `k1`: it is `k1` with keys added at the end.
pub open spec fn keys_extend(k1: Seq<(Seq<char>, Seq<char>)>, k2: Seq<(Seq<char>, Seq<char>)>) -> bool {
    k1.len() <= k2.len() && forall|i: int| 0 <= i < k1.len() ==> #[trigger] k2[i] == k1[i]
}

/// `name` is `<md5>.<extension>` for the key `(md5, extension)`, split at its
/// first dot.
pub open spec fn names_asset(name: Seq<char>, key: (Seq<char>, Seq<char>)) -> bool {
    name == key.0 + seq!['.'] + key.1 && !key.0.contains('.')
}

/// The registries of a project's images and of its sounds.
#[derive(Debug)]
pub struct AssetResolver {
    pub images: AssetRegistry,
    pub sounds: AssetRegistry,
}

impl AssetResolver {
    pub fn new() -> (r: AssetResolver)
        ensures
            r.images.wf(),
            r.sounds.wf(),
            r.images.keys().len() == 0,
            r.sounds.keys().len() == 0,
    {
        AssetResolver { images: AssetRegistry::new(), sounds: AssetRegistry::new() }
    }
}

/// Resolves the asset named `<md5>.<extension>` in `reg`; nothing when the
/// name has no dot.
pub fn resolve_named(reg: &mut AssetRegistry, name: &String, archive_id: i32) -> (r: Option<AssetHandle>)
    requires
        old(reg).wf(),
    ensures
        final(reg).wf(),
        keys_extend(old(reg).keys(), final(reg).keys()),
        r is Some <==> name@.contains('.'),
        r matches Some(h) ==> h < final(reg).keys().len() && names_asset(name@, final(reg).keys()[h as int]),
        r is None ==> final(reg).keys() == old(reg).keys(),
{
    match split_asset_name(name) {
        Some((md5, extension)) => {
            let h = reg.resolve(&md5, &extension, archive_id);
            Some(h)
        },
        None => None,
    }
}

/// Two records that name the same `(md5, extension)` key get the same handle:
/// a registry holds each key once.
pub proof fn lemma_same_key_same_handle(reg: AssetRegistry, h1: AssetHandle, h2: AssetHandle)
    requires
        reg.wf(),
        h1 < reg.keys().len(),
        h2 < reg.keys().len(),
        reg.keys()[h1 as int] == reg.keys()[h2 as int],
    ensures
        h1 == h2,
{
    if h1 < h2 {
        assert(reg.keys()[h1 as int] != reg.keys()[h2 as int]);
    } else if h2 < h1 {
        assert(reg.keys()[h2 as int] != reg.keys()[h1 as int]);
    }
}

/// Splits an asset name `<md5>.<extension>` at its first dot.
pub fn split_asset_name(name: &String) -> (r: Option<(String, String)>)
    ensures
        r is None <==> !name@.contains('.'),
        r matches Some(p) ==> name@ == p.0@ + seq!['.'] + p.1@ && !p.0@.contains('.'),
{
    let s = name.as_str();
    let n = s.unicode_len();
    let mut i: usize = 0;
    while i < n
        invariant
            n == s@.len(),
            s@ == name@,
            0 <= i <= n,
            forall|t: int| 0 <= t < i ==> s@[t] != '.',
        decreases n - i,
    {
        if s.get_char(i) == '.' {
            let md5 = String::from_str(s.substring_char(0, i));
            let extension = String::from_str(s.substring_char(i + 1, n));
            proof {
                assert(name@ =~= md5@ + seq!['.'] + extension@);
                assert(!md5@.contains('.')) by {
                    if md5@.contains('.') {
                        let t = choose|t: int| 0 <= t < md5@.len() && md5@[t] == '.';
                        assert(s@[t] == '.');
                    }
                }
            }
            return Some((md5, extension));
        }
        i += 1;
    }
    proof {
        assert(!name@.contains('.')) by {
            if name@.contains('.') {
                let t = choose|t: int| 0 <= t < name@.len() && name@[t] == '.';
                assert(s@[t] != '.');
            }
        }
    }
    None
}

// ---- kinds of archive files ----

/// What std's `str::to_lowercase` makes of the characters `s`.
pub uninterp spec fn lower_of(s: Seq<char>) -> Seq<char>;

/// Relies on `str::to_lowercase`: the result depends on the characters alone.
#[verifier::external_body]
fn lowercase(s: &str) -> (r: String)
    ensures
        r@ == lower_of(s@),
{
    s.to_lowercase()
}

/// What an archive file holds, by its name.
#[derive(Clone, Copy, Debug, PartialEq, Eq, Structural)]
pub enum AssetKind {
    Bitmap,
    Audio,
    Document,
    Unrecognized,
}

pub open spec fn ends_with(s: Seq<char>, suffix: Seq<char>) -> bool {
    s.len() >= suffix.len() && s.subrange(s.len() - suffix.len(), s.len() as int) == suffix
}

/// The kind of a file whose name, already in lower case, is `lower`.
pub open spec fn kind_of_lowercase_name(lower: Seq<char>) -> AssetKind {
    if ends_with(lower, ".png"@) {
        AssetKind::Bitmap
    } else if ends_with(lower, ".wav"@) || ends_with(lower, ".mp3"@) {
        AssetKind::Audio
    } else if ends_with(lower, ".json"@) {
        AssetKind::Document
    } else {
        AssetKind::Unrecognized
    }
}

fn text_ends_with(s: &String, suffix: &str) -> (r: bool)
    ensures
        r == ends_with(s@, suffix@),
{
    let t = s.as_str();
    let n = t.unicode_len();
    let m = suffix.unicode_len();
    if n < m {
        return false;
    }
    let mut i: usize = 0;
    while i < m
        invariant
            n == s@.len(),
            m == suffix@.len(),
            t@ == s@,
            m <= n,
            0 <= i <= m,
            forall|k: int| 0 <= k < i ==> s@[n - m + k] == suffix@[k],
        decreases m - i,
    {
        if t.get_char(n - m + i) != suffix.get_char(i) {
            assert(s@.subrange(n - m, n as int)[i as int] != suffix@[i as int]);
            return false;
        }
        i += 1;
    }
    assert(s@.subrange(n - m, n as int) =~= suffix@);
    true
}

/// The kind of a file named `lower`, a name already in lower case.
pub fn kind_of_lowercase(lower: &String) -> (r: AssetKind)
    ensures
        r == kind_of_lowercase_name(lower@),
{
    if text_ends_with(lower, ".png") {
        AssetKind::Bitmap
    } else if text_ends_with(lower, ".wav") || text_ends_with(lower, ".mp3") {
        AssetKind::Audio
    } else if text_ends_with(lower, ".json") {
        AssetKind::Document
    } else {
        AssetKind::Unrecognized
    }
}

/// The kind of the archive file `name`, whatever the case of its extension.
pub fn kind_of_file_name(name: &String) -> (r: AssetKind)
    ensures
        r == kind_of_lowercase_name(lower_of(name@)),
{
    let lower = lowercase(name.as_str());
    kind_of_lowercase(&lower)
}

/// Whether the extension `lower`, already in lower case, names a vector image.
pub fn is_lowercase_vector_extension(lower: &String) -> (r: bool)
    ensures
        r == (lower@ == "svg"@),
{
    *lower == String::from_str("svg")
}

/// Whether the extension names a vector image, whatever its case. Such images
/// are not decoded; a placeholder stands for them.
pub fn is_vector_image(extension: &String) -> (r: bool)
    ensures
        r == (lower_of(extension@) == "svg"@),
{
    let lower = lowercase(extension.as_str());
    is_lowercase_vector_extension(&lower)
}

} // verus!
