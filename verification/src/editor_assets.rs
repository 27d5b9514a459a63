//! Asset paths in the editor: texture cache keys, path resolution against
//! the editor asset root, load error messages and node names derived from
//! asset files.
use vstd::prelude::*;
use vstd::string::*;
use crate::paths::{is_absolute_path, is_absolute_seq, join_path, join_seq, normalized_asset_path};
use crate::text::{char_to_uppercase, chars_of, string_of, trim_seq, trim_text, uppercase_of};

verus! {

/// What `Path::file_stem` gives for a path: the file name without its last
/// extension, if the path has a file name.
pub uninterp spec fn file_stem_of(p: Seq<char>) -> Option<Seq<char>>;

/// The file stem of `path`.
/// Calls `Path::file_stem` and converts the result back to a `String`
/// (a stem cut out of a `&str` is always valid UTF-8). The result is named
/// `file_stem_of`; the one fact stated beside the name is the documented case
/// of a plain file name without `/`, `\`, `:` or `.`, whose stem is the
/// whole name on every platform.
#[verifier::external_body]
fn file_stem(path: &str) -> (r: Option<String>)
    ensures
        match r {
            Some(s) => file_stem_of(path@) == Some(s@),
            None => file_stem_of(path@) is None,
        },
        path@.len() > 0 && (forall|i: int|
            0 <= i < path@.len() ==> #[trigger] path@[i] != '/' && path@[i] != '\\' && path@[i]
                != '.' && path@[i] != ':') ==> r is Some && r->0@ == path@,
{
    std::path::Path::new(path).file_stem().and_then(|stem| stem.to_str()).map(|stem| stem.to_owned())
}

/// Normalises an asset path (see `paths::normalize_asset_path`).
pub fn normalize_asset_path(path: &str) -> (r: String)
    ensures
        r@ == normalized_asset_path(path@),
{
    crate::paths::normalize_asset_path(path)
}

/// The cache key of an asset path: `None` when the path is blank (the
/// texture is missing), otherwise the normalised path.
pub fn texture_key(asset_path: &str) -> (r: Option<String>)
    ensures
        match r {
            None => trim_seq(asset_path@).len() == 0,
            Some(k) => trim_seq(asset_path@).len() != 0 && k@ == normalized_asset_path(
                asset_path@,
            ),
        },
{
    let trimmed = trim_text(asset_path);
    if trimmed.as_str().unicode_len() == 0 {
        None
    } else {
        Some(normalize_asset_path(asset_path))
    }
}

/// The file to load for a normalised asset path: an absolute path is used
/// as it is; a relative one is looked up under the editor asset root first
/// and used from there when that file exists (`candidate_exists`, which the
/// caller learns for `join_path(asset_root, normalized_path)`); otherwise it
/// is taken relative to the current project's folder `project_dir`.
pub fn resolve_path(asset_root: &str, project_dir: &str, normalized_path: &str, candidate_exists: bool) -> (r: String)
    ensures
        r@ == (if is_absolute_seq(normalized_path@) {
            normalized_path@
        } else if candidate_exists {
            join_seq(asset_root@, normalized_path@)
        } else {
            join_seq(project_dir@, normalized_path@)
        }),
{
    if is_absolute_path(normalized_path) {
        String::from_str(normalized_path)
    } else if candidate_exists {
        join_path(asset_root, normalized_path)
    } else {
        join_path(project_dir, normalized_path)
    }
}

/// `failed to load texture '<path>': <message>`.
pub open spec fn texture_error_text(path: Seq<char>, message: Seq<char>) -> Seq<char> {
    seq![
        'f', 'a', 'i', 'l', 'e', 'd', ' ', 't', 'o', ' ', 'l', 'o', 'a', 'd', ' ', 't', 'e', 'x', 't',
        'u', 'r', 'e', ' ', '\''
    ] + path + seq!['\'', ':', ' '] + message
}

/// The message shown when a texture file cannot be loaded.
pub fn texture_load_error_message(path: &str, message: &str) -> (r: String)
    ensures
        r@ == texture_error_text(path@, message@),
{
    let mut r = String::from_str("failed to load texture '");
    r.append(path);
    r.append("': ");
    r.append(message);
    proof {
        reveal_strlit("failed to load texture '");
        reveal_strlit("': ");
    }
    r
}

/// A char that separates words in a file stem.
pub open spec fn is_word_separator(c: char) -> bool {
    c == '_' || c == '-' || c == ' '
}

/// The words of `s` joined with each word's first char upper-cased;
/// `upper_next` says whether the first char of `s` starts a word.
pub open spec fn camel_words(s: Seq<char>, upper_next: bool) -> Seq<char>
    decreases s.len(),
{
    if s.len() == 0 {
        Seq::empty()
    } else if is_word_separator(s[0]) {
        camel_words(s.drop_first(), true)
    } else if upper_next {
        uppercase_of(s[0]) + camel_words(s.drop_first(), false)
    } else {
        seq![s[0]] + camel_words(s.drop_first(), false)
    }
}

pub open spec fn sprite_name() -> Seq<char> {
    seq!['S', 'p', 'r', 'i', 't', 'e']
}

/// The node name built from a file stem, `Sprite` when nothing is left.
pub open spec fn node_name_of_stem(stem: Seq<char>) -> Seq<char> {
    if camel_words(stem, true).len() == 0 {
        sprite_name()
    } else {
        camel_words(stem, true)
    }
}

/// The file whose stem names a node: the display name, or the asset path
/// when the display name is blank.
pub open spec fn name_source(display_name: Seq<char>, asset_path: Seq<char>) -> Seq<char> {
    if trim_seq(display_name).len() == 0 {
        asset_path
    } else {
        display_name
    }
}

proof fn lemma_camel_step(s: Seq<char>, i: int, upper_next: bool)
    requires
        0 <= i < s.len(),
    ensures
        camel_words(s.subrange(i, s.len() as int), upper_next) == (if is_word_separator(s[i]) {
            camel_words(s.subrange(i + 1, s.len() as int), true)
        } else if upper_next {
            uppercase_of(s[i]) + camel_words(s.subrange(i + 1, s.len() as int), false)
        } else {
            seq![s[i]] + camel_words(s.subrange(i + 1, s.len() as int), false)
        }),
{
    assert(s.subrange(i, s.len() as int).drop_first() =~= s.subrange(i + 1, s.len() as int));
}

/// The node name for a file stem: words separated by `_`, `-` or spaces are
/// joined, each starting with its upper-case form; `Sprite` when no word is left.
pub fn node_name_from_stem(stem: &str) -> (r: String)
    ensures
        r@ == node_name_of_stem(stem@),
{
    let chars = chars_of(stem);
    let n = chars.len();
    let mut name: Vec<char> = Vec::new();
    let mut uppercase_next = true;
    let mut i: usize = 0;
    assert(chars@ =~= chars@.subrange(0, n as int));
    while i < n
        invariant
            i <= n == chars.len(),
            name@ + camel_words(chars@.subrange(i as int, n as int), uppercase_next)
                == camel_words(chars@, true),
        decreases n - i,
    {
        let c = chars[i];
        proof {
            lemma_camel_step(chars@, i as int, uppercase_next);
        }
        let ghost rest = camel_words(chars@.subrange(i + 1, n as int), false);
        if c == '_' || c == '-' || c == ' ' {
            uppercase_next = true;
        } else if uppercase_next {
            let upper = char_to_uppercase(c);
            let ghost before = name@;
            let mut k: usize = 0;
            while k < upper.len()
                invariant
                    k <= upper.len(),
                    name@ == before + upper@.take(k as int),
                decreases upper.len() - k,
            {
                name.push(upper[k]);
                k = k + 1;
                assert(name@ =~= before + upper@.take(k as int));
            }
            assert(upper@.take(upper@.len() as int) =~= upper@);
            assert(name@ + rest =~= before + (uppercase_of(c) + rest));
            uppercase_next = false;
        } else {
            let ghost before = name@;
            name.push(c);
            assert(name@ + rest =~= before + (seq![c] + rest));
        }
        i = i + 1;
    }
    assert(chars@.subrange(n as int, n as int) =~= Seq::<char>::empty());
    assert(name@ + Seq::<char>::empty() =~= name@);
    if name.len() == 0 {
        proof {
            reveal_strlit("Sprite");
            assert("Sprite"@ =~= sprite_name());
        }
        String::from_str("Sprite")
    } else {
        string_of(&name)
    }
}

/// The name of a node placed from an asset: the stem of the display name
/// (or of the asset path when the display name is blank), or `Sprite`
/// when there is no stem, turned into a node name by `node_name_from_stem`.
pub fn node_name_from_asset(display_name: &str, asset_path: &str) -> (r: String)
    ensures
        r@ == node_name_of_stem(
            match file_stem_of(name_source(display_name@, asset_path@)) {
                Some(stem) => stem,
                None => sprite_name(),
            },
        ),
        ({
            let src = name_source(display_name@, asset_path@);
            src.len() > 0 && (forall|i: int|
                0 <= i < src.len() ==> #[trigger] src[i] != '/' && src[i] != '\\' && src[i]
                    != '.' && src[i] != ':')
        }) ==> r@ == node_name_of_stem(name_source(display_name@, asset_path@)),
{
    let trimmed = trim_text(display_name);
    let source = if trimmed.as_str().unicode_len() == 0 {
        asset_path
    } else {
        display_name
    };
    match file_stem(source) {
        Some(stem) => node_name_from_stem(stem.as_str()),
        None => {
            proof {
                reveal_strlit("Sprite");
                assert("Sprite"@ =~= sprite_name());
            }
            node_name_from_stem("Sprite")
        },
    }
}

} // verus!

verus! {

/// The roots the editor searches for assets, before duplicates are merged:
/// the project's roots, the editor's own `assets` folder, and the `assets`
/// folders under the working directory.
pub open spec fn editor_root_candidates(
    project_roots: Seq<Seq<char>>,
    editor_dir: Seq<char>,
    current_dir: Option<Seq<char>>,
) -> Seq<Seq<char>> {
    project_roots + seq![join_seq(editor_dir, crate::paths::assets_dir())] + match current_dir {
        Some(d) => seq![
            join_seq(d, crate::paths::assets_dir()),
            join_seq(d, crate::runtime_assets::editor_assets_dir()),
        ],
        None => Seq::empty(),
    }
}

/// The editor's asset roots: `project_roots`, then `assets` under the
/// editor's folder `editor_dir`, then `assets` and
/// `apps/crab2d-editor/assets` under the working directory when it is known,
/// with runs of equal neighbours merged.
pub fn asset_roots(project_roots: Vec<String>, editor_dir: &str, current_dir: Option<&str>) -> (r: Vec<String>)
    ensures
        crate::paths::views(r@) == crate::paths::dedup_seq(
            editor_root_candidates(
                crate::paths::views(project_roots@),
                editor_dir@,
                crate::runtime_assets::opt_view(current_dir),
            ),
        ),
{
    let mut roots = project_roots;
    let ghost first = crate::paths::views(roots@);
    proof {
        reveal_strlit("assets");
        reveal_strlit("apps/crab2d-editor/assets");
        assert("assets"@ =~= crate::paths::assets_dir());
        assert("apps/crab2d-editor/assets"@ =~= crate::runtime_assets::editor_assets_dir());
    }
    roots.push(join_path(editor_dir, "assets"));
    assert(crate::paths::views(roots@) =~= first + seq![join_seq(editor_dir@, crate::paths::assets_dir())]);
    let ghost second = crate::paths::views(roots@);
    if let Some(d) = current_dir {
        roots.push(join_path(d, "assets"));
        roots.push(join_path(d, "apps/crab2d-editor/assets"));
        assert(crate::paths::views(roots@) =~= second + seq![
            join_seq(d@, crate::paths::assets_dir()),
            join_seq(d@, crate::runtime_assets::editor_assets_dir()),
        ]);
    }
    assert(crate::paths::views(roots@) =~= editor_root_candidates(
        first,
        editor_dir@,
        crate::runtime_assets::opt_view(current_dir),
    ));
    crate::paths::dedup_strings(roots)
}

} // verus!

verus! {

/// What a texture lookup finds.
pub enum TextureLookup<'a, T> {
    /// The texture, loaded now or earlier.
    Loaded(&'a T),
    /// The file could not be loaded; the message says why.
    Failed(String),
    /// The node names no texture.
    Missing,
}

/// What the cache needs done for an asset path.
#[derive(Debug, PartialEq, Eq)]
pub enum TextureStep {
    /// The path is blank: there is no texture to show.
    Missing,
    /// The texture is cached at this index.
    Cached(usize),
    /// The texture is not cached: load the file of this normalised path.
    Load(String),
}

/// The outcome of a load handed back to the cache.
#[derive(Debug, PartialEq, Eq)]
pub enum LoadOutcome {
    /// The texture was cached at this index.
    Stored(usize),
    /// The load failed with this message; nothing was cached.
    Failed(String),
}

/// Whether `step` is what the cache with the keys `keys` needs done for
/// `path`: nothing for a blank path, the cached texture when its
/// normalised path is a key, a load of the normalised path otherwise.
pub open spec fn step_matches(step: TextureStep, keys: Seq<Seq<char>>, path: Seq<char>) -> bool {
    if trim_seq(path).len() == 0 {
        step is Missing
    } else if keys.contains(normalized_asset_path(path)) {
        step matches TextureStep::Cached(i) && i < keys.len() && keys[i as int]
            == normalized_asset_path(path)
    } else {
        step matches TextureStep::Load(k) && k@ == normalized_asset_path(path)
    }
}

/// The editor's textures, cached by normalised asset path. Only textures
/// that loaded are cached: a failed load is tried again on the next lookup,
/// so that fixing or adding a file takes effect without a restart.
pub struct EditorTextureCache<T> {
    asset_root: String,
    keys: Vec<String>,
    textures: Vec<T>,
}

impl<T> EditorTextureCache<T> {
    /// The normalised paths of the cached textures, in the order they were cached.
    pub closed spec fn cached_keys(&self) -> Seq<Seq<char>> {
        crate::paths::views(self.keys@)
    }

    /// The cached textures, in the order of `cached_keys`.
    pub closed spec fn cached_textures(&self) -> Seq<T> {
        self.textures@
    }

    /// The folder the editor's own assets are looked up in.
    pub closed spec fn root(&self) -> Seq<char> {
        self.asset_root@
    }

    /// One texture per key, and no key twice.
    pub closed spec fn wf(&self) -> bool {
        &&& self.keys.len() == self.textures.len()
        &&& forall|i: int, j: int|
            0 <= i < j < self.keys.len() ==> #[trigger] self.keys@[i]@ != #[trigger] self.keys@[j]@
    }

    /// A well-formed cache holds one texture for each key.
    pub proof fn lemma_one_texture_per_key(&self)
        requires
            self.wf(),
        ensures
            self.cached_textures().len() == self.cached_keys().len(),
    {
    }

    /// An empty cache over the editor asset root `asset_root`.
    pub fn new(asset_root: String) -> (c: Self)
        ensures
            c.wf(),
            c.root() == asset_root@,
            c.cached_keys() == Seq::<Seq<char>>::empty(),
            c.cached_textures() == Seq::<T>::empty(),
    {
        let c = EditorTextureCache { asset_root, keys: Vec::new(), textures: Vec::new() };
        assert(crate::paths::views(c.keys@) =~= Seq::<Seq<char>>::empty());
        c
    }

    /// The editor asset root.
    pub fn asset_root(&self) -> (r: &str)
        ensures
            r@ == self.root(),
    {
        self.asset_root.as_str()
    }

    /// What has to be done to show the texture of `asset_path`.
    pub fn lookup(&self, asset_path: &str) -> (s: TextureStep)
        requires
            self.wf(),
        ensures
            step_matches(s, self.cached_keys(), asset_path@),
            s matches TextureStep::Cached(i) ==> i < self.cached_textures().len(),
    {
        let key = match texture_key(asset_path) {
            None => return TextureStep::Missing,
            Some(k) => k,
        };
        let mut i: usize = 0;
        while i < self.keys.len()
            invariant
                i <= self.keys.len(),
                self.keys.len() == self.textures.len(),
                trim_seq(asset_path@).len() != 0,
                key@ == normalized_asset_path(asset_path@),
                forall|j: int| 0 <= j < i ==> self.keys@[j]@ != key@,
            decreases self.keys.len() - i,
        {
            if self.keys[i] == key {
                assert(self.cached_keys()[i as int] == key@);
                assert(self.cached_keys().contains(key@));
                return TextureStep::Cached(i);
            }
            i = i + 1;
        }
        proof {
            if self.cached_keys().contains(key@) {
                let j = choose|j: int| 0 <= j < self.cached_keys().len() && self.cached_keys()[j] == key@;
                assert(self.keys@[j]@ == key@);
            }
        }
        TextureStep::Load(key)
    }

    /// The cached texture at index `i`.
    pub fn texture(&self, i: usize) -> (t: &T)
        requires
            self.wf(),
            i < self.cached_textures().len(),
        ensures
            *t == self.cached_textures()[i as int],
    {
        &self.textures[i]
    }

    /// Takes the result of loading the file of `key` (a path that `lookup`
    /// asked to load): a loaded texture is cached under `key`, a failure is
    /// passed on and nothing is cached.
    pub fn finish_load(&mut self, key: String, result: Result<T, String>) -> (o: LoadOutcome)
        requires
            old(self).wf(),
            !old(self).cached_keys().contains(key@),
        ensures
            final(self).wf(),
            final(self).root() == old(self).root(),
            match result {
                Ok(t) => {
                    &&& final(self).cached_keys() == old(self).cached_keys().push(key@)
                    &&& final(self).cached_textures() == old(self).cached_textures().push(t)
                    &&& o == LoadOutcome::Stored(old(self).cached_keys().len() as usize)
                    &&& o matches LoadOutcome::Stored(i) && i < final(self).cached_textures().len()
                        && final(self).cached_textures()[i as int] == t
                        && final(self).cached_keys()[i as int] == key@
                },
                Err(e) => {
                    &&& final(self).cached_keys() == old(self).cached_keys()
                    &&& final(self).cached_textures() == old(self).cached_textures()
                    &&& o == LoadOutcome::Failed(e)
                },
            },
    {
        match result {
            Ok(t) => {
                let index = self.keys.len();
                let ghost before = self.keys@;
                proof {
                    assert forall|j: int| 0 <= j < before.len() implies before[j]@ != key@ by {
                        assert(self.cached_keys()[j] == before[j]@);
                    }
                }
                self.keys.push(key);
                self.textures.push(t);
                assert(crate::paths::views(self.keys@) =~= crate::paths::views(before).push(self.keys@[index as int]@));
                LoadOutcome::Stored(index)
            },
            Err(e) => LoadOutcome::Failed(e),
        }
    }
}

/// A texture that loaded is found in the cache from then on; one that
/// failed to load is not cached, so the next lookup loads it again.
pub proof fn law_only_loaded_textures_are_cached(
    keys: Seq<Seq<char>>,
    path: Seq<char>,
    step: TextureStep,
    next: TextureStep,
)
    requires
        step_matches(step, keys, path),
        step is Load,
    ensures
        step_matches(next, keys.push(normalized_asset_path(path)), path) ==> (next matches TextureStep::Cached(i) && i == keys.len()),
        step_matches(next, keys, path) ==> (next matches TextureStep::Load(k) && k@
            == normalized_asset_path(path)),
{
    let k = normalized_asset_path(path);
    assert(keys.push(k)[keys.len() as int] == k);
    assert(keys.push(k).contains(k));
    if step_matches(next, keys.push(k), path) {
        if let TextureStep::Cached(i) = next {
            if i < keys.len() {
                assert(keys.push(k)[i as int] == keys[i as int]);
                assert(keys.contains(k));
            }
        }
    }
}

} // verus!
