//! The asset browser: which image assets a category and a search text show.
use vstd::prelude::*;
use vstd::string::*;
use crate::editor_types::{AssetBrowserTab, AssetCategory};
use crate::text::{contains_str, lowercase_of, seq_contains, to_lowercase, trim_seq, trim_text};

verus! {

/// An image file offered by the asset browser.
pub struct ImageAsset {
    pub asset_path: String,
    pub display_name: String,
}

/// An asset as plain text: `(asset_path, display_name)`.
pub open spec fn asset_view(a: ImageAsset) -> (Seq<char>, Seq<char>) {
    (a.asset_path@, a.display_name@)
}

pub open spec fn asset_views(v: Seq<ImageAsset>) -> Seq<(Seq<char>, Seq<char>)> {
    v.map_values(|a: ImageAsset| asset_view(a))
}

pub open spec fn looks_like_sprite(lower_path: Seq<char>) -> bool {
    ||| seq_contains(lower_path, seq!['s', 'p', 'r', 'i', 't', 'e'])
    ||| seq_contains(lower_path, seq!['p', 'l', 'a', 'y', 'e', 'r'])
    ||| seq_contains(lower_path, seq!['c', 'h', 'a', 'r', 'a', 'c', 't', 'e', 'r'])
}

pub open spec fn looks_like_tilemap(lower_path: Seq<char>) -> bool {
    ||| seq_contains(lower_path, seq!['t', 'i', 'l', 'e'])
    ||| seq_contains(lower_path, seq!['t', 'i', 'l', 'e', 's', 'e', 't'])
    ||| seq_contains(lower_path, seq!['m', 'a', 'p'])
}

pub open spec fn looks_like_ui(lower_path: Seq<char>) -> bool {
    ||| seq_contains(lower_path, seq!['u', 'i'])
    ||| seq_contains(lower_path, seq!['i', 'c', 'o', 'n'])
    ||| seq_contains(lower_path, seq!['h', 'u', 'd'])
}

/// Whether a category takes an asset whose lower-cased path is `lower_path`.
pub open spec fn category_accepts(category: AssetCategory, lower_path: Seq<char>) -> bool {
    match category {
        AssetCategory::All => true,
        AssetCategory::Sprites => looks_like_sprite(lower_path),
        AssetCategory::Tilemaps => looks_like_tilemap(lower_path),
        AssetCategory::Ui => looks_like_ui(lower_path),
        AssetCategory::Other => !(looks_like_sprite(lower_path) || looks_like_tilemap(lower_path)
            || looks_like_ui(lower_path)),
    }
}

/// Whether `category` takes the asset at `asset_path`: the path, lower-cased,
/// names sprites (`sprite`, `player`, `character`), tilemaps (`tile`,
/// `tileset`, `map`) or UI (`ui`, `icon`, `hud`); `Other` takes what none
/// of these take and `All` takes everything.
pub fn asset_category_matches(category: AssetCategory, asset_path: &str) -> (r: bool)
    ensures
        r == category_accepts(category, lowercase_of(asset_path@)),
{
    let lower = to_lowercase(asset_path);
    let path = lower.as_str();
    proof {
        reveal_strlit("sprite");
        reveal_strlit("player");
        reveal_strlit("character");
        reveal_strlit("tile");
        reveal_strlit("tileset");
        reveal_strlit("map");
        reveal_strlit("ui");
        reveal_strlit("icon");
        reveal_strlit("hud");
        assert("sprite"@ =~= seq!['s', 'p', 'r', 'i', 't', 'e']);
        assert("player"@ =~= seq!['p', 'l', 'a', 'y', 'e', 'r']);
        assert("character"@ =~= seq!['c', 'h', 'a', 'r', 'a', 'c', 't', 'e', 'r']);
        assert("tile"@ =~= seq!['t', 'i', 'l', 'e']);
        assert("tileset"@ =~= seq!['t', 'i', 'l', 'e', 's', 'e', 't']);
        assert("map"@ =~= seq!['m', 'a', 'p']);
        assert("ui"@ =~= seq!['u', 'i']);
        assert("icon"@ =~= seq!['i', 'c', 'o', 'n']);
        assert("hud"@ =~= seq!['h', 'u', 'd']);
    }
    let sprite = contains_str(path, "sprite")
        || contains_str(path, "player")
        || contains_str(path, "character");
    let tilemap = contains_str(path, "tile")
        || contains_str(path, "tileset")
        || contains_str(path, "map");
    let ui = contains_str(path, "ui")
        || contains_str(path, "icon")
        || contains_str(path, "hud");
    match category {
        AssetCategory::All => true,
        AssetCategory::Sprites => sprite,
        AssetCategory::Tilemaps => tilemap,
        AssetCategory::Ui => ui,
        AssetCategory::Other => !(sprite || tilemap || ui),
    }
}

/// The search text as the browser compares it: trimmed and lower-cased
/// (a blank search text is the empty key).
pub open spec fn search_key(filter_text: Seq<char>) -> Seq<char> {
    if trim_seq(filter_text).len() == 0 {
        Seq::empty()
    } else {
        lowercase_of(trim_seq(filter_text))
    }
}

/// Whether an asset is shown for a category and a search key: the category
/// takes it, and the key is empty or occurs in its lower-cased display name
/// or path.
pub open spec fn asset_shown(category: AssetCategory, key: Seq<char>, a: (Seq<char>, Seq<char>)) -> bool {
    &&& category_accepts(category, lowercase_of(a.0))
    &&& (key.len() == 0 || seq_contains(lowercase_of(a.1), key) || seq_contains(
        lowercase_of(a.0),
        key,
    ))
}

fn copy_asset(a: &ImageAsset) -> (r: ImageAsset)
    ensures
        asset_view(r) == asset_view(*a),
{
    ImageAsset { asset_path: a.asset_path.clone(), display_name: a.display_name.clone() }
}

/// The assets shown for `category` and the search text `filter_text`, in
/// catalogue order.
pub fn filtered_assets_by_text(assets: &Vec<ImageAsset>, category: AssetCategory, filter_text: &str) -> (r: Vec<ImageAsset>)
    ensures
        asset_views(r@) == asset_views(assets@).filter(
            |a: (Seq<char>, Seq<char>)| asset_shown(category, search_key(filter_text@), a),
        ),
{
    let trimmed = trim_text(filter_text);
    let key = to_lowercase(trimmed.as_str());
    let ghost k = search_key(filter_text@);
    proof {
        if trimmed@.len() == 0 {
            assert(key@ =~= Seq::<char>::empty());
        }
    }
    let ghost shown = |a: (Seq<char>, Seq<char>)| asset_shown(category, k, a);
    let key_empty = key.as_str().unicode_len() == 0;
    let mut r: Vec<ImageAsset> = Vec::new();
    let mut i: usize = 0;
    while i < assets.len()
        invariant
            i <= assets.len(),
            key@ == k,
            key_empty == (k.len() == 0),
            shown == (|a: (Seq<char>, Seq<char>)| asset_shown(category, k, a)),
            asset_views(r@) == asset_views(assets@.take(i as int)).filter(shown),
        decreases assets.len() - i,
    {
        let a = &assets[i];
        proof {
            let t = assets@.take(i as int + 1);
            assert(asset_views(t).drop_last() =~= asset_views(assets@.take(i as int)));
            assert(asset_views(t).last() == asset_view(*a));
            reveal_with_fuel(Seq::filter, 1);
        }
        let takes = asset_category_matches(category, a.asset_path.as_str());
        let matches = if key_empty {
            true
        } else {
            let name_lower = to_lowercase(a.display_name.as_str());
            let path_lower = to_lowercase(a.asset_path.as_str());
            contains_str(name_lower.as_str(), key.as_str()) || contains_str(
                path_lower.as_str(),
                key.as_str(),
            )
        };
        assert((takes && matches) == shown(asset_view(*a)));
        if takes && matches {
            let ghost before = r@;
            r.push(copy_asset(a));
            assert(asset_views(r@) =~= asset_views(before).push(asset_view(*a)));
        }
        i = i + 1;
    }
    assert(assets@.take(assets@.len() as int) =~= assets@);
    r
}

/// With the `All` category and a blank search text every asset is shown,
/// in catalogue order.
pub proof fn law_blank_search_shows_every_asset(
    assets: Seq<(Seq<char>, Seq<char>)>,
    filter_text: Seq<char>,
)
    requires
        trim_seq(filter_text).len() == 0,
    ensures
        assets.filter(
            |a: (Seq<char>, Seq<char>)|
                asset_shown(AssetCategory::All, search_key(filter_text), a),
        ) == assets,
{
    let p = |a: (Seq<char>, Seq<char>)| asset_shown(AssetCategory::All, search_key(filter_text), a);
    assert forall|i: int| 0 <= i < assets.len() implies p(#[trigger] assets[i]) by {}
    crate::paths::lemma_filter_keeps_all(assets, p);
}

/// A non-blank search finds an asset by a piece of its lower-cased asset
/// path as well as of its lower-cased display name: whenever the category
/// takes the asset and the search key occurs in either, the asset is among
/// those shown, and a shown asset has the key in its path or its name.
pub proof fn law_search_looks_in_path_and_name(
    assets: Seq<(Seq<char>, Seq<char>)>,
    category: AssetCategory,
    filter_text: Seq<char>,
    i: int,
    before: Seq<char>,
    after: Seq<char>,
)
    requires
        0 <= i < assets.len(),
        trim_seq(filter_text).len() > 0,
        category_accepts(category, lowercase_of(assets[i].0)),
        lowercase_of(assets[i].0) == before + search_key(filter_text) + after
            || lowercase_of(assets[i].1) == before + search_key(filter_text) + after,
    ensures
        assets.filter(
            |a: (Seq<char>, Seq<char>)| asset_shown(category, search_key(filter_text), a),
        ).contains(assets[i]),
        forall|a: (Seq<char>, Seq<char>)|
            #![trigger asset_shown(category, search_key(filter_text), a)]
            asset_shown(category, search_key(filter_text), a) && search_key(filter_text).len() > 0
                ==> (exists|b: Seq<char>, c: Seq<char>|
                lowercase_of(a.0) == b + search_key(filter_text) + c || lowercase_of(a.1) == b
                    + search_key(filter_text) + c),
{
    let key = search_key(filter_text);
    let p = |a: (Seq<char>, Seq<char>)| asset_shown(category, key, a);
    crate::text::lemma_contains_middle(before, key, after);
    assert(p(assets[i]));
    assets.lemma_filter_contains(p, i);
    assert forall|a: (Seq<char>, Seq<char>)|
        #![trigger asset_shown(category, key, a)]
        asset_shown(category, key, a) && key.len() > 0 implies (exists|b: Seq<char>, c: Seq<char>|
        lowercase_of(a.0) == b + key + c || lowercase_of(a.1) == b + key + c) by {
        if seq_contains(lowercase_of(a.1), key) {
            crate::text::lemma_contains_split(lowercase_of(a.1), key);
        } else {
            crate::text::lemma_contains_split(lowercase_of(a.0), key);
        }
    }
}

/// The entries of `items` whose flag is set, in order.
pub open spec fn flagged<T>(items: Seq<T>, flags: Seq<bool>) -> Seq<T>
    decreases items.len(),
{
    if items.len() == 0 || flags.len() == 0 {
        Seq::empty()
    } else if flags.last() {
        flagged(items.drop_last(), flags.drop_last()).push(items.last())
    } else {
        flagged(items.drop_last(), flags.drop_last())
    }
}

/// The assets listed on a browser tab: all of `images` on the image tab,
/// and on the broken tab those whose texture failed to load
/// (`load_failed[i]` for `images[i]`).
pub fn assets_for_tab(images: Vec<ImageAsset>, tab: AssetBrowserTab, load_failed: &Vec<bool>) -> (r: Vec<ImageAsset>)
    requires
        load_failed.len() == images.len(),
    ensures
        asset_views(r@) == (if tab == AssetBrowserTab::Broken {
            flagged(asset_views(images@), load_failed@)
        } else {
            asset_views(images@)
        }),
{
    if tab != AssetBrowserTab::Broken {
        return images;
    }
    let mut r: Vec<ImageAsset> = Vec::new();
    let mut i: usize = 0;
    while i < images.len()
        invariant
            i <= images.len() == load_failed.len(),
            asset_views(r@) == flagged(asset_views(images@.take(i as int)), load_failed@.take(i as int)),
        decreases images.len() - i,
    {
        proof {
            let t = asset_views(images@.take(i as int + 1));
            assert(t.drop_last() =~= asset_views(images@.take(i as int)));
            assert(load_failed@.take(i as int + 1).drop_last() =~= load_failed@.take(i as int));
        }
        if load_failed[i] {
            let ghost before = r@;
            r.push(copy_asset(&images[i]));
            assert(asset_views(r@) =~= asset_views(before).push(asset_view(images@[i as int])));
        }
        i = i + 1;
    }
    assert(images@.take(images@.len() as int) =~= images@);
    assert(load_failed@.take(load_failed@.len() as int) =~= load_failed@);
    r
}

} // verus!
