use crab2d::editor_assets::{
    asset_roots as editor_asset_roots, node_name_from_asset, node_name_from_stem, resolve_path,
    texture_key, texture_load_error_message, EditorTextureCache, LoadOutcome, TextureStep,
};
use crab2d::runtime_assets::{
    asset_roots as runtime_asset_roots, candidate_paths, resolve_path as runtime_resolve_path,
    roots_for_parent, save_directory, saves_in, workspace_root,
};

#[test]
fn texture_key_of_blank_path_is_missing() {
    assert_eq!(texture_key("   "), None);
    assert_eq!(texture_key(""), None);
}

#[test]
fn texture_key_is_normalised_path() {
    assert_eq!(texture_key(" ./sprites\\hero.png"), Some("sprites/hero.png".to_string()));
}

#[test]
fn editor_resolve_prefers_existing_asset_root_file() {
    assert_eq!(resolve_path("root", "proj", "sprites/a.png", true), "root/sprites/a.png");
    assert_eq!(resolve_path("root", "proj", "sprites/a.png", false), "proj/sprites/a.png");
    assert_eq!(resolve_path("root", "", "a.png", false), "a.png");
    assert_eq!(resolve_path("root", "proj", "/abs/a.png", true), "/abs/a.png");
    assert_eq!(resolve_path("root", "proj", "/abs/a.png", false), "/abs/a.png");
}

#[test]
fn texture_error_message_text() {
    assert_eq!(
        texture_load_error_message("sprites/a.png", "No such file"),
        "failed to load texture 'sprites/a.png': No such file"
    );
}

#[test]
fn node_names_from_stems() {
    assert_eq!(node_name_from_stem("player_idle"), "PlayerIdle");
    assert_eq!(node_name_from_stem("big-tree top"), "BigTreeTop");
    assert_eq!(node_name_from_stem("__"), "Sprite");
    assert_eq!(node_name_from_stem("hero"), "Hero");
}

#[test]
fn node_name_from_asset_uses_display_name_then_path() {
    assert_eq!(node_name_from_asset("", "sprites/player_idle.png"), "PlayerIdle");
    assert_eq!(node_name_from_asset("  ", "sprites/coin.png"), "Coin");
    assert_eq!(node_name_from_asset("hero knight.png", "sprites/x.png"), "HeroKnight");
    assert_eq!(node_name_from_asset("", ""), "Sprite");
}

#[test]
fn editor_roots_order_and_dedup() {
    let roots = editor_asset_roots(
        vec!["proj/assets".to_string()],
        "/work/apps/crab2d-editor",
        Some("/work"),
    );
    assert_eq!(
        roots,
        vec![
            "proj/assets".to_string(),
            "/work/apps/crab2d-editor/assets".to_string(),
            "/work/assets".to_string(),
            "/work/apps/crab2d-editor/assets".to_string(),
        ]
    );
    let merged = editor_asset_roots(vec!["/e/assets".to_string()], "/e", None);
    assert_eq!(merged, vec!["/e/assets".to_string()]);
}

#[test]
fn texture_cache_caches_only_loaded_textures() {
    let mut cache: EditorTextureCache<u32> = EditorTextureCache::new("root".to_string());
    assert_eq!(cache.asset_root(), "root");
    assert_eq!(cache.lookup("  "), TextureStep::Missing);
    let step = cache.lookup("./a.png");
    assert_eq!(step, TextureStep::Load("a.png".to_string()));
    let outcome = cache.finish_load("a.png".to_string(), Err("broken".to_string()));
    assert_eq!(outcome, LoadOutcome::Failed("broken".to_string()));
    assert_eq!(cache.lookup("a.png"), TextureStep::Load("a.png".to_string()));
    let outcome = cache.finish_load("a.png".to_string(), Ok(7));
    assert_eq!(outcome, LoadOutcome::Stored(0));
    assert_eq!(cache.lookup(".\\a.png"), TextureStep::Cached(0));
    assert_eq!(*cache.texture(0), 7);
    assert_eq!(cache.lookup("b.png"), TextureStep::Load("b.png".to_string()));
    assert_eq!(cache.finish_load("b.png".to_string(), Ok(9)), LoadOutcome::Stored(1));
    assert_eq!(cache.lookup("b.png"), TextureStep::Cached(1));
    assert_eq!(*cache.texture(1), 9);
}

#[test]
fn runtime_roots_from_project_and_working_dir() {
    assert_eq!(
        runtime_asset_roots("game/project.crab2d.json", Some("/work")),
        vec![
            "game".to_string(),
            "game/assets".to_string(),
            "/work/assets".to_string(),
            "/work/apps/crab2d-editor/assets".to_string(),
            "/work/apps/crab2d-runtime/assets".to_string(),
        ]
    );
    assert_eq!(
        runtime_asset_roots("project.crab2d.json", None),
        vec!["".to_string(), "assets".to_string()]
    );
    assert_eq!(runtime_asset_roots("/", None), Vec::<String>::new());
    assert_eq!(
        roots_for_parent(Some("p"), None),
        vec!["p".to_string(), "p/assets".to_string()]
    );
}

#[test]
fn runtime_save_directory() {
    assert_eq!(save_directory("game/project.crab2d.json"), "game/saves");
    assert_eq!(save_directory("project.crab2d.json"), "saves");
    assert_eq!(save_directory("/"), "saves");
    assert_eq!(saves_in(Some("/g")), "/g/saves");
    assert_eq!(saves_in(None), "saves");
}

#[test]
fn workspace_root_is_two_levels_up() {
    assert_eq!(workspace_root("/work/apps/crab2d-editor"), "/work");
    assert_eq!(workspace_root("crab2d-editor"), ".");
    assert_eq!(workspace_root("/"), ".");
}

#[test]
fn runtime_candidates_and_first_existing() {
    let roots = vec!["a".to_string(), "b".to_string(), "c".to_string()];
    assert_eq!(
        candidate_paths(&roots, "x.png"),
        vec!["a/x.png".to_string(), "b/x.png".to_string(), "c/x.png".to_string()]
    );
    assert_eq!(runtime_resolve_path(&roots, "x.png", &vec![false, true, true]), "b/x.png");
    assert_eq!(runtime_resolve_path(&roots, "x.png", &vec![false, false, false]), "x.png");
    assert_eq!(runtime_resolve_path(&roots, "/x.png", &vec![true, true, true]), "/x.png");
}

#[test]
fn node_name_of_plain_source_is_its_stem_name() {
    assert_eq!(node_name_from_asset("myHERO", "x.png"), "MyHERO");
}

#[test]
fn stored_texture_is_found_at_its_index() {
    let mut cache: EditorTextureCache<&str> = EditorTextureCache::new("r".to_string());
    cache.finish_load("a.png".to_string(), Ok("first"));
    match cache.finish_load("b.png".to_string(), Ok("second")) {
        LoadOutcome::Stored(i) => assert_eq!(*cache.texture(i), "second"),
        other => panic!("unexpected {other:?}"),
    }
}
