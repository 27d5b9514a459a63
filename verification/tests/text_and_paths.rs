use crab2d::paths::{
    dedup_strings, default_project_file_path, default_project_path, is_absolute_path, join_path,
    normalize_asset_path, sanitize_project_folder,
};
use crab2d::editor_assets::normalize_asset_path as editor_normalize_asset_path;
use crab2d::runtime_assets::normalize_asset_path as runtime_normalize_asset_path;
use crab2d::text::{
    chars_of, contains_chars, contains_str, is_whitespace_char, string_of, string_of_range,
    trim_bounds, trim_text, truncate_text,
};

#[test]
fn truncate_keeps_short_text_whole() {
    assert_eq!(truncate_text("abc", 5), "abc");
    assert_eq!(truncate_text("abcde", 5), "abcde");
}

#[test]
fn truncate_cuts_long_text_with_ellipsis() {
    assert_eq!(truncate_text("Hello World", 8), "Hello...");
    assert_eq!(truncate_text("Hello World", 8).chars().count(), 8);
}

#[test]
fn truncate_below_three_chars_is_only_ellipsis() {
    assert_eq!(truncate_text("abcdef", 2), "...");
    assert_eq!(truncate_text("abcdef", 0), "...");
}

#[test]
fn truncate_counts_chars_not_bytes() {
    assert_eq!(truncate_text("ééééé", 5), "ééééé");
    assert_eq!(truncate_text("éééééé", 5), "éé...");
}

#[test]
fn trim_removes_unicode_whitespace() {
    assert_eq!(trim_text("  hi \n"), "hi");
    assert_eq!(trim_text("\u{3000}x y\u{a0}"), "x y");
    assert_eq!(trim_text("   "), "");
}

#[test]
fn contains_finds_substrings() {
    assert!(contains_str("[ERROR] boom", "[ERROR]"));
    assert!(!contains_str("[WARN] boom", "[ERROR]"));
    assert!(contains_str("abc", ""));
}

#[test]
fn normalize_replaces_backslashes_and_strips_dot_slash() {
    assert_eq!(normalize_asset_path("  .\\sprites\\player.png "), "sprites/player.png");
    assert_eq!(normalize_asset_path("././tiles/grass.png"), "tiles/grass.png");
    assert_eq!(normalize_asset_path("sprites/./a.png"), "sprites/./a.png");
    assert_eq!(normalize_asset_path("../a.png"), "../a.png");
}

#[test]
fn normalized_path_has_no_backslash_or_leading_dot_slash() {
    for input in ["a\\b", " ./.\\x", ".\\.\\y.png", "z"] {
        let out = normalize_asset_path(input);
        assert!(!out.contains('\\'));
        assert!(!out.starts_with("./"));
    }
}

#[test]
fn join_follows_path_join() {
    assert_eq!(join_path("a", "b"), "a/b");
    assert_eq!(join_path("a/", "b"), "a/b");
    assert_eq!(join_path("", "b"), "b");
    assert_eq!(join_path("a", "/b"), "/b");
    assert!(is_absolute_path("/x"));
    assert!(!is_absolute_path("x/y"));
}

#[test]
fn sanitize_keeps_folder_chars() {
    assert_eq!(sanitize_project_folder("My Game!"), "MyGame");
    assert_eq!(sanitize_project_folder("space_rock-2"), "space_rock-2");
    assert_eq!(sanitize_project_folder("Café"), "Caf");
}

#[test]
fn sanitize_falls_back_to_untitled() {
    assert_eq!(sanitize_project_folder("!!!"), "UntitledProject");
    assert_eq!(sanitize_project_folder(""), "UntitledProject");
}

#[test]
fn sanitize_is_stable() {
    for name in ["My Game!", "", "ü", "a-b_c"] {
        let once = sanitize_project_folder(name);
        assert_eq!(sanitize_project_folder(&once), once);
    }
}

#[test]
fn default_project_paths() {
    assert_eq!(default_project_path("My Game"), "projects/MyGame");
    assert_eq!(
        default_project_file_path("My Game"),
        "projects/MyGame/project.crab2d.json"
    );
    assert_eq!(default_project_path("UntitledProject"), "projects/UntitledProject");
}

#[test]
fn dedup_merges_equal_neighbours() {
    let v = vec!["a".to_string(), "a".to_string(), "b".to_string(), "a".to_string()];
    assert_eq!(dedup_strings(v), vec!["a".to_string(), "b".to_string(), "a".to_string()]);
    assert_eq!(dedup_strings(Vec::new()), Vec::<String>::new());
}

#[test]
fn char_helpers() {
    let chars = chars_of("  héllo ");
    assert_eq!(chars.len(), 8);
    assert_eq!(trim_bounds(&chars), (2, 7));
    assert_eq!(string_of_range(&chars, 2, 7), "héllo");
    assert_eq!(string_of(&chars), "  héllo ");
    assert_eq!(trim_bounds(&chars_of("   ")).0, trim_bounds(&chars_of("   ")).1);
    assert!(is_whitespace_char('\u{2003}'));
    assert!(!is_whitespace_char('x'));
    assert!(contains_chars(&chars_of("abcabd"), &chars_of("abd")));
    assert!(!contains_chars(&chars_of("ab"), &chars_of("abc")));
}

#[test]
fn editor_and_runtime_normalise_alike() {
    for input in [" .\\a\\b.png", "./x", "plain.png"] {
        assert_eq!(editor_normalize_asset_path(input), normalize_asset_path(input));
        assert_eq!(runtime_normalize_asset_path(input), normalize_asset_path(input));
    }
    assert_eq!(editor_normalize_asset_path(" .\\a\\b.png"), "a/b.png");
}
