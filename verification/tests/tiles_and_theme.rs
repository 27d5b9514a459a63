use std::collections::BTreeSet;

use crab2d::scene_view::{
    default_camera_follow_target, default_selected_node, in_scene_group, node_color, node_kind, node_label, node_type,
    scene_group_ids, NodeComponents, SceneGroup, SceneNodeView,
};
use crab2d::theme::{
    chip_colors, fallback_tile_color, opaque, segment_button_colors, status_badge_colors,
    theme_colors, theme_radius, tile_color, tint, tone_color, toolbar_button_colors, EditorRadius,
    Rgba,
};
use crab2d::tiles::{format_solid_tiles, parse_solid_tiles, sorted_tiles, tileset_cell, TilesetCell};
use crab2d::StatusTone;

fn set(values: &[u32]) -> BTreeSet<u32> {
    values.iter().copied().collect()
}

#[test]
fn format_lists_tiles_in_order() {
    assert_eq!(format_solid_tiles(&set(&[3, 1, 2])), "1, 2, 3");
    assert_eq!(format_solid_tiles(&set(&[])), "");
    assert_eq!(format_solid_tiles(&set(&[4294967295, 0])), "0, 4294967295");
    assert_eq!(sorted_tiles(&set(&[9, 5])), vec![5, 9]);
}

#[test]
fn parse_reads_comma_separated_tiles() {
    assert_eq!(parse_solid_tiles("1, 2,, 3 "), Ok(set(&[1, 2, 3])));
    assert_eq!(parse_solid_tiles(""), Ok(set(&[])));
    assert_eq!(parse_solid_tiles(" , ,"), Ok(set(&[])));
    assert_eq!(parse_solid_tiles("7,7"), Ok(set(&[7])));
    assert_eq!(parse_solid_tiles("+5"), Ok(set(&[5])));
    assert_eq!(parse_solid_tiles("4294967295"), Ok(set(&[4294967295])));
}

#[test]
fn parse_reports_first_bad_entry() {
    assert_eq!(parse_solid_tiles("1, x"), Err("Invalid tile index: x".to_string()));
    assert_eq!(parse_solid_tiles("-1, y"), Err("Invalid tile index: -1".to_string()));
    assert_eq!(parse_solid_tiles("4294967296"), Err("Invalid tile index: 4294967296".to_string()));
    assert_eq!(parse_solid_tiles("1 2"), Err("Invalid tile index: 1 2".to_string()));
    assert_eq!(parse_solid_tiles("+"), Err("Invalid tile index: +".to_string()));
}

#[test]
fn formatted_tiles_parse_back() {
    for tiles in [set(&[]), set(&[0]), set(&[10, 2, 33, 4294967295])] {
        assert_eq!(parse_solid_tiles(&format_solid_tiles(&tiles)), Ok(tiles.clone()));
    }
}

#[test]
fn tileset_cells_wrap_around() {
    assert_eq!(tileset_cell(5, 4, 2), TilesetCell { column: 1, row: 1, columns: 4, rows: 2 });
    assert_eq!(tileset_cell(9, 4, 2), TilesetCell { column: 1, row: 0, columns: 4, rows: 2 });
    assert_eq!(tileset_cell(3, 0, 0), TilesetCell { column: 0, row: 0, columns: 1, rows: 1 });
}

#[test]
fn tile_palette_repeats_every_eight() {
    assert_eq!(tile_color(0), opaque(82, 148, 74));
    assert_eq!(tile_color(7), opaque(169, 194, 204));
    assert_eq!(tile_color(8), tile_color(0));
    assert_eq!(tile_color(13), tile_color(5));
    assert_eq!(fallback_tile_color(6), opaque(201, 126, 62));
}

#[test]
fn theme_values() {
    let c = theme_colors();
    assert_eq!(c.accent, Rgba { r: 42, g: 206, b: 199, a: 255 });
    assert_eq!(c.grid_minor, Rgba { r: 91, g: 115, b: 122, a: 42 });
    assert_eq!(c.viewport_overlay, Rgba { r: 18, g: 24, b: 28, a: 226 });
    assert_eq!(theme_radius(), EditorRadius { xs: 3, sm: 5, md: 7 });
}

#[test]
fn tone_colors_and_tints() {
    let c = theme_colors();
    assert_eq!(tone_color(&c, StatusTone::Info), c.accent);
    assert_eq!(tone_color(&c, StatusTone::Error), c.error);
    assert_eq!(tint(c.error, 24), Rgba { r: 245, g: 112, b: 112, a: 24 });
    assert_eq!(chip_colors(StatusTone::Success).0, Rgba { r: 116, g: 211, b: 133, a: 32 });
    assert_eq!(chip_colors(StatusTone::Success).1.a, 150);
    assert_eq!(chip_colors(StatusTone::Success).2, c.success);
    assert_eq!(status_badge_colors(StatusTone::Warning).1, Rgba { r: 231, g: 178, b: 87, a: 140 });
    assert_eq!(toolbar_button_colors(true), (c.control_active, c.accent));
    assert_eq!(toolbar_button_colors(false), (c.control_bg, c.border));
    assert_eq!(segment_button_colors(false), (c.panel_bg_alt, c.border));
}

fn comps() -> NodeComponents {
    NodeComponents {
        tilemap: false,
        camera: false,
        player_controller: false,
        trigger: false,
        sprite: false,
        tag: false,
        camera_follow: false,
    }
}

#[test]
fn node_kinds_follow_component_priority() {
    assert_eq!(node_kind(NodeComponents { tilemap: true, camera: true, ..comps() }), ("MAP", StatusTone::Info));
    assert_eq!(node_kind(NodeComponents { camera: true, ..comps() }), ("CAM", StatusTone::Warning));
    assert_eq!(node_kind(NodeComponents { player_controller: true, sprite: true, ..comps() }), ("PLY", StatusTone::Success));
    assert_eq!(node_kind(NodeComponents { trigger: true, ..comps() }), ("TRG", StatusTone::Warning));
    assert_eq!(node_kind(NodeComponents { sprite: true, ..comps() }), ("SPR", StatusTone::Success));
    assert_eq!(node_kind(NodeComponents { tag: true, ..comps() }), ("TAG", StatusTone::Info));
    assert_eq!(node_kind(comps()), ("NOD", StatusTone::Info));
    assert_eq!(node_type(NodeComponents { player_controller: true, ..comps() }), "Player");
    assert_eq!(node_type(NodeComponents { tag: true, ..comps() }), "Node2D");
    assert_eq!(node_type(NodeComponents { sprite: true, ..comps() }), "Sprite2D");
}

#[test]
fn node_labels_and_colors() {
    assert_eq!(node_label(NodeComponents { camera: true, ..comps() }, Some("Main Camera")), "CAM Main Camera");
    assert_eq!(node_label(comps(), None), "NOD ?");
    let c = theme_colors();
    assert_eq!(node_color(true, true, true, true), c.accent);
    assert_eq!(node_color(false, true, true, false), c.camera);
    assert_eq!(node_color(false, false, true, true), c.success);
    assert_eq!(node_color(false, false, false, true), c.accent_soft);
    assert_eq!(node_color(false, false, false, false), c.warning);
}

fn node(id: u64, name: &str, components: NodeComponents) -> SceneNodeView {
    SceneNodeView { id, name: name.to_string(), components }
}

#[test]
fn scene_groups_and_filter() {
    let nodes = vec![
        node(1, "Ground", NodeComponents { tilemap: true, ..comps() }),
        node(2, "Player", NodeComponents { player_controller: true, sprite: true, ..comps() }),
        node(3, "Coin", NodeComponents { sprite: true, trigger: true, ..comps() }),
        node(4, "Camera", NodeComponents { camera: true, camera_follow: true, ..comps() }),
        node(5, "Empty", comps()),
    ];
    assert_eq!(scene_group_ids(&nodes, "", SceneGroup::World), vec![1, 4]);
    assert_eq!(scene_group_ids(&nodes, "", SceneGroup::Actors), vec![2]);
    assert_eq!(scene_group_ids(&nodes, "", SceneGroup::Gameplay), vec![3, 4]);
    assert_eq!(scene_group_ids(&nodes, "", SceneGroup::Other), vec![5]);
    assert_eq!(scene_group_ids(&nodes, "CA", SceneGroup::World), vec![4]);
    assert_eq!(scene_group_ids(&nodes, "zz", SceneGroup::World), Vec::<u64>::new());
    assert!(in_scene_group(SceneGroup::Other, NodeComponents { tag: true, ..comps() }));
}

#[test]
fn default_selection_prefers_player() {
    let nodes = vec![node(8, "Ground", comps()), node(9, "Player", comps())];
    assert_eq!(default_selected_node(&nodes), Some(9));
    let nodes = vec![node(8, "Ground", comps()), node(9, "player", comps())];
    assert_eq!(default_selected_node(&nodes), Some(8));
    assert_eq!(default_selected_node(&Vec::new()), None);
}

#[test]
fn camera_follows_first_player_controlled_node() {
    let nodes = vec![
        node(1, "Ground", comps()),
        node(2, "Hero", NodeComponents { player_controller: true, ..comps() }),
        node(3, "Other", NodeComponents { player_controller: true, ..comps() }),
    ];
    assert_eq!(default_camera_follow_target(&nodes, 9), 2);
    assert_eq!(default_camera_follow_target(&vec![node(1, "Ground", comps())], 9), 9);
}
