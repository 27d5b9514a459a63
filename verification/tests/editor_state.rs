use crab2d::asset_browser::{asset_category_matches, assets_for_tab, filtered_assets_by_text, ImageAsset};
use crab2d::editor_actions::{
    camera_follow_target, hit_target_entities, inspector_allows, transform_drag_step,
    TransformChange, TransformDragAction, new_project_request, selected_summary, open_project_request, paint_target, play_step,
    project_path_for_name, save_as_default_path, save_as_request, selected_target,
    shortcut_actions, tile_edit, topmost_hit, viewport_click_action, viewport_frame_actions,
    drag_start, drag_done_message, ClickAction, DragStart, HitItem, PlayStep, ShortcutActions,
    ShortcutInput, ViewportFrameActions, ViewportFrameInput,
};
use crab2d::editor_types::{AssetBrowserTab, AssetCategory, EditorTool};
use crab2d::status::{output_color, output_level, trim_output, StatusLog, MAX_OUTPUT_LINES};
use crab2d::theme::theme_colors;
use crab2d::workspace::{DockPanel, DockSlot, WorkspaceLayout};
use crab2d::StatusTone;

#[test]
fn labels() {
    assert_eq!(EditorTool::TileBrush.label(), "Tile Brush");
    assert_eq!(EditorTool::EraseTile.label(), "Erase");
    assert_eq!(AssetCategory::Ui.label(), "UI");
    assert_eq!(AssetCategory::ALL.len(), 5);
    assert_eq!(DockPanel::Assets.label(), "Assets");
    assert_eq!(DockSlot::Hidden.label(), "Hidden");
    assert_eq!(DockPanel::ALL, [DockPanel::Scene, DockPanel::Assets, DockPanel::Inspector]);
}

#[test]
fn output_levels_and_colors() {
    assert_eq!(output_level(StatusTone::Info), "INFO");
    assert_eq!(output_level(StatusTone::Success), "OK");
    assert_eq!(output_level(StatusTone::Warning), "WARN");
    assert_eq!(output_level(StatusTone::Error), "ERROR");
    let c = theme_colors();
    assert_eq!(output_color("[ERROR] x"), c.error);
    assert_eq!(output_color("[WARN] x"), c.warning);
    assert_eq!(output_color("[OK] x"), c.success);
    assert_eq!(output_color("[INFO] x"), c.text_secondary);
}

#[test]
fn trim_output_keeps_latest_lines() {
    let mut lines: Vec<String> = (0..205).map(|i| format!("line {i}")).collect();
    trim_output(&mut lines);
    assert_eq!(lines.len(), MAX_OUTPUT_LINES);
    assert_eq!(lines[0], "line 5");
    assert_eq!(lines[199], "line 204");
    let mut short = vec!["a".to_string()];
    trim_output(&mut short);
    assert_eq!(short, vec!["a".to_string()]);
}

#[test]
fn status_log_starts_ready() {
    let log = StatusLog::new();
    assert_eq!(log.status, "Ready");
    assert_eq!(log.tone, StatusTone::Info);
    assert_eq!(
        log.output,
        vec!["[INFO] Crab2D editor started".to_string(), "[INFO] Starter scene loaded".to_string()]
    );
    assert_eq!(log.last_asset_error, None);
}

#[test]
fn status_messages_become_newest_output_line() {
    let mut log = StatusLog::new();
    log.set_success("Saved: a.json".to_string());
    assert_eq!(log.status, "Saved: a.json");
    assert_eq!(log.tone, StatusTone::Success);
    assert_eq!(log.output.last().unwrap(), "[OK] Saved: a.json");
    log.set_error("boom".to_string());
    assert_eq!(log.output.last().unwrap(), "[ERROR] boom");
    log.push_status("careful".to_string(), StatusTone::Warning);
    assert_eq!(log.output.last().unwrap(), "[WARN] careful");
    let before = log.output.len();
    log.set_status(String::new());
    assert_eq!(log.status, "");
    assert_eq!(log.output.len(), before);
}

#[test]
fn status_log_stays_bounded() {
    let mut log = StatusLog::new();
    for i in 0..250 {
        log.set_status(format!("m{i}"));
    }
    assert_eq!(log.output.len(), MAX_OUTPUT_LINES);
    assert_eq!(log.output.last().unwrap(), "[INFO] m249");
    assert_eq!(log.output[0], "[INFO] m50");
}

#[test]
fn repeated_asset_error_is_logged_once() {
    let mut log = StatusLog::new();
    log.report_asset_error("missing a.png".to_string());
    let lines = log.output.len();
    assert_eq!(log.last_asset_error.as_deref(), Some("missing a.png"));
    assert_eq!(log.output.last().unwrap(), "[ERROR] missing a.png");
    log.set_status("other".to_string());
    log.report_asset_error("missing a.png".to_string());
    assert_eq!(log.output.len(), lines + 1);
    assert_eq!(log.status, "other");
    log.report_asset_error("missing b.png".to_string());
    assert_eq!(log.output.len(), lines + 2);
    assert_eq!(log.status, "missing b.png");
    assert_eq!(log.tone, StatusTone::Error);
}

#[test]
fn workspace_docking() {
    let mut layout = WorkspaceLayout::new();
    assert_eq!(layout.panel_slot(DockPanel::Scene), DockSlot::Left);
    assert_eq!(layout.panels_in_slot(DockSlot::Bottom), vec![DockPanel::Assets]);
    let message = layout.set_panel_slot(DockPanel::Inspector, DockSlot::Left);
    assert_eq!(message, "Inspector docked: Left");
    assert_eq!(layout.panels_in_slot(DockSlot::Left), vec![DockPanel::Scene, DockPanel::Inspector]);
    assert_eq!(layout.panels_in_slot(DockSlot::Right), Vec::<DockPanel>::new());
    let message = layout.set_panel_slot(DockPanel::Scene, DockSlot::Hidden);
    assert_eq!(message, "Scene docked: Hidden");
    assert!(!layout.panel_visible(DockPanel::Scene));
    assert_eq!(layout.panels_in_slot(DockSlot::Hidden), Vec::<DockPanel>::new());
    layout.show_scene_panel();
    assert_eq!(layout.panel_slot(DockPanel::Scene), DockSlot::Left);
    assert!(layout.panel_visible(DockPanel::Scene));
    layout.set_panel_slot(DockPanel::Inspector, DockSlot::Hidden);
    layout.show_inspector();
    assert_eq!(layout.panel_slot(DockPanel::Inspector), DockSlot::Right);
    layout.toggle_asset_dock_collapsed();
    assert!(layout.asset_dock_collapsed);
    layout.reset();
    assert!(!layout.asset_dock_collapsed);
    assert_eq!(layout.panel_slot(DockPanel::Inspector), DockSlot::Right);
}

#[test]
fn docking_twice_is_docking_once() {
    let mut once = WorkspaceLayout::new();
    once.set_panel_slot(DockPanel::Assets, DockSlot::Right);
    let mut twice = WorkspaceLayout::new();
    twice.set_panel_slot(DockPanel::Assets, DockSlot::Right);
    twice.set_panel_slot(DockPanel::Assets, DockSlot::Right);
    assert_eq!(once.panels_in_slot(DockSlot::Right), twice.panels_in_slot(DockSlot::Right));
    assert_eq!(twice.panels_in_slot(DockSlot::Right), vec![DockPanel::Assets, DockPanel::Inspector]);
}

fn asset(path: &str, name: &str) -> ImageAsset {
    ImageAsset { asset_path: path.to_string(), display_name: name.to_string() }
}

fn paths(v: &[ImageAsset]) -> Vec<String> {
    v.iter().map(|a| a.asset_path.clone()).collect()
}

#[test]
fn asset_categories() {
    assert!(asset_category_matches(AssetCategory::Sprites, "Sprites/Hero.png"));
    assert!(asset_category_matches(AssetCategory::Tilemaps, "world/TileSet.png"));
    assert!(asset_category_matches(AssetCategory::Ui, "hud/heart.png"));
    assert!(asset_category_matches(AssetCategory::Other, "misc/rock.png"));
    assert!(!asset_category_matches(AssetCategory::Other, "misc/map_rock.png"));
    assert!(asset_category_matches(AssetCategory::All, "anything"));
}

#[test]
fn asset_search_by_text() {
    let assets = vec![
        asset("sprites/hero.png", "Hero"),
        asset("tiles/grass.png", "Grass"),
        asset("ui/icon_coin.png", "Coin"),
    ];
    assert_eq!(paths(&filtered_assets_by_text(&assets, AssetCategory::All, "  ")), paths(&assets));
    assert_eq!(paths(&filtered_assets_by_text(&assets, AssetCategory::All, " HER ")), vec!["sprites/hero.png"]);
    assert_eq!(paths(&filtered_assets_by_text(&assets, AssetCategory::All, "coin")), vec!["ui/icon_coin.png"]);
    assert_eq!(paths(&filtered_assets_by_text(&assets, AssetCategory::Tilemaps, "")), vec!["tiles/grass.png"]);
    assert_eq!(paths(&filtered_assets_by_text(&assets, AssetCategory::Sprites, "grass")), Vec::<String>::new());
}

#[test]
fn broken_tab_lists_failed_loads() {
    let assets = vec![asset("a.png", "A"), asset("b.png", "B"), asset("c.png", "C")];
    let broken = assets_for_tab(assets, AssetBrowserTab::Broken, &vec![false, true, true]);
    assert_eq!(paths(&broken), vec!["b.png", "c.png"]);
    let assets = vec![asset("a.png", "A"), asset("b.png", "B")];
    let all = assets_for_tab(assets, AssetBrowserTab::Images, &vec![true, false]);
    assert_eq!(paths(&all), vec!["a.png", "b.png"]);
}

fn input(z: bool, y: bool, s: bool, o: bool, ctrl: bool, shift: bool) -> ShortcutInput {
    ShortcutInput { z_pressed: z, y_pressed: y, s_pressed: s, o_pressed: o, ctrl, shift }
}

#[test]
fn shortcuts() {
    assert_eq!(
        shortcut_actions(input(true, false, false, false, true, false)),
        ShortcutActions { undo: true, redo: false, save: false, open: false }
    );
    assert_eq!(
        shortcut_actions(input(true, false, false, false, true, true)),
        ShortcutActions { undo: false, redo: true, save: false, open: false }
    );
    assert_eq!(shortcut_actions(input(false, true, false, false, true, false)).redo, true);
    assert_eq!(shortcut_actions(input(false, false, true, true, true, false)).save, true);
    assert_eq!(shortcut_actions(input(false, false, true, true, false, false)).open, false);
}

#[test]
fn project_dialog_requests() {
    assert_eq!(new_project_request("  ", ""), Err("Project name cannot be empty".to_string()));
    assert_eq!(
        new_project_request(" My Game ", ""),
        Ok(("My Game".to_string(), "projects/MyGame".to_string()))
    );
    assert_eq!(
        new_project_request("Game", " /tmp/g "),
        Ok(("Game".to_string(), "/tmp/g".to_string()))
    );
    assert_eq!(project_path_for_name(" Space Rocks "), Some("projects/SpaceRocks".to_string()));
    assert_eq!(project_path_for_name(""), None);
    assert_eq!(open_project_request("\t"), Err("Project path cannot be empty".to_string()));
    assert_eq!(open_project_request(" a.json "), Ok("a.json".to_string()));
    assert_eq!(save_as_request(""), Err("Save path cannot be empty".to_string()));
    assert_eq!(save_as_request(" b.json"), Ok("b.json".to_string()));
    assert_eq!(save_as_default_path(Some("x/p.json"), "Game"), "x/p.json");
    assert_eq!(save_as_default_path(None, "My Game"), "projects/MyGame/project.crab2d.json");
}

#[test]
fn play_steps() {
    assert_eq!(play_step(false, true), PlayStep::SaveFirst);
    assert_eq!(play_step(true, true), PlayStep::ConfirmUnsavedChanges);
    assert_eq!(play_step(true, false), PlayStep::Launch);
}

#[test]
fn viewport_clicks_and_tile_edits() {
    assert_eq!(viewport_click_action(EditorTool::Select), ClickAction::SelectTopmost);
    assert_eq!(viewport_click_action(EditorTool::Pan), ClickAction::Ignore);
    assert_eq!(viewport_click_action(EditorTool::EraseTile), ClickAction::PaintTile);
    assert_eq!(tile_edit(EditorTool::TileBrush, 4, 1, 0, 2, 1), Some(Some(4)));
    assert_eq!(tile_edit(EditorTool::EraseTile, 4, 1, 0, 2, 1), Some(None));
    assert_eq!(tile_edit(EditorTool::TileBrush, 4, 2, 0, 2, 1), None);
    assert_eq!(tile_edit(EditorTool::Select, 4, 0, 0, 2, 1), None);
    assert_eq!(paint_target(Some(3), true, Some(1)), Some(3));
    assert_eq!(paint_target(Some(3), false, Some(1)), Some(1));
    assert_eq!(paint_target(None, false, None), None);
}

#[test]
fn hit_targets_preserve_draw_order_for_overlapping_nodes() {
    let items = vec![
        HitItem { entity: 1, has_tilemap: false },
        HitItem { entity: 2, has_tilemap: false },
    ];
    let targets = hit_target_entities(&items);
    let hits = vec![true; targets.len()];
    let hit = topmost_hit(&hits).expect("target");
    assert_eq!(targets[hit], 2);
}

#[test]
fn selected_hit_rect_returns_topmost_target_for_entity() {
    let items = vec![HitItem { entity: 3, has_tilemap: true }];
    let targets = hit_target_entities(&items);
    assert_eq!(targets.len(), 2);
    assert_eq!(selected_target(&targets, Some(3)), Some(1));
}

#[test]
fn tilemap_targets_come_first() {
    let items = vec![
        HitItem { entity: 1, has_tilemap: true },
        HitItem { entity: 2, has_tilemap: false },
        HitItem { entity: 3, has_tilemap: true },
    ];
    assert_eq!(hit_target_entities(&items), vec![1, 3, 1, 2, 3]);
    assert_eq!(selected_target(&hit_target_entities(&items), Some(1)), Some(2));
    assert_eq!(selected_target(&hit_target_entities(&items), Some(9)), None);
    assert_eq!(selected_target(&hit_target_entities(&items), None), None);
    assert_eq!(topmost_hit(&vec![true, false, true, false]), Some(2));
    assert_eq!(topmost_hit(&vec![false, false]), None);
}

#[test]
fn inspector_filter_and_selection_line() {
    assert!(inspector_allows("   ", "Transform"));
    assert!(inspector_allows(" TRANS ", "Transform"));
    assert!(!inspector_allows("camera", "Transform"));
    assert_eq!(selected_summary(Some("Player")), "Selected: Player");
    assert_eq!(selected_summary(None), "No selection");
}

fn frame(tool: EditorTool) -> ViewportFrameInput {
    ViewportFrameInput {
        tool,
        pointer_inside: true,
        drag_inside: true,
        clicked: false,
        primary_dragged: false,
        middle_dragged: false,
        primary_released: false,
        asset_dragging: false,
        home_pressed: false,
    }
}

#[test]
fn viewport_frame_decisions() {
    let none = ViewportFrameActions {
        paint: false,
        select_topmost: false,
        pan: false,
        drop_asset: false,
        cancel_asset_drag: false,
        reset_view: false,
    };
    assert_eq!(viewport_frame_actions(frame(EditorTool::Select)), none);
    assert_eq!(
        viewport_frame_actions(ViewportFrameInput { clicked: true, ..frame(EditorTool::Select) }),
        ViewportFrameActions { select_topmost: true, ..none }
    );
    assert_eq!(
        viewport_frame_actions(ViewportFrameInput { primary_dragged: true, ..frame(EditorTool::TileBrush) }),
        ViewportFrameActions { paint: true, ..none }
    );
    assert_eq!(
        viewport_frame_actions(ViewportFrameInput {
            primary_dragged: true,
            drag_inside: false,
            ..frame(EditorTool::EraseTile)
        }),
        none
    );
    assert_eq!(
        viewport_frame_actions(ViewportFrameInput { primary_dragged: true, ..frame(EditorTool::Pan) }),
        ViewportFrameActions { pan: true, ..none }
    );
    assert_eq!(
        viewport_frame_actions(ViewportFrameInput { middle_dragged: true, ..frame(EditorTool::Select) }),
        ViewportFrameActions { pan: true, ..none }
    );
    let released = ViewportFrameInput {
        asset_dragging: true,
        primary_released: true,
        ..frame(EditorTool::Select)
    };
    assert_eq!(viewport_frame_actions(released), ViewportFrameActions { drop_asset: true, ..none });
    assert_eq!(
        viewport_frame_actions(ViewportFrameInput { pointer_inside: false, ..released }),
        ViewportFrameActions { cancel_asset_drag: true, ..none }
    );
    assert_eq!(
        viewport_frame_actions(ViewportFrameInput { home_pressed: true, ..frame(EditorTool::Pan) }),
        ViewportFrameActions { reset_view: true, ..none }
    );
}

#[test]
fn drag_starts_and_ends() {
    assert_eq!(drag_start(true, true, Some(2)), DragStart::Resize);
    assert_eq!(drag_start(false, true, Some(2)), DragStart::Move(2));
    assert_eq!(drag_start(true, false, None), DragStart::Nothing);
    assert_eq!(drag_done_message(true), "Node resized");
    assert_eq!(drag_done_message(false), "Node moved");
}

#[test]
fn camera_follow_target_reads_entity_ids() {
    assert_eq!(camera_follow_target(" 42 "), Ok(42));
    assert_eq!(camera_follow_target("+7"), Ok(7));
    assert_eq!(camera_follow_target("18446744073709551615"), Ok(u64::MAX));
    let err = Err("Camera follow target must be an entity id".to_string());
    assert_eq!(camera_follow_target("18446744073709551616"), err);
    assert_eq!(camera_follow_target(""), err);
    assert_eq!(camera_follow_target("-1"), err);
    assert_eq!(camera_follow_target("player"), err);
}

#[test]
fn transform_drags_leave_one_undo_step() {
    assert_eq!(
        transform_drag_step(false, false, true, false),
        TransformDragAction {
            begin_drag: false,
            change: TransformChange::WithHistory,
            record_drag: false,
            dragging_after: false,
        }
    );
    let start = transform_drag_step(false, true, true, false);
    assert_eq!(start.change, TransformChange::Live);
    assert!(start.begin_drag && start.dragging_after && !start.record_drag);
    let during = transform_drag_step(true, false, true, false);
    assert_eq!(during.change, TransformChange::Live);
    assert!(!during.record_drag && during.dragging_after);
    let stop = transform_drag_step(true, false, false, true);
    assert_eq!(stop.change, TransformChange::Unchanged);
    assert!(stop.record_drag && !stop.dragging_after);
    let idle = transform_drag_step(false, false, false, true);
    assert!(!idle.record_drag);
}

#[test]
fn a_whole_transform_drag_is_one_undo_step() {
    let frames = [(true, true, false), (false, true, false), (false, true, false), (false, false, true)];
    let mut dragging = false;
    let mut records = 0;
    let mut history_edits = 0;
    for (started, changed, stopped) in frames {
        let a = transform_drag_step(dragging, started, changed, stopped);
        if a.record_drag {
            records += 1;
        }
        if a.change == TransformChange::WithHistory {
            history_edits += 1;
        }
        dragging = a.dragging_after;
    }
    assert_eq!((dragging, records, history_edits), (false, 1, 0));
}
