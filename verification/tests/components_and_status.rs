use crab2d::components::{add_component_note, attachable_components, AttachedComponents, ComponentKind};
use crab2d::editor_actions::tile_paint_target;
use crab2d::status::{StatusLog, MAX_OUTPUT_LINES};
use crab2d::workspace::{DockPanel, DockSlot, WorkspaceLayout};
use crab2d::StatusTone;

fn none_attached() -> AttachedComponents {
    AttachedComponents {
        tag: false,
        sprite: false,
        tilemap: false,
        camera: false,
        velocity: false,
        collider: false,
        player_controller: false,
        camera_follow: false,
        trigger: false,
    }
}

#[test]
fn add_component_panel_offers_missing_components() {
    let all = attachable_components(none_attached());
    assert_eq!(all.len(), 9);
    assert_eq!(all[0], ComponentKind::Tag);
    assert_eq!(all[8], ComponentKind::Trigger);
    let some = attachable_components(AttachedComponents {
        tag: true,
        sprite: true,
        tilemap: true,
        camera: true,
        velocity: true,
        collider: false,
        player_controller: true,
        camera_follow: false,
        trigger: true,
    });
    assert_eq!(some, vec![ComponentKind::Collider2D, ComponentKind::CameraFollow]);
    assert_eq!(ComponentKind::PlayerController.label(), "PlayerController");
    assert_eq!(ComponentKind::Camera2D.label(), "Camera2D");
    assert_eq!(add_component_note(none_attached()), None);
    let full = AttachedComponents {
        tag: true,
        sprite: true,
        tilemap: true,
        camera: true,
        velocity: true,
        collider: true,
        player_controller: true,
        camera_follow: true,
        trigger: true,
    };
    assert_eq!(attachable_components(full), Vec::new());
    assert_eq!(add_component_note(full), Some("All supported components are attached"));
}

#[test]
fn painting_without_tilemap_is_an_error() {
    assert_eq!(tile_paint_target(Some(4), true, Some(1)), Ok(4));
    assert_eq!(tile_paint_target(Some(4), false, Some(1)), Ok(1));
    assert_eq!(tile_paint_target(None, false, None), Err("No tilemap node available".to_string()));
}

#[test]
fn docking_reports_an_info_status() {
    let mut layout = WorkspaceLayout::new();
    let mut log = StatusLog::new();
    log.set_error("earlier".to_string());
    layout.dock_panel(&mut log, DockPanel::Assets, DockSlot::Left);
    assert_eq!(layout.panel_slot(DockPanel::Assets), DockSlot::Left);
    assert_eq!(log.status, "Assets docked: Left");
    assert_eq!(log.tone, StatusTone::Info);
    assert_eq!(log.output.last().unwrap(), "[INFO] Assets docked: Left");
}

#[test]
fn transform_updates_show_in_status_line_only() {
    let mut log = StatusLog::new();
    let before = log.output.clone();
    log.set_error("x".to_string());
    let lines = log.output.len();
    log.report_transform_updated();
    assert_eq!(log.status, "Transform updated");
    assert_eq!(log.tone, StatusTone::Info);
    assert_eq!(log.output.len(), lines);
    assert_eq!(before.len() + 1, lines);
}

#[test]
fn oversized_log_is_trimmed_by_the_next_message() {
    let mut log = StatusLog::new();
    log.output = (0..250).map(|i| format!("l{i}")).collect();
    log.set_status(String::new());
    assert_eq!(log.output.len(), 250);
    log.set_status("m".to_string());
    assert_eq!(log.output.len(), MAX_OUTPUT_LINES);
    assert_eq!(log.output.last().unwrap(), "[INFO] m");
}
