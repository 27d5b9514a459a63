use std::collections::VecDeque;

use crab2d::runtime::{
    collision_other, frame_key_actions, key_name, key_transitions, keys_missing_from,
    push_recent, runtime_defaults, runtime_project_path, RuntimeDefaults, RuntimeKey,
    RuntimeNode, ScriptTracker, FPS_HISTORY_LEN,
};

#[test]
fn key_names() {
    assert_eq!(key_name(RuntimeKey::Character('w')), "w");
    assert_eq!(key_name(RuntimeKey::ArrowUp), "arrow_up");
    assert_eq!(key_name(RuntimeKey::ArrowRight), "arrow_right");
    assert_eq!(key_name(RuntimeKey::Escape), "escape");
    assert_eq!(key_name(RuntimeKey::Enter), "enter");
    assert_eq!(key_name(RuntimeKey::F5), "f5");
}

#[test]
fn key_transitions_replay_the_frame() {
    let previous = vec![RuntimeKey::Character('a'), RuntimeKey::Space];
    let current = vec![RuntimeKey::Space, RuntimeKey::ArrowUp, RuntimeKey::Character('d')];
    let (pressed, released) = key_transitions(&previous, &current);
    assert_eq!(pressed, vec![RuntimeKey::ArrowUp, RuntimeKey::Character('d')]);
    assert_eq!(released, vec![RuntimeKey::Character('a')]);
    let mut held: Vec<RuntimeKey> = previous.iter().copied().filter(|k| !released.contains(k)).collect();
    held.extend(pressed.iter().copied());
    let mut expected = current.clone();
    held.sort_by_key(|k| format!("{k:?}"));
    expected.sort_by_key(|k| format!("{k:?}"));
    assert_eq!(held, expected);
    assert_eq!(keys_missing_from(&vec![], &current), vec![]);
}

#[test]
fn frame_keys() {
    assert_eq!(frame_key_actions(true, false, false), (true, false));
    assert_eq!(frame_key_actions(false, true, false), (false, true));
    assert_eq!(frame_key_actions(false, true, true), (false, false));
    assert_eq!(frame_key_actions(false, false, true), (false, true));
}

fn rnode(id: u64, name: &str, tag: Option<&str>) -> RuntimeNode {
    RuntimeNode {
        id,
        name: name.to_string(),
        tag: tag.map(str::to_string),
        has_velocity: false,
        has_player_controller: false,
        has_collider: false,
        has_camera: false,
        has_camera_follow: false,
    }
}

#[test]
fn runtime_defaults_find_player_and_camera() {
    let mut camera = rnode(5, "Camera", None);
    camera.has_camera = true;
    let mut tagged = rnode(2, "Hero", Some("player"));
    tagged.has_collider = true;
    let nodes = vec![rnode(1, "Player", None), tagged, camera];
    assert_eq!(
        runtime_defaults(&nodes),
        RuntimeDefaults {
            player: Some(2),
            add_velocity: true,
            add_player_controller: true,
            add_collider: false,
            follow_camera: Some(5),
        }
    );
}

#[test]
fn runtime_defaults_fall_back_to_name_and_skip_following_camera() {
    let mut camera = rnode(5, "Camera", None);
    camera.has_camera = true;
    camera.has_camera_follow = true;
    let nodes = vec![rnode(1, "Player", Some("enemy")), camera];
    let d = runtime_defaults(&nodes);
    assert_eq!(d.player, Some(1));
    assert_eq!(d.follow_camera, None);
    let none = runtime_defaults(&vec![rnode(1, "Enemy", None)]);
    assert_eq!(
        none,
        RuntimeDefaults {
            player: None,
            add_velocity: false,
            add_player_controller: false,
            add_collider: false,
            follow_camera: None,
        }
    );
}

#[test]
fn scripts_reload_when_changed_or_unloaded() {
    let mut t = ScriptTracker::new();
    let path = "scripts/player.rhai".to_string();
    assert!(t.needs_reload(&path, Some(10), false));
    assert!(!t.needs_reload(&path, Some(10), true));
    assert!(t.needs_reload(&path, Some(11), true));
    assert!(!t.needs_reload(&path, Some(11), true));
    assert!(t.needs_reload(&path, None, false));
    assert!(!t.needs_reload(&path, None, true));
}

#[test]
fn start_events_fire_once_until_reload() {
    let mut t = ScriptTracker::new();
    let path = "scripts/coin.rhai".to_string();
    assert!(!t.take_start(1, &path, false));
    assert!(t.take_start(1, &path, true));
    assert!(!t.take_start(1, &path, true));
    assert!(t.take_start(2, &path, true));
    t.script_reloaded(&path);
    assert!(t.take_start(1, &path, true));
    t.clear_started();
    assert!(t.take_start(1, &path, true));
    assert!(t.take_start(2, &path, true));
}

#[test]
fn collision_others() {
    assert_eq!(collision_other(Some(7), Some("enemy")), (7, "enemy".to_string()));
    assert_eq!(collision_other(Some(7), None), (7, String::new()));
    assert_eq!(collision_other(None, Some("x")), (-1, "tile".to_string()));
}

#[test]
fn fps_history_keeps_latest_samples() {
    let mut h: VecDeque<u32> = VecDeque::new();
    for i in 0..70 {
        push_recent(&mut h, i);
    }
    assert_eq!(h.len(), FPS_HISTORY_LEN);
    assert_eq!(h.front(), Some(&10));
    assert_eq!(h.back(), Some(&69));
}

#[test]
fn project_path_from_arguments() {
    assert_eq!(runtime_project_path(Some("game.json".to_string())), "game.json");
    assert_eq!(runtime_project_path(None), "project.crab2d.json");
}

#[test]
fn scene_start_events_fire_once() {
    let mut t = ScriptTracker::new();
    let behaviors = vec![
        (1, "a.rhai".to_string(), true),
        (2, "a.rhai".to_string(), false),
        (1, "a.rhai".to_string(), true),
        (3, "b.rhai".to_string(), true),
    ];
    assert_eq!(t.take_starts(&behaviors), vec![0, 3]);
    assert_eq!(t.take_starts(&behaviors), Vec::<usize>::new());
    t.script_reloaded(&"a.rhai".to_string());
    assert_eq!(t.take_starts(&behaviors), vec![0]);
}

#[test]
fn fps_history_over_full_drops_one() {
    let mut h: VecDeque<u32> = (0..65).collect();
    push_recent(&mut h, 99);
    assert_eq!(h.len(), 65);
    assert_eq!(h.front(), Some(&1));
    assert_eq!(h.back(), Some(&99));
}

#[test]
fn defaults_applied_are_not_added_again() {
    let mut camera = rnode(5, "Camera", None);
    camera.has_camera = true;
    let mut nodes = vec![rnode(1, "Player", None), camera];
    let d = runtime_defaults(&nodes);
    assert_eq!(d.follow_camera, Some(5));
    nodes[0].has_velocity = true;
    nodes[0].has_player_controller = true;
    nodes[0].has_collider = true;
    nodes[1].has_camera_follow = true;
    let again = runtime_defaults(&nodes);
    assert_eq!(
        again,
        RuntimeDefaults {
            player: Some(1),
            add_velocity: false,
            add_player_controller: false,
            add_collider: false,
            follow_camera: None,
        }
    );
}
