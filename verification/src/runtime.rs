//! Decisions of the game runtime: key names and key transitions, the
//! defaults given to the player, script reloading and start events,
//! collision arguments, the frame-rate history and the project to run.
use std::collections::VecDeque;
use vstd::prelude::*;
use vstd::string::*;
use crate::paths::project_file_name;

verus! {

/// A key the runtime reports to scripts.
#[derive(Debug, Clone, Copy, PartialEq, Eq, Structural)]
pub enum RuntimeKey {
    Character(char),
    ArrowUp,
    ArrowDown,
    ArrowLeft,
    ArrowRight,
    Escape,
    Space,
    Enter,
    F1,
    F2,
    F3,
    F4,
    F5,
}

/// The name scripts know a key by: a character key by its character, the
/// other keys by a lower-case name.
pub open spec fn key_text(key: RuntimeKey) -> Seq<char> {
    match key {
        RuntimeKey::Character(c) => seq![c],
        RuntimeKey::ArrowUp => seq!['a', 'r', 'r', 'o', 'w', '_', 'u', 'p'],
        RuntimeKey::ArrowDown => seq!['a', 'r', 'r', 'o', 'w', '_', 'd', 'o', 'w', 'n'],
        RuntimeKey::ArrowLeft => seq!['a', 'r', 'r', 'o', 'w', '_', 'l', 'e', 'f', 't'],
        RuntimeKey::ArrowRight => seq!['a', 'r', 'r', 'o', 'w', '_', 'r', 'i', 'g', 'h', 't'],
        RuntimeKey::Escape => seq!['e', 's', 'c', 'a', 'p', 'e'],
        RuntimeKey::Space => seq!['s', 'p', 'a', 'c', 'e'],
        RuntimeKey::Enter => seq!['e', 'n', 't', 'e', 'r'],
        RuntimeKey::F1 => seq!['f', '1'],
        RuntimeKey::F2 => seq!['f', '2'],
        RuntimeKey::F3 => seq!['f', '3'],
        RuntimeKey::F4 => seq!['f', '4'],
        RuntimeKey::F5 => seq!['f', '5'],
    }
}

/// The key a script's key name stands for, read from the name's length and
/// a distinguishing letter.
pub open spec fn key_named(name: Seq<char>) -> Option<RuntimeKey> {
    if name.len() == 1 {
        Some(RuntimeKey::Character(name[0]))
    } else if name == seq!['a', 'r', 'r', 'o', 'w', '_', 'u', 'p'] {
        Some(RuntimeKey::ArrowUp)
    } else if name == seq!['a', 'r', 'r', 'o', 'w', '_', 'd', 'o', 'w', 'n'] {
        Some(RuntimeKey::ArrowDown)
    } else if name == seq!['a', 'r', 'r', 'o', 'w', '_', 'l', 'e', 'f', 't'] {
        Some(RuntimeKey::ArrowLeft)
    } else if name == seq!['a', 'r', 'r', 'o', 'w', '_', 'r', 'i', 'g', 'h', 't'] {
        Some(RuntimeKey::ArrowRight)
    } else if name == seq!['e', 's', 'c', 'a', 'p', 'e'] {
        Some(RuntimeKey::Escape)
    } else if name == seq!['s', 'p', 'a', 'c', 'e'] {
        Some(RuntimeKey::Space)
    } else if name == seq!['e', 'n', 't', 'e', 'r'] {
        Some(RuntimeKey::Enter)
    } else if name == seq!['f', '1'] {
        Some(RuntimeKey::F1)
    } else if name == seq!['f', '2'] {
        Some(RuntimeKey::F2)
    } else if name == seq!['f', '3'] {
        Some(RuntimeKey::F3)
    } else if name == seq!['f', '4'] {
        Some(RuntimeKey::F4)
    } else if name == seq!['f', '5'] {
        Some(RuntimeKey::F5)
    } else {
        None
    }
}

/// A script can tell every key from every other by its name: reading the
/// name back gives the key (the arrows are `arrow_up`, `arrow_down`,
/// `arrow_left` and `arrow_right`, the function keys `f1` to `f5`), so
/// two different keys never share a name.
pub proof fn law_key_names_tell_keys_apart(k1: RuntimeKey, k2: RuntimeKey)
    ensures
        key_named(key_text(k1)) == Some(k1),
        key_text(k1) == key_text(k2) ==> k1 == k2,
{
    lemma_key_named(k1);
    lemma_key_named(k2);
}

proof fn lemma_key_named(k: RuntimeKey)
    ensures
        key_named(key_text(k)) == Some(k),
{
    let t = key_text(k);
    match k {
        RuntimeKey::Character(c) => {},
        RuntimeKey::ArrowUp => {
            assert(t.len() == 8);
        },
        RuntimeKey::ArrowDown => {
            assert(t[6] == 'd');
        },
        RuntimeKey::ArrowLeft => {
            assert(t[6] == 'l');
        },
        RuntimeKey::ArrowRight => {
            assert(t.len() == 11);
        },
        RuntimeKey::Escape => {
            assert(t.len() == 6);
        },
        RuntimeKey::Space => {
            assert(t[0] == 's');
        },
        RuntimeKey::Enter => {
            assert(t[0] == 'e');
        },
        RuntimeKey::F1 => {
            assert(t[1] == '1');
        },
        RuntimeKey::F2 => {
            assert(t[1] == '2');
        },
        RuntimeKey::F3 => {
            assert(t[1] == '3');
        },
        RuntimeKey::F4 => {
            assert(t[1] == '4');
        },
        RuntimeKey::F5 => {
            assert(t[1] == '5');
        },
    }
}

/// The name of a key as scripts see it.
pub fn key_name(key: RuntimeKey) -> (r: String)
    ensures
        r@ == key_text(key),
{
    proof {
        reveal_strlit("arrow_up");
        reveal_strlit("arrow_down");
        reveal_strlit("arrow_left");
        reveal_strlit("arrow_right");
        reveal_strlit("escape");
        reveal_strlit("space");
        reveal_strlit("enter");
        reveal_strlit("f1");
        reveal_strlit("f2");
        reveal_strlit("f3");
        reveal_strlit("f4");
        reveal_strlit("f5");
    }
    match key {
        RuntimeKey::Character(c) => {
            let mut v: Vec<char> = Vec::new();
            v.push(c);
            crate::text::string_of(&v)
        },
        RuntimeKey::ArrowUp => {
            assert("arrow_up"@ =~= key_text(key));
            String::from_str("arrow_up")
        },
        RuntimeKey::ArrowDown => {
            assert("arrow_down"@ =~= key_text(key));
            String::from_str("arrow_down")
        },
        RuntimeKey::ArrowLeft => {
            assert("arrow_left"@ =~= key_text(key));
            String::from_str("arrow_left")
        },
        RuntimeKey::ArrowRight => {
            assert("arrow_right"@ =~= key_text(key));
            String::from_str("arrow_right")
        },
        RuntimeKey::Escape => {
            assert("escape"@ =~= key_text(key));
            String::from_str("escape")
        },
        RuntimeKey::Space => {
            assert("space"@ =~= key_text(key));
            String::from_str("space")
        },
        RuntimeKey::Enter => {
            assert("enter"@ =~= key_text(key));
            String::from_str("enter")
        },
        RuntimeKey::F1 => {
            assert("f1"@ =~= key_text(key));
            String::from_str("f1")
        },
        RuntimeKey::F2 => {
            assert("f2"@ =~= key_text(key));
            String::from_str("f2")
        },
        RuntimeKey::F3 => {
            assert("f3"@ =~= key_text(key));
            String::from_str("f3")
        },
        RuntimeKey::F4 => {
            assert("f4"@ =~= key_text(key));
            String::from_str("f4")
        },
        RuntimeKey::F5 => {
            assert("f5"@ =~= key_text(key));
            String::from_str("f5")
        },
    }
}

/// Whether `keys` holds `key`.
fn holds_key(keys: &Vec<RuntimeKey>, key: RuntimeKey) -> (r: bool)
    ensures
        r == keys@.contains(key),
{
    let mut i: usize = 0;
    while i < keys.len()
        invariant
            i <= keys.len(),
            forall|j: int| 0 <= j < i ==> keys@[j] != key,
        decreases keys.len() - i,
    {
        if keys[i] == key {
            assert(keys@[i as int] == key);
            return true;
        }
        i = i + 1;
    }
    false
}

/// The keys of `from` that `other` does not hold, in the order of `from`.
pub fn keys_missing_from(from: &Vec<RuntimeKey>, other: &Vec<RuntimeKey>) -> (r: Vec<RuntimeKey>)
    ensures
        r@ == from@.filter(|k: RuntimeKey| !other@.contains(k)),
{
    let ghost keep = |k: RuntimeKey| !other@.contains(k);
    let mut r: Vec<RuntimeKey> = Vec::new();
    let mut i: usize = 0;
    while i < from.len()
        invariant
            i <= from.len(),
            keep == (|k: RuntimeKey| !other@.contains(k)),
            r@ == from@.take(i as int).filter(keep),
        decreases from.len() - i,
    {
        let k = from[i];
        proof {
            let t = from@.take(i as int + 1);
            assert(t.drop_last() =~= from@.take(i as int));
            assert(t.last() == k);
            reveal_with_fuel(Seq::filter, 1);
        }
        if !holds_key(other, k) {
            r.push(k);
        }
        i = i + 1;
    }
    assert(from@.take(from@.len() as int) =~= from@);
    r
}

/// The key events of a frame: the keys down now that were not down before
/// are pressed, the keys down before that are not down now are released.
pub fn key_transitions(previous: &Vec<RuntimeKey>, current: &Vec<RuntimeKey>) -> (r: (Vec<RuntimeKey>, Vec<RuntimeKey>))
    ensures
        r.0@ == current@.filter(|k: RuntimeKey| !previous@.contains(k)),
        r.1@ == previous@.filter(|k: RuntimeKey| !current@.contains(k)),
{
    let pressed = keys_missing_from(current, previous);
    let released = keys_missing_from(previous, current);
    (pressed, released)
}

/// What a runtime frame does with its function keys: Escape closes the
/// window, F1 toggles the debug overlay. Returns `(close, debug_overlay)`.
pub fn frame_key_actions(escape_pressed: bool, f1_pressed: bool, debug_overlay: bool) -> (r: (bool, bool))
    ensures
        r.0 == escape_pressed,
        r.1 == (if f1_pressed { !debug_overlay } else { debug_overlay }),
{
    (escape_pressed, if f1_pressed { !debug_overlay } else { debug_overlay })
}

/// A node of the running scene, as the player defaults see it.
pub struct RuntimeNode {
    pub id: u64,
    pub name: String,
    pub tag: Option<String>,
    pub has_velocity: bool,
    pub has_player_controller: bool,
    pub has_collider: bool,
    pub has_camera: bool,
    pub has_camera_follow: bool,
}

pub open spec fn player_tag() -> Seq<char> {
    seq!['p', 'l', 'a', 'y', 'e', 'r']
}

pub open spec fn player_node_name() -> Seq<char> {
    seq!['P', 'l', 'a', 'y', 'e', 'r']
}

pub open spec fn tag_is(n: RuntimeNode, tag: Seq<char>) -> bool {
    n.tag matches Some(t) && t@ == tag
}

/// The index of the first node satisfying `p`, if any.
pub open spec fn first_index<T>(s: Seq<T>, p: spec_fn(T) -> bool) -> Option<int>
    decreases s.len(),
{
    if s.len() == 0 {
        None
    } else {
        match first_index(s.drop_last(), p) {
            Some(i) => Some(i),
            None => if p(s.last()) {
                Some(s.len() - 1)
            } else {
                None
            },
        }
    }
}

/// The player: the first node tagged `player`, else the first node named `Player`.
pub open spec fn player_index(nodes: Seq<RuntimeNode>) -> Option<int> {
    match first_index(nodes, |n: RuntimeNode| tag_is(n, player_tag())) {
        Some(i) => Some(i),
        None => first_index(nodes, |n: RuntimeNode| n.name@ == player_node_name()),
    }
}

/// The components the runtime adds before the game starts, so that a
/// scene with a player can be played.
#[derive(Debug, Clone, Copy, PartialEq, Eq, Structural)]
pub struct RuntimeDefaults {
    /// The player node, if the scene has one.
    pub player: Option<u64>,
    /// Give the player a velocity.
    pub add_velocity: bool,
    /// Give the player a player controller.
    pub add_player_controller: bool,
    /// Give the player a 24 by 24 collider.
    pub add_collider: bool,
    /// Make this camera follow the player.
    pub follow_camera: Option<u64>,
}

proof fn lemma_first_index_prefix<T>(s: Seq<T>, p: spec_fn(T) -> bool, k: int)
    requires
        0 <= k <= s.len(),
        first_index(s.take(k), p) is Some,
    ensures
        first_index(s, p) == first_index(s.take(k), p),
    decreases s.len() - k,
{
    if k < s.len() {
        assert(s.take(k + 1).drop_last() =~= s.take(k));
        lemma_first_index_prefix(s, p, k + 1);
    } else {
        assert(s.take(k) =~= s);
    }
}

/// The index of the first node tagged `tag`.
fn find_tagged(nodes: &Vec<RuntimeNode>, tag: &String) -> (r: Option<usize>)
    ensures
        match first_index(nodes@, |n: RuntimeNode| tag_is(n, tag@)) {
            Some(i) => 0 <= i < nodes.len() && r == Some(i as usize),
            None => r is None,
        },
{
    let ghost p = |n: RuntimeNode| tag_is(n, tag@);
    let mut i: usize = 0;
    while i < nodes.len()
        invariant
            i <= nodes.len(),
            p == (|n: RuntimeNode| tag_is(n, tag@)),
            first_index(nodes@.take(i as int), p) is None,
        decreases nodes.len() - i,
    {
        proof {
            let t = nodes@.take(i as int + 1);
            assert(t.drop_last() =~= nodes@.take(i as int));
            assert(t.last() == nodes@[i as int]);
        }
        let hit = match &nodes[i].tag {
            Some(t) => *t == *tag,
            None => false,
        };
        if hit {
            proof {
                lemma_first_index_prefix(nodes@, p, i as int + 1);
            }
            return Some(i);
        }
        i = i + 1;
    }
    assert(nodes@.take(nodes@.len() as int) =~= nodes@);
    None
}

/// The index of the first node named `name`.
fn find_named(nodes: &Vec<RuntimeNode>, name: &String) -> (r: Option<usize>)
    ensures
        match first_index(nodes@, |n: RuntimeNode| n.name@ == name@) {
            Some(i) => 0 <= i < nodes.len() && r == Some(i as usize),
            None => r is None,
        },
{
    let ghost p = |n: RuntimeNode| n.name@ == name@;
    let mut i: usize = 0;
    while i < nodes.len()
        invariant
            i <= nodes.len(),
            p == (|n: RuntimeNode| n.name@ == name@),
            first_index(nodes@.take(i as int), p) is None,
        decreases nodes.len() - i,
    {
        proof {
            let t = nodes@.take(i as int + 1);
            assert(t.drop_last() =~= nodes@.take(i as int));
            assert(t.last() == nodes@[i as int]);
        }
        if nodes[i].name == *name {
            proof {
                lemma_first_index_prefix(nodes@, p, i as int + 1);
            }
            return Some(i);
        }
        i = i + 1;
    }
    assert(nodes@.take(nodes@.len() as int) =~= nodes@);
    None
}

/// The index of the first node with a camera.
fn find_camera(nodes: &Vec<RuntimeNode>) -> (r: Option<usize>)
    ensures
        match first_index(nodes@, |n: RuntimeNode| n.has_camera) {
            Some(i) => 0 <= i < nodes.len() && r == Some(i as usize),
            None => r is None,
        },
{
    let ghost p = |n: RuntimeNode| n.has_camera;
    let mut i: usize = 0;
    while i < nodes.len()
        invariant
            i <= nodes.len(),
            p == (|n: RuntimeNode| n.has_camera),
            first_index(nodes@.take(i as int), p) is None,
        decreases nodes.len() - i,
    {
        proof {
            let t = nodes@.take(i as int + 1);
            assert(t.drop_last() =~= nodes@.take(i as int));
            assert(t.last() == nodes@[i as int]);
        }
        if nodes[i].has_camera {
            proof {
                lemma_first_index_prefix(nodes@, p, i as int + 1);
            }
            return Some(i);
        }
        i = i + 1;
    }
    assert(nodes@.take(nodes@.len() as int) =~= nodes@);
    None
}

/// The defaults decided for a scene (see `runtime_defaults`).
pub open spec fn defaults_of(nodes: Seq<RuntimeNode>) -> RuntimeDefaults {
    match player_index(nodes) {
        None => RuntimeDefaults {
            player: None,
            add_velocity: false,
            add_player_controller: false,
            add_collider: false,
            follow_camera: None,
        },
        Some(i) => RuntimeDefaults {
            player: Some(nodes[i].id),
            add_velocity: !nodes[i].has_velocity,
            add_player_controller: !nodes[i].has_player_controller,
            add_collider: !nodes[i].has_collider,
            follow_camera: match first_index(nodes, |n: RuntimeNode| n.has_camera) {
                Some(c) => if nodes[c].has_camera_follow {
                    None
                } else {
                    Some(nodes[c].id)
                },
                None => None,
            },
        },
    }
}

/// A node after the defaults `d` were applied: the player node has a
/// velocity, a player controller and a collider, and the chosen camera
/// follows.
pub open spec fn with_node_defaults(n: RuntimeNode, d: RuntimeDefaults) -> RuntimeNode {
    RuntimeNode {
        has_velocity: n.has_velocity || d.player == Some(n.id),
        has_player_controller: n.has_player_controller || d.player == Some(n.id),
        has_collider: n.has_collider || d.player == Some(n.id),
        has_camera_follow: n.has_camera_follow || d.follow_camera == Some(n.id),
        ..n
    }
}

/// The scene after the defaults `d` were applied.
pub open spec fn with_defaults(nodes: Seq<RuntimeNode>, d: RuntimeDefaults) -> Seq<RuntimeNode> {
    nodes.map_values(|n: RuntimeNode| with_node_defaults(n, d))
}

proof fn lemma_first_index_map<T>(s: Seq<T>, f: spec_fn(T) -> T, p: spec_fn(T) -> bool)
    requires
        forall|x: T| #[trigger] p(f(x)) == p(x),
    ensures
        first_index(s.map_values(f), p) == first_index(s, p),
    decreases s.len(),
{
    if s.len() > 0 {
        lemma_first_index_map(s.drop_last(), f, p);
        assert(s.map_values(f).drop_last() =~= s.drop_last().map_values(f));
        assert(p(s.map_values(f).last()) == p(s.last()));
    }
}

proof fn lemma_first_index_found<T>(s: Seq<T>, p: spec_fn(T) -> bool)
    ensures
        match first_index(s, p) {
            Some(i) => 0 <= i < s.len() && p(s[i]),
            None => true,
        },
    decreases s.len(),
{
    if s.len() > 0 {
        lemma_first_index_found(s.drop_last(), p);
    }
}

/// Applying the defaults and deciding again adds nothing more: the same
/// player is found, and it needs no velocity, controller or collider, and
/// no camera needs to follow it.
pub proof fn law_defaults_are_added_once(nodes: Seq<RuntimeNode>)
    ensures
        ({
            let d = defaults_of(nodes);
            let again = defaults_of(with_defaults(nodes, d));
            &&& again.player == d.player
            &&& !again.add_velocity
            &&& !again.add_player_controller
            &&& !again.add_collider
            &&& again.follow_camera is None
        }),
{
    let d = defaults_of(nodes);
    let f = |n: RuntimeNode| with_node_defaults(n, d);
    let m = with_defaults(nodes, d);
    let tagged = |n: RuntimeNode| tag_is(n, player_tag());
    let named = |n: RuntimeNode| n.name@ == player_node_name();
    let camera = |n: RuntimeNode| n.has_camera;
    assert forall|x: RuntimeNode| #[trigger] tagged(f(x)) == tagged(x) by {}
    assert forall|x: RuntimeNode| #[trigger] named(f(x)) == named(x) by {}
    assert forall|x: RuntimeNode| #[trigger] camera(f(x)) == camera(x) by {}
    lemma_first_index_map(nodes, f, tagged);
    lemma_first_index_map(nodes, f, named);
    lemma_first_index_map(nodes, f, camera);
    lemma_first_index_found(nodes, tagged);
    lemma_first_index_found(nodes, named);
    lemma_first_index_found(nodes, camera);
    assert(player_index(m) == player_index(nodes));
    match player_index(nodes) {
        None => {},
        Some(i) => {
            assert(m[i] == f(nodes[i]));
            match first_index(nodes, camera) {
                Some(c) => {
                    assert(m[c] == f(nodes[c]));
                },
                None => {},
            }
        },
    }
}

/// What the runtime adds to a scene before it starts: the player (the
/// first node tagged `player`, else the first named `Player`) gets the
/// velocity, player controller and collider it lacks, and the first camera
/// follows the player unless it already follows something. Nothing is
/// added to a scene without a player.
pub fn runtime_defaults(nodes: &Vec<RuntimeNode>) -> (d: RuntimeDefaults)
    ensures
        d == defaults_of(nodes@),
        match player_index(nodes@) {
            None => d == RuntimeDefaults {
                player: None,
                add_velocity: false,
                add_player_controller: false,
                add_collider: false,
                follow_camera: None,
            },
            Some(i) => {
                let p = nodes@[i];
                &&& d.player == Some(p.id)
                &&& d.add_velocity == !p.has_velocity
                &&& d.add_player_controller == !p.has_player_controller
                &&& d.add_collider == !p.has_collider
                &&& d.follow_camera == match first_index(nodes@, |n: RuntimeNode| n.has_camera) {
                    Some(c) => if nodes@[c].has_camera_follow {
                        None
                    } else {
                        Some(nodes@[c].id)
                    },
                    None => None,
                }
            },
        },
{
    let tag = String::from_str("player");
    let name = String::from_str("Player");
    proof {
        reveal_strlit("player");
        reveal_strlit("Player");
        assert(tag@ =~= player_tag());
        assert(name@ =~= player_node_name());
        assert((|n: RuntimeNode| tag_is(n, tag@)) =~= (|n: RuntimeNode| tag_is(n, player_tag())));
        assert((|n: RuntimeNode| n.name@ == name@) =~= (|n: RuntimeNode| n.name@ == player_node_name()));
    }
    let found = match find_tagged(nodes, &tag) {
        Some(i) => Some(i),
        None => find_named(nodes, &name),
    };
    let player = match found {
        Some(i) => i,
        None => {
            return RuntimeDefaults {
                player: None,
                add_velocity: false,
                add_player_controller: false,
                add_collider: false,
                follow_camera: None,
            };
        },
    };
    let p = &nodes[player];
    assert(player_index(nodes@) == Some(player as int));
    let follow_camera = match find_camera(nodes) {
        Some(c) => if nodes[c].has_camera_follow {
            None
        } else {
            Some(nodes[c].id)
        },
        None => None,
    };
    assert((|n: RuntimeNode| n.has_camera) =~= (|n: RuntimeNode| n.has_camera));
    RuntimeDefaults {
        player: Some(p.id),
        add_velocity: !p.has_velocity,
        add_player_controller: !p.has_player_controller,
        add_collider: !p.has_collider,
        follow_camera,
    }
}

/// A script file's modification time, in nanoseconds from the Unix epoch.
pub type ScriptTime = i128;

/// What the runtime remembers about its scripts: the modification time
/// last seen for each script path, and which `(entity, script)` pairs have
/// had their start event.
pub struct ScriptTracker {
    mtimes: Vec<(String, ScriptTime)>,
    started: Vec<(u64, String)>,
}

pub open spec fn mtime_entries(v: Seq<(String, ScriptTime)>) -> Seq<(Seq<char>, ScriptTime)> {
    v.map_values(|e: (String, ScriptTime)| (e.0@, e.1))
}

pub open spec fn started_entries(v: Seq<(u64, String)>) -> Seq<(u64, Seq<char>)> {
    v.map_values(|e: (u64, String)| (e.0, e.1@))
}

/// The modification time recorded for `path`, if any.
pub open spec fn recorded_mtime(entries: Seq<(Seq<char>, ScriptTime)>, path: Seq<char>) -> Option<ScriptTime> {
    if exists|i: int| 0 <= i < entries.len() && entries[i].0 == path {
        Some(entries[choose|i: int| 0 <= i < entries.len() && entries[i].0 == path].1)
    } else {
        None
    }
}

/// Taking the start event of `(entity, path)`: whether it fires, and the
/// started set afterwards.
pub open spec fn start_step(
    started: Set<(u64, Seq<char>)>,
    entity: u64,
    path: Seq<char>,
    enabled: bool,
) -> (bool, Set<(u64, Seq<char>)>) {
    (
        enabled && !started.contains((entity, path)),
        if enabled {
            started.insert((entity, path))
        } else {
            started
        },
    )
}

/// Looking at a script's modification time: whether it must be loaded, and
/// the recorded times afterwards.
pub open spec fn reload_step(
    mtimes: Map<Seq<char>, ScriptTime>,
    path: Seq<char>,
    mtime: Option<ScriptTime>,
    loaded: bool,
) -> (bool, Map<Seq<char>, ScriptTime>) {
    match mtime {
        Some(m) => (
            (mtimes.dom().contains(path) ==> mtimes[path] != m) || !loaded,
            mtimes.insert(path, m),
        ),
        None => (!loaded, mtimes),
    }
}

/// A behaviour as the start events see it: `(entity, script path, enabled)`.
pub open spec fn behavior_view(b: (u64, String, bool)) -> (u64, Seq<char>, bool) {
    (b.0, b.1@, b.2)
}

pub open spec fn behavior_views(v: Seq<(u64, String, bool)>) -> Seq<(u64, Seq<char>, bool)> {
    v.map_values(|b: (u64, String, bool)| behavior_view(b))
}

/// Taking the start events of `items` in order, from the started set
/// `started`: the indices of the behaviours whose start event fires, and
/// the started set afterwards.
pub open spec fn start_fold(
    started: Set<(u64, Seq<char>)>,
    items: Seq<(u64, Seq<char>, bool)>,
) -> (Seq<int>, Set<(u64, Seq<char>)>)
    decreases items.len(),
{
    if items.len() == 0 {
        (Seq::empty(), started)
    } else {
        let before = start_fold(started, items.drop_last());
        let it = items.last();
        let step = start_step(before.1, it.0, it.1, it.2);
        (if step.0 {
            before.0.push(items.len() - 1)
        } else {
            before.0
        }, step.1)
    }
}

impl ScriptTracker {
    /// The started set as plain values.
    pub closed spec fn started_set(&self) -> Set<(u64, Seq<char>)> {
        started_entries(self.started@).to_set()
    }

    /// The recorded modification time of each path, as a map.
    pub closed spec fn mtime_map(&self) -> Map<Seq<char>, ScriptTime> {
        Map::new(
            |p: Seq<char>| recorded_mtime(mtime_entries(self.mtimes@), p) is Some,
            |p: Seq<char>| recorded_mtime(mtime_entries(self.mtimes@), p)->0,
        )
    }

    /// No script path is recorded twice.
    #[verifier::type_invariant]
    closed spec fn wf(&self) -> bool {
        forall|i: int, j: int|
            0 <= i < j < self.mtimes@.len() ==> #[trigger] self.mtimes@[i].0@ != #[trigger] self.mtimes@[j].0@
    }

    /// A tracker that has seen nothing yet.
    pub fn new() -> (t: Self)
        ensures
            t.mtime_map() == Map::<Seq<char>, ScriptTime>::empty(),
            t.started_set() == Set::<(u64, Seq<char>)>::empty(),
    {
        let t = ScriptTracker { mtimes: Vec::new(), started: Vec::new() };
        assert(started_entries(t.started@).to_set() =~= Set::<(u64, Seq<char>)>::empty());
        assert(t.mtime_map() =~= Map::<Seq<char>, ScriptTime>::empty());
        t
    }

    /// Forgets every start event, so that each script starts again (used
    /// when the scene changes).
    pub fn clear_started(&mut self)
        ensures
            final(self).started_set() == Set::<(u64, Seq<char>)>::empty(),
            final(self).mtime_map() == old(self).mtime_map(),
    {
        proof {
            use_type_invariant(&*self);
        }
        self.started = Vec::new();
        assert(started_entries(self.started@).to_set() =~= Set::<(u64, Seq<char>)>::empty());
    }

    fn find_mtime(&self, path: &String) -> (r: Option<usize>)
        ensures
            match r {
                Some(i) => i < self.mtimes.len() && self.mtimes@[i as int].0@ == path@,
                None => forall|i: int| 0 <= i < self.mtimes.len() ==> self.mtimes@[i].0@ != path@,
            },
    {
        let mut i: usize = 0;
        while i < self.mtimes.len()
            invariant
                i <= self.mtimes.len(),
                forall|j: int| 0 <= j < i ==> self.mtimes@[j].0@ != path@,
            decreases self.mtimes.len() - i,
        {
            if self.mtimes[i].0 == *path {
                return Some(i);
            }
            i = i + 1;
        }
        None
    }

    /// Whether the script at `path` must be (re)loaded this frame, given its
    /// current modification time `mtime` (when the file could be read) and
    /// whether the script runtime has it loaded: it must when its time
    /// differs from the one recorded (or none was recorded), which is then
    /// recorded, or when it is not loaded.
    pub fn needs_reload(&mut self, path: &String, mtime: Option<ScriptTime>, loaded: bool) -> (r: bool)
        ensures
            final(self).started_set() == old(self).started_set(),
            (r, final(self).mtime_map()) == reload_step(old(self).mtime_map(), path@, mtime, loaded),
    {
        let m = match mtime {
            Some(m) => m,
            None => {
                return !loaded;
            },
        };
        proof {
            use_type_invariant(&*self);
        }
        let ghost old_entries = mtime_entries(self.mtimes@);
        match self.find_mtime(path) {
            Some(i) => {
                let previous = self.mtimes[i].1;
                proof {
                    assert(old_entries[i as int].0 == path@);
                    let k = choose|k: int| 0 <= k < old_entries.len() && old_entries[k].0 == path@;
                    assert(self.mtimes@[k].0@ == self.mtimes@[i as int].0@);
                    assert(k == i);
                }
                let changed = previous != m;
                if changed {
                    let entry = (self.mtimes[i].0.clone(), m);
                    let ghost before = self.mtimes@;
                    let mut mtimes: Vec<(String, ScriptTime)> = Vec::new();
                    std::mem::swap(&mut mtimes, &mut self.mtimes);
                    mtimes.set(i, entry);
                    proof {
                        assert forall|a: int, b: int|
                            0 <= a < b < mtimes@.len() implies #[trigger] mtimes@[a].0@
                            != #[trigger] mtimes@[b].0@ by {
                            assert(before[a].0@ != before[b].0@);
                        }
                    }
                    self.mtimes = mtimes;
                }
                proof {
                    let new_entries = mtime_entries(self.mtimes@);
                    assert forall|p: Seq<char>| #![auto] self.mtime_map().dom().contains(p) == old(self).mtime_map().insert(path@, m).dom().contains(p) by {
                        if p != path@ {
                            if exists|j: int| 0 <= j < old_entries.len() && old_entries[j].0 == p {
                                let j = choose|j: int| 0 <= j < old_entries.len() && old_entries[j].0 == p;
                                assert(new_entries[j].0 == p);
                            }
                            if exists|j: int| 0 <= j < new_entries.len() && new_entries[j].0 == p {
                                let j = choose|j: int| 0 <= j < new_entries.len() && new_entries[j].0 == p;
                                assert(old_entries[j].0 == p);
                            }
                        } else {
                            assert(new_entries[i as int].0 == p);
                        }
                    }
                    assert forall|p: Seq<char>| #![auto] self.mtime_map().dom().contains(p) implies self.mtime_map()[p] == old(self).mtime_map().insert(path@, m)[p] by {
                        if p != path@ {
                            let j = choose|j: int| 0 <= j < new_entries.len() && new_entries[j].0 == p;
                            let jo = choose|j: int| 0 <= j < old_entries.len() && old_entries[j].0 == p;
                            assert(self.mtimes@[j].0@ == self.mtimes@[jo].0@);
                            assert(j == jo);
                        } else {
                            let j = choose|j: int| 0 <= j < new_entries.len() && new_entries[j].0 == p;
                            assert(self.mtimes@[j].0@ == self.mtimes@[i as int].0@);
                            assert(j == i);
                        }
                    }
                    assert(self.mtime_map() =~= old(self).mtime_map().insert(path@, m));
                }
                changed || !loaded
            },
            None => {
                let ghost before = self.mtimes@;
                let mut mtimes: Vec<(String, ScriptTime)> = Vec::new();
                std::mem::swap(&mut mtimes, &mut self.mtimes);
                mtimes.push((path.clone(), m));
                proof {
                    assert forall|a: int, b: int|
                        0 <= a < b < mtimes@.len() implies #[trigger] mtimes@[a].0@
                        != #[trigger] mtimes@[b].0@ by {
                        if b < before.len() {
                            assert(before[a].0@ != before[b].0@);
                        } else {
                            assert(mtimes@[b].0@ == path@);
                            assert(before[a].0@ != path@);
                        }
                    }
                }
                self.mtimes = mtimes;
                proof {
                    let new_entries = mtime_entries(self.mtimes@);
                    let n = old_entries.len();
                    assert forall|p: Seq<char>| #![auto] self.mtime_map().dom().contains(p) == old(self).mtime_map().insert(path@, m).dom().contains(p) by {
                        if p != path@ {
                            if exists|j: int| 0 <= j < old_entries.len() && old_entries[j].0 == p {
                                let j = choose|j: int| 0 <= j < old_entries.len() && old_entries[j].0 == p;
                                assert(new_entries[j].0 == p);
                            }
                            if exists|j: int| 0 <= j < new_entries.len() && new_entries[j].0 == p {
                                let j = choose|j: int| 0 <= j < new_entries.len() && new_entries[j].0 == p;
                                assert(j != n);
                                assert(old_entries[j].0 == p);
                            }
                        } else {
                            assert(new_entries[n as int].0 == p);
                        }
                    }
                    assert forall|p: Seq<char>| #![auto] self.mtime_map().dom().contains(p) implies self.mtime_map()[p] == old(self).mtime_map().insert(path@, m)[p] by {
                        let j = choose|j: int| 0 <= j < new_entries.len() && new_entries[j].0 == p;
                        if p != path@ {
                            let jo = choose|j: int| 0 <= j < old_entries.len() && old_entries[j].0 == p;
                            assert(self.mtimes@[j].0@ == self.mtimes@[jo].0@);
                            assert(j != n);
                            assert(j == jo);
                        } else {
                            assert(j == n);
                        }
                    }
                    assert(self.mtime_map() =~= old(self).mtime_map().insert(path@, m));
                }
                true
            },
        }
    }

    /// After the script at `path` was (re)loaded: every entity that runs it
    /// gets its start event again.
    pub fn script_reloaded(&mut self, path: &String)
        ensures
            final(self).started_set() == old(self).started_set().filter(
                |e: (u64, Seq<char>)| e.1 != path@,
            ),
            final(self).mtime_map() == old(self).mtime_map(),
    {
        let ghost old_started = started_entries(self.started@);
        let ghost keep = |e: (u64, Seq<char>)| e.1 != path@;
        let mut kept: Vec<(u64, String)> = Vec::new();
        let mut i: usize = 0;
        while i < self.started.len()
            invariant
                i <= self.started.len(),
                old_started == started_entries(self.started@),
                keep == (|e: (u64, Seq<char>)| e.1 != path@),
                started_entries(kept@) == old_started.take(i as int).filter(keep),
            decreases self.started.len() - i,
        {
            let ghost before = started_entries(kept@);
            proof {
                let t = old_started.take(i as int + 1);
                assert(t.drop_last() =~= old_started.take(i as int));
                assert(t.last() == old_started[i as int]);
                reveal_with_fuel(Seq::filter, 1);
            }
            if self.started[i].1 != *path {
                kept.push((self.started[i].0, self.started[i].1.clone()));
                assert(started_entries(kept@) =~= before.push(old_started[i as int]));
            }
            i = i + 1;
        }
        assert(old_started.take(old_started.len() as int) =~= old_started);
        proof {
            use_type_invariant(&*self);
        }
        self.started = kept;
        proof {
            lemma_filter_to_set(old_started, keep);
            assert(keep =~= (|e: (u64, Seq<char>)| e.1 != path@));
        }
    }

    /// Whether `entity` gets the start event of the script at `path` now:
    /// an enabled behaviour gets it once, and is then remembered as started.
    pub fn take_start(&mut self, entity: u64, path: &String, enabled: bool) -> (r: bool)
        ensures
            (r, final(self).started_set()) == start_step(old(self).started_set(), entity, path@, enabled),
            final(self).mtime_map() == old(self).mtime_map(),
    {
        if !enabled {
            return false;
        }
        let ghost entries = started_entries(self.started@);
        let mut i: usize = 0;
        while i < self.started.len()
            invariant
                i <= self.started.len(),
                entries == started_entries(self.started@),
                entries == started_entries(old(self).started@),
                forall|j: int| 0 <= j < i ==> entries[j] != (entity, path@),
            decreases self.started.len() - i,
        {
            if self.started[i].0 == entity && self.started[i].1 == *path {
                assert(entries[i as int] == (entity, path@));
                assert(entries.contains((entity, path@)));
                assert(self.started_set().contains((entity, path@)));
                assert(self.started_set() =~= old(self).started_set().insert((entity, path@)));
                return false;
            }
            i = i + 1;
        }
        proof {
            use_type_invariant(&*self);
        }
        let mut started: Vec<(u64, String)> = Vec::new();
        std::mem::swap(&mut started, &mut self.started);
        started.push((entity, path.clone()));
        self.started = started;
        assert(started_entries(self.started@) =~= entries.push((entity, path@)));
        proof {
            let x = (entity, path@);
            assert forall|e: (u64, Seq<char>)| entries.push(x).contains(e) <==> entries.contains(e) || e == x by {
                if entries.push(x).contains(e) {
                    let k = choose|k: int| 0 <= k < entries.push(x).len() && entries.push(x)[k] == e;
                    if k < entries.len() {
                        assert(entries[k] == e);
                    }
                }
                if entries.contains(e) {
                    let k = choose|k: int| 0 <= k < entries.len() && entries[k] == e;
                    assert(entries.push(x)[k] == e);
                }
                if e == x {
                    assert(entries.push(x)[entries.len() as int] == e);
                }
            }
            assert(old(self).started_set() == entries.to_set());
            assert(self.started_set() == entries.push(x).to_set());
            assert forall|e: (u64, Seq<char>)| self.started_set().contains(e) <==> old(self).started_set().insert(x).contains(e) by {
                assert(entries.push(x).to_set().contains(e) == entries.push(x).contains(e));
                assert(entries.to_set().contains(e) == entries.contains(e));
            }
        }
        assert(self.started_set() =~= old(self).started_set().insert((entity, path@)));
        true
    }
}

impl ScriptTracker {
    /// Takes the start events of the scene's behaviours
    /// `(entity, script path, enabled)`, in order: returns the indices of
    /// those whose start event fires now, each enabled behaviour that has
    /// not started yet (a repeated one only the first time).
    pub fn take_starts(&mut self, behaviors: &Vec<(u64, String, bool)>) -> (fired: Vec<usize>)
        ensures
            (fired@.map_values(|i: usize| i as int), final(self).started_set()) == start_fold(
                old(self).started_set(),
                behavior_views(behaviors@),
            ),
            final(self).mtime_map() == old(self).mtime_map(),
    {
        let ghost items = behavior_views(behaviors@);
        let mut fired: Vec<usize> = Vec::new();
        let mut i: usize = 0;
        while i < behaviors.len()
            invariant
                i <= behaviors.len(),
                items == behavior_views(behaviors@),
                self.mtime_map() == old(self).mtime_map(),
                (fired@.map_values(|k: usize| k as int), self.started_set()) == start_fold(
                    old(self).started_set(),
                    items.take(i as int),
                ),
            decreases behaviors.len() - i,
        {
            proof {
                let t = items.take(i as int + 1);
                assert(t.drop_last() =~= items.take(i as int));
                assert(t.last() == behavior_view(behaviors@[i as int]));
            }
            let ghost before = fired@;
            if self.take_start(behaviors[i].0, &behaviors[i].1, behaviors[i].2) {
                fired.push(i);
                assert(fired@.map_values(|k: usize| k as int) =~= before.map_values(
                    |k: usize| k as int,
                ).push(i as int));
            }
            i = i + 1;
        }
        assert(items.take(items.len() as int) =~= items);
        fired
    }
}

/// Start folding only adds to the started set, and afterwards every
/// enabled behaviour's start is in it.
proof fn lemma_start_fold_covers(started: Set<(u64, Seq<char>)>, items: Seq<(u64, Seq<char>, bool)>)
    ensures
        started.subset_of(start_fold(started, items).1),
        forall|k: int|
            0 <= k < items.len() && items[k].2 ==> start_fold(started, items).1.contains(
                (#[trigger] items[k].0, items[k].1),
            ),
    decreases items.len(),
{
    if items.len() > 0 {
        lemma_start_fold_covers(started, items.drop_last());
        let before = start_fold(started, items.drop_last());
        assert forall|k: int|
            0 <= k < items.len() && items[k].2 implies start_fold(started, items).1.contains(
            (#[trigger] items[k].0, items[k].1),
        ) by {
            if k < items.len() - 1 {
                assert(items.drop_last()[k] == items[k]);
            }
        }
    }
}

/// When every enabled behaviour has started already, no start fires and
/// the started set stays as it is.
proof fn lemma_start_fold_nothing_new(started: Set<(u64, Seq<char>)>, items: Seq<(u64, Seq<char>, bool)>)
    requires
        forall|k: int|
            0 <= k < items.len() && items[k].2 ==> started.contains((#[trigger] items[k].0, items[k].1)),
    ensures
        start_fold(started, items).0.len() == 0,
        start_fold(started, items).1 == started,
    decreases items.len(),
{
    if items.len() > 0 {
        assert forall|k: int|
            0 <= k < items.drop_last().len() && items.drop_last()[k].2 implies started.contains(
            (#[trigger] items.drop_last()[k].0, items.drop_last()[k].1),
        ) by {
            assert(items.drop_last()[k] == items[k]);
        }
        lemma_start_fold_nothing_new(started, items.drop_last());
        let last = items.len() - 1;
        if items[last].2 {
            assert(started.contains((items[last].0, items[last].1)));
            assert(started.insert((items[last].0, items[last].1)) =~= started);
        }
    }
}

/// Taking the start events of a scene's behaviours twice in a row fires
/// nothing the second time: each enabled behaviour starts at most once.
pub proof fn law_start_events_of_a_scene_fire_once(
    started: Set<(u64, Seq<char>)>,
    items: Seq<(u64, Seq<char>, bool)>,
)
    ensures
        start_fold(start_fold(started, items).1, items).0.len() == 0,
        start_fold(start_fold(started, items).1, items).1 == start_fold(started, items).1,
{
    lemma_start_fold_covers(started, items);
    lemma_start_fold_nothing_new(start_fold(started, items).1, items);
}

proof fn lemma_filter_to_set<T>(s: Seq<T>, p: spec_fn(T) -> bool)
    ensures
        s.filter(p).to_set() == s.to_set().filter(p),
{
    assert forall|x: T| s.filter(p).to_set().contains(x) <==> s.to_set().filter(p).contains(x) by {
        if s.filter(p).contains(x) {
            let k = choose|k: int| 0 <= k < s.filter(p).len() && s.filter(p)[k] == x;
            s.lemma_filter_pred(p, k);
            s.lemma_filter_contains_rev(p, x);
        }
        if s.contains(x) && p(x) {
            let k = choose|k: int| 0 <= k < s.len() && s[k] == x;
            s.lemma_filter_contains(p, k);
        }
    }
    assert(s.filter(p).to_set() =~= s.to_set().filter(p));
}

/// The key events of a frame replay the change between the two frames: no
/// key is both pressed and released, and the keys down before, less the
/// released ones, plus the pressed ones, are the keys down now.
pub proof fn law_key_events_replay_the_frame(previous: Seq<RuntimeKey>, current: Seq<RuntimeKey>)
    ensures
        ({
            let pressed = current.filter(|k: RuntimeKey| !previous.contains(k));
            let released = previous.filter(|k: RuntimeKey| !current.contains(k));
            &&& forall|k: RuntimeKey| !(pressed.contains(k) && released.contains(k))
            &&& previous.to_set().difference(released.to_set()).union(pressed.to_set())
                == current.to_set()
        }),
{
    let p_in = |k: RuntimeKey| !previous.contains(k);
    let c_in = |k: RuntimeKey| !current.contains(k);
    let pressed = current.filter(p_in);
    let released = previous.filter(c_in);
    lemma_filter_to_set(current, p_in);
    lemma_filter_to_set(previous, c_in);
    assert forall|k: RuntimeKey| !(pressed.contains(k) && released.contains(k)) by {
        if pressed.contains(k) {
            assert(pressed.to_set().contains(k));
            assert(!previous.contains(k));
            if released.contains(k) {
                assert(released.to_set().contains(k));
            }
        }
    }
    assert(previous.to_set().difference(released.to_set()).union(pressed.to_set())
        =~= current.to_set());
}

/// The start event of a script fires at most once for an entity: once it
/// has fired, taking it again fires nothing.
pub proof fn law_start_event_fires_once(
    started: Set<(u64, Seq<char>)>,
    entity: u64,
    path: Seq<char>,
    enabled_later: bool,
)
    ensures
        !start_step(start_step(started, entity, path, true).1, entity, path, enabled_later).0,
{
}

/// Reloading a script lets its start event fire again for every enabled
/// entity that runs it.
pub proof fn law_reload_restarts_script(started: Set<(u64, Seq<char>)>, entity: u64, path: Seq<char>)
    ensures
        start_step(started.filter(|e: (u64, Seq<char>)| e.1 != path), entity, path, true).0,
{
}

/// A loaded script whose file has not changed since it was last looked at
/// is not loaded again.
pub proof fn law_unchanged_script_not_reloaded(
    mtimes: Map<Seq<char>, ScriptTime>,
    path: Seq<char>,
    mtime: ScriptTime,
    loaded: bool,
)
    ensures
        !reload_step(reload_step(mtimes, path, Some(mtime), loaded).1, path, Some(mtime), true).0,
{
}

/// What a collision hands to the script of the colliding entity about the
/// other side: `(other_id, other_tag)`.
pub open spec fn collision_other_text(other: Option<u64>, other_tag: Option<Seq<char>>) -> (i64, Seq<char>) {
    match other {
        Some(id) => (id as i64, match other_tag {
            Some(t) => t,
            None => Seq::empty(),
        }),
        None => (-1i64, seq!['t', 'i', 'l', 'e']),
    }
}

/// The other side of a collision as a script sees it: another entity by its
/// id (as an `i64`) and its tag (empty without one), or a tile as id `-1`
/// with tag `tile`.
pub fn collision_other(other: Option<u64>, other_tag: Option<&str>) -> (r: (i64, String))
    ensures
        r.0 == collision_other_text(other, crate::runtime_assets::opt_view(other_tag)).0,
        r.1@ == collision_other_text(other, crate::runtime_assets::opt_view(other_tag)).1,
{
    match other {
        Some(id) => {
            let tag = match other_tag {
                Some(t) => String::from_str(t),
                None => String::new(),
            };
            (id as i64, tag)
        },
        None => {
            proof {
                reveal_strlit("tile");
                assert("tile"@ =~= seq!['t', 'i', 'l', 'e']);
            }
            (-1, String::from_str("tile"))
        },
    }
}

/// How many frame-rate samples the runtime keeps.
pub const FPS_HISTORY_LEN: usize = 60;

/// Adds a sample to a history that keeps the latest `FPS_HISTORY_LEN`
/// samples, dropping the oldest when full.
pub fn push_recent<T>(history: &mut VecDeque<T>, sample: T)
    ensures
        old(history)@.len() <= FPS_HISTORY_LEN ==> final(history)@.len() <= FPS_HISTORY_LEN,
        final(history)@ == (if old(history)@.len() >= FPS_HISTORY_LEN {
            old(history)@.drop_first().push(sample)
        } else {
            old(history)@.push(sample)
        }),
{
    if history.len() >= FPS_HISTORY_LEN {
        history.pop_front();
    }
    history.push_back(sample);
}

/// The project file the runtime plays: the first command-line argument, or
/// `project.crab2d.json`.
pub fn runtime_project_path(first_arg: Option<String>) -> (r: String)
    ensures
        r@ == match first_arg {
            Some(a) => a@,
            None => project_file_name(),
        },
{
    match first_arg {
        Some(a) => a,
        None => {
            proof {
                reveal_strlit("project.crab2d.json");
                assert("project.crab2d.json"@ =~= project_file_name());
            }
            String::from_str("project.crab2d.json")
        },
    }
}

} // verus!
