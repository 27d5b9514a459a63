//! How the editor presents scene nodes: their kind badge, type name,
//! viewport colour, hierarchy group, search filter and default selection.
use vstd::prelude::*;
use vstd::string::*;
use crate::StatusTone;
use crate::text::{contains_str, lowercase_of, seq_contains, to_lowercase};
use crate::theme::{palette, theme_colors, Rgba};

verus! {

/// Which components a node carries.
#[derive(Debug, Clone, Copy, PartialEq, Eq, Structural)]
pub struct NodeComponents {
    pub tilemap: bool,
    pub camera: bool,
    pub player_controller: bool,
    pub trigger: bool,
    pub sprite: bool,
    pub tag: bool,
    pub camera_follow: bool,
}

/// A scene node as the scene panel sees it.
pub struct SceneNodeView {
    pub id: u64,
    pub name: String,
    pub components: NodeComponents,
}

/// The three-letter badge of a node and its tone; the first component in
/// the order tilemap, camera, player controller, trigger, sprite, tag decides.
pub open spec fn kind_badge(c: NodeComponents) -> (Seq<char>, StatusTone) {
    if c.tilemap {
        (seq!['M', 'A', 'P'], StatusTone::Info)
    } else if c.camera {
        (seq!['C', 'A', 'M'], StatusTone::Warning)
    } else if c.player_controller {
        (seq!['P', 'L', 'Y'], StatusTone::Success)
    } else if c.trigger {
        (seq!['T', 'R', 'G'], StatusTone::Warning)
    } else if c.sprite {
        (seq!['S', 'P', 'R'], StatusTone::Success)
    } else if c.tag {
        (seq!['T', 'A', 'G'], StatusTone::Info)
    } else {
        (seq!['N', 'O', 'D'], StatusTone::Info)
    }
}

/// The badge and tone of a node in the scene tree.
pub fn node_kind(c: NodeComponents) -> (r: (&'static str, StatusTone))
    ensures
        r.0@ == kind_badge(c).0,
        r.1 == kind_badge(c).1,
{
    proof {
        reveal_strlit("MAP");
        reveal_strlit("CAM");
        reveal_strlit("PLY");
        reveal_strlit("TRG");
        reveal_strlit("SPR");
        reveal_strlit("TAG");
        reveal_strlit("NOD");
        assert("MAP"@ =~= seq!['M', 'A', 'P']);
        assert("CAM"@ =~= seq!['C', 'A', 'M']);
        assert("PLY"@ =~= seq!['P', 'L', 'Y']);
        assert("TRG"@ =~= seq!['T', 'R', 'G']);
        assert("SPR"@ =~= seq!['S', 'P', 'R']);
        assert("TAG"@ =~= seq!['T', 'A', 'G']);
        assert("NOD"@ =~= seq!['N', 'O', 'D']);
    }
    if c.tilemap {
        ("MAP", StatusTone::Info)
    } else if c.camera {
        ("CAM", StatusTone::Warning)
    } else if c.player_controller {
        ("PLY", StatusTone::Success)
    } else if c.trigger {
        ("TRG", StatusTone::Warning)
    } else if c.sprite {
        ("SPR", StatusTone::Success)
    } else if c.tag {
        ("TAG", StatusTone::Info)
    } else {
        ("NOD", StatusTone::Info)
    }
}

/// The type name of a node, decided in the same order as its badge.
pub open spec fn node_type_text(c: NodeComponents) -> Seq<char> {
    if c.tilemap {
        seq!['T', 'i', 'l', 'e', 'm', 'a', 'p']
    } else if c.camera {
        seq!['C', 'a', 'm', 'e', 'r', 'a', '2', 'D']
    } else if c.player_controller {
        seq!['P', 'l', 'a', 'y', 'e', 'r']
    } else if c.trigger {
        seq!['T', 'r', 'i', 'g', 'g', 'e', 'r']
    } else if c.sprite {
        seq!['S', 'p', 'r', 'i', 't', 'e', '2', 'D']
    } else {
        seq!['N', 'o', 'd', 'e', '2', 'D']
    }
}

/// The type name shown beside a node in the scene tree.
pub fn node_type(c: NodeComponents) -> (r: &'static str)
    ensures
        r@ == node_type_text(c),
{
    proof {
        reveal_strlit("Tilemap");
        reveal_strlit("Camera2D");
        reveal_strlit("Player");
        reveal_strlit("Trigger");
        reveal_strlit("Sprite2D");
        reveal_strlit("Node2D");
        assert("Tilemap"@ =~= seq!['T', 'i', 'l', 'e', 'm', 'a', 'p']);
        assert("Camera2D"@ =~= seq!['C', 'a', 'm', 'e', 'r', 'a', '2', 'D']);
        assert("Player"@ =~= seq!['P', 'l', 'a', 'y', 'e', 'r']);
        assert("Trigger"@ =~= seq!['T', 'r', 'i', 'g', 'g', 'e', 'r']);
        assert("Sprite2D"@ =~= seq!['S', 'p', 'r', 'i', 't', 'e', '2', 'D']);
        assert("Node2D"@ =~= seq!['N', 'o', 'd', 'e', '2', 'D']);
    }
    if c.tilemap {
        "Tilemap"
    } else if c.camera {
        "Camera2D"
    } else if c.player_controller {
        "Player"
    } else if c.trigger {
        "Trigger"
    } else if c.sprite {
        "Sprite2D"
    } else {
        "Node2D"
    }
}

/// `<badge> <name>`, the hover text of a node row; `?` stands for a missing name.
pub fn node_label(c: NodeComponents, name: Option<&str>) -> (r: String)
    ensures
        r@ == kind_badge(c).0 + seq![' '] + match name {
            Some(n) => n@,
            None => seq!['?'],
        },
{
    let (kind, _) = node_kind(c);
    let mut r = String::from_str(kind);
    r.append(" ");
    proof {
        reveal_strlit(" ");
        reveal_strlit("?");
    }
    match name {
        Some(n) => r.append(n),
        None => r.append("?"),
    }
    r
}

/// The colour a node is drawn with in the viewport.
pub open spec fn node_palette_color(selected: bool, camera: bool, sprite: bool, tilemap: bool) -> Rgba {
    if selected {
        palette().accent
    } else if camera {
        palette().camera
    } else if sprite {
        palette().success
    } else if tilemap {
        palette().accent_soft
    } else {
        palette().warning
    }
}

/// The viewport colour of a node: the accent when it is selected, else by
/// its camera, sprite or tilemap, else the warning colour.
pub fn node_color(selected: bool, camera: bool, sprite: bool, tilemap: bool) -> (r: Rgba)
    ensures
        r == node_palette_color(selected, camera, sprite, tilemap),
{
    let colors = theme_colors();
    if selected {
        colors.accent
    } else if camera {
        colors.camera
    } else if sprite {
        colors.success
    } else if tilemap {
        colors.accent_soft
    } else {
        colors.warning
    }
}

/// A group of the scene tree.
#[derive(Debug, Clone, Copy, PartialEq, Eq, Structural)]
pub enum SceneGroup {
    World,
    Actors,
    Gameplay,
    Other,
}

/// Whether a node is listed in a group of the scene tree; a node may be
/// listed in more than one group.
pub open spec fn group_takes(group: SceneGroup, c: NodeComponents) -> bool {
    match group {
        SceneGroup::World => c.tilemap || c.camera,
        SceneGroup::Actors => c.player_controller || (c.sprite && !c.trigger),
        SceneGroup::Gameplay => c.trigger || c.camera_follow,
        SceneGroup::Other => !c.tilemap && !c.camera && !c.player_controller && !c.sprite
            && !c.trigger,
    }
}

/// Whether `group` lists a node with components `c`.
pub fn in_scene_group(group: SceneGroup, c: NodeComponents) -> (r: bool)
    ensures
        r == group_takes(group, c),
{
    match group {
        SceneGroup::World => c.tilemap || c.camera,
        SceneGroup::Actors => c.player_controller || (c.sprite && !c.trigger),
        SceneGroup::Gameplay => c.trigger || c.camera_follow,
        SceneGroup::Other => !c.tilemap && !c.camera && !c.player_controller && !c.sprite
            && !c.trigger,
    }
}

/// Whether the scene tree shows a node named `name` for the search text
/// `filter_text`: an empty search shows every node, otherwise the
/// lower-cased search must occur in the lower-cased name.
pub open spec fn name_shown(filter_text: Seq<char>, name: Seq<char>) -> bool {
    lowercase_of(filter_text).len() == 0 || seq_contains(lowercase_of(name), lowercase_of(filter_text))
}

pub open spec fn node_entry(n: SceneNodeView) -> (u64, Seq<char>, NodeComponents) {
    (n.id, n.name@, n.components)
}

pub open spec fn node_entries(v: Seq<SceneNodeView>) -> Seq<(u64, Seq<char>, NodeComponents)> {
    v.map_values(|n: SceneNodeView| node_entry(n))
}

/// The ids of the nodes of `group` that the search text shows, in scene order.
pub open spec fn group_ids(
    nodes: Seq<(u64, Seq<char>, NodeComponents)>,
    filter_text: Seq<char>,
    group: SceneGroup,
) -> Seq<u64>
    decreases nodes.len(),
{
    if nodes.len() == 0 {
        Seq::empty()
    } else {
        let n = nodes.last();
        let rest = group_ids(nodes.drop_last(), filter_text, group);
        if name_shown(filter_text, n.1) && group_takes(group, n.2) {
            rest.push(n.0)
        } else {
            rest
        }
    }
}

/// Every id the scene tree lists under a group is the id of a node that the
/// search shows and the group takes.
proof fn lemma_listed_ids_come_from_group(
    nodes: Seq<(u64, Seq<char>, NodeComponents)>,
    filter_text: Seq<char>,
    group: SceneGroup,
    k: int,
)
    requires
        0 <= k < group_ids(nodes, filter_text, group).len(),
    ensures
        exists|i: int|
            0 <= i < nodes.len() && #[trigger] nodes[i].0 == group_ids(nodes, filter_text, group)[k]
                && group_takes(group, nodes[i].2) && name_shown(filter_text, nodes[i].1),
    decreases nodes.len(),
{
    let rest = group_ids(nodes.drop_last(), filter_text, group);
    if k < rest.len() {
        lemma_listed_ids_come_from_group(nodes.drop_last(), filter_text, group, k);
        let i = choose|i: int|
            0 <= i < nodes.drop_last().len() && #[trigger] nodes.drop_last()[i].0 == rest[k]
                && group_takes(group, nodes.drop_last()[i].2) && name_shown(
                filter_text,
                nodes.drop_last()[i].1,
            );
        assert(nodes[i] == nodes.drop_last()[i]);
    } else {
        let i = nodes.len() - 1;
        assert(nodes[i].0 == group_ids(nodes, filter_text, group)[k]);
    }
}

/// The Other group lists only nodes with none of the components that put a
/// node in another group (no tilemap, camera, player controller, sprite or
/// trigger), so it never lists a node that World or Actors lists; and a
/// node with none of them is listed there.
pub proof fn law_other_group_is_the_rest(
    nodes: Seq<(u64, Seq<char>, NodeComponents)>,
    filter_text: Seq<char>,
    k: int,
    c: NodeComponents,
)
    requires
        0 <= k < group_ids(nodes, filter_text, SceneGroup::Other).len(),
    ensures
        exists|i: int|
            0 <= i < nodes.len() && #[trigger] nodes[i].0 == group_ids(
                nodes,
                filter_text,
                SceneGroup::Other,
            )[k] && !nodes[i].2.tilemap && !nodes[i].2.camera && !nodes[i].2.player_controller
                && !nodes[i].2.sprite && !nodes[i].2.trigger && !group_takes(
                SceneGroup::World,
                nodes[i].2,
            ) && !group_takes(SceneGroup::Actors, nodes[i].2),
        group_takes(SceneGroup::Other, c) <==> !c.tilemap && !c.camera && !c.player_controller
            && !c.sprite && !c.trigger,
        group_takes(SceneGroup::Other, c) ==> !group_takes(SceneGroup::World, c) && !group_takes(
            SceneGroup::Actors,
            c,
        ),
{
    lemma_listed_ids_come_from_group(nodes, filter_text, SceneGroup::Other, k);
}

/// The ids the scene tree lists under `group` for the search text `filter_text`.
pub fn scene_group_ids(nodes: &Vec<SceneNodeView>, filter_text: &str, group: SceneGroup) -> (r: Vec<u64>)
    ensures
        r@ == group_ids(node_entries(nodes@), filter_text@, group),
{
    let filter = to_lowercase(filter_text);
    let filter_empty = filter.as_str().unicode_len() == 0;
    let mut r: Vec<u64> = Vec::new();
    let mut i: usize = 0;
    while i < nodes.len()
        invariant
            i <= nodes.len(),
            filter@ == lowercase_of(filter_text@),
            filter_empty == (filter@.len() == 0),
            r@ == group_ids(node_entries(nodes@.take(i as int)), filter_text@, group),
        decreases nodes.len() - i,
    {
        let node = &nodes[i];
        proof {
            let t = node_entries(nodes@.take(i as int + 1));
            assert(t.drop_last() =~= node_entries(nodes@.take(i as int)));
            assert(t.last() == node_entry(*node));
        }
        let shown = if filter_empty {
            true
        } else {
            let name_lower = to_lowercase(node.name.as_str());
            contains_str(name_lower.as_str(), filter.as_str())
        };
        if shown && in_scene_group(group, node.components) {
            r.push(node.id);
        }
        i = i + 1;
    }
    assert(nodes@.take(nodes@.len() as int) =~= nodes@);
    r
}

/// The index of the first node named `name`, if any.
pub open spec fn first_named(nodes: Seq<(u64, Seq<char>, NodeComponents)>, name: Seq<char>) -> Option<int>
    decreases nodes.len(),
{
    if nodes.len() == 0 {
        None
    } else {
        match first_named(nodes.drop_last(), name) {
            Some(i) => Some(i),
            None => if nodes.last().1 == name {
                Some(nodes.len() - 1)
            } else {
                None
            },
        }
    }
}

pub open spec fn player_name() -> Seq<char> {
    seq!['P', 'l', 'a', 'y', 'e', 'r']
}

/// The node selected when nothing else is: the first node named `Player`,
/// else the first node, else none.
pub open spec fn default_selection(nodes: Seq<(u64, Seq<char>, NodeComponents)>) -> Option<u64> {
    match first_named(nodes, player_name()) {
        Some(i) => Some(nodes[i].0),
        None => if nodes.len() > 0 {
            Some(nodes[0].0)
        } else {
            None
        },
    }
}

/// The node to select by default.
pub fn default_selected_node(nodes: &Vec<SceneNodeView>) -> (r: Option<u64>)
    ensures
        r == default_selection(node_entries(nodes@)),
{
    let ghost all = node_entries(nodes@);
    let player = String::from_str("Player");
    proof {
        reveal_strlit("Player");
        assert("Player"@ =~= player_name());
    }
    let mut i: usize = 0;
    while i < nodes.len()
        invariant
            i <= nodes.len(),
            all == node_entries(nodes@),
            player@ == player_name(),
            first_named(all.take(i as int), player_name()) is None,
        decreases nodes.len() - i,
    {
        proof {
            let t = all.take(i as int + 1);
            assert(t.drop_last() =~= all.take(i as int));
            assert(t.last() == node_entry(nodes@[i as int]));
        }
        if nodes[i].name == player {
            proof {
                lemma_first_named_prefix(all, player_name(), i as int + 1);
            }
            return Some(nodes[i].id);
        }
        i = i + 1;
    }
    assert(all.take(all.len() as int) =~= all);
    if nodes.len() > 0 {
        Some(nodes[0].id)
    } else {
        None
    }
}

proof fn lemma_first_named_prefix(nodes: Seq<(u64, Seq<char>, NodeComponents)>, name: Seq<char>, k: int)
    requires
        0 <= k <= nodes.len(),
        first_named(nodes.take(k), name) is Some,
    ensures
        first_named(nodes, name) == first_named(nodes.take(k), name),
    decreases nodes.len() - k,
{
    if k < nodes.len() {
        assert(nodes.take(k + 1).drop_last() =~= nodes.take(k));
        lemma_first_named_prefix(nodes, name, k + 1);
    } else {
        assert(nodes.take(k) =~= nodes);
    }
}

/// The index of the first node with a player controller, if any.
pub open spec fn first_player_controlled(nodes: Seq<(u64, Seq<char>, NodeComponents)>) -> Option<int>
    decreases nodes.len(),
{
    if nodes.len() == 0 {
        None
    } else {
        match first_player_controlled(nodes.drop_last()) {
            Some(i) => Some(i),
            None => if nodes.last().2.player_controller {
                Some(nodes.len() - 1)
            } else {
                None
            },
        }
    }
}

/// The node a new camera follow component targets: the first node with a
/// player controller, or `fallback` when there is none.
pub fn default_camera_follow_target(nodes: &Vec<SceneNodeView>, fallback: u64) -> (r: u64)
    ensures
        r == match first_player_controlled(node_entries(nodes@)) {
            Some(i) => nodes@[i].id,
            None => fallback,
        },
{
    let mut i: usize = 0;
    while i < nodes.len()
        invariant
            i <= nodes.len(),
            first_player_controlled(node_entries(nodes@.take(i as int))) is None,
        decreases nodes.len() - i,
    {
        let ghost t = node_entries(nodes@.take(i as int + 1));
        proof {
            assert(t.drop_last() =~= node_entries(nodes@.take(i as int)));
            assert(t.last() == node_entry(nodes@[i as int]));
            assert(node_entries(nodes@).take(i as int + 1) =~= t);
        }
        if nodes[i].components.player_controller {
            proof {
                assert(first_player_controlled(t) == Some(i as int));
                lemma_first_player_controlled_prefix(node_entries(nodes@), i as int + 1);
            }
            return nodes[i].id;
        }
        i = i + 1;
    }
    assert(node_entries(nodes@.take(nodes@.len() as int)) =~= node_entries(nodes@));
    fallback
}

/// A match found within a prefix is the match of the whole sequence.
proof fn lemma_first_player_controlled_prefix(nodes: Seq<(u64, Seq<char>, NodeComponents)>, k: int)
    requires
        0 <= k <= nodes.len(),
        first_player_controlled(nodes.take(k)) is Some,
    ensures
        first_player_controlled(nodes) == first_player_controlled(nodes.take(k)),
    decreases nodes.len() - k,
{
    if k < nodes.len() {
        assert(nodes.take(k + 1).drop_last() =~= nodes.take(k));
        lemma_first_player_controlled_prefix(nodes, k + 1);
    } else {
        assert(nodes.take(k) =~= nodes);
    }
}

} // verus!
