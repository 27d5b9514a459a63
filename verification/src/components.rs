//! The components a node can be given from the inspector's "Add Component"
//! panel.
use vstd::prelude::*;
use vstd::string::*;

verus! {

/// A component the inspector can attach to a node.
#[derive(Debug, Clone, Copy, PartialEq, Eq, Structural)]
pub enum ComponentKind {
    Tag,
    Sprite,
    Tilemap,
    Camera2D,
    Velocity,
    Collider2D,
    PlayerController,
    CameraFollow,
    Trigger,
}

pub open spec fn component_label_text(kind: ComponentKind) -> Seq<char> {
    match kind {
        ComponentKind::Tag => seq!['T', 'a', 'g'],
        ComponentKind::Sprite => seq!['S', 'p', 'r', 'i', 't', 'e'],
        ComponentKind::Tilemap => seq!['T', 'i', 'l', 'e', 'm', 'a', 'p'],
        ComponentKind::Camera2D => seq!['C', 'a', 'm', 'e', 'r', 'a', '2', 'D'],
        ComponentKind::Velocity => seq!['V', 'e', 'l', 'o', 'c', 'i', 't', 'y'],
        ComponentKind::Collider2D => seq!['C', 'o', 'l', 'l', 'i', 'd', 'e', 'r', '2', 'D'],
        ComponentKind::PlayerController => seq![
            'P', 'l', 'a', 'y', 'e', 'r', 'C', 'o', 'n', 't', 'r', 'o', 'l', 'l', 'e', 'r'
        ],
        ComponentKind::CameraFollow => seq![
            'C', 'a', 'm', 'e', 'r', 'a', 'F', 'o', 'l', 'l', 'o', 'w'
        ],
        ComponentKind::Trigger => seq!['T', 'r', 'i', 'g', 'g', 'e', 'r'],
    }
}

impl ComponentKind {
    /// The name on the component's button.
    pub fn label(self) -> (r: &'static str)
        ensures
            r@ == component_label_text(self),
    {
        proof {
            reveal_strlit("Tag");
            reveal_strlit("Sprite");
            reveal_strlit("Tilemap");
            reveal_strlit("Camera2D");
            reveal_strlit("Velocity");
            reveal_strlit("Collider2D");
            reveal_strlit("PlayerController");
            reveal_strlit("CameraFollow");
            reveal_strlit("Trigger");
        }
        match self {
            ComponentKind::Tag => {
                assert("Tag"@ =~= component_label_text(self));
                "Tag"
            },
            ComponentKind::Sprite => {
                assert("Sprite"@ =~= component_label_text(self));
                "Sprite"
            },
            ComponentKind::Tilemap => {
                assert("Tilemap"@ =~= component_label_text(self));
                "Tilemap"
            },
            ComponentKind::Camera2D => {
                assert("Camera2D"@ =~= component_label_text(self));
                "Camera2D"
            },
            ComponentKind::Velocity => {
                assert("Velocity"@ =~= component_label_text(self));
                "Velocity"
            },
            ComponentKind::Collider2D => {
                assert("Collider2D"@ =~= component_label_text(self));
                "Collider2D"
            },
            ComponentKind::PlayerController => {
                assert("PlayerController"@ =~= component_label_text(self));
                "PlayerController"
            },
            ComponentKind::CameraFollow => {
                assert("CameraFollow"@ =~= component_label_text(self));
                "CameraFollow"
            },
            ComponentKind::Trigger => {
                assert("Trigger"@ =~= component_label_text(self));
                "Trigger"
            },
        }
    }
}

/// Which components a node already has.
#[derive(Debug, Clone, Copy, PartialEq, Eq, Structural)]
pub struct AttachedComponents {
    pub tag: bool,
    pub sprite: bool,
    pub tilemap: bool,
    pub camera: bool,
    pub velocity: bool,
    pub collider: bool,
    pub player_controller: bool,
    pub camera_follow: bool,
    pub trigger: bool,
}

/// Whether the node has a component of kind `kind`.
pub open spec fn has_component(a: AttachedComponents, kind: ComponentKind) -> bool {
    match kind {
        ComponentKind::Tag => a.tag,
        ComponentKind::Sprite => a.sprite,
        ComponentKind::Tilemap => a.tilemap,
        ComponentKind::Camera2D => a.camera,
        ComponentKind::Velocity => a.velocity,
        ComponentKind::Collider2D => a.collider,
        ComponentKind::PlayerController => a.player_controller,
        ComponentKind::CameraFollow => a.camera_follow,
        ComponentKind::Trigger => a.trigger,
    }
}

/// The order of the panel's buttons.
pub open spec fn component_order() -> Seq<ComponentKind> {
    seq![
        ComponentKind::Tag,
        ComponentKind::Sprite,
        ComponentKind::Tilemap,
        ComponentKind::Camera2D,
        ComponentKind::Velocity,
        ComponentKind::Collider2D,
        ComponentKind::PlayerController,
        ComponentKind::CameraFollow,
        ComponentKind::Trigger,
    ]
}

/// The components the panel offers a node: those it does not have yet, in
/// the panel's order.
pub fn attachable_components(a: AttachedComponents) -> (r: Vec<ComponentKind>)
    ensures
        r@ == component_order().filter(|k: ComponentKind| !has_component(a, k)),
{
    let order = [
        ComponentKind::Tag,
        ComponentKind::Sprite,
        ComponentKind::Tilemap,
        ComponentKind::Camera2D,
        ComponentKind::Velocity,
        ComponentKind::Collider2D,
        ComponentKind::PlayerController,
        ComponentKind::CameraFollow,
        ComponentKind::Trigger,
    ];
    let ghost keep = |k: ComponentKind| !has_component(a, k);
    assert(order@ =~= component_order());
    let mut r: Vec<ComponentKind> = Vec::new();
    let mut i: usize = 0;
    while i < 9
        invariant
            i <= 9,
            order@ == component_order(),
            keep == (|k: ComponentKind| !has_component(a, k)),
            r@ == component_order().take(i as int).filter(keep),
        decreases 9 - i,
    {
        let kind = order[i];
        proof {
            let t = component_order().take(i as int + 1);
            assert(t.drop_last() =~= component_order().take(i as int));
            assert(t.last() == kind);
            reveal_with_fuel(Seq::filter, 1);
        }
        let present = match kind {
            ComponentKind::Tag => a.tag,
            ComponentKind::Sprite => a.sprite,
            ComponentKind::Tilemap => a.tilemap,
            ComponentKind::Camera2D => a.camera,
            ComponentKind::Velocity => a.velocity,
            ComponentKind::Collider2D => a.collider,
            ComponentKind::PlayerController => a.player_controller,
            ComponentKind::CameraFollow => a.camera_follow,
            ComponentKind::Trigger => a.trigger,
        };
        if !present {
            r.push(kind);
        }
        i = i + 1;
    }
    assert(component_order().take(9) =~= component_order());
    r
}

/// The panel offers each component exactly when the node lacks that very
/// component: Tag iff it has no tag, Sprite iff it has no sprite, and so on,
/// each decided by its own flag alone; and no component is offered twice.
pub proof fn law_offered_exactly_the_missing_components(a: AttachedComponents)
    ensures
        ({
            let offered = component_order().filter(|k: ComponentKind| !has_component(a, k));
            &&& offered.contains(ComponentKind::Tag) == !a.tag
            &&& offered.contains(ComponentKind::Sprite) == !a.sprite
            &&& offered.contains(ComponentKind::Tilemap) == !a.tilemap
            &&& offered.contains(ComponentKind::Camera2D) == !a.camera
            &&& offered.contains(ComponentKind::Velocity) == !a.velocity
            &&& offered.contains(ComponentKind::Collider2D) == !a.collider
            &&& offered.contains(ComponentKind::PlayerController) == !a.player_controller
            &&& offered.contains(ComponentKind::CameraFollow) == !a.camera_follow
            &&& offered.contains(ComponentKind::Trigger) == !a.trigger
            &&& offered.no_duplicates()
        }),
{
    let p = |k: ComponentKind| !has_component(a, k);
    let order = component_order();
    let offered = order.filter(p);
    assert forall|k: ComponentKind| offered.contains(k) == p(k) by {
        let i: int = match k {
            ComponentKind::Tag => 0,
            ComponentKind::Sprite => 1,
            ComponentKind::Tilemap => 2,
            ComponentKind::Camera2D => 3,
            ComponentKind::Velocity => 4,
            ComponentKind::Collider2D => 5,
            ComponentKind::PlayerController => 6,
            ComponentKind::CameraFollow => 7,
            ComponentKind::Trigger => 8,
        };
        assert(order[i] == k);
        if p(k) {
            order.lemma_filter_contains(p, i);
        }
        if offered.contains(k) {
            order.lemma_filter_contains_rev(p, k);
            let j = choose|j: int| 0 <= j < offered.len() && offered[j] == k;
            order.lemma_filter_pred(p, j);
        }
    }
    assert(order.no_duplicates());
    lemma_filter_no_duplicates(order, p);
}

proof fn lemma_filter_no_duplicates<A>(s: Seq<A>, p: spec_fn(A) -> bool)
    requires
        s.no_duplicates(),
    ensures
        s.filter(p).no_duplicates(),
    decreases s.len(),
{
    reveal(Seq::filter);
    if s.len() > 0 {
        let rest = s.drop_last();
        assert(rest.no_duplicates()) by {
            assert forall|i: int, j: int| 0 <= i < rest.len() && 0 <= j < rest.len() && i != j
                implies rest[i] != rest[j] by {
                assert(rest[i] == s[i] && rest[j] == s[j]);
            }
        }
        lemma_filter_no_duplicates(rest, p);
        if p(s.last()) {
            let f = rest.filter(p);
            if f.contains(s.last()) {
                rest.lemma_filter_contains_rev(p, s.last());
                let k = choose|k: int| 0 <= k < rest.len() && rest[k] == s.last();
                assert(s[k] == s[s.len() - 1]);
            }
            assert forall|i: int, j: int| 0 <= i < f.push(s.last()).len() && 0 <= j < f.push(s.last()).len()
                && i != j implies f.push(s.last())[i] != f.push(s.last())[j] by {
                if i < f.len() && j < f.len() {
                } else if i < f.len() {
                    assert(f.push(s.last())[i] == f[i]);
                    assert(f.contains(f[i]));
                } else if j < f.len() {
                    assert(f.push(s.last())[j] == f[j]);
                    assert(f.contains(f[j]));
                }
            }
        }
    }
}

pub open spec fn all_attached_text() -> Seq<char> {
    seq![
        'A', 'l', 'l', ' ', 's', 'u', 'p', 'p', 'o', 'r', 't', 'e', 'd', ' ', 'c', 'o', 'm', 'p', 'o',
        'n', 'e', 'n', 't', 's', ' ', 'a', 'r', 'e', ' ', 'a', 't', 't', 'a', 'c', 'h', 'e', 'd'
    ]
}

/// The note the panel shows instead of buttons when the node has every
/// component: `All supported components are attached`; none otherwise.
pub fn add_component_note(a: AttachedComponents) -> (r: Option<&'static str>)
    ensures
        match r {
            Some(t) => component_order().filter(|k: ComponentKind| !has_component(a, k)).len() == 0
                && t@ == all_attached_text(),
            None => component_order().filter(|k: ComponentKind| !has_component(a, k)).len() > 0,
        },
{
    let offered = attachable_components(a);
    if offered.len() == 0 {
        proof {
            reveal_strlit("All supported components are attached");
            assert("All supported components are attached"@ =~= all_attached_text());
        }
        Some("All supported components are attached")
    } else {
        None
    }
}

} // verus!
