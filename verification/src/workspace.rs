//! The editor workspace: which dock slot each panel stands in, whether it is
//! shown, and what arranging the panels does.
use vstd::prelude::*;
use vstd::string::*;
use crate::StatusTone;
use crate::paths::views;
use crate::status::{after_status, StatusLog};

verus! {

/// A panel of the editor workspace.
#[derive(Debug, Clone, Copy, PartialEq, Eq, Structural)]
pub enum DockPanel {
    Scene,
    Inspector,
    Assets,
}

/// A place a panel can be docked in.
#[derive(Debug, Clone, Copy, PartialEq, Eq, Structural)]
pub enum DockSlot {
    Left,
    Right,
    Bottom,
    Hidden,
}

pub open spec fn panel_label_text(panel: DockPanel) -> Seq<char> {
    match panel {
        DockPanel::Scene => seq!['S', 'c', 'e', 'n', 'e'],
        DockPanel::Inspector => seq!['I', 'n', 's', 'p', 'e', 'c', 't', 'o', 'r'],
        DockPanel::Assets => seq!['A', 's', 's', 'e', 't', 's'],
    }
}

pub open spec fn slot_label_text(slot: DockSlot) -> Seq<char> {
    match slot {
        DockSlot::Left => seq!['L', 'e', 'f', 't'],
        DockSlot::Right => seq!['R', 'i', 'g', 'h', 't'],
        DockSlot::Bottom => seq!['B', 'o', 't', 't', 'o', 'm'],
        DockSlot::Hidden => seq!['H', 'i', 'd', 'd', 'e', 'n'],
    }
}

/// The panels in the order the workspace lists and docks them.
pub open spec fn panel_order() -> Seq<DockPanel> {
    seq![DockPanel::Scene, DockPanel::Assets, DockPanel::Inspector]
}

impl DockPanel {
    /// Every panel, in the order the workspace lists them.
    pub const ALL: [DockPanel; 3] = [DockPanel::Scene, DockPanel::Assets, DockPanel::Inspector];

    /// The panel's title.
    pub fn label(self) -> (r: &'static str)
        ensures
            r@ == panel_label_text(self),
    {
        proof {
            reveal_strlit("Scene");
            reveal_strlit("Inspector");
            reveal_strlit("Assets");
        }
        match self {
            DockPanel::Scene => {
                assert("Scene"@ =~= panel_label_text(self));
                "Scene"
            },
            DockPanel::Inspector => {
                assert("Inspector"@ =~= panel_label_text(self));
                "Inspector"
            },
            DockPanel::Assets => {
                assert("Assets"@ =~= panel_label_text(self));
                "Assets"
            },
        }
    }
}

impl DockSlot {
    /// Every slot, in the order the dock menu lists them.
    pub const ALL: [DockSlot; 4] = [DockSlot::Left, DockSlot::Right, DockSlot::Bottom, DockSlot::Hidden];

    /// The slot's name.
    pub fn label(self) -> (r: &'static str)
        ensures
            r@ == slot_label_text(self),
    {
        proof {
            reveal_strlit("Left");
            reveal_strlit("Right");
            reveal_strlit("Bottom");
            reveal_strlit("Hidden");
        }
        match self {
            DockSlot::Left => {
                assert("Left"@ =~= slot_label_text(self));
                "Left"
            },
            DockSlot::Right => {
                assert("Right"@ =~= slot_label_text(self));
                "Right"
            },
            DockSlot::Bottom => {
                assert("Bottom"@ =~= slot_label_text(self));
                "Bottom"
            },
            DockSlot::Hidden => {
                assert("Hidden"@ =~= slot_label_text(self));
                "Hidden"
            },
        }
    }
}

/// Where the workspace panels stand.
pub struct WorkspaceLayout {
    pub scene_panel_slot: DockSlot,
    pub inspector_slot: DockSlot,
    pub asset_dock_slot: DockSlot,
    pub scene_panel_visible: bool,
    pub inspector_visible: bool,
    pub asset_dock_visible: bool,
    pub asset_dock_collapsed: bool,
}

/// `<panel> docked: <slot>`.
pub open spec fn docked_message(panel: DockPanel, slot: DockSlot) -> Seq<char> {
    panel_label_text(panel) + seq![' ', 'd', 'o', 'c', 'k', 'e', 'd', ':', ' '] + slot_label_text(
        slot,
    )
}

/// The default slot of each panel.
pub open spec fn default_slot(panel: DockPanel) -> DockSlot {
    match panel {
        DockPanel::Scene => DockSlot::Left,
        DockPanel::Inspector => DockSlot::Right,
        DockPanel::Assets => DockSlot::Bottom,
    }
}

impl WorkspaceLayout {
    /// The slot a panel stands in.
    pub open spec fn slot_of(&self, panel: DockPanel) -> DockSlot {
        match panel {
            DockPanel::Scene => self.scene_panel_slot,
            DockPanel::Inspector => self.inspector_slot,
            DockPanel::Assets => self.asset_dock_slot,
        }
    }

    /// Whether a panel is shown.
    pub open spec fn visible_of(&self, panel: DockPanel) -> bool {
        match panel {
            DockPanel::Scene => self.scene_panel_visible,
            DockPanel::Inspector => self.inspector_visible,
            DockPanel::Assets => self.asset_dock_visible,
        }
    }

    /// This layout with `panel` docked in `slot`.
    pub open spec fn with_panel_slot(self, panel: DockPanel, slot: DockSlot) -> WorkspaceLayout {
        match panel {
            DockPanel::Scene => WorkspaceLayout {
                scene_panel_slot: slot,
                scene_panel_visible: slot != DockSlot::Hidden,
                ..self
            },
            DockPanel::Inspector => WorkspaceLayout {
                inspector_slot: slot,
                inspector_visible: slot != DockSlot::Hidden,
                ..self
            },
            DockPanel::Assets => WorkspaceLayout {
                asset_dock_slot: slot,
                asset_dock_visible: slot != DockSlot::Hidden,
                ..self
            },
        }
    }

    /// The shown panels docked in `slot`, in workspace order.
    pub open spec fn listed(self, slot: DockSlot) -> Seq<DockPanel> {
        panel_order().filter(|panel: DockPanel| self.visible_of(panel) && self.slot_of(panel) == slot)
    }

    /// A panel is shown exactly when it is not in the hidden slot.
    pub open spec fn wf(&self) -> bool {
        forall|panel: DockPanel| #[trigger] self.visible_of(panel) == (self.slot_of(panel) != DockSlot::Hidden)
    }

    /// The layout a new editor starts with, and that resetting restores:
    /// scene on the left, inspector on the right, assets at the bottom, all
    /// shown and the asset dock expanded.
    pub open spec fn is_default(&self) -> bool {
        &&& forall|panel: DockPanel| #[trigger] self.slot_of(panel) == default_slot(panel)
        &&& forall|panel: DockPanel| #[trigger] self.visible_of(panel)
        &&& !self.asset_dock_collapsed
    }

    /// The default layout.
    pub fn new() -> (l: Self)
        ensures
            l.wf(),
            l.is_default(),
    {
        WorkspaceLayout {
            scene_panel_slot: DockSlot::Left,
            inspector_slot: DockSlot::Right,
            asset_dock_slot: DockSlot::Bottom,
            scene_panel_visible: true,
            inspector_visible: true,
            asset_dock_visible: true,
            asset_dock_collapsed: false,
        }
    }

    /// The slot a panel stands in.
    pub fn panel_slot(&self, panel: DockPanel) -> (s: DockSlot)
        ensures
            s == self.slot_of(panel),
    {
        match panel {
            DockPanel::Scene => self.scene_panel_slot,
            DockPanel::Inspector => self.inspector_slot,
            DockPanel::Assets => self.asset_dock_slot,
        }
    }

    /// Whether a panel is shown.
    pub fn panel_visible(&self, panel: DockPanel) -> (v: bool)
        ensures
            v == self.visible_of(panel),
    {
        match panel {
            DockPanel::Scene => self.scene_panel_visible,
            DockPanel::Inspector => self.inspector_visible,
            DockPanel::Assets => self.asset_dock_visible,
        }
    }

    /// Docks `panel` in `slot` (hiding it for the hidden slot) and returns
    /// the status message `<panel> docked: <slot>`. The other panels keep
    /// their places.
    pub fn set_panel_slot(&mut self, panel: DockPanel, slot: DockSlot) -> (message: String)
        ensures
            final(self).slot_of(panel) == slot,
            final(self).visible_of(panel) == (slot != DockSlot::Hidden),
            forall|other: DockPanel|
                other != panel ==> #[trigger] final(self).slot_of(other) == old(self).slot_of(other)
                    && final(self).visible_of(other) == old(self).visible_of(other),
            final(self).asset_dock_collapsed == old(self).asset_dock_collapsed,
            old(self).wf() ==> final(self).wf(),
            *final(self) == old(self).with_panel_slot(panel, slot),
            message@ == docked_message(panel, slot),
    {
        match panel {
            DockPanel::Scene => {
                self.scene_panel_slot = slot;
                self.scene_panel_visible = slot != DockSlot::Hidden;
            },
            DockPanel::Inspector => {
                self.inspector_slot = slot;
                self.inspector_visible = slot != DockSlot::Hidden;
            },
            DockPanel::Assets => {
                self.asset_dock_slot = slot;
                self.asset_dock_visible = slot != DockSlot::Hidden;
            },
        }
        let mut message = String::from_str(panel.label());
        message.append(" docked: ");
        message.append(slot.label());
        proof {
            reveal_strlit(" docked: ");
            if old(self).wf() {
                assert forall|p: DockPanel| #[trigger] self.visible_of(p) == (self.slot_of(p)
                    != DockSlot::Hidden) by {
                    assert(old(self).visible_of(p) == (old(self).slot_of(p) != DockSlot::Hidden));
                }
            }
        }
        message
    }

    /// Docks `panel` in `slot` and shows `<panel> docked: <slot>` as an
    /// Info status, which also goes to the output log.
    pub fn dock_panel(&mut self, log: &mut StatusLog, panel: DockPanel, slot: DockSlot)
        ensures
            *final(self) == old(self).with_panel_slot(panel, slot),
            old(self).wf() ==> final(self).wf(),
            final(log).status@ == docked_message(panel, slot),
            final(log).tone == StatusTone::Info,
            final(log).wf(),
            views(final(log).output@) == after_status(
                views(old(log).output@),
                docked_message(panel, slot),
                StatusTone::Info,
            ),
            final(log).last_asset_error == old(log).last_asset_error,
    {
        let message = self.set_panel_slot(panel, slot);
        log.set_status(message);
    }

    /// Restores the default layout.
    pub fn reset(&mut self)
        ensures
            final(self).wf(),
            final(self).is_default(),
    {
        *self = WorkspaceLayout::new();
    }

    /// Shows the scene panel, docking it on the left if it was hidden.
    pub fn show_scene_panel(&mut self)
        requires
            old(self).wf(),
        ensures
            final(self).wf(),
            final(self).visible_of(DockPanel::Scene),
            final(self).slot_of(DockPanel::Scene) == (if old(self).slot_of(DockPanel::Scene)
                == DockSlot::Hidden {
                DockSlot::Left
            } else {
                old(self).slot_of(DockPanel::Scene)
            }),
            final(self).slot_of(DockPanel::Inspector) == old(self).slot_of(DockPanel::Inspector),
            final(self).slot_of(DockPanel::Assets) == old(self).slot_of(DockPanel::Assets),
            final(self).visible_of(DockPanel::Inspector) == old(self).visible_of(
                DockPanel::Inspector,
            ),
            final(self).visible_of(DockPanel::Assets) == old(self).visible_of(DockPanel::Assets),
            final(self).asset_dock_collapsed == old(self).asset_dock_collapsed,
    {
        self.scene_panel_visible = true;
        if self.scene_panel_slot == DockSlot::Hidden {
            self.scene_panel_slot = DockSlot::Left;
        }
        proof {
            assert forall|p: DockPanel| #[trigger] self.visible_of(p) == (self.slot_of(p)
                != DockSlot::Hidden) by {
                assert(old(self).visible_of(p) == (old(self).slot_of(p) != DockSlot::Hidden));
            }
        }
    }

    /// Shows the inspector, docking it on the right if it was hidden.
    pub fn show_inspector(&mut self)
        requires
            old(self).wf(),
        ensures
            final(self).wf(),
            final(self).visible_of(DockPanel::Inspector),
            final(self).slot_of(DockPanel::Inspector) == (if old(self).slot_of(
                DockPanel::Inspector,
            ) == DockSlot::Hidden {
                DockSlot::Right
            } else {
                old(self).slot_of(DockPanel::Inspector)
            }),
            final(self).slot_of(DockPanel::Scene) == old(self).slot_of(DockPanel::Scene),
            final(self).slot_of(DockPanel::Assets) == old(self).slot_of(DockPanel::Assets),
            final(self).visible_of(DockPanel::Scene) == old(self).visible_of(DockPanel::Scene),
            final(self).visible_of(DockPanel::Assets) == old(self).visible_of(DockPanel::Assets),
            final(self).asset_dock_collapsed == old(self).asset_dock_collapsed,
    {
        self.inspector_visible = true;
        if self.inspector_slot == DockSlot::Hidden {
            self.inspector_slot = DockSlot::Right;
        }
        proof {
            assert forall|p: DockPanel| #[trigger] self.visible_of(p) == (self.slot_of(p)
                != DockSlot::Hidden) by {
                assert(old(self).visible_of(p) == (old(self).slot_of(p) != DockSlot::Hidden));
            }
        }
    }

    /// Collapses an expanded asset dock or expands a collapsed one.
    pub fn toggle_asset_dock_collapsed(&mut self)
        ensures
            final(self).asset_dock_collapsed == !old(self).asset_dock_collapsed,
            forall|panel: DockPanel|
                #[trigger] final(self).slot_of(panel) == old(self).slot_of(panel)
                    && final(self).visible_of(panel) == old(self).visible_of(panel),
    {
        self.asset_dock_collapsed = !self.asset_dock_collapsed;
    }

    /// The shown panels docked in `slot`, in workspace order.
    pub fn panels_in_slot(&self, slot: DockSlot) -> (panels: Vec<DockPanel>)
        ensures
            panels@ == self.listed(slot),
    {
        let ghost keep = |panel: DockPanel| self.visible_of(panel) && self.slot_of(panel) == slot;
        let mut panels: Vec<DockPanel> = Vec::new();
        let order = [DockPanel::Scene, DockPanel::Assets, DockPanel::Inspector];
        let mut i: usize = 0;
        assert(order@ =~= panel_order());
        while i < 3
            invariant
                i <= 3,
                order@ == panel_order(),
                keep == (|panel: DockPanel| self.visible_of(panel) && self.slot_of(panel) == slot),
                panels@ == panel_order().take(i as int).filter(keep),
            decreases 3 - i,
        {
            let panel = order[i];
            proof {
                let t = panel_order().take(i as int + 1);
                assert(t.drop_last() =~= panel_order().take(i as int));
                assert(t.last() == panel);
                reveal_with_fuel(Seq::filter, 1);
            }
            let shown = self.panel_visible(panel) && self.panel_slot(panel) == slot;
            assert(shown == keep(panel));
            if shown {
                panels.push(panel);
            }
            i = i + 1;
        }
        assert(panel_order().take(3) =~= panel_order());
        assert(keep =~= (|panel: DockPanel| self.visible_of(panel) && self.slot_of(panel) == slot));
        panels
    }
}

/// Docking a panel in a slot lists it in that slot, unless the slot is the
/// hidden one, where nothing is listed.
pub proof fn law_docked_panel_is_listed(l: WorkspaceLayout, panel: DockPanel, slot: DockSlot)
    requires
        l.wf(),
    ensures
        l.with_panel_slot(panel, slot).listed(slot).contains(panel) == (slot != DockSlot::Hidden),
{
    let a = l.with_panel_slot(panel, slot);
    reveal_with_fuel(Seq::filter, 4);
    let order = panel_order();
    assert(order.drop_last().drop_last().drop_last() =~= Seq::<DockPanel>::empty());
    let f = |p: DockPanel| a.visible_of(p) && a.slot_of(p) == slot;
    if slot != DockSlot::Hidden {
        let k: int = match panel {
            DockPanel::Scene => 0,
            DockPanel::Assets => 1,
            DockPanel::Inspector => 2,
        };
        assert(order[k] == panel);
        order.lemma_filter_contains(f, k);
    } else {
        if a.listed(slot).contains(panel) {
            order.lemma_filter_contains_rev(f, panel);
        }
    }
}

/// The hidden slot never lists a panel.
pub proof fn law_hidden_slot_lists_nothing(l: WorkspaceLayout)
    requires
        l.wf(),
    ensures
        l.listed(DockSlot::Hidden).len() == 0,
{
    reveal_with_fuel(Seq::filter, 4);
    let order = panel_order();
    assert(order.drop_last().drop_last().drop_last() =~= Seq::<DockPanel>::empty());
    assert(l.visible_of(DockPanel::Scene) == (l.slot_of(DockPanel::Scene) != DockSlot::Hidden));
    assert(l.visible_of(DockPanel::Assets) == (l.slot_of(DockPanel::Assets) != DockSlot::Hidden));
    assert(l.visible_of(DockPanel::Inspector) == (l.slot_of(DockPanel::Inspector)
        != DockSlot::Hidden));
}

/// Docking a panel twice in the same slot is the same as docking it once,
/// and docking a panel leaves the other panels where they were.
pub proof fn law_docking_is_idempotent_and_local(
    l: WorkspaceLayout,
    panel: DockPanel,
    slot: DockSlot,
    other: DockPanel,
)
    ensures
        l.with_panel_slot(panel, slot).with_panel_slot(panel, slot) == l.with_panel_slot(panel, slot),
        other != panel ==> l.with_panel_slot(panel, slot).slot_of(other) == l.slot_of(other)
            && l.with_panel_slot(panel, slot).visible_of(other) == l.visible_of(other),
{
}

} // verus!
