//! Decisions the editor takes on user input: keyboard shortcuts, the
//! project dialogs, running the project, viewport clicks and tile painting.
use vstd::prelude::*;
use vstd::string::*;
use crate::editor_types::EditorTool;
use crate::paths::{default_project_dir, default_project_file_path, join_seq, project_file_name};
use crate::text::{contains_str, lowercase_of, seq_contains, to_lowercase, trim_seq, trim_text};

verus! {

/// The keys of the frame that shortcuts look at.
#[derive(Debug, Clone, Copy, PartialEq, Eq, Structural)]
pub struct ShortcutInput {
    pub z_pressed: bool,
    pub y_pressed: bool,
    pub s_pressed: bool,
    pub o_pressed: bool,
    pub ctrl: bool,
    pub shift: bool,
}

/// What the shortcuts of a frame ask for.
#[derive(Debug, Clone, Copy, PartialEq, Eq, Structural)]
pub struct ShortcutActions {
    pub undo: bool,
    pub redo: bool,
    pub save: bool,
    pub open: bool,
}

/// Ctrl+Z undoes, Ctrl+Shift+Z and Ctrl+Y redo, Ctrl+S saves, Ctrl+O opens.
pub fn shortcut_actions(input: ShortcutInput) -> (a: ShortcutActions)
    ensures
        a.undo == (input.z_pressed && input.ctrl && !input.shift),
        a.redo == ((input.z_pressed && input.ctrl && input.shift) || (input.y_pressed && input.ctrl)),
        a.save == (input.s_pressed && input.ctrl),
        a.open == (input.o_pressed && input.ctrl),
{
    ShortcutActions {
        undo: input.z_pressed && input.ctrl && !input.shift,
        redo: (input.z_pressed && input.ctrl && input.shift) || (input.y_pressed && input.ctrl),
        save: input.s_pressed && input.ctrl,
        open: input.o_pressed && input.ctrl,
    }
}

pub open spec fn empty_name_error() -> Seq<char> {
    seq![
        'P', 'r', 'o', 'j', 'e', 'c', 't', ' ', 'n', 'a', 'm', 'e', ' ', 'c', 'a', 'n', 'n', 'o', 't',
        ' ', 'b', 'e', ' ', 'e', 'm', 'p', 't', 'y'
    ]
}

pub open spec fn empty_project_path_error() -> Seq<char> {
    seq![
        'P', 'r', 'o', 'j', 'e', 'c', 't', ' ', 'p', 'a', 't', 'h', ' ', 'c', 'a', 'n', 'n', 'o', 't',
        ' ', 'b', 'e', ' ', 'e', 'm', 'p', 't', 'y'
    ]
}

pub open spec fn empty_save_path_error() -> Seq<char> {
    seq![
        'S', 'a', 'v', 'e', ' ', 'p', 'a', 't', 'h', ' ', 'c', 'a', 'n', 'n', 'o', 't', ' ', 'b', 'e',
        ' ', 'e', 'm', 'p', 't', 'y'
    ]
}

/// The project folder a new project goes to: the folder typed in, trimmed,
/// or the default folder of its name when none is typed.
pub open spec fn new_project_folder(name: Seq<char>, path_edit: Seq<char>) -> Seq<char> {
    if trim_seq(path_edit).len() == 0 {
        default_project_dir(name)
    } else {
        trim_seq(path_edit)
    }
}

/// The name and folder of a new project from the dialog's fields: the name
/// is trimmed and must not be blank.
pub fn new_project_request(name_edit: &str, path_edit: &str) -> (r: Result<(String, String), String>)
    ensures
        match r {
            Ok((name, path)) => {
                &&& trim_seq(name_edit@).len() > 0
                &&& name@ == trim_seq(name_edit@)
                &&& path@ == new_project_folder(trim_seq(name_edit@), path_edit@)
            },
            Err(e) => trim_seq(name_edit@).len() == 0 && e@ == empty_name_error(),
        },
{
    let name = trim_text(name_edit);
    if name.as_str().unicode_len() == 0 {
        proof {
            reveal_strlit("Project name cannot be empty");
            assert("Project name cannot be empty"@ =~= empty_name_error());
        }
        return Err(String::from_str("Project name cannot be empty"));
    }
    let typed = trim_text(path_edit);
    let path = if typed.as_str().unicode_len() == 0 {
        crate::paths::default_project_path(name.as_str())
    } else {
        typed
    };
    Ok((name, path))
}

/// The folder proposed when the project name is edited: the default folder
/// of the trimmed name, or nothing when the name is blank.
pub fn project_path_for_name(name_edit: &str) -> (r: Option<String>)
    ensures
        match r {
            Some(p) => trim_seq(name_edit@).len() > 0 && p@ == default_project_dir(
                trim_seq(name_edit@),
            ),
            None => trim_seq(name_edit@).len() == 0,
        },
{
    let name = trim_text(name_edit);
    if name.as_str().unicode_len() == 0 {
        None
    } else {
        Some(crate::paths::default_project_path(name.as_str()))
    }
}

/// The project file to open: the trimmed path, which must not be blank.
pub fn open_project_request(path_edit: &str) -> (r: Result<String, String>)
    ensures
        match r {
            Ok(p) => trim_seq(path_edit@).len() > 0 && p@ == trim_seq(path_edit@),
            Err(e) => trim_seq(path_edit@).len() == 0 && e@ == empty_project_path_error(),
        },
{
    let path = trim_text(path_edit);
    if path.as_str().unicode_len() == 0 {
        proof {
            reveal_strlit("Project path cannot be empty");
            assert("Project path cannot be empty"@ =~= empty_project_path_error());
        }
        Err(String::from_str("Project path cannot be empty"))
    } else {
        Ok(path)
    }
}

/// The file to save the project as: the trimmed path, which must not be blank.
pub fn save_as_request(path_edit: &str) -> (r: Result<String, String>)
    ensures
        match r {
            Ok(p) => trim_seq(path_edit@).len() > 0 && p@ == trim_seq(path_edit@),
            Err(e) => trim_seq(path_edit@).len() == 0 && e@ == empty_save_path_error(),
        },
{
    let path = trim_text(path_edit);
    if path.as_str().unicode_len() == 0 {
        proof {
            reveal_strlit("Save path cannot be empty");
            assert("Save path cannot be empty"@ =~= empty_save_path_error());
        }
        Err(String::from_str("Save path cannot be empty"))
    } else {
        Ok(path)
    }
}

/// The path proposed by the Save As dialog: the current project file, or
/// the default project file of the project's name when it has none yet.
pub fn save_as_default_path(project_path: Option<&str>, project_name: &str) -> (r: String)
    ensures
        r@ == match project_path {
            Some(p) => p@,
            None => join_seq(default_project_dir(project_name@), project_file_name()),
        },
{
    match project_path {
        Some(p) => String::from_str(p),
        None => default_project_file_path(project_name),
    }
}

/// Whether the inspector shows a section labelled `label` for the filter
/// text `filter_edit`: a blank filter shows every section, otherwise the
/// trimmed, lower-cased filter must occur in the lower-cased label.
pub open spec fn inspector_shows(filter_edit: Seq<char>, label: Seq<char>) -> bool {
    trim_seq(filter_edit).len() == 0 || seq_contains(
        lowercase_of(label),
        lowercase_of(trim_seq(filter_edit)),
    )
}

/// A non-blank filter shows a section exactly when the lower-cased,
/// trimmed filter occurs anywhere in the lower-cased label, at its start,
/// in its middle or at its end; a blank filter shows every section.
pub proof fn law_inspector_filter_finds_any_part(
    filter_edit: Seq<char>,
    label: Seq<char>,
    before: Seq<char>,
    after: Seq<char>,
)
    ensures
        trim_seq(filter_edit).len() == 0 ==> inspector_shows(filter_edit, label),
        lowercase_of(label) == before + lowercase_of(trim_seq(filter_edit)) + after
            ==> inspector_shows(filter_edit, label),
        trim_seq(filter_edit).len() > 0 && inspector_shows(filter_edit, label) ==> exists|
            b: Seq<char>,
            c: Seq<char>,
        | lowercase_of(label) == b + lowercase_of(trim_seq(filter_edit)) + c,
{
    let key = lowercase_of(trim_seq(filter_edit));
    crate::text::lemma_contains_middle(before, key, after);
    if trim_seq(filter_edit).len() > 0 && inspector_shows(filter_edit, label) {
        crate::text::lemma_contains_split(lowercase_of(label), key);
    }
}

/// Whether the inspector filter lets the section `label` through.
pub fn inspector_allows(filter_edit: &str, label: &str) -> (r: bool)
    ensures
        r == inspector_shows(filter_edit@, label@),
{
    let trimmed = trim_text(filter_edit);
    let filter = to_lowercase(trimmed.as_str());
    if trimmed.as_str().unicode_len() == 0 {
        return true;
    }
    let lower = to_lowercase(label);
    contains_str(lower.as_str(), filter.as_str())
}

pub open spec fn no_selection_text() -> Seq<char> {
    seq!['N', 'o', ' ', 's', 'e', 'l', 'e', 'c', 't', 'i', 'o', 'n']
}

pub open spec fn selected_prefix() -> Seq<char> {
    seq!['S', 'e', 'l', 'e', 'c', 't', 'e', 'd', ':', ' ']
}

/// The selection line of the status bar: `Selected: <name>` for the name of
/// the selected node, `No selection` when no node is selected.
pub fn selected_summary(selected_name: Option<&str>) -> (r: String)
    ensures
        r@ == match selected_name {
            Some(n) => selected_prefix() + n@,
            None => no_selection_text(),
        },
{
    proof {
        reveal_strlit("Selected: ");
        reveal_strlit("No selection");
        assert("Selected: "@ =~= selected_prefix());
        assert("No selection"@ =~= no_selection_text());
    }
    match selected_name {
        Some(n) => {
            let mut r = String::from_str("Selected: ");
            r.append(n);
            r
        },
        None => String::from_str("No selection"),
    }
}

pub open spec fn follow_target_error() -> Seq<char> {
    seq![
        'C', 'a', 'm', 'e', 'r', 'a', ' ', 'f', 'o', 'l', 'l', 'o', 'w', ' ', 't', 'a', 'r', 'g', 'e',
        't', ' ', 'm', 'u', 's', 't', ' ', 'b', 'e', ' ', 'a', 'n', ' ', 'e', 'n', 't', 'i', 't', 'y',
        ' ', 'i', 'd'
    ]
}

/// The entity a camera follow component is to target, read from the
/// inspector's text field: the trimmed text must be a `u64` entity id.
pub fn camera_follow_target(edit: &str) -> (r: Result<u64, String>)
    ensures
        match r {
            Ok(id) => crate::tiles::parse_u64_text(trim_seq(edit@)) == Some(id),
            Err(m) => crate::tiles::parse_u64_text(trim_seq(edit@)) is None && m@
                == follow_target_error(),
        },
{
    let chars = crate::text::chars_of(edit);
    let (a, b) = crate::text::trim_bounds(&chars);
    match crate::tiles::parse_u64_range(&chars, a, b) {
        Some(id) => Ok(id),
        None => {
            proof {
                reveal_strlit("Camera follow target must be an entity id");
                assert("Camera follow target must be an entity id"@ =~= follow_target_error());
            }
            Err(String::from_str("Camera follow target must be an entity id"))
        },
    }
}

/// How an edit of the transform fields is applied.
#[derive(Debug, Clone, Copy, PartialEq, Eq, Structural)]
pub enum TransformChange {
    /// Nothing changed.
    Unchanged,
    /// Move the node now, leaving the undo history alone (a drag is under way).
    Live,
    /// Move the node as one undoable step.
    WithHistory,
}

/// What the transform inspector does in one frame.
#[derive(Debug, Clone, Copy, PartialEq, Eq, Structural)]
pub struct TransformDragAction {
    /// Remember the transform from before this frame as the drag's start.
    pub begin_drag: bool,
    /// How this frame's edit is applied.
    pub change: TransformChange,
    /// Record one undo step from the drag's start to the node's transform now.
    pub record_drag: bool,
    /// Whether a drag is under way after this frame.
    pub dragging_after: bool,
}

/// The transform inspector's decision for one frame (see `transform_drag_step`).
pub open spec fn drag_step_of(was_dragging: bool, started: bool, changed: bool, stopped: bool) -> TransformDragAction {
    TransformDragAction {
        begin_drag: started,
        change: if !changed {
            TransformChange::Unchanged
        } else if was_dragging || started {
            TransformChange::Live
        } else {
            TransformChange::WithHistory
        },
        record_drag: stopped && (was_dragging || started),
        dragging_after: (was_dragging || started) && !stopped,
    }
}

/// Running the transform inspector over frames, each reporting
/// `(started, changed, stopped)`, from the drag state `was_dragging`:
/// whether a drag is under way at the end, how many drags were recorded as
/// undo steps, and how many edits were undo steps of their own.
pub open spec fn drag_run(was_dragging: bool, frames: Seq<(bool, bool, bool)>) -> (bool, nat, nat)
    decreases frames.len(),
{
    if frames.len() == 0 {
        (was_dragging, 0, 0)
    } else {
        let before = drag_run(was_dragging, frames.drop_last());
        let f = frames.last();
        let a = drag_step_of(before.0, f.0, f.1, f.2);
        (
            a.dragging_after,
            before.1 + if a.record_drag { 1nat } else { 0nat },
            before.2 + if a.change == TransformChange::WithHistory { 1nat } else { 0nat },
        )
    }
}

proof fn lemma_drag_under_way(frames: Seq<(bool, bool, bool)>, k: int)
    requires
        1 <= k < frames.len(),
        frames[0].0,
        forall|i: int| 0 <= i < frames.len() ==> (#[trigger] frames[i].2 <==> i == frames.len() - 1),
    ensures
        drag_run(false, frames.take(k)) == (true, 0nat, 0nat),
    decreases k,
{
    let t = frames.take(k);
    assert(t.drop_last() =~= frames.take(k - 1));
    assert(t.last() == frames[k - 1]);
    assert(!frames[k - 1].2);
    if k > 1 {
        lemma_drag_under_way(frames, k - 1);
    } else {
        assert(frames.take(0) =~= Seq::<(bool, bool, bool)>::empty());
    }
    let before = drag_run(false, t.drop_last());
    assert(before == (k > 1, 0nat, 0nat));
    let f = frames[k - 1];
    assert(k == 1 ==> f.0);
    let a = drag_step_of(before.0, f.0, f.1, f.2);
    assert(a.dragging_after);
    assert(!a.record_drag);
    assert(a.change != TransformChange::WithHistory);
    assert(drag_run(false, t) == (a.dragging_after, before.1 + 0nat, before.2 + 0nat));
}

/// A whole drag of a transform field (it starts in the first frame and
/// stops in the last) leaves exactly one undo step, makes no undo step of
/// its own for the edits along the way, and ends with no drag under way.
pub proof fn law_a_transform_drag_is_one_undo_step(frames: Seq<(bool, bool, bool)>)
    requires
        frames.len() > 0,
        frames[0].0,
        forall|i: int| 0 <= i < frames.len() ==> (#[trigger] frames[i].2 <==> i == frames.len() - 1),
    ensures
        drag_run(false, frames) == (false, 1nat, 0nat),
{
    let n = frames.len() as int;
    assert(frames[n - 1].2);
    if n > 1 {
        lemma_drag_under_way(frames, n - 1);
        assert(frames.drop_last() =~= frames.take(n - 1));
    } else {
        assert(frames.drop_last() =~= Seq::<(bool, bool, bool)>::empty());
    }
    let before = drag_run(false, frames.drop_last());
    assert(before == (n > 1, 0nat, 0nat));
    let f = frames[n - 1];
    assert(n == 1 ==> f.0);
    let a = drag_step_of(before.0, f.0, f.1, f.2);
    assert(!a.dragging_after);
    assert(a.record_drag);
    assert(a.change != TransformChange::WithHistory);
    assert(drag_run(false, frames) == (a.dragging_after, before.1 + 1nat, before.2 + 0nat));
}

/// A drag of a transform field moves the node live and leaves one undo step
/// when it stops; an edit outside a drag is an undoable step of its own.
/// `was_dragging` says whether a drag was under way before this frame;
/// `started`, `changed` and `stopped` are what the fields reported.
pub fn transform_drag_step(was_dragging: bool, started: bool, changed: bool, stopped: bool) -> (a: TransformDragAction)
    ensures
        a == drag_step_of(was_dragging, started, changed, stopped),
        a.begin_drag == started,
        a.change == (if !changed {
            TransformChange::Unchanged
        } else if was_dragging || started {
            TransformChange::Live
        } else {
            TransformChange::WithHistory
        }),
        a.record_drag == (stopped && (was_dragging || started)),
        a.dragging_after == ((was_dragging || started) && !stopped),
{
    let dragging = was_dragging || started;
    let change = if !changed {
        TransformChange::Unchanged
    } else if dragging {
        TransformChange::Live
    } else {
        TransformChange::WithHistory
    };
    TransformDragAction {
        begin_drag: started,
        change,
        record_drag: stopped && dragging,
        dragging_after: dragging && !stopped,
    }
}

/// What pressing Play leads to.
#[derive(Debug, Clone, Copy, PartialEq, Eq, Structural)]
pub enum PlayStep {
    /// The project has no file yet: ask where to save it.
    SaveFirst,
    /// There are unsaved changes: ask whether to save before running.
    ConfirmUnsavedChanges,
    /// Start the runtime on the saved project.
    Launch,
}

/// Play needs a project file; with unsaved changes it asks first.
pub fn play_step(has_project_path: bool, dirty: bool) -> (s: PlayStep)
    ensures
        s == (if !has_project_path {
            PlayStep::SaveFirst
        } else if dirty {
            PlayStep::ConfirmUnsavedChanges
        } else {
            PlayStep::Launch
        }),
{
    if !has_project_path {
        PlayStep::SaveFirst
    } else if dirty {
        PlayStep::ConfirmUnsavedChanges
    } else {
        PlayStep::Launch
    }
}

/// What a primary click in the viewport does.
#[derive(Debug, Clone, Copy, PartialEq, Eq, Structural)]
pub enum ClickAction {
    /// Paint or erase the tile under the pointer.
    PaintTile,
    /// Select the topmost node under the pointer.
    SelectTopmost,
    /// Nothing.
    Ignore,
}

/// The tile tools paint, the select tool selects, the pan tool does nothing.
pub fn viewport_click_action(tool: EditorTool) -> (a: ClickAction)
    ensures
        a == match tool {
            EditorTool::TileBrush | EditorTool::EraseTile => ClickAction::PaintTile,
            EditorTool::Select => ClickAction::SelectTopmost,
            EditorTool::Pan => ClickAction::Ignore,
        },
{
    match tool {
        EditorTool::TileBrush | EditorTool::EraseTile => ClickAction::PaintTile,
        EditorTool::Select => ClickAction::SelectTopmost,
        EditorTool::Pan => ClickAction::Ignore,
    }
}

/// What the viewport saw of the pointer and keyboard in one frame.
#[derive(Debug, Clone, Copy, PartialEq, Eq, Structural)]
pub struct ViewportFrameInput {
    pub tool: EditorTool,
    /// The hovering pointer is over the viewport.
    pub pointer_inside: bool,
    /// The pointer that drives a drag is over the viewport.
    pub drag_inside: bool,
    /// A primary click landed in the viewport.
    pub clicked: bool,
    /// The primary button is dragging.
    pub primary_dragged: bool,
    /// The middle button is dragging.
    pub middle_dragged: bool,
    /// The primary button was released.
    pub primary_released: bool,
    /// An asset from the browser is being dragged.
    pub asset_dragging: bool,
    /// Home was pressed.
    pub home_pressed: bool,
}

/// What the viewport does in that frame.
#[derive(Debug, Clone, Copy, PartialEq, Eq, Structural)]
pub struct ViewportFrameActions {
    /// Paint or erase the tile under the pointer.
    pub paint: bool,
    /// Select the topmost node under the click.
    pub select_topmost: bool,
    /// Move the view with the pointer.
    pub pan: bool,
    /// Drop the dragged asset into the scene under the pointer.
    pub drop_asset: bool,
    /// Give up the asset drag.
    pub cancel_asset_drag: bool,
    /// Back to the default pan and zoom.
    pub reset_view: bool,
}

/// The tile tools paint on a click or a drag inside the viewport, the
/// select tool selects on a click, middle-dragging (or primary-dragging with
/// the pan tool) pans, releasing a dragged asset drops it inside the
/// viewport and cancels the drag outside, and Home resets the view.
pub fn viewport_frame_actions(input: ViewportFrameInput) -> (a: ViewportFrameActions)
    ensures
        a.paint == ((input.tool == EditorTool::TileBrush || input.tool == EditorTool::EraseTile)
            && (input.clicked || (input.primary_dragged && input.drag_inside))),
        a.select_topmost == (input.tool == EditorTool::Select && input.clicked),
        a.pan == (input.middle_dragged || (input.tool == EditorTool::Pan && input.primary_dragged)),
        a.drop_asset == (input.asset_dragging && input.primary_released && input.pointer_inside),
        a.cancel_asset_drag == (input.asset_dragging && input.primary_released
            && !input.pointer_inside),
        a.reset_view == input.home_pressed,
{
    let tile_tool = match input.tool {
        EditorTool::TileBrush | EditorTool::EraseTile => true,
        EditorTool::Select | EditorTool::Pan => false,
    };
    let released_drag = input.asset_dragging && input.primary_released;
    ViewportFrameActions {
        paint: tile_tool && (input.clicked || (input.primary_dragged && input.drag_inside)),
        select_topmost: input.tool == EditorTool::Select && input.clicked,
        pan: input.middle_dragged || (input.tool == EditorTool::Pan && input.primary_dragged),
        drop_asset: released_drag && input.pointer_inside,
        cancel_asset_drag: released_drag && !input.pointer_inside,
        reset_view: input.home_pressed,
    }
}

/// How a primary drag with the select tool starts.
#[derive(Debug, Clone, Copy, PartialEq, Eq, Structural)]
pub enum DragStart {
    /// Resize the selected node from the handle under the pointer.
    Resize,
    /// Select the node of this hit target and move it.
    Move(usize),
    /// Nothing is under the pointer.
    Nothing,
}

/// A drag that starts on a resize handle of the selected node resizes it;
/// otherwise it moves the topmost node under the pointer, if any.
pub fn drag_start(selected: bool, on_resize_handle: bool, topmost: Option<usize>) -> (d: DragStart)
    ensures
        d == (if selected && on_resize_handle {
            DragStart::Resize
        } else {
            match topmost {
                Some(i) => DragStart::Move(i),
                None => DragStart::Nothing,
            }
        }),
{
    if selected && on_resize_handle {
        DragStart::Resize
    } else {
        match topmost {
            Some(i) => DragStart::Move(i),
            None => DragStart::Nothing,
        }
    }
}

/// The status message when a viewport drag ends.
pub fn drag_done_message(resized: bool) -> (m: &'static str)
    ensures
        m@ == (if resized {
            seq!['N', 'o', 'd', 'e', ' ', 'r', 'e', 's', 'i', 'z', 'e', 'd']
        } else {
            seq!['N', 'o', 'd', 'e', ' ', 'm', 'o', 'v', 'e', 'd']
        }),
{
    proof {
        reveal_strlit("Node resized");
        reveal_strlit("Node moved");
    }
    if resized {
        assert("Node resized"@ =~= seq!['N', 'o', 'd', 'e', ' ', 'r', 'e', 's', 'i', 'z', 'e', 'd']);
        "Node resized"
    } else {
        assert("Node moved"@ =~= seq!['N', 'o', 'd', 'e', ' ', 'm', 'o', 'v', 'e', 'd']);
        "Node moved"
    }
}

/// The hit target under the pointer: `hits[i]` says whether target `i`
/// contains the pointer; targets are in draw order, so the last one that
/// does is on top and wins.
pub fn topmost_hit(hits: &Vec<bool>) -> (r: Option<usize>)
    ensures
        match r {
            Some(i) => i < hits.len() && hits@[i as int] && forall|j: int| i < j < hits.len() ==> !hits@[j],
            None => forall|j: int| 0 <= j < hits.len() ==> !hits@[j],
        },
{
    let mut i: usize = hits.len();
    while i > 0
        invariant
            i <= hits.len(),
            forall|j: int| i <= j < hits.len() ==> !hits@[j],
        decreases i,
    {
        if hits[i - 1] {
            return Some(i - 1);
        }
        i = i - 1;
    }
    None
}

/// The hit target of the selected entity: the last target (the one drawn
/// on top) whose entity is `selected`.
pub fn selected_target(target_entities: &Vec<u64>, selected: Option<u64>) -> (r: Option<usize>)
    ensures
        match r {
            Some(i) => selected is Some && i < target_entities.len() && target_entities@[i as int]
                == selected->0 && forall|j: int|
                i < j < target_entities.len() ==> target_entities@[j] != selected->0,
            None => selected is None || forall|j: int|
                0 <= j < target_entities.len() ==> target_entities@[j] != selected->0,
        },
{
    let id = match selected {
        Some(id) => id,
        None => return None,
    };
    let mut i: usize = target_entities.len();
    while i > 0
        invariant
            i <= target_entities.len(),
            selected == Some(id),
            forall|j: int| i <= j < target_entities.len() ==> target_entities@[j] != id,
        decreases i,
    {
        if target_entities[i - 1] == id {
            return Some(i - 1);
        }
        i = i - 1;
    }
    None
}

/// A node as the viewport hit test sees it.
#[derive(Debug, Clone, Copy, PartialEq, Eq, Structural)]
pub struct HitItem {
    pub entity: u64,
    pub has_tilemap: bool,
}

/// The entities of the tilemap targets, in node order.
pub open spec fn tilemap_entities(items: Seq<HitItem>) -> Seq<u64>
    decreases items.len(),
{
    if items.len() == 0 {
        Seq::empty()
    } else if items.last().has_tilemap {
        tilemap_entities(items.drop_last()).push(items.last().entity)
    } else {
        tilemap_entities(items.drop_last())
    }
}

/// The entities of the hit targets in draw order: first one target per
/// tilemap, then one per node, each group in node order.
pub open spec fn hit_order(items: Seq<HitItem>) -> Seq<u64> {
    tilemap_entities(items) + items.map_values(|it: HitItem| it.entity)
}

/// The entities of the viewport hit targets, in draw order.
pub fn hit_target_entities(items: &Vec<HitItem>) -> (r: Vec<u64>)
    ensures
        r@ == hit_order(items@),
{
    let mut r: Vec<u64> = Vec::new();
    let mut i: usize = 0;
    while i < items.len()
        invariant
            i <= items.len(),
            r@ == tilemap_entities(items@.take(i as int)),
        decreases items.len() - i,
    {
        proof {
            let t = items@.take(i as int + 1);
            assert(t.drop_last() =~= items@.take(i as int));
        }
        if items[i].has_tilemap {
            r.push(items[i].entity);
        }
        i = i + 1;
    }
    assert(items@.take(items@.len() as int) =~= items@);
    let ghost tilemaps = r@;
    let mut k: usize = 0;
    while k < items.len()
        invariant
            k <= items.len(),
            r@ == tilemaps + items@.take(k as int).map_values(|it: HitItem| it.entity),
        decreases items.len() - k,
    {
        r.push(items[k].entity);
        k = k + 1;
        assert(r@ =~= tilemaps + items@.take(k as int).map_values(|it: HitItem| it.entity));
    }
    assert(items@.take(items@.len() as int) =~= items@);
    r
}

/// Every tilemap target is drawn below every node target, and the node
/// targets follow the nodes' order: the target of node `i` is at position
/// `t + i`, where `t` is the number of tilemap targets. So where targets
/// overlap, a later node is on top of an earlier one.
pub proof fn law_node_targets_follow_tilemaps_in_node_order(items: Seq<HitItem>)
    ensures
        hit_order(items).len() == tilemap_entities(items).len() + items.len(),
        forall|i: int|
            0 <= i < items.len() ==> #[trigger] hit_order(items)[tilemap_entities(items).len() + i]
                == items[i].entity,
{
    let t = tilemap_entities(items);
    let n = items.map_values(|it: HitItem| it.entity);
    assert forall|i: int| 0 <= i < items.len() implies #[trigger] hit_order(items)[t.len() + i]
        == items[i].entity by {
        assert((t + n)[t.len() + i] == n[i]);
    }
}

/// When the nodes' entities are distinct, the topmost target of a node's
/// entity is its node target, drawn above its tilemap target: no target
/// after the node target belongs to the same entity.
pub proof fn law_node_target_is_topmost_for_its_entity(items: Seq<HitItem>, i: int)
    requires
        0 <= i < items.len(),
        forall|a: int, b: int|
            0 <= a < b < items.len() ==> #[trigger] items[a].entity != #[trigger] items[b].entity,
    ensures
        hit_order(items)[tilemap_entities(items).len() + i] == items[i].entity,
        forall|j: int|
            tilemap_entities(items).len() + i < j < hit_order(items).len() ==> #[trigger] hit_order(
                items,
            )[j] != items[i].entity,
{
    let t = tilemap_entities(items);
    let n = items.map_values(|it: HitItem| it.entity);
    assert((t + n)[t.len() + i] == n[i]);
    assert forall|j: int| t.len() + i < j < hit_order(items).len() implies #[trigger] hit_order(
        items,
    )[j] != items[i].entity by {
        let k = j - t.len();
        assert((t + n)[j] == n[k]);
        assert(items[i].entity != items[k].entity);
    }
}

/// The tilemap node a tile edit goes to: the selected node if it has a
/// tilemap, otherwise the first tilemap node of the scene.
pub fn paint_target(selected: Option<u64>, selected_has_tilemap: bool, first_tilemap: Option<u64>) -> (r: Option<u64>)
    ensures
        r == (if selected is Some && selected_has_tilemap {
            selected
        } else {
            first_tilemap
        }),
{
    match selected {
        Some(id) if selected_has_tilemap => Some(id),
        _ => first_tilemap,
    }
}

/// The node a tile edit goes to: the selected node if it has a tilemap,
/// otherwise the first tilemap node of the scene.
pub open spec fn painted_node(selected: Option<u64>, selected_has_tilemap: bool, first_tilemap: Option<u64>) -> Option<u64> {
    if selected is Some && selected_has_tilemap {
        selected
    } else {
        first_tilemap
    }
}

pub open spec fn no_tilemap_error() -> Seq<char> {
    seq![
        'N', 'o', ' ', 't', 'i', 'l', 'e', 'm', 'a', 'p', ' ', 'n', 'o', 'd', 'e', ' ', 'a', 'v', 'a',
        'i', 'l', 'a', 'b', 'l', 'e'
    ]
}

/// The tilemap node a tile tool paints on, or the error shown when the
/// scene has none: `No tilemap node available`.
pub fn tile_paint_target(selected: Option<u64>, selected_has_tilemap: bool, first_tilemap: Option<u64>) -> (r: Result<u64, String>)
    ensures
        match r {
            Ok(id) => painted_node(selected, selected_has_tilemap, first_tilemap) == Some(id),
            Err(m) => painted_node(selected, selected_has_tilemap, first_tilemap) is None && m@
                == no_tilemap_error(),
        },
{
    match paint_target(selected, selected_has_tilemap, first_tilemap) {
        Some(id) => Ok(id),
        None => {
            proof {
                reveal_strlit("No tilemap node available");
                assert("No tilemap node available"@ =~= no_tilemap_error());
            }
            Err(String::from_str("No tilemap node available"))
        },
    }
}

/// The edit a tile tool makes at cell `(x, y)` of a `width` by `height`
/// map: `None` for no edit (a cell outside the map, or a tool that does not
/// paint), `Some(Some(tile))` to paint the selected tile, `Some(None)` to
/// erase.
pub fn tile_edit(tool: EditorTool, selected_tile: u32, x: u32, y: u32, width: u32, height: u32) -> (r: Option<Option<u32>>)
    ensures
        r == (if x >= width || y >= height {
            None
        } else {
            match tool {
                EditorTool::TileBrush => Some(Some(selected_tile)),
                EditorTool::EraseTile => Some(None),
                _ => None,
            }
        }),
{
    if x >= width || y >= height {
        return None;
    }
    match tool {
        EditorTool::TileBrush => Some(Some(selected_tile)),
        EditorTool::EraseTile => Some(None),
        EditorTool::Select | EditorTool::Pan => None,
    }
}

} // verus!
