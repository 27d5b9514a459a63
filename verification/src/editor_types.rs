//! Small editor enumerations: tools, panel tabs, asset categories and dialogs.
use vstd::prelude::*;
use vstd::string::*;

verus! {

/// The active viewport tool.
#[derive(Debug, Clone, Copy, PartialEq, Eq, Structural)]
pub enum EditorTool {
    Select,
    Pan,
    TileBrush,
    EraseTile,
}

pub open spec fn tool_label_text(tool: EditorTool) -> Seq<char> {
    match tool {
        EditorTool::Select => seq!['S', 'e', 'l', 'e', 'c', 't'],
        EditorTool::Pan => seq!['P', 'a', 'n'],
        EditorTool::TileBrush => seq!['T', 'i', 'l', 'e', ' ', 'B', 'r', 'u', 's', 'h'],
        EditorTool::EraseTile => seq!['E', 'r', 'a', 's', 'e'],
    }
}

impl EditorTool {
    /// The tool's name.
    pub fn label(self) -> (r: &'static str)
        ensures
            r@ == tool_label_text(self),
    {
        proof {
            reveal_strlit("Select");
            reveal_strlit("Pan");
            reveal_strlit("Tile Brush");
            reveal_strlit("Erase");
        }
        match self {
            EditorTool::Select => {
                assert("Select"@ =~= tool_label_text(self));
                "Select"
            },
            EditorTool::Pan => {
                assert("Pan"@ =~= tool_label_text(self));
                "Pan"
            },
            EditorTool::TileBrush => {
                assert("Tile Brush"@ =~= tool_label_text(self));
                "Tile Brush"
            },
            EditorTool::EraseTile => {
                assert("Erase"@ =~= tool_label_text(self));
                "Erase"
            },
        }
    }
}

/// The tab shown in the scene panel.
#[derive(Debug, Clone, Copy, PartialEq, Eq, Structural)]
pub enum LeftPanelTab {
    Scene,
    Layers,
    Library,
}

/// The tab shown in the bottom dock.
#[derive(Debug, Clone, Copy, PartialEq, Eq, Structural)]
pub enum BottomDockTab {
    TilePalette,
    Assets,
    Output,
}

/// The list shown in the asset browser.
#[derive(Debug, Clone, Copy, PartialEq, Eq, Structural)]
pub enum AssetBrowserTab {
    Images,
    Broken,
}

/// A category of image assets, judged from the asset path.
#[derive(Debug, Clone, Copy, PartialEq, Eq, Structural)]
pub enum AssetCategory {
    All,
    Sprites,
    Tilemaps,
    Ui,
    Other,
}

pub open spec fn category_label_text(category: AssetCategory) -> Seq<char> {
    match category {
        AssetCategory::All => seq!['A', 'l', 'l'],
        AssetCategory::Sprites => seq!['S', 'p', 'r', 'i', 't', 'e', 's'],
        AssetCategory::Tilemaps => seq!['T', 'i', 'l', 'e', 'm', 'a', 'p', 's'],
        AssetCategory::Ui => seq!['U', 'I'],
        AssetCategory::Other => seq!['O', 't', 'h', 'e', 'r'],
    }
}

impl AssetCategory {
    /// Every category, in the order the asset browser lists them.
    pub const ALL: [AssetCategory; 5] = [
        AssetCategory::All,
        AssetCategory::Sprites,
        AssetCategory::Tilemaps,
        AssetCategory::Ui,
        AssetCategory::Other,
    ];

    /// The category's name.
    pub fn label(self) -> (r: &'static str)
        ensures
            r@ == category_label_text(self),
    {
        proof {
            reveal_strlit("All");
            reveal_strlit("Sprites");
            reveal_strlit("Tilemaps");
            reveal_strlit("UI");
            reveal_strlit("Other");
        }
        match self {
            AssetCategory::All => {
                assert("All"@ =~= category_label_text(self));
                "All"
            },
            AssetCategory::Sprites => {
                assert("Sprites"@ =~= category_label_text(self));
                "Sprites"
            },
            AssetCategory::Tilemaps => {
                assert("Tilemaps"@ =~= category_label_text(self));
                "Tilemaps"
            },
            AssetCategory::Ui => {
                assert("UI"@ =~= category_label_text(self));
                "UI"
            },
            AssetCategory::Other => {
                assert("Other"@ =~= category_label_text(self));
                "Other"
            },
        }
    }
}

/// The project dialog that is open.
#[derive(Debug, Clone, Copy, PartialEq, Eq, Structural)]
pub enum ProjectDialog {
    NewProject,
    OpenProject,
    SaveAs,
    SaveBeforePlay,
}

} // verus!
