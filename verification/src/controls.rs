//! Control types of UI Automation elements.

use vstd::prelude::*;

verus! {

/// The kind of control an accessibility element stands for. Each variant has
/// the identifier that UI Automation assigns to it, from 50000 upwards.
#[derive(Clone, Copy, Debug, PartialEq, Eq, Structural)]
pub enum ControlType {
    Button,
    Calendar,
    CheckBox,
    ComboBox,
    Edit,
    Hyperlink,
    Image,
    ListItem,
    List,
    Menu,
    MenuBar,
    MenuItem,
    ProgressBar,
    RadioButton,
    ScrollBar,
    Slider,
    Spinner,
    StatusBar,
    Tab,
    TabItem,
    Text,
    ToolBar,
    ToolTip,
    Tree,
    TreeItem,
    Custom,
    Group,
    Thumb,
    DataGrid,
    DataItem,
    Document,
    SplitButton,
    Window,
    Pane,
    Header,
    HeaderItem,
    Table,
    TitleBar,
    Separator,
    SemanticZoom,
    AppBar,
}

/// The identifier of the first control type, `Button`.
pub const FIRST_CONTROL_TYPE_ID: i32 = 50000;

/// The identifier of the last control type, `AppBar`.
pub const LAST_CONTROL_TYPE_ID: i32 = 50040;

impl ControlType {
    /// The position of the control type in the list of control types, `Button`
    /// being 0 and `AppBar` 40.
    pub open spec fn ordinal(self) -> int {
        match self {
            ControlType::Button => 0,
            ControlType::Calendar => 1,
            ControlType::CheckBox => 2,
            ControlType::ComboBox => 3,
            ControlType::Edit => 4,
            ControlType::Hyperlink => 5,
            ControlType::Image => 6,
            ControlType::ListItem => 7,
            ControlType::List => 8,
            ControlType::Menu => 9,
            ControlType::MenuBar => 10,
            ControlType::MenuItem => 11,
            ControlType::ProgressBar => 12,
            ControlType::RadioButton => 13,
            ControlType::ScrollBar => 14,
            ControlType::Slider => 15,
            ControlType::Spinner => 16,
            ControlType::StatusBar => 17,
            ControlType::Tab => 18,
            ControlType::TabItem => 19,
            ControlType::Text => 20,
            ControlType::ToolBar => 21,
            ControlType::ToolTip => 22,
            ControlType::Tree => 23,
            ControlType::TreeItem => 24,
            ControlType::Custom => 25,
            ControlType::Group => 26,
            ControlType::Thumb => 27,
            ControlType::DataGrid => 28,
            ControlType::DataItem => 29,
            ControlType::Document => 30,
            ControlType::SplitButton => 31,
            ControlType::Window => 32,
            ControlType::Pane => 33,
            ControlType::Header => 34,
            ControlType::HeaderItem => 35,
            ControlType::Table => 36,
            ControlType::TitleBar => 37,
            ControlType::Separator => 38,
            ControlType::SemanticZoom => 39,
            ControlType::AppBar => 40,
        }
    }

    /// The identifier that UI Automation gives the control type.
    pub open spec fn spec_id(self) -> int {
        FIRST_CONTROL_TYPE_ID + self.ordinal()
    }

    /// The identifier that UI Automation gives the control type: 50000 for
    /// `Button`, 50004 for `Edit`, up to 50040 for `AppBar`.
    pub fn id(self) -> (id: i32)
        ensures
            id == self.spec_id(),
            FIRST_CONTROL_TYPE_ID <= id <= LAST_CONTROL_TYPE_ID,
    {
        match self {
            ControlType::Button => 50000,
            ControlType::Calendar => 50001,
            ControlType::CheckBox => 50002,
            ControlType::ComboBox => 50003,
            ControlType::Edit => 50004,
            ControlType::Hyperlink => 50005,
            ControlType::Image => 50006,
            ControlType::ListItem => 50007,
            ControlType::List => 50008,
            ControlType::Menu => 50009,
            ControlType::MenuBar => 50010,
            ControlType::MenuItem => 50011,
            ControlType::ProgressBar => 50012,
            ControlType::RadioButton => 50013,
            ControlType::ScrollBar => 50014,
            ControlType::Slider => 50015,
            ControlType::Spinner => 50016,
            ControlType::StatusBar => 50017,
            ControlType::Tab => 50018,
            ControlType::TabItem => 50019,
            ControlType::Text => 50020,
            ControlType::ToolBar => 50021,
            ControlType::ToolTip => 50022,
            ControlType::Tree => 50023,
            ControlType::TreeItem => 50024,
            ControlType::Custom => 50025,
            ControlType::Group => 50026,
            ControlType::Thumb => 50027,
            ControlType::DataGrid => 50028,
            ControlType::DataItem => 50029,
            ControlType::Document => 50030,
            ControlType::SplitButton => 50031,
            ControlType::Window => 50032,
            ControlType::Pane => 50033,
            ControlType::Header => 50034,
            ControlType::HeaderItem => 50035,
            ControlType::Table => 50036,
            ControlType::TitleBar => 50037,
            ControlType::Separator => 50038,
            ControlType::SemanticZoom => 50039,
            ControlType::AppBar => 50040,
        }
    }

    /// The control type with the given identifier: `Some` exactly for the
    /// identifiers from 50000 to 50040, and then the one control type whose
    /// `id` is the identifier.
    pub fn from_id(id: i32) -> (kind: Option<ControlType>)
        ensures
            kind is Some <==> FIRST_CONTROL_TYPE_ID <= id <= LAST_CONTROL_TYPE_ID,
            kind matches Some(k) ==> k.spec_id() == id,
    {
        match id {
            50000 => Some(ControlType::Button),
            50001 => Some(ControlType::Calendar),
            50002 => Some(ControlType::CheckBox),
            50003 => Some(ControlType::ComboBox),
            50004 => Some(ControlType::Edit),
            50005 => Some(ControlType::Hyperlink),
            50006 => Some(ControlType::Image),
            50007 => Some(ControlType::ListItem),
            50008 => Some(ControlType::List),
            50009 => Some(ControlType::Menu),
            50010 => Some(ControlType::MenuBar),
            50011 => Some(ControlType::MenuItem),
            50012 => Some(ControlType::ProgressBar),
            50013 => Some(ControlType::RadioButton),
            50014 => Some(ControlType::ScrollBar),
            50015 => Some(ControlType::Slider),
            50016 => Some(ControlType::Spinner),
            50017 => Some(ControlType::StatusBar),
            50018 => Some(ControlType::Tab),
            50019 => Some(ControlType::TabItem),
            50020 => Some(ControlType::Text),
            50021 => Some(ControlType::ToolBar),
            50022 => Some(ControlType::ToolTip),
            50023 => Some(ControlType::Tree),
            50024 => Some(ControlType::TreeItem),
            50025 => Some(ControlType::Custom),
            50026 => Some(ControlType::Group),
            50027 => Some(ControlType::Thumb),
            50028 => Some(ControlType::DataGrid),
            50029 => Some(ControlType::DataItem),
            50030 => Some(ControlType::Document),
            50031 => Some(ControlType::SplitButton),
            50032 => Some(ControlType::Window),
            50033 => Some(ControlType::Pane),
            50034 => Some(ControlType::Header),
            50035 => Some(ControlType::HeaderItem),
            50036 => Some(ControlType::Table),
            50037 => Some(ControlType::TitleBar),
            50038 => Some(ControlType::Separator),
            50039 => Some(ControlType::SemanticZoom),
            50040 => Some(ControlType::AppBar),
            _ => None,
        }
    }
}

/// Two control types with the same identifier are the same control type, so
/// `from_id` undoes `id`.
pub proof fn lemma_control_type_id_is_injective(a: ControlType, b: ControlType)
    requires
        a.spec_id() == b.spec_id(),
    ensures
        a == b,
{
}

} // verus!
