//! Commands registered by the Position Aircraft plugin: their reference
//! constants, names, descriptions and the plugin menu's entries.
use vstd::prelude::*;
use crate::text::concat;

verus! {

/// A command of the Position Aircraft plugin. Each command is registered with
/// X-Plane under a small integer reference constant, its `refcon`.
#[derive(Copy, Clone, Debug, PartialEq, Eq, Structural)]
pub enum CommandAction {
    ToggleWindow,
    CaptureCurrent,
    PositionLoaded,
    QuickSave,
    QuickLoad,
    QuickLoadAndPosition,
    PreviousPad,
    NextPad,
    PreviousPadAndPosition,
    NextPadAndPosition,
}

/// The reference constant under which a command is registered (1 to 10).
pub open spec fn spec_refcon(action: CommandAction) -> usize {
    match action {
        CommandAction::ToggleWindow => 1,
        CommandAction::CaptureCurrent => 2,
        CommandAction::PositionLoaded => 3,
        CommandAction::QuickSave => 4,
        CommandAction::QuickLoad => 5,
        CommandAction::QuickLoadAndPosition => 6,
        CommandAction::PreviousPad => 7,
        CommandAction::NextPad => 8,
        CommandAction::PreviousPadAndPosition => 9,
        CommandAction::NextPadAndPosition => 10,
    }
}

impl CommandAction {
    /// The reference constant under which this command is registered.
    pub fn refcon(self) -> (r: usize)
        ensures
            r == spec_refcon(self),
    {
        match self {
            CommandAction::ToggleWindow => 1,
            CommandAction::CaptureCurrent => 2,
            CommandAction::PositionLoaded => 3,
            CommandAction::QuickSave => 4,
            CommandAction::QuickLoad => 5,
            CommandAction::QuickLoadAndPosition => 6,
            CommandAction::PreviousPad => 7,
            CommandAction::NextPad => 8,
            CommandAction::PreviousPadAndPosition => 9,
            CommandAction::NextPadAndPosition => 10,
        }
    }

    /// Decodes the reference constant handed back by X-Plane to a command
    /// handler: the command registered under `refcon`, or `None`.
    pub fn from_refcon(refcon: usize) -> (r: Option<CommandAction>)
        ensures
            r is Some <==> 1 <= refcon <= 10,
            r matches Some(action) ==> spec_refcon(action) == refcon,
    {
        match refcon {
            1 => Some(CommandAction::ToggleWindow),
            2 => Some(CommandAction::CaptureCurrent),
            3 => Some(CommandAction::PositionLoaded),
            4 => Some(CommandAction::QuickSave),
            5 => Some(CommandAction::QuickLoad),
            6 => Some(CommandAction::QuickLoadAndPosition),
            7 => Some(CommandAction::PreviousPad),
            8 => Some(CommandAction::NextPad),
            9 => Some(CommandAction::PreviousPadAndPosition),
            10 => Some(CommandAction::NextPadAndPosition),
            _ => None,
        }
    }
}

/// The name under which a command is registered, after the plugin's prefix.
pub open spec fn spec_short_name(action: CommandAction) -> Seq<char> {
    match action {
        CommandAction::ToggleWindow => "toggle_window"@,
        CommandAction::CaptureCurrent => "capture_current"@,
        CommandAction::PositionLoaded => "position_loaded"@,
        CommandAction::QuickSave => "quick_save"@,
        CommandAction::QuickLoad => "quick_load"@,
        CommandAction::QuickLoadAndPosition => "quick_load_and_position"@,
        CommandAction::PreviousPad => "previous_pad"@,
        CommandAction::NextPad => "next_pad"@,
        CommandAction::PreviousPadAndPosition => "previous_pad_and_position"@,
        CommandAction::NextPadAndPosition => "next_pad_and_position"@,
    }
}

/// The description a command is registered with.
pub open spec fn spec_description(action: CommandAction) -> Seq<char> {
    match action {
        CommandAction::ToggleWindow => "PositionAircraft Native: Toggle VR/2D panel"@,
        CommandAction::CaptureCurrent => "PositionAircraft Native: Capture current aircraft data"@,
        CommandAction::PositionLoaded => "PositionAircraft Native: Position using loaded/edited data"@,
        CommandAction::QuickSave => "PositionAircraft Native: Quick-save current aircraft"@,
        CommandAction::QuickLoad => "PositionAircraft Native: Load QuickFile.pad without positioning"@,
        CommandAction::QuickLoadAndPosition => "PositionAircraft Native: Load QuickFile.pad and position"@,
        CommandAction::PreviousPad => "PositionAircraft Native: Select and load previous PAD"@,
        CommandAction::NextPad => "PositionAircraft Native: Select and load next PAD"@,
        CommandAction::PreviousPadAndPosition => "PositionAircraft Native: Load previous PAD and position"@,
        CommandAction::NextPadAndPosition => "PositionAircraft Native: Load next PAD and position"@,
    }
}

/// The command registered with the reference constant `refcon` (1 to 10).
pub open spec fn command_at(refcon: int) -> CommandAction {
    if refcon == 1 {
        CommandAction::ToggleWindow
    } else if refcon == 2 {
        CommandAction::CaptureCurrent
    } else if refcon == 3 {
        CommandAction::PositionLoaded
    } else if refcon == 4 {
        CommandAction::QuickSave
    } else if refcon == 5 {
        CommandAction::QuickLoad
    } else if refcon == 6 {
        CommandAction::QuickLoadAndPosition
    } else if refcon == 7 {
        CommandAction::PreviousPad
    } else if refcon == 8 {
        CommandAction::NextPad
    } else if refcon == 9 {
        CommandAction::PreviousPadAndPosition
    } else {
        CommandAction::NextPadAndPosition
    }
}

impl CommandAction {
    /// Every command, in the order they are registered.
    pub fn all() -> (r: [CommandAction; 10])
        ensures
            forall|i: int| 0 <= i < 10 ==> #[trigger] r@[i] == command_at(i + 1),
    {
        [
            CommandAction::ToggleWindow,
            CommandAction::CaptureCurrent,
            CommandAction::PositionLoaded,
            CommandAction::QuickSave,
            CommandAction::QuickLoad,
            CommandAction::QuickLoadAndPosition,
            CommandAction::PreviousPad,
            CommandAction::NextPad,
            CommandAction::PreviousPadAndPosition,
            CommandAction::NextPadAndPosition,
        ]
    }

    /// The name of the command after the plugin's prefix.
    pub fn short_name(self) -> (r: &'static str)
        ensures
            r@ == spec_short_name(self),
    {
        match self {
            CommandAction::ToggleWindow => "toggle_window",
            CommandAction::CaptureCurrent => "capture_current",
            CommandAction::PositionLoaded => "position_loaded",
            CommandAction::QuickSave => "quick_save",
            CommandAction::QuickLoad => "quick_load",
            CommandAction::QuickLoadAndPosition => "quick_load_and_position",
            CommandAction::PreviousPad => "previous_pad",
            CommandAction::NextPad => "next_pad",
            CommandAction::PreviousPadAndPosition => "previous_pad_and_position",
            CommandAction::NextPadAndPosition => "next_pad_and_position",
        }
    }

    /// The description the command is registered with.
    pub fn description(self) -> (r: &'static str)
        ensures
            r@ == spec_description(self),
    {
        match self {
            CommandAction::ToggleWindow => "PositionAircraft Native: Toggle VR/2D panel",
            CommandAction::CaptureCurrent => "PositionAircraft Native: Capture current aircraft data",
            CommandAction::PositionLoaded => "PositionAircraft Native: Position using loaded/edited data",
            CommandAction::QuickSave => "PositionAircraft Native: Quick-save current aircraft",
            CommandAction::QuickLoad => "PositionAircraft Native: Load QuickFile.pad without positioning",
            CommandAction::QuickLoadAndPosition => "PositionAircraft Native: Load QuickFile.pad and position",
            CommandAction::PreviousPad => "PositionAircraft Native: Select and load previous PAD",
            CommandAction::NextPad => "PositionAircraft Native: Select and load next PAD",
            CommandAction::PreviousPadAndPosition => "PositionAircraft Native: Load previous PAD and position",
            CommandAction::NextPadAndPosition => "PositionAircraft Native: Load next PAD and position",
        }
    }

    /// The full name under which the command is registered.
    pub fn command_name(self) -> (r: String)
        ensures
            r@ == "PositionAircraftNative/"@ + spec_short_name(self),
    {
        concat("PositionAircraftNative/", self.short_name())
    }
}

/// The entries of the plugin menu, each with its caption and the command it
/// runs, in menu order.
pub fn menu_entries() -> (r: [(&'static str, CommandAction); 5])
    ensures
        r@.map_values(|e: (&'static str, CommandAction)| e.0@) == seq![
            "Toggle Window"@,
            "Capture Current"@,
            "Position Loaded"@,
            "Quick Save"@,
            "Quick Load + Position"@,
        ],
        r@.map_values(|e: (&'static str, CommandAction)| e.1) == seq![
            CommandAction::ToggleWindow,
            CommandAction::CaptureCurrent,
            CommandAction::PositionLoaded,
            CommandAction::QuickSave,
            CommandAction::QuickLoadAndPosition,
        ],
{
    let r = [
        ("Toggle Window", CommandAction::ToggleWindow),
        ("Capture Current", CommandAction::CaptureCurrent),
        ("Position Loaded", CommandAction::PositionLoaded),
        ("Quick Save", CommandAction::QuickSave),
        ("Quick Load + Position", CommandAction::QuickLoadAndPosition),
    ];
    assert(r@.map_values(|e: (&'static str, CommandAction)| e.0@) =~= seq![
        "Toggle Window"@,
        "Capture Current"@,
        "Position Loaded"@,
        "Quick Save"@,
        "Quick Load + Position"@,
    ]);
    assert(r@.map_values(|e: (&'static str, CommandAction)| e.1) =~= seq![
        CommandAction::ToggleWindow,
        CommandAction::CaptureCurrent,
        CommandAction::PositionLoaded,
        CommandAction::QuickSave,
        CommandAction::QuickLoadAndPosition,
    ]);
    r
}

/// Decoding the reference constant of a command gives that command back, and
/// distinct commands are registered under distinct constants.
pub proof fn lemma_refcon_round_trip(action: CommandAction, other: CommandAction)
    ensures
        1 <= spec_refcon(action) <= 10,
        spec_refcon(action) == spec_refcon(other) ==> action == other,
        command_at(spec_refcon(action) as int) == action,
{
}

/// Distinct commands are registered under distinct names.
pub proof fn lemma_short_names_distinct(action: CommandAction, other: CommandAction)
    ensures
        spec_short_name(action) == spec_short_name(other) ==> action == other,
{
    reveal_strlit("toggle_window");
    reveal_strlit("capture_current");
    reveal_strlit("position_loaded");
    reveal_strlit("quick_save");
    reveal_strlit("quick_load");
    reveal_strlit("quick_load_and_position");
    reveal_strlit("previous_pad");
    reveal_strlit("next_pad");
    reveal_strlit("previous_pad_and_position");
    reveal_strlit("next_pad_and_position");
    if spec_short_name(action) == spec_short_name(other) && action != other {
        let a = spec_short_name(action);
        let b = spec_short_name(other);
        assert(a.len() == b.len());
        assert(exists|i: int| 0 <= i < a.len() && a[i] != b[i]) by {
            if a.len() == 10 {
                assert(a[6] != b[6]);
            } else {
                assert(a[0] != b[0]);
            }
        }
    }
}

} // verus!
