use xplane_plugins::commands::{menu_entries, CommandAction};

#[test]
fn commands_round_trip_through_their_refcon() {
    for (index, action) in CommandAction::all().into_iter().enumerate() {
        assert_eq!(action.refcon(), index + 1);
        assert_eq!(CommandAction::from_refcon(action.refcon()), Some(action));
    }
    assert_eq!(CommandAction::from_refcon(0), None);
    assert_eq!(CommandAction::from_refcon(11), None);
}

#[test]
fn commands_are_named_under_the_plugin_prefix() {
    assert_eq!(
        CommandAction::QuickLoadAndPosition.command_name(),
        "PositionAircraftNative/quick_load_and_position"
    );
    assert_eq!(
        CommandAction::ToggleWindow.description(),
        "PositionAircraft Native: Toggle VR/2D panel"
    );
    let mut names: Vec<&str> = CommandAction::all().iter().map(|a| a.short_name()).collect();
    names.sort();
    names.dedup();
    assert_eq!(names.len(), 10);
}

#[test]
fn menu_lists_five_commands() {
    let entries = menu_entries();
    assert_eq!(entries[0], ("Toggle Window", CommandAction::ToggleWindow));
    assert_eq!(entries[4], ("Quick Load + Position", CommandAction::QuickLoadAndPosition));
}
