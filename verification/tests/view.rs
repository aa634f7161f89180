use xplane_plugins::commands::CommandAction;
use xplane_plugins::layout::UiAction;
use xplane_plugins::view::{
    autopilot_caption, button_fill, command_button_labels, command_button_tone, field_text,
    is_hovered, row_number, scroll_arrows, selector_counter, shown_rows, status_is_error,
    ButtonFill, ButtonTone,
};

#[test]
fn failures_are_told_apart_in_the_status() {
    assert!(status_is_error("Unable to write x.pad: disk full"));
    assert!(status_is_error("No PAD files found"));
    assert!(status_is_error("Enter a PAD filename"));
    assert!(status_is_error("Invalid latitude"));
    assert!(!status_is_error("Found 3 PAD files"));
    assert!(!status_is_error("Notes"));
    assert!(!status_is_error(""));
}

#[test]
fn buttons_are_filled_by_tone_hover_and_selection() {
    assert_eq!(button_fill(ButtonTone::Primary, true, false), ButtonFill::PrimaryHover);
    assert_eq!(button_fill(ButtonTone::Quiet, false, false), ButtonFill::Quiet);
    assert_eq!(button_fill(ButtonTone::Standard, true, true), ButtonFill::Selected);
    assert_eq!(command_button_tone(CommandAction::PositionLoaded), ButtonTone::Primary);
    assert_eq!(command_button_tone(CommandAction::QuickSave), ButtonTone::Standard);
    assert!(is_hovered(Some(UiAction::Refresh), UiAction::Refresh));
    assert!(!is_hovered(Some(UiAction::Refresh), UiAction::SaveNamed));
    assert!(!is_hovered(None, UiAction::SaveNamed));
}

#[test]
fn captions_and_texts() {
    assert_eq!(command_button_labels()[3], "Quick load + position");
    assert_eq!(autopilot_caption(false), "AUTOPILOT DATA    [ NOT APPLIED ]");
    assert_eq!(field_text("12.5", true), "12.5 |");
    assert_eq!(field_text("12.5", false), "12.5");
    assert_eq!(selector_counter(0, 0), "0 / 0");
    assert_eq!(selector_counter(4, 12), "5 / 12");
    assert_eq!(row_number(0), "01");
    assert_eq!(row_number(8), "09");
    assert_eq!(row_number(9), "10");
    assert_eq!(row_number(122), "123");
}

#[test]
fn list_arrows_and_rows() {
    assert_eq!(scroll_arrows(0, 5), (false, false));
    assert_eq!(scroll_arrows(0, 20), (false, true));
    assert_eq!(scroll_arrows(5, 20), (true, true));
    assert_eq!(scroll_arrows(12, 20), (true, false));
    assert_eq!(shown_rows(0, 3), 3);
    assert_eq!(shown_rows(10, 20), 8);
    assert_eq!(shown_rows(15, 20), 5);
    assert_eq!(shown_rows(30, 20), 0);
}
