//! What the Position Aircraft window shows, as far as it follows from its
//! state: captions, the texts of the PAD picker, the list rows and the
//! fields, which controls are highlighted or enabled, and whether the status
//! reports a failure. Drawing itself is the caller's.
use vstd::prelude::*;
use crate::commands::CommandAction;
use crate::layout::{max_scroll, UiAction, DROPDOWN_ROWS};
use crate::text::{concat, decimal, starts_with, str_starts_with, string_from_chars, usize_to_decimal};

verus! {

/// Whether the status line reports a failure: it starts with "Unable",
/// "No ", "Enter " or "Invalid".
pub open spec fn spec_status_is_error(status: Seq<char>) -> bool {
    starts_with(status, "Unable"@) || starts_with(status, "No "@) || starts_with(status, "Enter "@)
        || starts_with(status, "Invalid"@)
}

/// Whether the status line reports a failure.
pub fn status_is_error(status: &str) -> (r: bool)
    ensures
        r == spec_status_is_error(status@),
{
    str_starts_with(status, "Unable") || str_starts_with(status, "No ") || str_starts_with(status, "Enter ")
        || str_starts_with(status, "Invalid")
}

/// How a button is drawn.
#[derive(Copy, Clone, Debug, PartialEq, Eq, Structural)]
pub enum ButtonTone {
    Standard,
    /// The buttons that move the aircraft or save.
    Primary,
    /// The small buttons of the PAD picker and the autopilot toggle.
    Quiet,
}

/// The fill of a button.
#[derive(Copy, Clone, Debug, PartialEq, Eq, Structural)]
pub enum ButtonFill {
    Selected,
    Primary,
    PrimaryHover,
    Standard,
    StandardHover,
    Quiet,
    QuietHover,
}

/// The fill of a button of `tone`: the selected fill when it is selected,
/// else its tone's fill, lighter while hovered.
pub open spec fn spec_button_fill(tone: ButtonTone, hovered: bool, selected: bool) -> ButtonFill {
    if selected {
        ButtonFill::Selected
    } else {
        match tone {
            ButtonTone::Primary => if hovered { ButtonFill::PrimaryHover } else { ButtonFill::Primary },
            ButtonTone::Standard => if hovered { ButtonFill::StandardHover } else { ButtonFill::Standard },
            ButtonTone::Quiet => if hovered { ButtonFill::QuietHover } else { ButtonFill::Quiet },
        }
    }
}

/// The fill of a button.
pub fn button_fill(tone: ButtonTone, hovered: bool, selected: bool) -> (r: ButtonFill)
    ensures
        r == spec_button_fill(tone, hovered, selected),
{
    if selected {
        ButtonFill::Selected
    } else {
        match tone {
            ButtonTone::Primary => if hovered { ButtonFill::PrimaryHover } else { ButtonFill::Primary },
            ButtonTone::Standard => if hovered { ButtonFill::StandardHover } else { ButtonFill::Standard },
            ButtonTone::Quiet => if hovered { ButtonFill::QuietHover } else { ButtonFill::Quiet },
        }
    }
}

/// Whether the control of `action` is hovered.
pub fn is_hovered(hovered: Option<UiAction>, action: UiAction) -> (r: bool)
    ensures
        r == (hovered == Some(action)),
{
    match hovered {
        Some(h) => h == action,
        None => false,
    }
}

/// The tone of the command button of `action`: primary for the commands
/// that move the aircraft, standard for the others.
pub fn command_button_tone(action: CommandAction) -> (r: ButtonTone)
    ensures
        r == if action == CommandAction::PositionLoaded || action == CommandAction::QuickLoadAndPosition {
            ButtonTone::Primary
        } else {
            ButtonTone::Standard
        },
{
    match action {
        CommandAction::PositionLoaded | CommandAction::QuickLoadAndPosition => ButtonTone::Primary,
        _ => ButtonTone::Standard,
    }
}

/// The captions of the four command buttons, left to right.
pub fn command_button_labels() -> (r: [&'static str; 4])
    ensures
        r@.map_values(|s: &'static str| s@) == seq![
            "Capture current"@,
            "Position aircraft"@,
            "Quick save"@,
            "Quick load + position"@,
        ],
{
    let r = ["Capture current", "Position aircraft", "Quick save", "Quick load + position"];
    assert(r@.map_values(|s: &'static str| s@) =~= seq![
        "Capture current"@,
        "Position aircraft"@,
        "Quick save"@,
        "Quick load + position"@,
    ]);
    r
}

/// The caption of the autopilot toggle.
pub fn autopilot_caption(use_ap: bool) -> (r: &'static str)
    ensures
        r@ == if use_ap {
            "AUTOPILOT DATA    [ APPLIED ON POSITION ]"@
        } else {
            "AUTOPILOT DATA    [ NOT APPLIED ]"@
        },
{
    if use_ap {
        "AUTOPILOT DATA    [ APPLIED ON POSITION ]"
    } else {
        "AUTOPILOT DATA    [ NOT APPLIED ]"
    }
}

/// The text a field shows: its value, followed by a cursor while edited.
pub fn field_text(value: &str, active: bool) -> (r: String)
    ensures
        r@ == if active { value@ + " |"@ } else { value@ },
{
    if active {
        concat(value, " |")
    } else {
        value.to_owned()
    }
}

/// The position counter of the PAD picker: "selected / count", counting
/// from 1, or "0 / 0" when no PAD is listed.
pub open spec fn spec_selector_counter(selected: nat, count: nat) -> Seq<char> {
    if count == 0 {
        "0 / 0"@
    } else {
        decimal(selected + 1) + " / "@ + decimal(count)
    }
}

/// The position counter of the PAD picker.
pub fn selector_counter(selected: usize, count: usize) -> (r: String)
    requires
        selected < usize::MAX,
    ensures
        r@ == spec_selector_counter(selected as nat, count as nat),
{
    if count == 0 {
        return "0 / 0".to_owned();
    }
    let head = string_from_chars(&usize_to_decimal(selected + 1));
    let head = concat(head.as_str(), " / ");
    concat(head.as_str(), string_from_chars(&usize_to_decimal(count)).as_str())
}

/// The number shown before the PAD at `index` in the list: its position
/// counting from 1, with at least two digits.
pub open spec fn spec_row_number(index: nat) -> Seq<char> {
    if index + 1 < 10 {
        seq!['0'] + decimal(index + 1)
    } else {
        decimal(index + 1)
    }
}

/// The number shown before the PAD at `index` in the list (`{:02}`).
pub fn row_number(index: usize) -> (r: String)
    requires
        index < usize::MAX,
    ensures
        r@ == spec_row_number(index as nat),
{
    let digits = usize_to_decimal(index + 1);
    if index + 1 < 10 {
        let mut padded: Vec<char> = vec!['0'];
        padded.push(digits[0]);
        proof {
            assert(digits@.len() == 1) by {
                assert(decimal((index + 1) as nat) == seq![crate::text::digit_char((index + 1) as nat)]);
            }
            assert(padded@ =~= seq!['0'] + digits@);
        }
        string_from_chars(&padded)
    } else {
        string_from_chars(&digits)
    }
}

/// Whether the drop-down list's arrows can scroll: up while it is scrolled
/// down, down while rows remain below, both only when the list scrolls.
pub open spec fn spec_scroll_arrows(scroll: usize, count: usize) -> (bool, bool) {
    let most = max_scroll(count);
    (most > 0 && scroll > 0, most > 0 && scroll < most)
}

/// Whether the drop-down list's up and down arrows can scroll.
pub fn scroll_arrows(scroll: usize, count: usize) -> (r: (bool, bool))
    ensures
        r == spec_scroll_arrows(scroll, count),
{
    let most = if count > DROPDOWN_ROWS { count - DROPDOWN_ROWS } else { 0 };
    (most > 0 && scroll > 0, most > 0 && scroll < most)
}

/// The rows the open drop-down list shows, from the first visible one: at
/// most `DROPDOWN_ROWS`, none past the end of the list.
pub fn shown_rows(scroll: usize, count: usize) -> (r: usize)
    ensures
        r == crate::layout::visible_rows(count, scroll),
{
    let rest = if count > scroll { count - scroll } else { 0 };
    if rest < DROPDOWN_ROWS { rest } else { DROPDOWN_ROWS }
}

} // verus!
