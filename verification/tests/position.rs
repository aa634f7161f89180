use xplane_plugins::commands::CommandAction;
use xplane_plugins::layout::{pad_layout, UiAction};
use xplane_plugins::pad::{Field, Form};
use xplane_plugins::position::{
    field_label, pad_save_name, FocusChange, PendingReapply, PluginState, UiFollowUp,
};

fn form(save_name: &str) -> Form {
    let mut values: Vec<String> = (0..17).map(|i| i.to_string()).collect();
    values.push(save_name.to_owned());
    Form::from_values(values, false).unwrap()
}

fn names(list: &[&str]) -> Vec<String> {
    list.iter().map(|name| name.to_string()).collect()
}

#[test]
fn new_window_is_ready_and_empty() {
    let state = PluginState::new(form("MyPosition"));
    assert_eq!(state.status, "Ready");
    assert!(state.pads.is_empty());
    assert_eq!(state.selected_index, 0);
    assert!(state.pending.is_none());
    assert_eq!(state.selected_name(), None);
}

#[test]
fn refresh_lists_pad_files_sorted_without_case_and_selects_quick_file() {
    let mut state = PluginState::new(form("x"));
    state.refresh_pads(Ok(names(&[
        "b.PAD",
        "a.pad",
        "notes.txt",
        "Zed.pad",
        "QuickFile.pad",
        "A.pad",
        "pad",
    ])));
    assert_eq!(
        state.pads,
        names(&["a.pad", "A.pad", "b.PAD", "QuickFile.pad", "Zed.pad"])
    );
    assert_eq!(state.selected_index, 3);
    assert_eq!(state.status, "Found 5 PAD files");
    assert_eq!(state.selected_name(), Some("QuickFile.pad"));
}

#[test]
fn refresh_keeps_the_selected_pad_and_reports_failures() {
    let mut state = PluginState::new(form("x"));
    state.refresh_pads(Ok(names(&["c.pad", "b.pad", "a.pad"])));
    assert_eq!(state.selected_index, 0);
    state.select_pad(1);
    assert_eq!(state.status, "Selected b.pad");
    state.refresh_pads(Ok(names(&["c.pad", "b.pad", "0.pad", "a.pad"])));
    assert_eq!(state.selected_name(), Some("b.pad"));
    assert_eq!(state.selected_index, 2);
    state.refresh_pads(Err("permission denied".to_owned()));
    assert!(state.pads.is_empty());
    assert_eq!(state.selected_index, 0);
    assert_eq!(state.status, "Unable to read PAD directory: permission denied");
    state.refresh_pads(Ok(names(&["a.pad"])));
    assert_eq!(state.status, "Unable to read PAD directory: permission denied");
    assert_eq!(state.pads, names(&["a.pad"]));
}

#[test]
fn dropdown_scroll_stays_within_the_list() {
    let mut state = PluginState::new(form("x"));
    let listing: Vec<String> = (0..20).map(|i| format!("{i:02}.pad")).collect();
    state.refresh_pads(Ok(listing));
    assert_eq!(state.dropdown_max_scroll(), 12);
    state.select_pad(10);
    state.open_dropdown();
    assert!(state.dropdown_open);
    assert_eq!(state.dropdown_scroll, 6);
    state.scroll_dropdown(-7);
    assert_eq!(state.dropdown_scroll, 0);
    state.scroll_dropdown(100);
    assert_eq!(state.dropdown_scroll, 12);
    state.select_pad(19);
    state.open_dropdown();
    assert_eq!(state.dropdown_scroll, 12);
    state.refresh_pads(Ok(names(&["a.pad"])));
    assert_eq!(state.dropdown_scroll, 0);
}

#[test]
fn selecting_past_the_list_only_closes_it() {
    let mut state = PluginState::new(form("x"));
    state.refresh_pads(Ok(names(&["a.pad", "b.pad"])));
    state.dropdown_open = true;
    state.select_pad(5);
    assert!(!state.dropdown_open);
    assert_eq!(state.selected_index, 0);
    assert_eq!(state.status, "Found 2 PAD files");
}

#[test]
fn relative_selection_wraps_round_the_list() {
    let mut state = PluginState::new(form("x"));
    assert_eq!(state.select_relative(1, None), None);
    assert_eq!(state.status, "No PAD files found");
    let picked = state.select_relative(-1, Some(Ok(names(&["a.pad", "b.pad", "c.pad"]))));
    assert_eq!(picked.as_deref(), Some("c.pad"));
    assert_eq!(state.selected_index, 2);
    assert_eq!(state.status, "Found 3 PAD files");
    assert_eq!(state.select_relative(1, None).as_deref(), Some("a.pad"));
    assert_eq!(state.select_relative(1, None).as_deref(), Some("b.pad"));
    assert_eq!(state.select_relative(-1, None).as_deref(), Some("a.pad"));
}

#[test]
fn loading_and_saving_report_in_the_status() {
    let mut state = PluginState::new(form("My Position"));
    assert_eq!(state.load_target(), None);
    assert_eq!(state.status, "No PAD file is selected");
    state.refresh_pads(Ok(names(&["a.pad", "b.pad"])));
    assert_eq!(state.load_target().as_deref(), Some("a.pad"));
    assert!(state.finish_load("a.pad", Ok(form("a"))));
    assert_eq!(state.status, "Loaded a.pad");
    assert_eq!(state.form.value(Field::SaveName), "a");
    assert!(!state.finish_load("b.pad", Err("bad file".to_owned())));
    assert_eq!(state.status, "bad file");
    assert_eq!(state.form.value(Field::SaveName), "a");

    let mut state = PluginState::new(form("My Position"));
    assert_eq!(state.save_target().as_deref(), Some("My Position.pad"));
    state.saved("My Position.pad", Ok(names(&["a.pad", "My Position.pad", "z.pad"])));
    assert_eq!(state.selected_name(), Some("My Position.pad"));
    assert_eq!(state.status, "Saved My Position.pad");
    state.save_failed("x.pad", "disk full");
    assert_eq!(state.status, "Unable to write x.pad: disk full");
    state.quick_saved(Ok(names(&["QuickFile.pad"])));
    assert_eq!(state.status, "Quick-saved current aircraft to QuickFile.pad");

    let mut blank = PluginState::new(form("  "));
    assert_eq!(blank.save_target(), None);
    assert_eq!(blank.status, "Enter a PAD filename");
}

#[test]
fn save_names_drop_the_pad_extension() {
    assert_eq!(pad_save_name("Approach.pad"), "Approach");
    assert_eq!(pad_save_name("APPROACH.PAD"), "APPROACH");
    assert_eq!(pad_save_name("Mixed.Pad"), "Mixed.Pad");
    assert_eq!(pad_save_name(".pad"), "");
    assert_eq!(pad_save_name("pad"), "pad");
}

#[test]
fn typing_edits_the_active_field() {
    let mut state = PluginState::new(form("x"));
    assert_eq!(state.handle_key(b'5', 0, true, false), FocusChange::Keep);
    assert_eq!(state.form.value(Field::Heading), "3");
    state.active_field = Some(Field::Heading);
    state.handle_key(b'5', 0, true, false);
    assert_eq!(state.form.value(Field::Heading), "35");
    state.handle_key(b'x', 0, true, false);
    assert_eq!(state.form.value(Field::Heading), "35");
    state.handle_key(b'8', 0, false, false);
    assert_eq!(state.form.value(Field::Heading), "35");
    state.handle_key(b'e', 0, true, false);
    assert_eq!(state.form.value(Field::Heading), "35e");
    state.handle_key(8, 8, true, false);
    assert_eq!(state.form.value(Field::Heading), "35");
    state.handle_key(0, 127, true, false);
    assert_eq!(state.form.value(Field::Heading), "3");
    assert_eq!(state.handle_key(13, 0, true, false), FocusChange::Release);
    assert_eq!(state.status, "Finished editing Heading");
    assert_eq!(state.active_field, None);

    state.active_field = Some(Field::SaveName);
    state.handle_key(b'Q', 0, true, false);
    assert_eq!(state.form.value(Field::SaveName), "xQ");
    assert_eq!(state.handle_key(27, 27, true, false), FocusChange::Release);
    assert_eq!(state.active_field, None);
    assert_eq!(state.status, "Finished editing Heading");

    state.active_field = Some(Field::SaveName);
    state.handle_key(b'a', 0, true, true);
    assert_eq!(state.active_field, None);
    assert_eq!(state.form.value(Field::SaveName), "xQ");
}

#[test]
fn typing_stops_at_sixty_three_bytes() {
    let mut values: Vec<String> = vec![String::new(); 17];
    values.push("a".repeat(62));
    let mut state = PluginState::new(Form::from_values(values, false).unwrap());
    state.active_field = Some(Field::SaveName);
    state.handle_key(b'b', 0, true, false);
    assert_eq!(state.form.value(Field::SaveName).len(), 63);
    state.handle_key(b'c', 0, true, false);
    assert_eq!(state.form.value(Field::SaveName).len(), 63);
    assert!(state.form.value(Field::SaveName).ends_with('b'));
}

#[test]
fn field_labels_name_the_fields() {
    assert_eq!(field_label(Field::ApHeadingRollMode), "AP bank limit mode");
    assert_eq!(field_label(Field::SaveName), "Save filename");
    assert_eq!(field_label(Field::ApVerticalVelocity), "AP vertical velocity");
}

#[test]
fn clicks_change_the_state_and_leave_the_rest_to_the_caller() {
    let mut state = PluginState::new(form("x"));
    let outcome = state.apply_ui_action(UiAction::ToggleDropdown);
    assert_eq!(outcome.follow_up, UiFollowUp::ListThenOpen);
    assert_eq!(outcome.focus, FocusChange::Release);
    assert!(!state.dropdown_open);
    state.open_with_listing(Ok(names(&["a.pad", "b.pad"])));
    assert!(state.dropdown_open);
    assert_eq!(state.status, "Found 2 PAD files");

    let outcome = state.apply_ui_action(UiAction::SelectPad(1));
    assert_eq!(outcome.follow_up, UiFollowUp::Nothing);
    assert_eq!(state.selected_index, 1);
    assert!(!state.dropdown_open);

    let outcome = state.apply_ui_action(UiAction::Edit(Field::Altitude));
    assert_eq!(outcome.focus, FocusChange::Take);
    assert_eq!(state.active_field, Some(Field::Altitude));
    assert_eq!(state.status, "Editing Altitude; press Enter when done");

    let outcome = state.apply_ui_action(UiAction::Command(CommandAction::NextPad));
    assert_eq!(outcome.follow_up, UiFollowUp::Command(CommandAction::NextPad));
    assert_eq!(state.active_field, None);

    let use_ap = state.form.use_ap();
    state.apply_ui_action(UiAction::ToggleAp);
    assert_eq!(state.form.use_ap(), !use_ap);

    state.dropdown_open = true;
    state.hovered_action = Some(UiAction::Refresh);
    state.apply_ui_action(UiAction::CloseDropdown);
    assert!(!state.dropdown_open);
    assert_eq!(state.hovered_action, None);

    let outcome = state.apply_ui_action(UiAction::LoadSelected(true));
    assert_eq!(outcome.follow_up, UiFollowUp::LoadSelected(true));
    assert_eq!(state.apply_ui_action(UiAction::SaveNamed).follow_up, UiFollowUp::SaveNamed);
    assert_eq!(state.apply_ui_action(UiAction::Refresh).follow_up, UiFollowUp::Refresh);
}

#[test]
fn a_position_is_applied_again_for_six_frames_after_two() {
    let mut state = PluginState::new(form("x"));
    assert!(!state.reapply_step());
    state.start_reapply();
    assert_eq!(
        state.pending,
        Some(PendingReapply { wait_frames: 2, remaining_frames: 6 })
    );
    let applied: Vec<bool> = (0..10).map(|_| state.reapply_step()).collect();
    assert_eq!(
        applied,
        vec![false, false, true, true, true, true, true, true, false, false]
    );
    assert!(state.pending.is_none());
}

#[test]
fn the_mouse_is_kept_only_for_clicks_on_controls() {
    let mut state = PluginState::new(form("x"));
    let pad = pad_layout(720);
    assert_eq!(
        state.mouse_down(pad.selector.x + 2, pad.selector.y + 2, 720),
        Some(UiAction::ToggleDropdown)
    );
    assert!(state.mouse_captured);
    assert!(state.mouse_drag_or_release(false));
    assert!(state.mouse_drag_or_release(true));
    assert!(!state.mouse_drag_or_release(true));
    assert_eq!(state.mouse_down(1, 1, 720), None);
    assert!(!state.mouse_captured);
    assert!(state.cursor_moved(pad.refresh.x + 1, pad.refresh.y + 1, 720));
    assert_eq!(state.hovered_action, Some(UiAction::Refresh));
    assert!(!state.cursor_moved(1, 1, 720));
    assert_eq!(state.hovered_action, None);
}

#[test]
fn the_wheel_scrolls_the_open_list() {
    let mut state = PluginState::new(form("x"));
    let listing: Vec<String> = (0..20).map(|i| format!("{i:02}.pad")).collect();
    state.refresh_pads(Ok(listing));
    assert!(!state.wheel(1, 1, 720, 0, -3));
    assert_eq!(state.dropdown_scroll, 0);
    state.dropdown_open = true;
    assert!(!state.wheel(1, 1, 720, 1, -3));
    assert!(!state.wheel(1, 1, 720, 0, 0));
    assert!(state.wheel(1, 1, 720, 0, -3));
    assert_eq!(state.dropdown_scroll, 3);
    assert!(state.wheel(1, 1, 720, 0, 5));
    assert_eq!(state.dropdown_scroll, 0);
    assert_eq!(state.hovered_action, None);
}

#[test]
fn hiding_the_window_ends_editing() {
    let mut state = PluginState::new(form("x"));
    state.active_field = Some(Field::Roll);
    state.dropdown_open = true;
    state.hovered_action = Some(UiAction::SaveNamed);
    state.window_hidden();
    assert_eq!(state.active_field, None);
    assert!(!state.dropdown_open);
    assert_eq!(state.hovered_action, None);
}
