use xplane_plugins::commands::CommandAction;
use xplane_plugins::layout::{
    autopilot_fields, command_button_rects, dropdown_list_rect, dropdown_scrollbar_rects,
    dropdown_thumb_rect, field_rect, global_rect, hit_test, pad_layout, position_fields,
    save_layout, Rect, UiAction, AP_FIELDS_Y, AP_TOGGLE_Y, DROPDOWN_ROWS, DROPDOWN_ROW_HEIGHT,
    PAD_Y, POSITION_Y, SAVE_Y, UI_MARGIN, WINDOW_HEIGHT,
};
use xplane_plugins::pad::Field;

#[test]
fn minimum_width_control_layout_does_not_overlap() {
    let width = 660;
    let pad = pad_layout(width);
    let controls = [
        pad.previous,
        pad.selector,
        pad.next,
        pad.refresh,
        pad.load,
        pad.load_and_position,
    ];
    assert!(controls.iter().all(|rect| rect.width > 0));
    for pair in controls.windows(2) {
        assert!(pair[0].x + pair[0].width <= pair[1].x);
    }
    assert!(pad.load_and_position.x + pad.load_and_position.width <= width - UI_MARGIN);

    let action_buttons = command_button_rects(width);
    for pair in action_buttons.windows(2) {
        assert!(pair[0].0.x + pair[0].0.width <= pair[1].0.x);
    }
}

#[test]
fn dropdown_and_fields_fit_the_minimum_window_height() {
    let dropdown_bottom = PAD_Y + 36 + 2 + DROPDOWN_ROWS as i32 * DROPDOWN_ROW_HEIGHT;
    assert!(dropdown_bottom <= AP_TOGGLE_Y);
    assert!(field_rect(660, AP_FIELDS_Y, autopilot_fields().len() - 1).y + 30 < SAVE_Y);
    let (save_field, _) = save_layout(660);
    assert!(save_field.y + save_field.height < WINDOW_HEIGHT);
}

#[test]
fn dropdown_scrollbar_thumb_tracks_the_visible_page() {
    let selector = pad_layout(660).selector;
    let list = dropdown_list_rect(selector, DROPDOWN_ROWS);
    let (up, track, down) = dropdown_scrollbar_rects(list);
    assert_eq!(up.y + up.height, track.y);
    assert_eq!(track.y + track.height, down.y);
    assert_eq!(down.y + down.height, list.y + list.height);

    let first = dropdown_thumb_rect(track, 0, 46);
    let middle = dropdown_thumb_rect(track, 19, 46);
    let last = dropdown_thumb_rect(track, 38, 46);
    assert_eq!(first.y, track.y);
    assert!(middle.y > first.y);
    assert_eq!(last.y + last.height, track.y + track.height);
}

#[test]
fn pad_row_at_default_width() {
    let pad = pad_layout(720);
    assert_eq!(pad.previous, Rect { x: 14, y: 112, width: 42, height: 36 });
    assert_eq!(pad.selector.x, 64);
    assert_eq!(pad.selector.width, 302);
    assert_eq!(pad.load_and_position.x + pad.load_and_position.width, 706);
}

#[test]
fn command_buttons_share_the_row() {
    let buttons = command_button_rects(720);
    assert_eq!(buttons[0].1, CommandAction::CaptureCurrent);
    assert_eq!(buttons[3].1, CommandAction::QuickLoadAndPosition);
    assert_eq!(buttons[0].0.x, 14);
    assert_eq!(buttons[3].0.x + buttons[3].0.width, 706);
}

#[test]
fn fields_fill_two_columns() {
    let left = field_rect(720, POSITION_Y, 0);
    let right = field_rect(720, POSITION_Y, 1);
    let below = field_rect(720, POSITION_Y, 2);
    assert_eq!(left.x, 14);
    assert_eq!(right.x, left.x + left.width + 8);
    assert_eq!(below.x, left.x);
    assert!(below.y > left.y);
    assert_eq!(position_fields()[0].0, Field::Latitude);
    assert_eq!(position_fields().len(), 10);
    assert_eq!(autopilot_fields()[6].0, Field::ApHeadingRollMode);
}

#[test]
fn empty_list_has_one_row() {
    let selector = pad_layout(660).selector;
    let list = dropdown_list_rect(selector, 0);
    assert_eq!(list.height, DROPDOWN_ROW_HEIGHT);
    assert_eq!(list.y, PAD_Y + selector.height + 2);
}

#[test]
fn global_rect_flips_the_vertical_axis() {
    let rect = Rect { x: 10, y: 20, width: 30, height: 40 };
    assert_eq!(global_rect(100, 500, rect), (110, 480, 140, 440));
}

#[test]
fn hit_test_finds_the_control_under_the_point() {
    let pad = pad_layout(720);
    let x = pad.selector.x + 1;
    let y = pad.selector.y + 1;
    assert_eq!(hit_test(false, 10, 0, x, y, 720), Some(UiAction::ToggleDropdown));
    assert_eq!(hit_test(false, 10, 0, 1, 1, 720), None);
    let (save_field, save_button) = save_layout(720);
    assert_eq!(
        hit_test(false, 10, 0, save_field.x, save_field.y, 720),
        Some(UiAction::Edit(Field::SaveName))
    );
    assert_eq!(
        hit_test(false, 10, 0, save_button.x, save_button.y, 720),
        Some(UiAction::SaveNamed)
    );
    assert_eq!(
        hit_test(true, 10, 0, 1, 640, 720),
        Some(UiAction::CloseDropdown)
    );
    let row_y = PAD_Y + pad.selector.height + 2 + DROPDOWN_ROW_HEIGHT + 1;
    assert_eq!(
        hit_test(true, 10, 1, x, row_y, 720),
        Some(UiAction::SelectPad(2))
    );
}

#[test]
fn every_control_answers_a_click_at_its_corners() {
    for width in [419, 660, 720, 1500] {
        let mut controls: Vec<(Rect, UiAction)> = command_button_rects(width)
            .iter()
            .map(|(rect, action)| (*rect, UiAction::Command(*action)))
            .collect();
        let pad = pad_layout(width);
        controls.push((pad.previous, UiAction::Command(CommandAction::PreviousPad)));
        controls.push((pad.selector, UiAction::ToggleDropdown));
        controls.push((pad.next, UiAction::Command(CommandAction::NextPad)));
        controls.push((pad.refresh, UiAction::Refresh));
        controls.push((pad.load, UiAction::LoadSelected(false)));
        controls.push((pad.load_and_position, UiAction::LoadSelected(true)));
        for (index, (field, _)) in position_fields().iter().enumerate() {
            controls.push((field_rect(width, POSITION_Y, index), UiAction::Edit(*field)));
        }
        for (index, (field, _)) in autopilot_fields().iter().enumerate() {
            controls.push((field_rect(width, AP_FIELDS_Y, index), UiAction::Edit(*field)));
        }
        let (save_field, save_button) = save_layout(width);
        controls.push((save_field, UiAction::Edit(Field::SaveName)));
        controls.push((save_button, UiAction::SaveNamed));
        assert_eq!(controls.len(), 29);
        for (rect, action) in controls {
            for (x, y) in [
                (rect.x, rect.y),
                (rect.x + rect.width - 1, rect.y),
                (rect.x, rect.y + rect.height - 1),
                (rect.x + rect.width - 1, rect.y + rect.height - 1),
            ] {
                assert_eq!(hit_test(false, 10, 0, x, y, width), Some(action));
            }
        }
        assert_eq!(
            hit_test(false, 10, 0, UI_MARGIN + 1, AP_TOGGLE_Y + 1, width),
            Some(UiAction::ToggleAp)
        );
    }
}

#[test]
fn a_short_thumb_track_is_filled_while_every_row_shows() {
    let track = Rect { x: 100, y: 50, width: 22, height: 10 };
    let thumb = dropdown_thumb_rect(track, 0, 8);
    assert_eq!(thumb, Rect { x: 105, y: 50, width: 12, height: 10 });
    let flat = Rect { x: 100, y: 50, width: 22, height: 0 };
    assert_eq!(dropdown_thumb_rect(flat, 3, 40), flat);
}
