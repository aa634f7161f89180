//! Geometry of the Position Aircraft window: the command buttons, the PAD
//! picker row and its drop-down list, the form fields and the save row, all in
//! window-local pixels measured down from the top-left corner.
use vstd::prelude::*;
use crate::arith::{div_i32, fits_i32, rem_i32, tdiv, trem};
use crate::commands::CommandAction;
use crate::pad::Field;

verus! {

pub const UI_MARGIN: i32 = 14;
pub const UI_GAP: i32 = 8;
pub const ACTION_Y: i32 = 44;
pub const PAD_Y: i32 = 112;
pub const POSITION_Y: i32 = 190;
pub const AP_TOGGLE_Y: i32 = 374;
pub const AP_FIELDS_Y: i32 = 416;
pub const SAVE_Y: i32 = 568;
/// Rows shown at once by the PAD drop-down list.
pub const DROPDOWN_ROWS: usize = 8;
pub const DROPDOWN_ROW_HEIGHT: i32 = 28;
pub const DROPDOWN_SCROLLBAR_WIDTH: i32 = 22;
/// Initial width of the window.
pub const WINDOW_WIDTH: i32 = 720;
/// Initial and minimum height of the window.
pub const WINDOW_HEIGHT: i32 = 650;

/// What a click at some point of the window asks for.
#[derive(Copy, Clone, Debug, PartialEq, Eq, Structural)]
pub enum UiAction {
    Command(CommandAction),
    LoadSelected(bool),
    ToggleAp,
    SaveNamed,
    Refresh,
    ToggleDropdown,
    CloseDropdown,
    ScrollDropdown(isize),
    SelectPad(usize),
    Edit(Field),
}

/// An axis-aligned rectangle: its top-left corner and its size.
#[derive(Copy, Clone, Debug, PartialEq, Eq, Structural)]
pub struct Rect {
    pub x: i32,
    pub y: i32,
    pub width: i32,
    pub height: i32,
}

/// Whether the point lies inside the rectangle (left and top edges included).
pub open spec fn spec_contains(r: Rect, x: int, y: int) -> bool {
    x >= r.x && x < r.x + r.width && y >= r.y && y < r.y + r.height
}

/// The sums that `Rect::contains` evaluates, given that it stops at the first
/// failed comparison, stay within `i32`.
pub open spec fn contains_fits(r: Rect, x: int, y: int) -> bool {
    &&& x >= r.x ==> fits_i32(r.x + r.width)
    &&& (x >= r.x && x < r.x + r.width && y >= r.y) ==> fits_i32(r.y + r.height)
}

impl Rect {
    /// Whether the point lies inside the rectangle.
    pub fn contains(self, x: i32, y: i32) -> (r: bool)
        requires
            contains_fits(self, x as int, y as int),
        ensures
            r == spec_contains(self, x as int, y as int),
    {
        x >= self.x && x < self.x + self.width && y >= self.y && y < self.y + self.height
    }
}

/// The rectangles of the PAD picker row, left to right.
#[derive(Copy, Clone, Debug, PartialEq, Eq, Structural)]
pub struct PadLayout {
    pub previous: Rect,
    pub selector: Rect,
    pub next: Rect,
    pub refresh: Rect,
    pub load: Rect,
    pub load_and_position: Rect,
}

/// Width of each of the four command buttons.
pub open spec fn button_width(width: int) -> int {
    tdiv(width - UI_MARGIN * 2 - UI_GAP * 3, 4)
}

/// The four command buttons across the top of the window.
pub open spec fn spec_command_button(width: int, index: int) -> Rect {
    Rect {
        x: (UI_MARGIN + index * (button_width(width) + UI_GAP)) as i32,
        y: ACTION_Y,
        width: button_width(width) as i32,
        height: 40,
    }
}

/// The command of each button, left to right.
pub open spec fn spec_command_button_action(index: int) -> CommandAction {
    if index == 0 {
        CommandAction::CaptureCurrent
    } else if index == 1 {
        CommandAction::PositionLoaded
    } else if index == 2 {
        CommandAction::QuickSave
    } else {
        CommandAction::QuickLoadAndPosition
    }
}

/// The command buttons of a window `width` pixels wide, each with its command.
pub fn command_button_rects(width: i32) -> (r: [(Rect, CommandAction); 4])
    requires
        width >= i32::MIN + 52,
    ensures
        forall|i: int|
            0 <= i < 4 ==> #[trigger] r@[i] == (
            spec_command_button(width as int, i),
            spec_command_button_action(i),
        ),
{
    let button_width: i32 = div_i32(width - UI_MARGIN * 2 - UI_GAP * 3, 4);
    proof {
        crate::arith::lemma_tdiv_magnitude(width - 52, 4);
    }
    assert(-536870912 <= button_width <= 536870912);
    let step: i32 = button_width + UI_GAP;
    let r = [
        (
            Rect { x: UI_MARGIN, y: ACTION_Y, width: button_width, height: 40 },
            CommandAction::CaptureCurrent,
        ),
        (
            Rect { x: UI_MARGIN + step, y: ACTION_Y, width: button_width, height: 40 },
            CommandAction::PositionLoaded,
        ),
        (
            Rect { x: UI_MARGIN + 2 * step, y: ACTION_Y, width: button_width, height: 40 },
            CommandAction::QuickSave,
        ),
        (
            Rect { x: UI_MARGIN + 3 * step, y: ACTION_Y, width: button_width, height: 40 },
            CommandAction::QuickLoadAndPosition,
        ),
    ];
    r
}

/// Width of the PAD selector: what is left of the row once the fixed buttons,
/// the margins and the gaps are taken out.
pub open spec fn selector_width(width: int) -> int {
    width - UI_MARGIN * 2 - UI_GAP * 5 - 42 - 42 - 68 - 72 - 126
}

/// A rectangle of the PAD picker row.
pub open spec fn pad_row_rect(x: int, width: int) -> Rect {
    Rect { x: x as i32, y: PAD_Y, width: width as i32, height: 36 }
}

/// The PAD picker row of a window `width` pixels wide: previous (42), selector
/// (what is left), next (42), refresh (68), load (72) and load-and-position
/// (126), from the left margin, with a gap between each two.
pub open spec fn spec_pad_layout(width: int) -> PadLayout {
    let s = selector_width(width);
    PadLayout {
        previous: pad_row_rect(14, 42),
        selector: pad_row_rect(64, s),
        next: pad_row_rect(72 + s, 42),
        refresh: pad_row_rect(122 + s, 68),
        load: pad_row_rect(198 + s, 72),
        load_and_position: pad_row_rect(278 + s, 126),
    }
}

/// Whether `pad_layout` can lay out a window of this width in `i32` pixels.
pub open spec fn pad_layout_fits(width: int) -> bool {
    width >= i32::MIN + 418
}

/// The PAD picker row of a window `width` pixels wide.
pub fn pad_layout(width: i32) -> (r: PadLayout)
    requires
        pad_layout_fits(width as int),
    ensures
        r == spec_pad_layout(width as int),
{
    let previous_width: i32 = 42;
    let next_width: i32 = 42;
    let refresh_width: i32 = 68;
    let load_width: i32 = 72;
    let load_and_position_width: i32 = 126;
    let selector_width: i32 = width - UI_MARGIN * 2 - UI_GAP * 5 - previous_width - next_width
        - refresh_width - load_width - load_and_position_width;
    let mut x: i32 = UI_MARGIN;
    let previous = Rect { x, y: PAD_Y, width: previous_width, height: 36 };
    x = x + previous_width + UI_GAP;
    let selector = Rect { x, y: PAD_Y, width: selector_width, height: 36 };
    x = x + selector_width + UI_GAP;
    let next = Rect { x, y: PAD_Y, width: next_width, height: 36 };
    x = x + next_width + UI_GAP;
    let refresh = Rect { x, y: PAD_Y, width: refresh_width, height: 36 };
    x = x + refresh_width + UI_GAP;
    let load = Rect { x, y: PAD_Y, width: load_width, height: 36 };
    x = x + load_width + UI_GAP;
    let load_and_position = Rect { x, y: PAD_Y, width: load_and_position_width, height: 36 };
    PadLayout { previous, selector, next, refresh, load, load_and_position }
}

/// The rows of the drop-down list: at least one, as `i32`.
pub open spec fn list_rows(row_count: usize) -> int {
    (if row_count > 1 { row_count } else { 1 }) as i32 as int
}

/// The drop-down list under the selector, `row_count` rows high (one at least).
pub open spec fn spec_dropdown_list_rect(selector: Rect, row_count: usize) -> Rect {
    Rect {
        x: selector.x,
        y: (PAD_Y + selector.height + 2) as i32,
        width: selector.width,
        height: (list_rows(row_count) * DROPDOWN_ROW_HEIGHT) as i32,
    }
}

/// The drop-down list under the selector.
pub fn dropdown_list_rect(selector: Rect, row_count: usize) -> (r: Rect)
    requires
        fits_i32(PAD_Y + selector.height + 2),
        fits_i32(list_rows(row_count) * DROPDOWN_ROW_HEIGHT),
    ensures
        r == spec_dropdown_list_rect(selector, row_count),
{
    let rows: usize = if row_count > 1 { row_count } else { 1 };
    let rows_i32: i32 = rows as i32;
    Rect {
        x: selector.x,
        y: PAD_Y + selector.height + 2,
        width: selector.width,
        height: rows_i32 * DROPDOWN_ROW_HEIGHT,
    }
}

/// The scroll bar along the right edge of the list: the up button at the top,
/// the down button at the bottom, and the track between them (never of
/// negative height).
pub open spec fn spec_dropdown_scrollbar_rects(list: Rect) -> (Rect, Rect, Rect) {
    let column_x = list.x + list.width - DROPDOWN_SCROLLBAR_WIDTH;
    let track_height = list.height - 2 * DROPDOWN_ROW_HEIGHT;
    (
        Rect {
            x: column_x as i32,
            y: list.y,
            width: DROPDOWN_SCROLLBAR_WIDTH,
            height: DROPDOWN_ROW_HEIGHT,
        },
        Rect {
            x: column_x as i32,
            y: (list.y + DROPDOWN_ROW_HEIGHT) as i32,
            width: DROPDOWN_SCROLLBAR_WIDTH,
            height: (if track_height > 0 { track_height } else { 0 }) as i32,
        },
        Rect {
            x: column_x as i32,
            y: (list.y + list.height - DROPDOWN_ROW_HEIGHT) as i32,
            width: DROPDOWN_SCROLLBAR_WIDTH,
            height: DROPDOWN_ROW_HEIGHT,
        },
    )
}

/// Whether the scroll bar of `list` can be computed in `i32` pixels.
pub open spec fn scrollbar_fits(list: Rect) -> bool {
    &&& fits_i32(list.x + list.width)
    &&& fits_i32(list.x + list.width - DROPDOWN_SCROLLBAR_WIDTH)
    &&& fits_i32(list.y + list.height)
    &&& fits_i32(list.y + list.height - DROPDOWN_ROW_HEIGHT)
    &&& fits_i32(list.y + DROPDOWN_ROW_HEIGHT)
    &&& fits_i32(list.height - DROPDOWN_ROW_HEIGHT)
    &&& fits_i32(list.height - 2 * DROPDOWN_ROW_HEIGHT)
}

/// The up button, the track and the down button of the list's scroll bar.
pub fn dropdown_scrollbar_rects(list: Rect) -> (r: (Rect, Rect, Rect))
    requires
        scrollbar_fits(list),
    ensures
        r == spec_dropdown_scrollbar_rects(list),
{
    let column_x: i32 = list.x + list.width - DROPDOWN_SCROLLBAR_WIDTH;
    let up = Rect {
        x: column_x,
        y: list.y,
        width: DROPDOWN_SCROLLBAR_WIDTH,
        height: DROPDOWN_ROW_HEIGHT,
    };
    let down = Rect {
        x: column_x,
        y: list.y + list.height - DROPDOWN_ROW_HEIGHT,
        width: DROPDOWN_SCROLLBAR_WIDTH,
        height: DROPDOWN_ROW_HEIGHT,
    };
    let remaining: i32 = list.height - up.height - down.height;
    let track = Rect {
        x: column_x,
        y: up.y + up.height,
        width: DROPDOWN_SCROLLBAR_WIDTH,
        height: if remaining > 0 { remaining } else { 0 },
    };
    (up, track, down)
}

/// The largest first visible row of a list of `total_rows` rows.
pub open spec fn max_scroll(total_rows: usize) -> usize {
    if total_rows > DROPDOWN_ROWS { (total_rows - DROPDOWN_ROWS) as usize } else { 0 }
}

/// Height of the scroll-bar thumb: the whole track when every row is visible,
/// else the visible share of the track, but no less than 18 pixels.
pub open spec fn thumb_height(track: Rect, total_rows: usize) -> int {
    if total_rows <= DROPDOWN_ROWS {
        track.height as int
    } else {
        let share = tdiv(track.height * DROPDOWN_ROWS, total_rows as i32 as int);
        if share < 18 {
            18
        } else if share > track.height {
            track.height as int
        } else {
            share
        }
    }
}

/// How far down the track the thumb stands: the scrolled share of its travel.
pub open spec fn thumb_offset(track: Rect, scroll: usize, total_rows: usize) -> int {
    let m = max_scroll(total_rows);
    if m == 0 {
        0
    } else {
        let s = if scroll < m { scroll } else { m };
        tdiv((track.height - thumb_height(track, total_rows)) * (s as i32), m as i32 as int)
    }
}

/// The scroll-bar thumb: the whole track if it has no height, else the thumb
/// inset by 5 pixels on each side, at its offset down the track.
pub open spec fn spec_dropdown_thumb_rect(track: Rect, scroll: usize, total_rows: usize) -> Rect {
    if track.height <= 0 {
        track
    } else {
        Rect {
            x: (track.x + 5) as i32,
            y: (track.y + thumb_offset(track, scroll, total_rows)) as i32,
            width: (track.width - 10) as i32,
            height: thumb_height(track, total_rows) as i32,
        }
    }
}

/// Whether `dropdown_thumb_rect` computes the thumb without overflow, division
/// by zero, or an empty clamp range (a track shorter than 18 pixels with more
/// rows than fit).
pub open spec fn thumb_fits(track: Rect, scroll: usize, total_rows: usize) -> bool {
    track.height > 0 ==> {
        let m = max_scroll(total_rows);
        let s = if scroll < m { scroll } else { m };
        &&& total_rows > DROPDOWN_ROWS ==> {
            &&& fits_i32(track.height * DROPDOWN_ROWS)
            &&& total_rows as i32 != 0
            &&& track.height >= 18
        }
        &&& m != 0 ==> {
            &&& fits_i32((track.height - thumb_height(track, total_rows)) * (s as i32))
            &&& m as i32 != 0
            &&& !((track.height - thumb_height(track, total_rows)) * (s as i32) == i32::MIN
                && m as i32 == -1)
        }
        &&& fits_i32(track.x + 5)
        &&& fits_i32(track.width - 10)
        &&& fits_i32(track.y + thumb_offset(track, scroll, total_rows))
    }
}

/// The scroll-bar thumb for a list of `total_rows` rows scrolled to `scroll`.
pub fn dropdown_thumb_rect(track: Rect, scroll: usize, total_rows: usize) -> (r: Rect)
    requires
        thumb_fits(track, scroll, total_rows),
    ensures
        r == spec_dropdown_thumb_rect(track, scroll, total_rows),
{
    if track.height <= 0 {
        return track;
    }
    let max_scroll: usize = if total_rows > DROPDOWN_ROWS { total_rows - DROPDOWN_ROWS } else { 0 };
    let thumb_height: i32 = if total_rows <= DROPDOWN_ROWS {
        track.height
    } else {
        let rows: i32 = DROPDOWN_ROWS as i32;
        let share: i32 = div_i32(track.height * rows, total_rows as i32);
        if share < 18 {
            18
        } else if share > track.height {
            track.height
        } else {
            share
        }
    };
    let travel: i32 = track.height - thumb_height;
    let offset: i32 = if max_scroll == 0 {
        0
    } else {
        let shown: usize = if scroll < max_scroll { scroll } else { max_scroll };
        div_i32(travel * (shown as i32), max_scroll as i32)
    };
    Rect { x: track.x + 5, y: track.y + offset, width: track.width - 10, height: thumb_height }
}

/// Width of each of the two columns of form fields.
pub open spec fn column_width(width: int) -> int {
    tdiv(width - UI_MARGIN * 2 - UI_GAP, 2)
}

/// Form field `index`, in two columns from `top`, 34 pixels per row.
pub open spec fn spec_field_rect(width: int, top: int, index: usize) -> Rect {
    let i = index as i32 as int;
    Rect {
        x: (UI_MARGIN + trem(i, 2) * (column_width(width) + UI_GAP)) as i32,
        y: (top + tdiv(i, 2) * 34) as i32,
        width: column_width(width) as i32,
        height: 30,
    }
}

/// Whether `field_rect` computes this field in `i32` pixels.
pub open spec fn field_rect_fits(width: int, top: int, index: usize) -> bool {
    let i = index as i32 as int;
    &&& width >= i32::MIN + 36
    &&& fits_i32(column_width(width) + UI_GAP)
    &&& fits_i32(trem(i, 2) * (column_width(width) + UI_GAP))
    &&& fits_i32(UI_MARGIN + trem(i, 2) * (column_width(width) + UI_GAP))
    &&& fits_i32(tdiv(i, 2) * 34)
    &&& fits_i32(top + tdiv(i, 2) * 34)
}

/// Form field `index` of a window `width` pixels wide, rows starting at `top`.
pub fn field_rect(width: i32, top: i32, index: usize) -> (r: Rect)
    requires
        field_rect_fits(width as int, top as int, index),
    ensures
        r == spec_field_rect(width as int, top as int, index),
{
    let column_width: i32 = div_i32(width - UI_MARGIN * 2 - UI_GAP, 2);
    let i: i32 = index as i32;
    let column: i32 = rem_i32(i, 2);
    let row: i32 = div_i32(i, 2);
    Rect {
        x: UI_MARGIN + column * (column_width + UI_GAP),
        y: top + row * 34,
        width: column_width,
        height: 30,
    }
}

/// The position fields of the form with their captions, in display order.
pub fn position_fields() -> (r: [(Field, &'static str); 10])
    ensures
        r@.map_values(|p: (Field, &'static str)| p.0) == seq![
            Field::Latitude,
            Field::Longitude,
            Field::Altitude,
            Field::Heading,
            Field::Pitch,
            Field::Roll,
            Field::Speed,
            Field::Throttle,
            Field::Flaps,
            Field::Gear,
        ],
        r@.map_values(|p: (Field, &'static str)| p.1@) == seq![
            "Latitude"@,
            "Longitude"@,
            "Altitude / ft"@,
            "Heading / mag"@,
            "Pitch / deg"@,
            "Roll / deg"@,
            "Speed / KIAS"@,
            "Throttle / 0..1"@,
            "Flaps / 0..1"@,
            "Gear / 0 or 1"@,
        ],
{
    let r = [
        (Field::Latitude, "Latitude"),
        (Field::Longitude, "Longitude"),
        (Field::Altitude, "Altitude / ft"),
        (Field::Heading, "Heading / mag"),
        (Field::Pitch, "Pitch / deg"),
        (Field::Roll, "Roll / deg"),
        (Field::Speed, "Speed / KIAS"),
        (Field::Throttle, "Throttle / 0..1"),
        (Field::Flaps, "Flaps / 0..1"),
        (Field::Gear, "Gear / 0 or 1"),
    ];
    assert(r@.map_values(|p: (Field, &'static str)| p.0) =~= seq![
        Field::Latitude,
        Field::Longitude,
        Field::Altitude,
        Field::Heading,
        Field::Pitch,
        Field::Roll,
        Field::Speed,
        Field::Throttle,
        Field::Flaps,
        Field::Gear,
    ]);
    assert(r@.map_values(|p: (Field, &'static str)| p.1@) =~= seq![
        "Latitude"@,
        "Longitude"@,
        "Altitude / ft"@,
        "Heading / mag"@,
        "Pitch / deg"@,
        "Roll / deg"@,
        "Speed / KIAS"@,
        "Throttle / 0..1"@,
        "Flaps / 0..1"@,
        "Gear / 0 or 1"@,
    ]);
    r
}

/// The field shown at position `i` of the position fields.
pub open spec fn position_field_at(i: int) -> Field {
    if i == 0 { Field::Latitude }
    else if i == 1 { Field::Longitude }
    else if i == 2 { Field::Altitude }
    else if i == 3 { Field::Heading }
    else if i == 4 { Field::Pitch }
    else if i == 5 { Field::Roll }
    else if i == 6 { Field::Speed }
    else if i == 7 { Field::Throttle }
    else if i == 8 { Field::Flaps }
    else { Field::Gear }
}

/// The field shown at position `i` of the autopilot fields.
pub open spec fn autopilot_field_at(i: int) -> Field {
    if i == 0 { Field::ApMode }
    else if i == 1 { Field::ApState }
    else if i == 2 { Field::ApAltitude }
    else if i == 3 { Field::ApVerticalVelocity }
    else if i == 4 { Field::ApHeading }
    else if i == 5 { Field::ApAirspeed }
    else { Field::ApHeadingRollMode }
}

/// The autopilot fields of the form with their captions, in display order.
pub fn autopilot_fields() -> (r: [(Field, &'static str); 7])
    ensures
        r@.map_values(|p: (Field, &'static str)| p.0) == Seq::new(7, |i: int| autopilot_field_at(i)),
        r@.map_values(|p: (Field, &'static str)| p.1@) == seq![
            "AP mode"@,
            "AP state flags"@,
            "AP altitude / ft"@,
            "AP vertical / fpm"@,
            "AP heading / mag"@,
            "AP airspeed / kt"@,
            "AP bank limit mode"@,
        ],
{
    let r = [
        (Field::ApMode, "AP mode"),
        (Field::ApState, "AP state flags"),
        (Field::ApAltitude, "AP altitude / ft"),
        (Field::ApVerticalVelocity, "AP vertical / fpm"),
        (Field::ApHeading, "AP heading / mag"),
        (Field::ApAirspeed, "AP airspeed / kt"),
        (Field::ApHeadingRollMode, "AP bank limit mode"),
    ];
    assert(r@.map_values(|p: (Field, &'static str)| p.0) =~= Seq::new(7, |i: int| autopilot_field_at(i)));
    assert(r@.map_values(|p: (Field, &'static str)| p.1@) =~= seq![
        "AP mode"@,
        "AP state flags"@,
        "AP altitude / ft"@,
        "AP vertical / fpm"@,
        "AP heading / mag"@,
        "AP airspeed / kt"@,
        "AP bank limit mode"@,
    ]);
    r
}

/// The save row: the file-name field, then the 120-pixel save button against
/// the right margin.
pub open spec fn spec_save_layout(width: int) -> (Rect, Rect) {
    (
        Rect {
            x: UI_MARGIN,
            y: SAVE_Y,
            width: (width - UI_MARGIN * 2 - UI_GAP - 120) as i32,
            height: 36,
        },
        Rect { x: (width - UI_MARGIN - 120) as i32, y: SAVE_Y, width: 120, height: 36 },
    )
}

/// The save row of a window `width` pixels wide.
pub fn save_layout(width: i32) -> (r: (Rect, Rect))
    requires
        width >= i32::MIN + 156,
    ensures
        r == spec_save_layout(width as int),
{
    let button_width: i32 = 120;
    (
        Rect {
            x: UI_MARGIN,
            y: SAVE_Y,
            width: width - UI_MARGIN * 2 - UI_GAP - button_width,
            height: 36,
        },
        Rect { x: width - UI_MARGIN - button_width, y: SAVE_Y, width: button_width, height: 36 },
    )
}

/// A window-local rectangle in global screen coordinates (y grows upward):
/// left, top, right, bottom.
pub open spec fn spec_global_rect(left: int, top: int, rect: Rect) -> (int, int, int, int) {
    (left + rect.x, top - rect.y, left + rect.x + rect.width, top - rect.y - rect.height)
}

/// The window-local rectangle in global screen coordinates, for a window
/// whose top-left corner is at (`left`, `top`).
pub fn global_rect(left: i32, top: i32, rect: Rect) -> (r: (i32, i32, i32, i32))
    requires
        fits_i32(left + rect.x),
        fits_i32(top - rect.y),
        fits_i32(left + rect.x + rect.width),
        fits_i32(top - rect.y - rect.height),
    ensures
        (r.0 as int, r.1 as int, r.2 as int, r.3 as int) == spec_global_rect(
            left as int,
            top as int,
            rect,
        ),
{
    let box_left: i32 = left + rect.x;
    let box_top: i32 = top - rect.y;
    (box_left, box_top, box_left + rect.width, box_top - rect.height)
}

/// Rows of the drop-down list on screen: those from the first visible one,
/// at most `DROPDOWN_ROWS`.
pub open spec fn visible_rows(total_rows: usize, scroll: usize) -> usize {
    let rest: int = if total_rows > scroll { total_rows - scroll } else { 0 };
    (if rest < DROPDOWN_ROWS { rest } else { DROPDOWN_ROWS as int }) as usize
}

/// The list row under the point, if any: rows are `DROPDOWN_ROW_HEIGHT` high
/// from just under the selector, and span the selector but for the scroll bar.
pub open spec fn dropdown_row_at(selector: Rect, visible: usize, x: int, y: int) -> Option<int> {
    let row_top = PAD_Y + selector.height + 2;
    if x >= selector.x && x < selector.x + selector.width - DROPDOWN_SCROLLBAR_WIDTH && y
        >= row_top && (y - row_top) / (DROPDOWN_ROW_HEIGHT as int) < visible {
        Some((y - row_top) / (DROPDOWN_ROW_HEIGHT as int))
    } else {
        None
    }
}

/// The scroll-bar pieces of the open list.
pub open spec fn open_scrollbar(width: int, total_rows: usize, scroll: usize) -> (Rect, Rect, Rect) {
    let selector = spec_pad_layout(width).selector;
    spec_dropdown_scrollbar_rects(
        spec_dropdown_list_rect(selector, visible_rows(total_rows, scroll)),
    )
}

/// What a click at (`x`, `y`) asks for while the drop-down list is open: the
/// selector toggles the list; when the list scrolls, the arrows scroll one row
/// and the track a page (7 rows) toward the click, or nothing on the thumb;
/// a visible row selects its PAD; anywhere else closes the list.
pub open spec fn spec_open_hit(
    width: int,
    total_rows: usize,
    scroll: usize,
    x: int,
    y: int,
) -> UiAction {
    let selector = spec_pad_layout(width).selector;
    let (up, track, down) = open_scrollbar(width, total_rows, scroll);
    let scrolls = max_scroll(total_rows) > 0;
    if spec_contains(selector, x, y) {
        UiAction::ToggleDropdown
    } else if scrolls && spec_contains(up, x, y) {
        UiAction::ScrollDropdown(-1isize)
    } else if scrolls && spec_contains(down, x, y) {
        UiAction::ScrollDropdown(1isize)
    } else if scrolls && spec_contains(track, x, y) {
        let thumb = spec_dropdown_thumb_rect(track, scroll, total_rows);
        if y < thumb.y {
            UiAction::ScrollDropdown(-7isize)
        } else if y >= thumb.y + thumb.height {
            UiAction::ScrollDropdown(7isize)
        } else {
            UiAction::ScrollDropdown(0isize)
        }
    } else {
        match dropdown_row_at(selector, visible_rows(total_rows, scroll), x, y) {
            Some(row) => UiAction::SelectPad((scroll + row) as usize),
            None => UiAction::CloseDropdown,
        }
    }
}

/// The clickable rectangles of the window while the list is closed, each with
/// its action, in the order in which they are tried.
pub open spec fn closed_targets(width: int) -> Seq<(Rect, UiAction)> {
    let pad = spec_pad_layout(width);
    let (save_field, save_button) = spec_save_layout(width);
    Seq::new(4, |i: int| (spec_command_button(width, i), UiAction::Command(spec_command_button_action(i))))
        + seq![
        (pad.previous, UiAction::Command(CommandAction::PreviousPad)),
        (pad.selector, UiAction::ToggleDropdown),
        (pad.next, UiAction::Command(CommandAction::NextPad)),
        (pad.refresh, UiAction::Refresh),
        (pad.load, UiAction::LoadSelected(false)),
        (pad.load_and_position, UiAction::LoadSelected(true)),
    ] + Seq::new(
        10,
        |i: int| (spec_field_rect(width, POSITION_Y as int, i as usize), UiAction::Edit(position_field_at(i))),
    ) + seq![(ap_toggle_rect(width), UiAction::ToggleAp)] + Seq::new(
        7,
        |i: int| (spec_field_rect(width, AP_FIELDS_Y as int, i as usize), UiAction::Edit(autopilot_field_at(i))),
    ) + seq![(save_field, UiAction::Edit(Field::SaveName)), (save_button, UiAction::SaveNamed)]
}

/// The autopilot on/off toggle, across the window between the margins.
pub open spec fn ap_toggle_rect(width: int) -> Rect {
    Rect { x: UI_MARGIN, y: AP_TOGGLE_Y, width: (width - UI_MARGIN * 2) as i32, height: 32 }
}

/// The action of the first target that contains the point, if any.
pub open spec fn first_hit(targets: Seq<(Rect, UiAction)>, x: int, y: int) -> Option<UiAction>
    decreases targets.len(),
{
    if targets.len() == 0 {
        None
    } else if spec_contains(targets[0].0, x, y) {
        Some(targets[0].1)
    } else {
        first_hit(targets.drop_first(), x, y)
    }
}

/// What a click at (`x`, `y`) of a window `width` pixels wide asks for.
pub open spec fn spec_hit_test(
    dropdown_open: bool,
    total_rows: usize,
    scroll: usize,
    x: int,
    y: int,
    width: int,
) -> Option<UiAction> {
    if dropdown_open {
        Some(spec_open_hit(width, total_rows, scroll, x, y))
    } else {
        first_hit(closed_targets(width), x, y)
    }
}

/// Whether `hit_test` computes its answer without overflow: the window is at
/// least 418 pixels (440 with the list open) wider than the least `i32`, and
/// the thumb of an open, scrolling list can be computed.
pub open spec fn hit_test_fits(dropdown_open: bool, total_rows: usize, scroll: usize, width: int) -> bool {
    &&& width >= i32::MIN + 418
    &&& dropdown_open ==> width >= i32::MIN + 440
    &&& (dropdown_open && max_scroll(total_rows) > 0) ==> thumb_fits(
        open_scrollbar(width, total_rows, scroll).1,
        scroll,
        total_rows,
    )
}

/// Both far edges of the rectangle are representable as `i32`.
pub open spec fn edges_fit(r: Rect) -> bool {
    fits_i32(r.x + r.width) && fits_i32(r.y + r.height)
}

/// The bounds on a form field's rectangle for a window at least 418 pixels
/// wider than the least `i32`.
proof fn lemma_field_rect_fits(width: int, top: int, index: usize)
    requires
        width >= i32::MIN + 418,
        width <= i32::MAX,
        top == POSITION_Y || top == AP_FIELDS_Y,
        index < 10,
    ensures
        field_rect_fits(width, top, index),
        edges_fit(spec_field_rect(width, top, index)),
{
    crate::arith::lemma_tdiv_magnitude(width - 36, 2);
    let cw = column_width(width);
    assert(index as i32 as int == index as int);
    assert(tdiv(index as int, 2) == index as int / 2);
    assert(trem(index as int, 2) == index as int % 2);
    assert(0 <= trem(index as int, 2) <= 1);
    assert(0 <= tdiv(index as int, 2) <= 4);
    if width - 36 >= 0 {
        assert(0 <= cw && cw * 2 <= width - 36);
    } else {
        assert(cw <= 0 && -cw * 2 <= 36 - width);
    }
    let t2 = trem(index as int, 2);
    if t2 == 0 {
        assert(t2 * (cw + UI_GAP) == 0) by (nonlinear_arith) requires t2 == 0;
    } else {
        assert(t2 == 1);
        assert(t2 * (cw + UI_GAP) == cw + UI_GAP) by (nonlinear_arith) requires t2 == 1;
    }
}

/// Every target of the closed window has representable far edges.
pub proof fn lemma_closed_targets_fit(width: int)
    requires
        width >= i32::MIN + 418,
        width <= i32::MAX,
    ensures
        forall|i: int| 0 <= i < closed_targets(width).len() ==> #[trigger] edges_fit(closed_targets(width)[i].0),
        closed_targets(width).len() == 30,
{
    let t = closed_targets(width);
    crate::arith::lemma_tdiv_magnitude(width - 52, 4);
    assert forall|i: int| 0 <= i < t.len() implies #[trigger] edges_fit(t[i].0) by {
        if i < 4 {
            assert(t[i].0 == spec_command_button(width, i));
            let bw = button_width(width);
            if width - 52 >= 0 {
                assert(0 <= bw && bw * 4 <= width - 52);
            } else {
                assert(bw <= 0 && -bw * 4 <= 52 - width);
            }
            if i == 0 {
                assert(i * (bw + UI_GAP) == 0) by (nonlinear_arith) requires i == 0;
            } else if i == 1 {
                assert(i * (bw + UI_GAP) == bw + 8) by (nonlinear_arith) requires i == 1;
            } else if i == 2 {
                assert(i * (bw + UI_GAP) == 2 * bw + 16) by (nonlinear_arith) requires i == 2;
            } else {
                assert(i == 3);
                assert(i * (bw + UI_GAP) == 3 * bw + 24) by (nonlinear_arith) requires i == 3;
            }
        } else if i < 10 {
        } else if i < 20 {
            lemma_field_rect_fits(width, POSITION_Y as int, (i - 10) as usize);
            assert(t[i].0 == spec_field_rect(width, POSITION_Y as int, (i - 10) as usize));
        } else if i == 20 {
        } else if i < 28 {
            lemma_field_rect_fits(width, AP_FIELDS_Y as int, (i - 21) as usize);
            assert(t[i].0 == spec_field_rect(width, AP_FIELDS_Y as int, (i - 21) as usize));
        } else {
        }
    }
}

/// Skipping a target that does not contain the point does not change the hit.
proof fn lemma_first_hit_step(targets: Seq<(Rect, UiAction)>, i: int, x: int, y: int)
    requires
        0 <= i < targets.len(),
    ensures
        first_hit(targets.skip(i), x, y) == if spec_contains(targets[i].0, x, y) {
            Some(targets[i].1)
        } else {
            first_hit(targets.skip(i + 1), x, y)
        },
{
    assert(targets.skip(i).drop_first() =~= targets.skip(i + 1));
    assert(targets.skip(i)[0] == targets[i]);
}

/// The action of the first target that contains the point, if any.
fn first_hit_in(targets: &Vec<(Rect, UiAction)>, x: i32, y: i32) -> (r: Option<UiAction>)
    requires
        forall|i: int| 0 <= i < targets@.len() ==> #[trigger] edges_fit(targets@[i].0),
    ensures
        r == first_hit(targets@, x as int, y as int),
{
    let mut i: usize = 0;
    assert(targets@.skip(0) =~= targets@);
    while i < targets.len()
        invariant
            i <= targets@.len(),
            forall|k: int| 0 <= k < targets@.len() ==> #[trigger] edges_fit(targets@[k].0),
            first_hit(targets@, x as int, y as int) == first_hit(targets@.skip(i as int), x as int, y as int),
        decreases targets@.len() - i,
    {
        proof {
            lemma_first_hit_step(targets@, i as int, x as int, y as int);
        }
        let target = targets[i];
        assert(edges_fit(targets@[i as int].0));
        if target.0.contains(x, y) {
            return Some(target.1);
        }
        i = i + 1;
    }
    assert(targets@.skip(i as int).len() == 0);
    None
}

/// The clickable rectangles of the closed window, in the order tried.
fn closed_target_list(width: i32) -> (r: Vec<(Rect, UiAction)>)
    requires
        width >= i32::MIN + 418,
    ensures
        r@ == closed_targets(width as int),
{
    let ghost t = closed_targets(width as int);
    let mut r: Vec<(Rect, UiAction)> = Vec::new();
    let buttons = command_button_rects(width);
    for i in 0..4
        invariant
            t == closed_targets(width as int),
            width >= i32::MIN + 418,
            forall|k: int| 0 <= k < 4 ==> #[trigger] buttons@[k] == (
                spec_command_button(width as int, k),
                spec_command_button_action(k),
            ),
            r@.len() == i,
            forall|k: int| 0 <= k < i ==> #[trigger] r@[k] == t[k],
    {
        r.push((buttons[i].0, UiAction::Command(buttons[i].1)));
    }
    let pad = pad_layout(width);
    r.push((pad.previous, UiAction::Command(CommandAction::PreviousPad)));
    r.push((pad.selector, UiAction::ToggleDropdown));
    r.push((pad.next, UiAction::Command(CommandAction::NextPad)));
    r.push((pad.refresh, UiAction::Refresh));
    r.push((pad.load, UiAction::LoadSelected(false)));
    r.push((pad.load_and_position, UiAction::LoadSelected(true)));
    let position = position_fields();
    for i in 0..10
        invariant
            t == closed_targets(width as int),
            width >= i32::MIN + 418,
            position@.map_values(|p: (Field, &'static str)| p.0) == seq![
                Field::Latitude,
                Field::Longitude,
                Field::Altitude,
                Field::Heading,
                Field::Pitch,
                Field::Roll,
                Field::Speed,
                Field::Throttle,
                Field::Flaps,
                Field::Gear,
            ],
            r@.len() == 10 + i,
            forall|k: int| 0 <= k < 10 + i ==> #[trigger] r@[k] == t[k],
    {
        proof {
            lemma_field_rect_fits(width as int, POSITION_Y as int, i);
            assert(position@.map_values(|p: (Field, &'static str)| p.0)[i as int] == position@[i as int].0);
        }
        let rect = field_rect(width, POSITION_Y, i);
        r.push((rect, UiAction::Edit(position[i].0)));
    }
    r.push((
        Rect { x: UI_MARGIN, y: AP_TOGGLE_Y, width: width - UI_MARGIN * 2, height: 32 },
        UiAction::ToggleAp,
    ));
    let autopilot = autopilot_fields();
    for i in 0..7
        invariant
            t == closed_targets(width as int),
            width >= i32::MIN + 418,
            autopilot@.map_values(|p: (Field, &'static str)| p.0) == Seq::new(7, |i: int| autopilot_field_at(i)),
            r@.len() == 21 + i,
            forall|k: int| 0 <= k < 21 + i ==> #[trigger] r@[k] == t[k],
    {
        proof {
            lemma_field_rect_fits(width as int, AP_FIELDS_Y as int, i);
            assert(autopilot@.map_values(|p: (Field, &'static str)| p.0)[i as int] == autopilot@[i as int].0);
        }
        let rect = field_rect(width, AP_FIELDS_Y, i);
        r.push((rect, UiAction::Edit(autopilot[i].0)));
    }
    let (save_field, save_button) = save_layout(width);
    r.push((save_field, UiAction::Edit(Field::SaveName)));
    r.push((save_button, UiAction::SaveNamed));
    assert(r@ =~= t);
    r
}

/// Whether the point lies in row `k` of the list, whose first row starts at
/// `row_top`.
spec fn in_list_row(selector: Rect, row_top: int, k: int, x: int, y: int) -> bool {
    x >= selector.x && x < selector.x + selector.width - DROPDOWN_SCROLLBAR_WIDTH
        && y >= row_top + k * DROPDOWN_ROW_HEIGHT && y < row_top + k * DROPDOWN_ROW_HEIGHT + DROPDOWN_ROW_HEIGHT
}

/// What a click at (`x`, `y`) asks for while the drop-down list is open.
fn open_hit(total_rows: usize, scroll: usize, x: i32, y: i32, width: i32) -> (r: UiAction)
    requires
        hit_test_fits(true, total_rows, scroll, width as int),
    ensures
        r == spec_open_hit(width as int, total_rows, scroll, x as int, y as int),
{
    let pad = pad_layout(width);
    let selector = pad.selector;
    if selector.contains(x, y) {
        return UiAction::ToggleDropdown;
    }
    let row_top: i32 = PAD_Y + selector.height + 2;
    let rest: usize = if total_rows > scroll { total_rows - scroll } else { 0 };
    let visible: usize = if rest < DROPDOWN_ROWS { rest } else { DROPDOWN_ROWS };
    assert(visible == visible_rows(total_rows, scroll));
    let list = dropdown_list_rect(selector, visible);
    let max_scroll: usize = if total_rows > DROPDOWN_ROWS { total_rows - DROPDOWN_ROWS } else { 0 };
    if max_scroll > 0 {
        let (up, track, down) = dropdown_scrollbar_rects(list);
        if up.contains(x, y) {
            return UiAction::ScrollDropdown(-1);
        }
        if down.contains(x, y) {
            return UiAction::ScrollDropdown(1);
        }
        if track.contains(x, y) {
            let thumb = dropdown_thumb_rect(track, scroll, total_rows);
            let page: isize = 7;
            if y < thumb.y {
                return UiAction::ScrollDropdown(-page);
            } else if y >= thumb.y + thumb.height {
                return UiAction::ScrollDropdown(page);
            } else {
                return UiAction::ScrollDropdown(0);
            }
        }
    }
    let ghost sel = selector;
    for row in 0..visible
        invariant
            visible <= DROPDOWN_ROWS,
            visible == visible_rows(total_rows, scroll),
            row_top == PAD_Y + sel.height + 2,
            width >= i32::MIN + 440,
            sel == selector,
            sel == spec_pad_layout(width as int).selector,
            width >= i32::MIN + 418,
            forall|k: int| 0 <= k < row ==> !#[trigger] in_list_row(sel, row_top as int, k, x as int, y as int),
    {
        let rect = Rect {
            x: selector.x,
            y: row_top + (row as i32) * DROPDOWN_ROW_HEIGHT,
            width: selector.width - DROPDOWN_SCROLLBAR_WIDTH,
            height: DROPDOWN_ROW_HEIGHT,
        };
        if rect.contains(x, y) {
            assert((y - row_top) / (DROPDOWN_ROW_HEIGHT as int) == row as int);
            return UiAction::SelectPad(scroll + row);
        }
    }
    proof {
        if y >= row_top && (y - row_top) / (DROPDOWN_ROW_HEIGHT as int) < visible {
            let k = (y - row_top) / (DROPDOWN_ROW_HEIGHT as int);
            assert(y >= row_top + k * DROPDOWN_ROW_HEIGHT && y < row_top + k * DROPDOWN_ROW_HEIGHT + DROPDOWN_ROW_HEIGHT);
            assert(in_list_row(sel, row_top as int, k, x as int, y as int) ==> false);
        }
    }
    UiAction::CloseDropdown
}

/// What a click at window-local (`x`, `y`) asks for, in a window `width`
/// pixels wide, with the drop-down list open or not, listing `total_rows`
/// PADs scrolled to `scroll`; `None` where the window has nothing to click.
pub fn hit_test(
    dropdown_open: bool,
    total_rows: usize,
    scroll: usize,
    x: i32,
    y: i32,
    width: i32,
) -> (r: Option<UiAction>)
    requires
        hit_test_fits(dropdown_open, total_rows, scroll, width as int),
    ensures
        r == spec_hit_test(dropdown_open, total_rows, scroll, x as int, y as int, width as int),
{
    if dropdown_open {
        return Some(open_hit(total_rows, scroll, x, y, width));
    }
    let targets = closed_target_list(width);
    proof {
        lemma_closed_targets_fit(width as int);
    }
    first_hit_in(&targets, x, y)
}

/// The first target that contains the point is the one whose action a click
/// asks for.
proof fn lemma_first_hit_at(targets: Seq<(Rect, UiAction)>, k: int, x: int, y: int)
    requires
        0 <= k < targets.len(),
        spec_contains(targets[k].0, x, y),
        forall|j: int| 0 <= j < k ==> !spec_contains(#[trigger] targets[j].0, x, y),
    ensures
        first_hit(targets, x, y) == Some(targets[k].1),
    decreases k,
{
    if k > 0 {
        let rest = targets.drop_first();
        assert forall|j: int| 0 <= j < k - 1 implies !spec_contains(#[trigger] rest[j].0, x, y) by {
            assert(rest[j] == targets[j + 1]);
        }
        assert(!spec_contains(targets[0].0, x, y));
        lemma_first_hit_at(rest, k - 1, x, y);
    }
}

/// Whether every point of `b` lies outside `a`: `a` ends above `b` or to its
/// left.
pub open spec fn apart(a: Rect, b: Rect) -> bool {
    a.y + a.height <= b.y || a.x + a.width <= b.x
}

/// The row of the window in which closed target `i` stands, from the top.
spec fn row_index(i: int) -> int {
    if i < 4 {
        0
    } else if i < 10 {
        1
    } else if i < 20 {
        2 + (i - 10) / 2
    } else if i == 20 {
        7
    } else if i < 28 {
        8 + (i - 21) / 2
    } else {
        12
    }
}

/// The top edge of row `r` of the closed window.
spec fn row_top(r: int) -> int {
    if r == 0 {
        ACTION_Y as int
    } else if r == 1 {
        PAD_Y as int
    } else if r <= 6 {
        POSITION_Y + (r - 2) * 34
    } else if r == 7 {
        AP_TOGGLE_Y as int
    } else if r <= 11 {
        AP_FIELDS_Y + (r - 8) * 34
    } else {
        SAVE_Y as int
    }
}

/// The bottom edge of row `r` of the closed window.
spec fn row_bottom(r: int) -> int {
    if r == 0 {
        ACTION_Y + 40
    } else if r == 1 {
        PAD_Y + 36
    } else if r <= 6 {
        POSITION_Y + (r - 2) * 34 + 30
    } else if r == 7 {
        AP_TOGGLE_Y + 32
    } else if r <= 11 {
        AP_FIELDS_Y + (r - 8) * 34 + 30
    } else {
        SAVE_Y + 36
    }
}

/// A form field's rectangle in a window wider than 418 pixels: column
/// `index % 2`, row `index / 2`.
proof fn lemma_field_rect_at(width: int, top: int, index: usize)
    requires
        418 < width <= i32::MAX,
        top == POSITION_Y || top == AP_FIELDS_Y,
        index < 10,
    ensures
        ({
            let r = spec_field_rect(width, top, index);
            &&& r.y == top + (index / 2) * 34
            &&& r.height == 30
            &&& r.width == column_width(width)
            &&& column_width(width) > 0
            &&& index % 2 == 0 ==> r.x == UI_MARGIN
            &&& index % 2 == 1 ==> r.x == UI_MARGIN + column_width(width) + UI_GAP
        }),
{
    lemma_field_rect_fits(width, top, index);
    crate::arith::lemma_tdiv_magnitude(width - 36, 2);
    let cw = column_width(width);
    assert(index as i32 as int == index as int);
    assert(tdiv(index as int, 2) == index as int / 2);
    assert(trem(index as int, 2) == index as int % 2);
    assert(cw == (width - 36) / 2);
    let t2 = trem(index as int, 2);
    if t2 == 0 {
        assert(t2 * (cw + UI_GAP) == 0) by (nonlinear_arith) requires t2 == 0;
    } else {
        assert(t2 * (cw + UI_GAP) == cw + UI_GAP) by (nonlinear_arith) requires t2 == 1;
    }
}

/// Closed target `i` fills the height of its row.
proof fn lemma_target_row(width: int, i: int)
    requires
        418 < width <= i32::MAX,
        0 <= i < 30,
    ensures
        closed_targets(width)[i].0.y == row_top(row_index(i)),
        closed_targets(width)[i].0.y + closed_targets(width)[i].0.height == row_bottom(row_index(i)),
{
    let t = closed_targets(width);
    if 10 <= i < 20 {
        lemma_field_rect_at(width, POSITION_Y as int, (i - 10) as usize);
        assert(t[i].0 == spec_field_rect(width, POSITION_Y as int, (i - 10) as usize));
    } else if 21 <= i < 28 {
        lemma_field_rect_at(width, AP_FIELDS_Y as int, (i - 21) as usize);
        assert(t[i].0 == spec_field_rect(width, AP_FIELDS_Y as int, (i - 21) as usize));
    } else if i < 4 {
        assert(t[i].0 == spec_command_button(width, i));
    }
}

/// Of two closed targets, the earlier one ends above the later one or to its
/// left.
proof fn lemma_targets_apart(width: int, j: int, k: int)
    requires
        418 < width <= i32::MAX,
        0 <= j < k < 30,
    ensures
        apart(closed_targets(width)[j].0, closed_targets(width)[k].0),
{
    let t = closed_targets(width);
    lemma_target_row(width, j);
    lemma_target_row(width, k);
    if row_index(j) < row_index(k) {
        assert(row_bottom(row_index(j)) <= row_top(row_index(k)));
    } else if k < 4 {
        assert forall|i: int| 0 <= i < 3 implies spec_command_button(width, i).x + spec_command_button(width, i).width
            + UI_GAP == spec_command_button(width, i + 1).x by {
            lemma_command_buttons_left_to_right(width, i);
        }
        crate::arith::lemma_tdiv_magnitude(width - 52, 4);
        assert(button_width(width) > 0) by {
            assert(tdiv(width - 52, 4) == (width - 52) / 4);
        }
        assert(t[j].0 == spec_command_button(width, j));
        assert(t[k].0 == spec_command_button(width, k));
        assert(button_width(width) <= i32::MAX);
        assert(spec_command_button(width, j).width == button_width(width));
        assert(spec_command_button(width, j + 1).width == button_width(width));
        assert(spec_command_button(width, j).x + spec_command_button(width, j).width < spec_command_button(width, j + 1).x);
        if k >= j + 2 {
            assert(spec_command_button(width, j + 1).x < spec_command_button(width, j + 2).x);
        }
        if k == j + 3 {
            assert(spec_command_button(width, j + 2).width == button_width(width));
            assert(spec_command_button(width, j + 2).x < spec_command_button(width, j + 3).x);
        }
    } else if k < 10 {
        lemma_pad_row_left_to_right(width);
        let p = spec_pad_layout(width);
        let row = seq![p.previous, p.selector, p.next, p.refresh, p.load, p.load_and_position];
        assert(t[j].0 == row[j - 4] && t[k].0 == row[k - 4]);
        assert(row[j - 4].x + row[j - 4].width < row[k - 4].x) by {
            assert forall|i: int| 0 <= i < 5 implies #[trigger] row[i].width > 0 by {}
        }
    } else if k < 20 {
        lemma_field_rect_at(width, POSITION_Y as int, (j - 10) as usize);
        lemma_field_rect_at(width, POSITION_Y as int, (k - 10) as usize);
        assert(t[j].0 == spec_field_rect(width, POSITION_Y as int, (j - 10) as usize));
        assert(t[k].0 == spec_field_rect(width, POSITION_Y as int, (k - 10) as usize));
        assert((j - 10) % 2 == 0 && (k - 10) % 2 == 1);
    } else if 21 <= k < 28 {
        lemma_field_rect_at(width, AP_FIELDS_Y as int, (j - 21) as usize);
        lemma_field_rect_at(width, AP_FIELDS_Y as int, (k - 21) as usize);
        assert(t[j].0 == spec_field_rect(width, AP_FIELDS_Y as int, (j - 21) as usize));
        assert(t[k].0 == spec_field_rect(width, AP_FIELDS_Y as int, (k - 21) as usize));
        assert((j - 21) % 2 == 0 && (k - 21) % 2 == 1);
    } else {
        assert(j == 28 && k == 29);
    }
}

/// With the drop-down list closed, a click inside any control asks for that
/// control's action, in any window wider than the fixed parts of the PAD
/// picker row: no two controls overlap.
pub proof fn lemma_click_on_control(width: int, k: int, total_rows: usize, scroll: usize, x: int, y: int)
    requires
        418 < width <= i32::MAX,
        0 <= k < closed_targets(width).len(),
        spec_contains(closed_targets(width)[k].0, x, y),
    ensures
        spec_hit_test(false, total_rows, scroll, x, y, width) == Some(closed_targets(width)[k].1),
{
    let targets = closed_targets(width);
    assert(targets.len() == 30);
    assert forall|j: int| 0 <= j < k implies !spec_contains(#[trigger] targets[j].0, x, y) by {
        lemma_targets_apart(width, j, k);
    }
    lemma_first_hit_at(targets, k, x, y);
}

/// The PAD picker row lays its controls out left to right, each followed by
/// a gap of `UI_GAP` before the next, so that no two overlap; the row ends at
/// the right margin; every control has a positive width once the window is
/// wider than the fixed parts of the row (418 pixels).
pub proof fn lemma_pad_row_left_to_right(width: int)
    requires
        pad_layout_fits(width),
        width <= i32::MAX,
    ensures
        ({
            let p = spec_pad_layout(width);
            let row = seq![p.previous, p.selector, p.next, p.refresh, p.load, p.load_and_position];
            &&& forall|i: int| 0 <= i < 5 ==> #[trigger] row[i].x + row[i].width + UI_GAP == row[i + 1].x
            &&& p.load_and_position.x + p.load_and_position.width == width - UI_MARGIN
            &&& (width > 418 ==> forall|i: int| 0 <= i < 6 ==> #[trigger] row[i].width > 0)
        }),
{
    let p = spec_pad_layout(width);
    let row = seq![p.previous, p.selector, p.next, p.refresh, p.load, p.load_and_position];
    assert(row[0] == p.previous && row[1] == p.selector && row[2] == p.next && row[3] == p.refresh
        && row[4] == p.load && row[5] == p.load_and_position);
}

/// The four command buttons stand left to right with a gap of `UI_GAP`
/// between each two, so that no two overlap.
pub proof fn lemma_command_buttons_left_to_right(width: int, i: int)
    requires
        width >= i32::MIN + 52,
        width <= i32::MAX,
        0 <= i < 3,
    ensures
        spec_command_button(width, i).x + spec_command_button(width, i).width + UI_GAP
            == spec_command_button(width, i + 1).x,
{
    crate::arith::lemma_tdiv_magnitude(width - 52, 4);
    let bw = button_width(width);
    assert(-536870912 <= bw <= 536870912);
    assert((i + 1) * (bw + UI_GAP) == i * (bw + UI_GAP) + bw + UI_GAP) by (nonlinear_arith);
    assert(0 <= i * (bw + UI_GAP) + 14 <= 3 * 536870920 + 14 || -3 * 536870912 <= i * (bw + UI_GAP)) by (nonlinear_arith)
        requires 0 <= i < 3, -536870912 <= bw <= 536870912;
    assert(-1610612736 <= (i + 1) * (bw + UI_GAP) <= 1610612760) by (nonlinear_arith)
        requires 0 <= i < 3, -536870912 <= bw <= 536870912;
    assert(-1610612736 <= i * (bw + UI_GAP) <= 1610612760) by (nonlinear_arith)
        requires 0 <= i < 3, -536870912 <= bw <= 536870912;
}

/// The scroll bar fills the right edge of the list: the track starts under
/// the up button, the down button ends at the list's bottom edge, and when the
/// list is at least two rows high the track ends where the down button starts.
pub proof fn lemma_scrollbar_stacks(list: Rect)
    requires
        scrollbar_fits(list),
    ensures
        ({
            let (up, track, down) = spec_dropdown_scrollbar_rects(list);
            &&& up.y + up.height == track.y
            &&& down.y + down.height == list.y + list.height
            &&& (list.height >= 2 * DROPDOWN_ROW_HEIGHT ==> track.y + track.height == down.y)
            &&& up.x + up.width == list.x + list.width
        }),
{
}

/// The scroll-bar thumb stays within its track: it is the track itself when
/// the track has no height; else it is inset by 5 pixels on each side, fills
/// the whole track while every row is visible, stands at the top of the track
/// when the list shows its first row and at the bottom when it shows its last,
/// and moves down as the list scrolls down. (For more rows than `i32::MAX`,
/// the row count is cut to `i32` and the thumb may leave the track.)
pub proof fn lemma_thumb_tracks_scroll(track: Rect, scroll: usize, later: usize, total_rows: usize)
    requires
        total_rows <= i32::MAX,
        thumb_fits(track, scroll, total_rows),
        thumb_fits(track, later, total_rows),
        scroll <= later,
    ensures
        ({
            let thumb = spec_dropdown_thumb_rect(track, scroll, total_rows);
            let next = spec_dropdown_thumb_rect(track, later, total_rows);
            &&& track.height <= 0 ==> thumb == track
            &&& track.height > 0 ==> thumb.x == track.x + 5 && thumb.width == track.width - 10
            &&& track.y <= thumb.y
            &&& thumb.y + thumb.height <= track.y + track.height
            &&& thumb.y <= next.y
            &&& (total_rows <= DROPDOWN_ROWS ==> thumb.y == track.y && thumb.height == track.height)
            &&& (scroll == 0 ==> thumb.y == track.y)
            &&& (scroll >= max_scroll(total_rows) ==> thumb.y + thumb.height == track.y + track.height)
        }),
{
    if track.height <= 0 {
        return;
    }
    let h = thumb_height(track, total_rows);
    let m = max_scroll(total_rows);
    assert(18 <= h <= track.height || total_rows <= DROPDOWN_ROWS);
    assert(h <= track.height);
    let travel = track.height - h;
    if m != 0 {
        assert(m as i32 as int == m as int);
        let s = if scroll < m { scroll } else { m };
        let t = if later < m { later } else { m };
        assert(s as i32 as int == s as int);
        assert(t as i32 as int == t as int);
        assert(0 <= travel * s <= travel * m) by (nonlinear_arith) requires 0 <= travel, 0 <= s <= m;
        assert(travel * s <= travel * t) by (nonlinear_arith) requires 0 <= travel, 0 <= s <= t;
        assert((travel * s) / (m as int) <= travel) by (nonlinear_arith)
            requires 0 <= travel * s <= travel * m, m > 0;
        assert((travel * s) / (m as int) <= (travel * t) / (m as int)) by (nonlinear_arith)
            requires 0 <= travel * s <= travel * t, m > 0;
        assert((travel * m) / (m as int) == travel) by (nonlinear_arith) requires m > 0;
        assert(travel * s >= 0 && travel * t >= 0);
        assert(thumb_offset(track, scroll, total_rows) == (travel * s) / (m as int));
        assert(thumb_offset(track, later, total_rows) == (travel * t) / (m as int));
        if scroll == 0 {
            assert(travel * s == 0) by (nonlinear_arith) requires s == 0;
        }
    }
}

} // verus!
