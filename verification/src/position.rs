//! State of the Position Aircraft window: the list of PAD files and the one
//! selected, the drop-down list, the field being edited, the status line and
//! the re-application of a position over the frames that follow it.
use vstd::prelude::*;
use vstd::arithmetic::div_mod::{lemma_mod_sub_multiples_vanish, lemma_small_mod};
use vstd::utf8::encode_utf8;
use crate::commands::CommandAction;
use crate::layout::{hit_test, hit_test_fits, max_scroll, spec_hit_test, UiAction, DROPDOWN_ROWS};
use crate::pad::{field_index, safe_pad_filename, spec_safe_pad_filename, Field, Form};
use crate::pad_list::{
    filter_pad_files, first_index, is_stable_sort, lemma_first_index, lemma_first_index_found, pad_files,
    sort_pad_names, texts,
};
use crate::text::{
    chars_eq_ignore_ascii_case, chars_of, concat, decimal, eq_ignore_ascii_case, starts_with,
    str_starts_with, string_from_chars, string_pop, string_push, usize_to_decimal,
};

verus! {

/// Frames that a new position waits before it is applied again.
pub const REAPPLY_WAIT_FRAMES: i32 = 2;
/// Frames on which a new position is applied again after the wait.
pub const REAPPLY_FRAMES: i32 = 6;
/// Longest text (in UTF-8 bytes) that typing extends.
pub const MAX_FIELD_BYTES: usize = 63;

/// The frames still to wait, and then still to apply, before a position just
/// set has settled.
#[derive(Copy, Clone, Debug, PartialEq, Eq, Structural)]
pub struct PendingReapply {
    pub wait_frames: i32,
    pub remaining_frames: i32,
}

impl PendingReapply {
    /// The counters are in the range the flight loop counts them down in.
    pub open spec fn wf(self) -> bool {
        self.wait_frames >= 0 && self.remaining_frames >= 1
    }

    /// The re-application that follows a new position.
    pub fn new() -> (r: PendingReapply)
        ensures
            r.wait_frames == REAPPLY_WAIT_FRAMES,
            r.remaining_frames == REAPPLY_FRAMES,
            r.wf(),
    {
        PendingReapply { wait_frames: REAPPLY_WAIT_FRAMES, remaining_frames: REAPPLY_FRAMES }
    }
}

/// One flight-loop frame of a pending re-application: while frames remain to
/// wait, one is counted off; otherwise the position is applied (`true`) and
/// one application is counted off, the re-application ending with the last.
pub open spec fn spec_reapply_step(pending: Option<PendingReapply>) -> (Option<PendingReapply>, bool) {
    match pending {
        None => (None, false),
        Some(p) => if p.wait_frames > 0 {
            (Some(PendingReapply { wait_frames: (p.wait_frames - 1) as i32, ..p }), false)
        } else if p.remaining_frames - 1 > 0 {
            (Some(PendingReapply { remaining_frames: (p.remaining_frames - 1) as i32, ..p }), true)
        } else {
            (None, true)
        },
    }
}

/// The pending re-application after `n` frames.
pub open spec fn reapply_after(pending: Option<PendingReapply>, n: nat) -> Option<PendingReapply>
    decreases n,
{
    if n == 0 {
        pending
    } else {
        reapply_after(spec_reapply_step(pending).0, (n - 1) as nat)
    }
}

/// Whether the position is applied on frame `n` (counting from 0).
pub open spec fn reapplied_on(pending: Option<PendingReapply>, n: nat) -> bool {
    spec_reapply_step(reapply_after(pending, n)).1
}

/// The text shown for a field in status messages.
pub open spec fn field_label_text(field: Field) -> Seq<char> {
    match field {
        Field::Latitude => "Latitude"@,
        Field::Longitude => "Longitude"@,
        Field::Altitude => "Altitude"@,
        Field::Heading => "Heading"@,
        Field::Pitch => "Pitch"@,
        Field::Roll => "Roll"@,
        Field::Speed => "Speed"@,
        Field::Throttle => "Throttle"@,
        Field::Flaps => "Flaps"@,
        Field::Gear => "Gear"@,
        Field::ApMode => "AP mode"@,
        Field::ApAltitude => "AP altitude"@,
        Field::ApVerticalVelocity => "AP vertical velocity"@,
        Field::ApHeading => "AP heading"@,
        Field::ApAirspeed => "AP airspeed"@,
        Field::ApState => "AP state"@,
        Field::ApHeadingRollMode => "AP bank limit mode"@,
        Field::SaveName => "Save filename"@,
    }
}

/// The text shown for `field` in status messages.
pub fn field_label(field: Field) -> (r: &'static str)
    ensures
        r@ == field_label_text(field),
{
    match field {
        Field::Latitude => "Latitude",
        Field::Longitude => "Longitude",
        Field::Altitude => "Altitude",
        Field::Heading => "Heading",
        Field::Pitch => "Pitch",
        Field::Roll => "Roll",
        Field::Speed => "Speed",
        Field::Throttle => "Throttle",
        Field::Flaps => "Flaps",
        Field::Gear => "Gear",
        Field::ApMode => "AP mode",
        Field::ApAltitude => "AP altitude",
        Field::ApVerticalVelocity => "AP vertical velocity",
        Field::ApHeading => "AP heading",
        Field::ApAirspeed => "AP airspeed",
        Field::ApState => "AP state",
        Field::ApHeadingRollMode => "AP bank limit mode",
        Field::SaveName => "Save filename",
    }
}

/// Whether `c` may be typed into a numeric field.
pub open spec fn is_number_char(c: char) -> bool {
    ('0' <= c <= '9') || c == '+' || c == '-' || c == '.' || c == 'e' || c == 'E'
}

/// The PAD file that is selected when nothing else is.
pub open spec fn quick_file() -> Seq<char> {
    "QuickFile.pad"@
}

/// The selection after the list of PADs became `pads`: the PAD that was
/// selected before (`old_name`) if it is still listed, else the quick-save
/// file (in any case), else the first; never past the end of the list.
pub open spec fn refreshed_selection(old_name: Option<Seq<char>>, pads: Seq<Seq<char>>) -> int {
    let found = if old_name is Some {
        first_index(pads, |x: Seq<char>| x == old_name->0)
    } else {
        None
    };
    let chosen: int = match found {
        Some(i) => i,
        None => match first_index(pads, |x: Seq<char>| eq_ignore_ascii_case(x, quick_file())) {
            Some(i) => i,
            None => 0,
        },
    };
    let last: int = if pads.len() > 0 { pads.len() - 1 } else { 0 };
    if chosen < last { chosen } else { last }
}

/// The status line after a refresh: a failure to read the directory is
/// reported, and a status that reports a failure is kept; otherwise the
/// number of PAD files found is shown.
pub open spec fn refreshed_status(status: Seq<char>, listing: Result<Vec<String>, String>, count: nat) -> Seq<char> {
    let reported = match listing {
        Ok(_) => status,
        Err(error) => "Unable to read PAD directory: "@ + error@,
    };
    if starts_with(reported, "Unable"@) {
        reported
    } else {
        "Found "@ + decimal(count) + " PAD files"@
    }
}

/// The position of the first name in `pads` equal to `name`.
pub fn find_name(pads: &Vec<String>, name: &String) -> (r: Option<usize>)
    ensures
        r matches Some(i) ==> i < pads@.len(),
        first_index(texts(pads@), |x: Seq<char>| x == name@) == match r {
            Some(i) => Some(i as int),
            None => None::<int>,
        },
{
    let ghost items = texts(pads@);
    let ghost pred = |x: Seq<char>| x == name@;
    for i in 0..pads.len()
        invariant
            items == texts(pads@),
            pred == (|x: Seq<char>| x == name@),
            forall|j: int| 0 <= j < i ==> !pred(#[trigger] items[j]),
    {
        if pads[i] == *name {
            proof {
                lemma_first_index(items, pred, i as int);
            }
            return Some(i);
        }
    }
    proof {
        lemma_first_index(items, pred, items.len() as int);
    }
    None
}

/// The position of the first name in `pads` equal to the quick-save file
/// name but for the case of ASCII letters.
pub fn find_quick_file(pads: &Vec<String>) -> (r: Option<usize>)
    ensures
        r matches Some(i) ==> i < pads@.len(),
        first_index(texts(pads@), |x: Seq<char>| eq_ignore_ascii_case(x, quick_file())) == match r {
            Some(i) => Some(i as int),
            None => None::<int>,
        },
{
    let ghost items = texts(pads@);
    let ghost pred = |x: Seq<char>| eq_ignore_ascii_case(x, quick_file());
    let quick = chars_of("QuickFile.pad");
    for i in 0..pads.len()
        invariant
            items == texts(pads@),
            pred == (|x: Seq<char>| eq_ignore_ascii_case(x, quick_file())),
            quick@ == quick_file(),
            forall|j: int| 0 <= j < i ==> !pred(#[trigger] items[j]),
    {
        let name = chars_of(pads[i].as_str());
        if chars_eq_ignore_ascii_case(&name, &quick) {
            proof {
                lemma_first_index(items, pred, i as int);
            }
            return Some(i);
        }
    }
    proof {
        lemma_first_index(items, pred, items.len() as int);
    }
    None
}

/// "Found N PAD files".
fn found_message(count: usize) -> (r: String)
    ensures
        r@ == "Found "@ + decimal(count as nat) + " PAD files"@,
{
    let digits = string_from_chars(&usize_to_decimal(count));
    let head = concat("Found ", digits.as_str());
    concat(head.as_str(), " PAD files")
}

/// The position `delta` places after `index` in a circular list of `len`.
pub open spec fn relative_index(index: int, delta: int, len: int) -> int {
    (index + delta) % len
}

/// The name under which a PAD loaded from `filename` is saved again: the
/// file name without its `.pad` or `.PAD` extension.
pub open spec fn spec_pad_save_name(filename: Seq<char>) -> Seq<char> {
    if filename.len() >= 4 && (filename.skip(filename.len() - 4) == ".pad"@ || filename.skip(
        filename.len() - 4,
    ) == ".PAD"@) {
        filename.take(filename.len() - 4)
    } else {
        filename
    }
}

/// The name under which a PAD loaded from `filename` is saved again.
pub fn pad_save_name(filename: &str) -> (r: String)
    ensures
        r@ == spec_pad_save_name(filename@),
{
    let chars = chars_of(filename);
    let n = chars.len();
    if n >= 4 && chars[n - 4] == '.' && ((chars[n - 3] == 'p' && chars[n - 2] == 'a' && chars[n
        - 1] == 'd') || (chars[n - 3] == 'P' && chars[n - 2] == 'A' && chars[n - 1] == 'D')) {
        proof {
            reveal_strlit(".pad");
            reveal_strlit(".PAD");
            if chars[n - 3] == 'p' {
                assert(chars@.skip(n - 4) =~= ".pad"@);
            } else {
                assert(chars@.skip(n - 4) =~= ".PAD"@);
            }
        }
        let mut stem = chars;
        stem.truncate(n - 4);
        assert(stem@ =~= filename@.take(n - 4));
        string_from_chars(&stem)
    } else {
        proof {
            reveal_strlit(".pad");
            reveal_strlit(".PAD");
            if n >= 4 {
                assert(chars@.skip(n - 4)[0] == chars@[n - 4]);
                assert(chars@.skip(n - 4)[1] == chars@[n - 3]);
                assert(chars@.skip(n - 4)[2] == chars@[n - 2]);
                assert(chars@.skip(n - 4)[3] == chars@[n - 1]);
            }
        }
        string_from_chars(&chars)
    }
}

/// The first row the drop-down list shows when it opens: the selected PAD's
/// row in the middle where the list allows it.
pub open spec fn centred_scroll(selected: int, len: int) -> int {
    let centred: int = if selected >= DROPDOWN_ROWS / 2 { selected - DROPDOWN_ROWS / 2 } else { 0 };
    let most: int = max_scroll(len as usize) as int;
    if centred < most { centred } else { most }
}

/// `next` rows scrolled, kept between the first row and `most`.
pub open spec fn clamped_scroll(next: int, most: int) -> int {
    if next < 0 { 0 } else if next > most { most } else { next }
}

/// What remains to do for `action` outside the window's state.
pub open spec fn spec_follow_up(action: UiAction, dropdown_open: bool, pad_count: nat) -> UiFollowUp {
    match action {
        UiAction::Command(command) => UiFollowUp::Command(command),
        UiAction::LoadSelected(position) => UiFollowUp::LoadSelected(position),
        UiAction::SaveNamed => UiFollowUp::SaveNamed,
        UiAction::Refresh => UiFollowUp::Refresh,
        UiAction::ToggleDropdown => if !dropdown_open && pad_count == 0 {
            UiFollowUp::ListThenOpen
        } else {
            UiFollowUp::Nothing
        },
        _ => UiFollowUp::Nothing,
    }
}

/// The action shown as hovered for what lies under the pointer: anything but
/// the closing of the list.
pub open spec fn hover_of(hit: Option<UiAction>) -> Option<UiAction> {
    match hit {
        Some(UiAction::CloseDropdown) => None,
        other => other,
    }
}

/// The text of `field` after the key `key` (virtual key `virtual_key`) was
/// pressed while it is edited, for any key but Enter and Escape: Backspace
/// or Delete removes the last character; a printable ASCII character the
/// field takes is appended while the text is shorter than
/// `MAX_FIELD_BYTES` bytes; any other key leaves it.
pub open spec fn edited_text(field: Field, text: Seq<char>, key: u8, virtual_key: u8) -> Seq<char> {
    if key == 8 || virtual_key == 8 || virtual_key == 127 {
        if text.len() > 0 { text.drop_last() } else { text }
    } else if (encode_utf8(text).len() as usize) < MAX_FIELD_BYTES && 32 <= key <= 126 && (field
        == Field::SaveName || is_number_char(key as char)) {
        text.push(key as char)
    } else {
        text
    }
}

/// What an input asks of the keyboard focus.
#[derive(Copy, Clone, Debug, PartialEq, Eq, Structural)]
pub enum FocusChange {
    /// The focus stays as it is.
    Keep,
    /// The window gives up the keyboard focus.
    Release,
    /// The window takes the keyboard focus, to edit a field.
    Take,
}

/// What remains to be done, outside the window's state, for a click.
#[derive(Copy, Clone, Debug, PartialEq, Eq, Structural)]
pub enum UiFollowUp {
    Nothing,
    /// Run the command.
    Command(CommandAction),
    /// Load the selected PAD file, and position the aircraft with it if `true`.
    LoadSelected(bool),
    /// Save the form under the typed file name.
    SaveNamed,
    /// Read the PAD directory again.
    Refresh,
    /// Read the PAD directory, then open the drop-down list.
    ListThenOpen,
}

/// The focus change and follow-up of a click, and the state it leaves.
pub struct UiOutcome {
    pub focus: FocusChange,
    pub follow_up: UiFollowUp,
}

/// The state of the window that clicks, keys and commands act on.
pub struct PluginState {
    /// File names of the PAD files offered, in display order.
    pub pads: Vec<String>,
    pub selected_index: usize,
    pub form: Form,
    pub status: String,
    pub active_field: Option<Field>,
    pub hovered_action: Option<UiAction>,
    pub dropdown_open: bool,
    /// First PAD shown by the drop-down list.
    pub dropdown_scroll: usize,
    pub mouse_captured: bool,
    pub pending: Option<PendingReapply>,
}

impl PluginState {
    /// The invariant the window keeps: a well-formed form, a selection inside
    /// the list (0 when it is empty), a scroll position that leaves no empty
    /// row below the list, and a pending re-application whose counters run
    /// down.
    pub open spec fn wf(&self) -> bool {
        &&& self.form.wf()
        &&& (self.pads@.len() == 0 ==> self.selected_index == 0)
        &&& (self.pads@.len() > 0 ==> self.selected_index < self.pads@.len())
        &&& self.dropdown_scroll <= max_scroll(self.pads@.len() as usize)
        &&& (self.pending matches Some(p) ==> p.wf())
    }

    /// The window as the plugin opens it: no PAD listed yet, nothing edited,
    /// status "Ready".
    pub fn new(form: Form) -> (r: PluginState)
        requires
            form.wf(),
        ensures
            r.wf(),
            r.pads@.len() == 0,
            r.selected_index == 0,
            r.form == form,
            r.status@ == "Ready"@,
            r.active_field is None,
            r.hovered_action is None,
            !r.dropdown_open,
            r.dropdown_scroll == 0,
            !r.mouse_captured,
            r.pending is None,
    {
        PluginState {
            pads: Vec::new(),
            selected_index: 0,
            form,
            status: "Ready".to_owned(),
            active_field: None,
            hovered_action: None,
            dropdown_open: false,
            dropdown_scroll: 0,
            mouse_captured: false,
            pending: None,
        }
    }

    /// The file name of the selected PAD, if the list has one.
    pub fn selected_name(&self) -> (r: Option<&str>)
        ensures
            self.selected_index < self.pads@.len() ==> (r matches Some(n) && n@
                == self.pads@[self.selected_index as int]@),
            self.selected_index >= self.pads@.len() ==> r is None,
    {
        if self.selected_index < self.pads.len() {
            Some(self.pads[self.selected_index].as_str())
        } else {
            None
        }
    }

    /// The last first row the drop-down list can scroll to.
    pub fn dropdown_max_scroll(&self) -> (r: usize)
        ensures
            r == max_scroll(self.pads@.len() as usize),
    {
        if self.pads.len() > DROPDOWN_ROWS {
            self.pads.len() - DROPDOWN_ROWS
        } else {
            0
        }
    }

    /// Opens the drop-down list scrolled so that the selected PAD shows in
    /// its middle where it can.
    pub fn open_dropdown(&mut self)
        requires
            old(self).wf(),
        ensures
            final(self).wf(),
            final(self).dropdown_open,
            final(self).dropdown_scroll == ({
                let centred: int = if old(self).selected_index >= DROPDOWN_ROWS / 2 {
                    old(self).selected_index - DROPDOWN_ROWS / 2
                } else {
                    0
                };
                let most: int = max_scroll(old(self).pads@.len() as usize) as int;
                if centred < most { centred } else { most }
            }),
            final(self).pads@ == old(self).pads@,
            final(self).selected_index == old(self).selected_index,
            final(self).form == old(self).form,
            final(self).status@ == old(self).status@,
            final(self).active_field == old(self).active_field,
            final(self).hovered_action == old(self).hovered_action,
            final(self).mouse_captured == old(self).mouse_captured,
            final(self).pending == old(self).pending,
    {
        self.dropdown_open = true;
        let centred: usize = if self.selected_index >= DROPDOWN_ROWS / 2 {
            self.selected_index - DROPDOWN_ROWS / 2
        } else {
            0
        };
        let most = self.dropdown_max_scroll();
        self.dropdown_scroll = if centred < most { centred } else { most };
    }

    /// Scrolls the drop-down list by `delta` rows, staying between the first
    /// row and the last first row. (A list longer than `isize::MAX` cannot be
    /// allocated.)
    pub fn scroll_dropdown(&mut self, delta: isize)
        requires
            old(self).wf(),
            old(self).pads@.len() <= isize::MAX,
            isize::MIN <= old(self).dropdown_scroll + delta <= isize::MAX,
        ensures
            final(self).wf(),
            final(self).dropdown_scroll == ({
                let next: int = old(self).dropdown_scroll + delta;
                let most: int = max_scroll(old(self).pads@.len() as usize) as int;
                if next < 0 { 0 } else if next > most { most } else { next }
            }),
            final(self).pads@ == old(self).pads@,
            final(self).selected_index == old(self).selected_index,
            final(self).form == old(self).form,
            final(self).status@ == old(self).status@,
            final(self).active_field == old(self).active_field,
            final(self).hovered_action == old(self).hovered_action,
            final(self).dropdown_open == old(self).dropdown_open,
            final(self).mouse_captured == old(self).mouse_captured,
            final(self).pending == old(self).pending,
    {
        let most = self.dropdown_max_scroll();
        let next: isize = self.dropdown_scroll as isize + delta;
        self.dropdown_scroll = if next < 0 {
            0
        } else if next as usize > most {
            most
        } else {
            next as usize
        };
    }

    /// Selects the PAD at `index` of the list, if there is one, and closes
    /// the drop-down list either way.
    pub fn select_pad(&mut self, index: usize)
        requires
            old(self).wf(),
        ensures
            final(self).wf(),
            !final(self).dropdown_open,
            index < old(self).pads@.len() ==> final(self).selected_index == index
                && final(self).status@ == "Selected "@ + old(self).pads@[index as int]@,
            index >= old(self).pads@.len() ==> final(self).selected_index
                == old(self).selected_index && final(self).status@ == old(self).status@,
            final(self).pads@ == old(self).pads@,
            final(self).form == old(self).form,
            final(self).active_field == old(self).active_field,
            final(self).hovered_action == old(self).hovered_action,
            final(self).dropdown_scroll == old(self).dropdown_scroll,
            final(self).mouse_captured == old(self).mouse_captured,
            final(self).pending == old(self).pending,
    {
        if index < self.pads.len() {
            self.selected_index = index;
            self.status = concat("Selected ", self.pads[index].as_str());
        }
        self.dropdown_open = false;
    }

    /// Replaces the list of PADs by the PAD files of a directory listing
    /// (`Ok` with the names of the directory's files, `Err` with the reason it
    /// could not be read): the names ending in `.pad` in any case, stably
    /// sorted by their ASCII lower-case form. The selection follows the PAD
    /// selected before, else falls on the quick-save file, else on the first;
    /// the list scroll is kept within the new list; the status reports the
    /// count, or the failure.
    pub fn refresh_pads(&mut self, listing: Result<Vec<String>, String>)
        requires
            old(self).wf(),
        ensures
            final(self).wf(),
            match listing {
                Ok(names) => is_stable_sort(pad_files(texts(names@)), texts(final(self).pads@)),
                Err(_) => final(self).pads@.len() == 0,
            },
            final(self).selected_index == refreshed_selection(
                if old(self).selected_index < old(self).pads@.len() {
                    Some(old(self).pads@[old(self).selected_index as int]@)
                } else {
                    None
                },
                texts(final(self).pads@),
            ),
            final(self).dropdown_scroll == if old(self).dropdown_scroll < max_scroll(final(self).pads@.len() as usize) {
                old(self).dropdown_scroll
            } else {
                max_scroll(final(self).pads@.len() as usize)
            },
            final(self).status@ == refreshed_status(old(self).status@, listing, final(self).pads@.len()),
            final(self).form == old(self).form,
            final(self).active_field == old(self).active_field,
            final(self).hovered_action == old(self).hovered_action,
            final(self).dropdown_open == old(self).dropdown_open,
            final(self).mouse_captured == old(self).mouse_captured,
            final(self).pending == old(self).pending,
    {
        let ghost old_view = if self.selected_index < self.pads@.len() {
            Some(self.pads@[self.selected_index as int]@)
        } else {
            None
        };
        let old_name: Option<String> = if self.selected_index < self.pads.len() {
            Some(self.pads[self.selected_index].clone())
        } else {
            None
        };
        let pads = match listing {
            Ok(names) => sort_pad_names(filter_pad_files(names)),
            Err(error) => {
                self.status = concat("Unable to read PAD directory: ", error.as_str());
                Vec::new()
            },
        };
        self.pads = pads;
        let found = match old_name {
            Some(name) => {
                let r = find_name(&self.pads, &name);
                proof {
                    assert((|x: Seq<char>| x == name@) =~= (|x: Seq<char>| x == old_view->0));
                }
                r
            },
            None => None,
        };
        let chosen: usize = match found {
            Some(i) => i,
            None => match find_quick_file(&self.pads) {
                Some(i) => i,
                None => 0,
            },
        };
        let last: usize = if self.pads.len() > 0 { self.pads.len() - 1 } else { 0 };
        self.selected_index = if chosen < last { chosen } else { last };
        let most = self.dropdown_max_scroll();
        if self.dropdown_scroll > most {
            self.dropdown_scroll = most;
        }
        if !str_starts_with(self.status.as_str(), "Unable") {
            self.status = found_message(self.pads.len());
        }
    }

    /// Steps the selection `delta` places round the list and closes the
    /// drop-down list, returning the name of the newly selected PAD for it to
    /// be loaded. An empty list is first filled from `listing` when one is
    /// given; if it stays empty, the status says so and nothing is selected.
    pub fn select_relative(&mut self, delta: isize, listing: Option<Result<Vec<String>, String>>) -> (r: Option<String>)
        requires
            old(self).wf(),
        ensures
            final(self).wf(),
            final(self).form == old(self).form,
            final(self).active_field == old(self).active_field,
            final(self).hovered_action == old(self).hovered_action,
            final(self).mouse_captured == old(self).mouse_captured,
            final(self).pending == old(self).pending,
            old(self).pads@.len() > 0 ==> {
                &&& final(self).pads@ == old(self).pads@
                &&& final(self).selected_index == relative_index(
                    old(self).selected_index as int,
                    delta as int,
                    old(self).pads@.len() as int,
                )
                &&& !final(self).dropdown_open
                &&& final(self).dropdown_scroll == old(self).dropdown_scroll
                &&& final(self).status@ == old(self).status@
                &&& r is Some && r->0@ == final(self).pads@[final(self).selected_index as int]@
            },
            old(self).pads@.len() == 0 && listing is None ==> {
                &&& final(self).pads@.len() == 0
                &&& final(self).selected_index == 0
                &&& final(self).dropdown_open == old(self).dropdown_open
                &&& final(self).dropdown_scroll == 0
                &&& final(self).status@ == "No PAD files found"@
                &&& r is None
            },
            old(self).pads@.len() == 0 && listing is Some ==> {
                let names = listing->0;
                let count = final(self).pads@.len();
                &&& match names {
                    Ok(names) => is_stable_sort(pad_files(texts(names@)), texts(final(self).pads@)),
                    Err(_) => count == 0,
                }
                &&& final(self).dropdown_scroll == 0
                &&& count == 0 ==> {
                    &&& final(self).selected_index == 0
                    &&& final(self).dropdown_open == old(self).dropdown_open
                    &&& final(self).status@ == "No PAD files found"@
                    &&& r is None
                }
                &&& count > 0 ==> {
                    &&& final(self).selected_index == relative_index(
                        refreshed_selection(None, texts(final(self).pads@)),
                        delta as int,
                        count as int,
                    )
                    &&& !final(self).dropdown_open
                    &&& final(self).status@ == refreshed_status(old(self).status@, names, count)
                    &&& r is Some && r->0@ == final(self).pads@[final(self).selected_index as int]@
                }
            },
    {
        if self.pads.len() == 0 {
            if let Some(listing) = listing {
                self.refresh_pads(listing);
            }
        }
        if self.pads.len() == 0 {
            self.status = "No PAD files found".to_owned();
            return None;
        }
        let sum: i128 = self.selected_index as i128 + delta as i128;
        let next = match sum.checked_rem_euclid(self.pads.len() as i128) {
            Some(v) => v,
            None => 0,
        };
        self.selected_index = next as usize;
        self.dropdown_open = false;
        Some(self.pads[self.selected_index].clone())
    }

    /// The name of the PAD file to load; when none is selected, the status
    /// says so and there is none.
    pub fn load_target(&mut self) -> (r: Option<String>)
        requires
            old(self).wf(),
        ensures
            final(self).wf(),
            final(self).pads@ == old(self).pads@,
            final(self).selected_index == old(self).selected_index,
            final(self).form == old(self).form,
            final(self).active_field == old(self).active_field,
            final(self).hovered_action == old(self).hovered_action,
            final(self).dropdown_open == old(self).dropdown_open,
            final(self).dropdown_scroll == old(self).dropdown_scroll,
            final(self).mouse_captured == old(self).mouse_captured,
            final(self).pending == old(self).pending,
            old(self).pads@.len() > 0 ==> final(self).status@ == old(self).status@ && r is Some
                && r->0@ == old(self).pads@[old(self).selected_index as int]@,
            old(self).pads@.len() == 0 ==> final(self).status@ == "No PAD file is selected"@ && r is None,
    {
        if self.selected_index < self.pads.len() {
            Some(self.pads[self.selected_index].clone())
        } else {
            self.status = "No PAD file is selected".to_owned();
            None
        }
    }

    /// Takes in the outcome of reading the PAD file `filename`: the form it
    /// fills (saved again under `pad_save_name(filename)`), or the reason it
    /// could not be read, which becomes the status. `true` when it was read.
    pub fn finish_load(&mut self, filename: &str, outcome: Result<Form, String>) -> (r: bool)
        requires
            old(self).wf(),
            outcome matches Ok(form) ==> form.wf(),
        ensures
            final(self).wf(),
            r == outcome is Ok,
            match outcome {
                Ok(form) => final(self).form == form && final(self).status@ == "Loaded "@ + filename@,
                Err(error) => final(self).form == old(self).form && final(self).status@ == error@,
            },
            final(self).pads@ == old(self).pads@,
            final(self).selected_index == old(self).selected_index,
            final(self).active_field == old(self).active_field,
            final(self).hovered_action == old(self).hovered_action,
            final(self).dropdown_open == old(self).dropdown_open,
            final(self).dropdown_scroll == old(self).dropdown_scroll,
            final(self).mouse_captured == old(self).mouse_captured,
            final(self).pending == old(self).pending,
    {
        match outcome {
            Ok(form) => {
                self.form = form;
                self.status = concat("Loaded ", filename);
                true
            },
            Err(error) => {
                self.status = error;
                false
            },
        }
    }

    /// The file name to save the form under, from the typed name; when
    /// nothing is left of it, the status asks for one and there is none.
    pub fn save_target(&mut self) -> (r: Option<String>)
        requires
            old(self).wf(),
        ensures
            final(self).wf(),
            match spec_safe_pad_filename(old(self).form.spec_value(Field::SaveName)) {
                Some(name) => r is Some && r->0@ == name && final(self).status@ == old(self).status@,
                None => r is None && final(self).status@ == "Enter a PAD filename"@,
            },
            final(self).pads@ == old(self).pads@,
            final(self).selected_index == old(self).selected_index,
            final(self).form == old(self).form,
            final(self).active_field == old(self).active_field,
            final(self).hovered_action == old(self).hovered_action,
            final(self).dropdown_open == old(self).dropdown_open,
            final(self).dropdown_scroll == old(self).dropdown_scroll,
            final(self).mouse_captured == old(self).mouse_captured,
            final(self).pending == old(self).pending,
    {
        let target = safe_pad_filename(self.form.value(Field::SaveName));
        if target.is_none() {
            self.status = "Enter a PAD filename".to_owned();
        }
        target
    }

    /// After the form was written to `filename`: the list is read again
    /// from `listing`, the saved file is selected if it is listed, and the
    /// status reports the save.
    pub fn saved(&mut self, filename: &str, listing: Result<Vec<String>, String>)
        requires
            old(self).wf(),
        ensures
            final(self).wf(),
            match listing {
                Ok(names) => is_stable_sort(pad_files(texts(names@)), texts(final(self).pads@)),
                Err(_) => final(self).pads@.len() == 0,
            },
            final(self).selected_index == match first_index(
                texts(final(self).pads@),
                |x: Seq<char>| x == filename@,
            ) {
                Some(i) => i,
                None => refreshed_selection(
                    if old(self).selected_index < old(self).pads@.len() {
                        Some(old(self).pads@[old(self).selected_index as int]@)
                    } else {
                        None
                    },
                    texts(final(self).pads@),
                ),
            },
            final(self).status@ == "Saved "@ + filename@,
            final(self).form == old(self).form,
            final(self).active_field == old(self).active_field,
            final(self).hovered_action == old(self).hovered_action,
            final(self).dropdown_open == old(self).dropdown_open,
            final(self).mouse_captured == old(self).mouse_captured,
            final(self).pending == old(self).pending,
    {
        self.refresh_pads(listing);
        let name = filename.to_owned();
        if let Some(index) = find_name(&self.pads, &name) {
            self.selected_index = index;
        }
        proof {
            assert((|x: Seq<char>| x == name@) =~= (|x: Seq<char>| x == filename@));
        }
        self.status = concat("Saved ", filename);
    }

    /// After the quick-save file was written: the list is read again from
    /// `listing` and the status reports the quick save.
    pub fn quick_saved(&mut self, listing: Result<Vec<String>, String>)
        requires
            old(self).wf(),
        ensures
            final(self).wf(),
            match listing {
                Ok(names) => is_stable_sort(pad_files(texts(names@)), texts(final(self).pads@)),
                Err(_) => final(self).pads@.len() == 0,
            },
            final(self).selected_index == refreshed_selection(
                if old(self).selected_index < old(self).pads@.len() {
                    Some(old(self).pads@[old(self).selected_index as int]@)
                } else {
                    None
                },
                texts(final(self).pads@),
            ),
            final(self).status@ == "Quick-saved current aircraft to QuickFile.pad"@,
            final(self).form == old(self).form,
            final(self).active_field == old(self).active_field,
            final(self).hovered_action == old(self).hovered_action,
            final(self).dropdown_open == old(self).dropdown_open,
            final(self).mouse_captured == old(self).mouse_captured,
            final(self).pending == old(self).pending,
    {
        self.refresh_pads(listing);
        self.status = "Quick-saved current aircraft to QuickFile.pad".to_owned();
    }

    /// Writing `filename` failed for `error`: the status says so.
    pub fn save_failed(&mut self, filename: &str, error: &str)
        requires
            old(self).wf(),
        ensures
            final(self).wf(),
            final(self).status@ == "Unable to write "@ + filename@ + ": "@ + error@,
            final(self).pads@ == old(self).pads@,
            final(self).selected_index == old(self).selected_index,
            final(self).form == old(self).form,
            final(self).active_field == old(self).active_field,
            final(self).hovered_action == old(self).hovered_action,
            final(self).dropdown_open == old(self).dropdown_open,
            final(self).dropdown_scroll == old(self).dropdown_scroll,
            final(self).mouse_captured == old(self).mouse_captured,
            final(self).pending == old(self).pending,
    {
        let head = concat("Unable to write ", filename);
        let head = concat(head.as_str(), ": ");
        self.status = concat(head.as_str(), error);
    }

    /// Applies a click's action to the window: any action but editing a field
    /// ends the edit and gives up the keyboard focus, and any but toggling,
    /// scrolling or picking from the drop-down list closes it; then the
    /// action itself. What needs files or the simulator is left as the
    /// returned follow-up.
    pub fn apply_ui_action(&mut self, action: UiAction) -> (r: UiOutcome)
        requires
            old(self).wf(),
            action matches UiAction::ScrollDropdown(delta) ==> old(self).pads@.len() <= isize::MAX
                && isize::MIN <= old(self).dropdown_scroll + delta <= isize::MAX,
        ensures
            final(self).wf(),
            final(self).pads@ == old(self).pads@,
            final(self).mouse_captured == old(self).mouse_captured,
            final(self).pending == old(self).pending,
            r.focus == if action is Edit { FocusChange::Take } else { FocusChange::Release },
            r.follow_up == spec_follow_up(action, old(self).dropdown_open, old(self).pads@.len()),
            final(self).active_field == match action {
                UiAction::Edit(field) => Some(field),
                _ => None,
            },
            final(self).dropdown_open == match action {
                UiAction::ToggleDropdown => !old(self).dropdown_open && old(self).pads@.len() > 0,
                UiAction::ScrollDropdown(_) => old(self).dropdown_open,
                _ => false,
            },
            final(self).hovered_action == if action is CloseDropdown {
                None
            } else {
                old(self).hovered_action
            },
            final(self).form.spec_values() == old(self).form.spec_values(),
            final(self).form.spec_use_ap() == (old(self).form.spec_use_ap() != action is ToggleAp),
            !(action is ToggleAp) ==> final(self).form == old(self).form,
            final(self).selected_index == match action {
                UiAction::SelectPad(index) => if index < old(self).pads@.len() {
                    index
                } else {
                    old(self).selected_index
                },
                _ => old(self).selected_index,
            },
            final(self).dropdown_scroll == match action {
                UiAction::ToggleDropdown => if !old(self).dropdown_open && old(self).pads@.len() > 0 {
                    centred_scroll(old(self).selected_index as int, old(self).pads@.len() as int) as usize
                } else {
                    old(self).dropdown_scroll
                },
                UiAction::ScrollDropdown(delta) => clamped_scroll(
                    old(self).dropdown_scroll + delta,
                    max_scroll(old(self).pads@.len() as usize) as int,
                ) as usize,
                _ => old(self).dropdown_scroll,
            },
            final(self).status@ == match action {
                UiAction::SelectPad(index) => if index < old(self).pads@.len() {
                    "Selected "@ + old(self).pads@[index as int]@
                } else {
                    old(self).status@
                },
                UiAction::Edit(field) => "Editing "@ + field_label_text(field) + "; press Enter when done"@,
                _ => old(self).status@,
            },
    {
        let focus = match action {
            UiAction::Edit(_) => FocusChange::Take,
            _ => FocusChange::Release,
        };
        match action {
            UiAction::Edit(_) => {},
            UiAction::ToggleDropdown | UiAction::ScrollDropdown(_) | UiAction::SelectPad(_) => {
                self.active_field = None;
            },
            _ => {
                self.active_field = None;
                self.dropdown_open = false;
            },
        }
        let follow_up = match action {
            UiAction::Command(command) => UiFollowUp::Command(command),
            UiAction::LoadSelected(position) => UiFollowUp::LoadSelected(position),
            UiAction::SaveNamed => UiFollowUp::SaveNamed,
            UiAction::Refresh => UiFollowUp::Refresh,
            UiAction::ToggleAp => {
                self.form.toggle_ap();
                UiFollowUp::Nothing
            },
            UiAction::ToggleDropdown => {
                if self.dropdown_open {
                    self.dropdown_open = false;
                    UiFollowUp::Nothing
                } else if self.pads.len() == 0 {
                    UiFollowUp::ListThenOpen
                } else {
                    self.open_dropdown();
                    UiFollowUp::Nothing
                }
            },
            UiAction::CloseDropdown => {
                self.dropdown_open = false;
                self.hovered_action = None;
                UiFollowUp::Nothing
            },
            UiAction::ScrollDropdown(delta) => {
                self.scroll_dropdown(delta);
                UiFollowUp::Nothing
            },
            UiAction::SelectPad(index) => {
                self.select_pad(index);
                UiFollowUp::Nothing
            },
            UiAction::Edit(field) => {
                self.dropdown_open = false;
                self.active_field = Some(field);
                let head = concat("Editing ", field_label(field));
                self.status = concat(head.as_str(), "; press Enter when done");
                UiFollowUp::Nothing
            },
        };
        UiOutcome { focus, follow_up }
    }

    /// Fills the list from `listing` (see `refresh_pads`) and opens the
    /// drop-down list on it.
    pub fn open_with_listing(&mut self, listing: Result<Vec<String>, String>)
        requires
            old(self).wf(),
        ensures
            final(self).wf(),
            match listing {
                Ok(names) => is_stable_sort(pad_files(texts(names@)), texts(final(self).pads@)),
                Err(_) => final(self).pads@.len() == 0,
            },
            final(self).selected_index == refreshed_selection(
                if old(self).selected_index < old(self).pads@.len() {
                    Some(old(self).pads@[old(self).selected_index as int]@)
                } else {
                    None
                },
                texts(final(self).pads@),
            ),
            final(self).status@ == refreshed_status(old(self).status@, listing, final(self).pads@.len()),
            final(self).dropdown_open,
            final(self).dropdown_scroll == centred_scroll(
                final(self).selected_index as int,
                final(self).pads@.len() as int,
            ),
            final(self).form == old(self).form,
            final(self).active_field == old(self).active_field,
            final(self).hovered_action == old(self).hovered_action,
            final(self).mouse_captured == old(self).mouse_captured,
            final(self).pending == old(self).pending,
    {
        self.refresh_pads(listing);
        self.open_dropdown();
    }

    /// The window was hidden: editing, hovering and the drop-down list end.
    pub fn window_hidden(&mut self)
        requires
            old(self).wf(),
        ensures
            final(self).wf(),
            final(self).active_field is None,
            final(self).hovered_action is None,
            !final(self).dropdown_open,
            final(self).pads@ == old(self).pads@,
            final(self).selected_index == old(self).selected_index,
            final(self).form == old(self).form,
            final(self).status@ == old(self).status@,
            final(self).dropdown_scroll == old(self).dropdown_scroll,
            final(self).mouse_captured == old(self).mouse_captured,
            final(self).pending == old(self).pending,
    {
        self.active_field = None;
        self.hovered_action = None;
        self.dropdown_open = false;
    }

    /// A mouse button went down at window-local (`x`, `y`): the action under
    /// it, if any; the window keeps the drag and release that follow only
    /// when there is one.
    pub fn mouse_down(&mut self, x: i32, y: i32, width: i32) -> (r: Option<UiAction>)
        requires
            old(self).wf(),
            hit_test_fits(old(self).dropdown_open, old(self).pads@.len() as usize, old(self).dropdown_scroll, width as int),
        ensures
            final(self).wf(),
            r == spec_hit_test(
                old(self).dropdown_open,
                old(self).pads@.len() as usize,
                old(self).dropdown_scroll,
                x as int,
                y as int,
                width as int,
            ),
            final(self).mouse_captured == r is Some,
            final(self).pads@ == old(self).pads@,
            final(self).selected_index == old(self).selected_index,
            final(self).form == old(self).form,
            final(self).status@ == old(self).status@,
            final(self).active_field == old(self).active_field,
            final(self).hovered_action == old(self).hovered_action,
            final(self).dropdown_open == old(self).dropdown_open,
            final(self).dropdown_scroll == old(self).dropdown_scroll,
            final(self).pending == old(self).pending,
    {
        let action = self.hit_test(x, y, width);
        self.mouse_captured = action.is_some();
        action
    }

    /// The mouse was dragged (`released` false) or its button released:
    /// whether the window handles it, which it does while it keeps the
    /// mouse; a release ends that.
    pub fn mouse_drag_or_release(&mut self, released: bool) -> (r: bool)
        requires
            old(self).wf(),
        ensures
            final(self).wf(),
            r == old(self).mouse_captured,
            final(self).mouse_captured == (old(self).mouse_captured && !released),
            final(self).pads@ == old(self).pads@,
            final(self).selected_index == old(self).selected_index,
            final(self).form == old(self).form,
            final(self).status@ == old(self).status@,
            final(self).active_field == old(self).active_field,
            final(self).hovered_action == old(self).hovered_action,
            final(self).dropdown_open == old(self).dropdown_open,
            final(self).dropdown_scroll == old(self).dropdown_scroll,
            final(self).pending == old(self).pending,
    {
        let captured = self.mouse_captured;
        if released {
            self.mouse_captured = false;
        }
        captured
    }

    /// The pointer moved to window-local (`x`, `y`): the action under it is
    /// shown as hovered (but for closing the list); whether there is one.
    pub fn cursor_moved(&mut self, x: i32, y: i32, width: i32) -> (r: bool)
        requires
            old(self).wf(),
            hit_test_fits(old(self).dropdown_open, old(self).pads@.len() as usize, old(self).dropdown_scroll, width as int),
        ensures
            final(self).wf(),
            final(self).hovered_action == hover_of(
                spec_hit_test(
                    old(self).dropdown_open,
                    old(self).pads@.len() as usize,
                    old(self).dropdown_scroll,
                    x as int,
                    y as int,
                    width as int,
                ),
            ),
            r == final(self).hovered_action is Some,
            final(self).pads@ == old(self).pads@,
            final(self).selected_index == old(self).selected_index,
            final(self).form == old(self).form,
            final(self).status@ == old(self).status@,
            final(self).active_field == old(self).active_field,
            final(self).dropdown_open == old(self).dropdown_open,
            final(self).dropdown_scroll == old(self).dropdown_scroll,
            final(self).mouse_captured == old(self).mouse_captured,
            final(self).pending == old(self).pending,
    {
        let action = self.hit_test(x, y, width);
        self.hovered_action = match action {
            Some(UiAction::CloseDropdown) => None,
            other => other,
        };
        self.hovered_action.is_some()
    }

    /// The mouse wheel turned `clicks` notches (on wheel 0, the vertical one)
    /// at window-local (`x`, `y`): while the list is open it scrolls a row
    /// per notch, up for positive notches, and the hovered action follows
    /// the pointer; whether the window handled it.
    pub fn wheel(&mut self, x: i32, y: i32, width: i32, wheel: i32, clicks: i32) -> (r: bool)
        requires
            old(self).wf(),
            old(self).pads@.len() <= isize::MAX,
            isize::MIN <= old(self).dropdown_scroll - clicks <= isize::MAX,
            forall|scroll: usize|
                scroll <= max_scroll(old(self).pads@.len() as usize) ==> #[trigger] hit_test_fits(
                    old(self).dropdown_open,
                    old(self).pads@.len() as usize,
                    scroll,
                    width as int,
                ),
        ensures
            final(self).wf(),
            r == (wheel == 0 && clicks != 0 && old(self).dropdown_open),
            r ==> final(self).dropdown_scroll == clamped_scroll(
                old(self).dropdown_scroll - clicks,
                max_scroll(old(self).pads@.len() as usize) as int,
            ) && final(self).hovered_action == hover_of(
                spec_hit_test(
                    true,
                    old(self).pads@.len() as usize,
                    final(self).dropdown_scroll,
                    x as int,
                    y as int,
                    width as int,
                ),
            ),
            !r ==> final(self).dropdown_scroll == old(self).dropdown_scroll
                && final(self).hovered_action == old(self).hovered_action,
            final(self).pads@ == old(self).pads@,
            final(self).selected_index == old(self).selected_index,
            final(self).form == old(self).form,
            final(self).status@ == old(self).status@,
            final(self).active_field == old(self).active_field,
            final(self).dropdown_open == old(self).dropdown_open,
            final(self).mouse_captured == old(self).mouse_captured,
            final(self).pending == old(self).pending,
    {
        if wheel != 0 || clicks == 0 {
            return false;
        }
        if !self.dropdown_open {
            return false;
        }
        let delta: isize = -(clicks as isize);
        self.scroll_dropdown(delta);
        let action = self.hit_test(x, y, width);
        self.hovered_action = match action {
            Some(UiAction::CloseDropdown) => None,
            other => other,
        };
        true
    }

    /// What a click at window-local (`x`, `y`) asks for in a window `width`
    /// pixels wide, given whether the list is open, its length and scroll.
    pub fn hit_test(&self, x: i32, y: i32, width: i32) -> (r: Option<UiAction>)
        requires
            hit_test_fits(self.dropdown_open, self.pads@.len() as usize, self.dropdown_scroll, width as int),
        ensures
            r == spec_hit_test(
                self.dropdown_open,
                self.pads@.len() as usize,
                self.dropdown_scroll,
                x as int,
                y as int,
                width as int,
            ),
    {
        hit_test(self.dropdown_open, self.pads.len(), self.dropdown_scroll, x, y, width)
    }

    /// Starts the re-application of a position that was just set.
    pub fn start_reapply(&mut self)
        requires
            old(self).wf(),
        ensures
            final(self).wf(),
            final(self).pending == Some(
                PendingReapply { wait_frames: REAPPLY_WAIT_FRAMES, remaining_frames: REAPPLY_FRAMES },
            ),
            final(self).pads@ == old(self).pads@,
            final(self).selected_index == old(self).selected_index,
            final(self).form == old(self).form,
            final(self).status@ == old(self).status@,
            final(self).active_field == old(self).active_field,
            final(self).hovered_action == old(self).hovered_action,
            final(self).dropdown_open == old(self).dropdown_open,
            final(self).dropdown_scroll == old(self).dropdown_scroll,
            final(self).mouse_captured == old(self).mouse_captured,
    {
        self.pending = Some(PendingReapply::new());
    }

    /// One flight-loop frame: counts the pending re-application down and says
    /// whether the position is to be applied again on this frame.
    pub fn reapply_step(&mut self) -> (r: bool)
        requires
            old(self).wf(),
        ensures
            final(self).wf(),
            (final(self).pending, r) == spec_reapply_step(old(self).pending),
            final(self).pads@ == old(self).pads@,
            final(self).selected_index == old(self).selected_index,
            final(self).form == old(self).form,
            final(self).status@ == old(self).status@,
            final(self).active_field == old(self).active_field,
            final(self).hovered_action == old(self).hovered_action,
            final(self).dropdown_open == old(self).dropdown_open,
            final(self).dropdown_scroll == old(self).dropdown_scroll,
            final(self).mouse_captured == old(self).mouse_captured,
    {
        match self.pending {
            None => false,
            Some(p) => {
                if p.wait_frames > 0 {
                    self.pending = Some(PendingReapply { wait_frames: p.wait_frames - 1, ..p });
                    false
                } else {
                    let remaining = p.remaining_frames - 1;
                    if remaining > 0 {
                        self.pending = Some(PendingReapply { remaining_frames: remaining, ..p });
                    } else {
                        self.pending = None;
                    }
                    true
                }
            },
        }
    }

    /// A key typed while a field is edited: Enter ends the edit, Escape
    /// abandons it, Backspace or Delete removes the last character, and a
    /// printable ASCII character is appended when the text is shorter than
    /// 63 bytes and the field takes it (any such character for the file name,
    /// digits, signs, `.`, `e` and `E` for the numbers). Keys are ignored
    /// unless pressed down while a field is edited; losing the keyboard focus
    /// ends the edit.
    pub fn handle_key(&mut self, key: u8, virtual_key: u8, key_down: bool, losing_focus: bool) -> (r:
        FocusChange)
        requires
            old(self).wf(),
        ensures
            final(self).wf(),
            final(self).pads@ == old(self).pads@,
            final(self).selected_index == old(self).selected_index,
            final(self).form.spec_use_ap() == old(self).form.spec_use_ap(),
            final(self).hovered_action == old(self).hovered_action,
            final(self).dropdown_open == old(self).dropdown_open,
            final(self).dropdown_scroll == old(self).dropdown_scroll,
            final(self).mouse_captured == old(self).mouse_captured,
            final(self).pending == old(self).pending,
            losing_focus ==> final(self).active_field is None && r == FocusChange::Keep
                && final(self).form == old(self).form && final(self).status@ == old(self).status@,
            !losing_focus && (!key_down || old(self).active_field is None) ==> final(self).active_field
                == old(self).active_field && r == FocusChange::Keep && final(self).form == old(self).form
                && final(self).status@ == old(self).status@,
            !losing_focus && key_down && old(self).active_field is Some ==> ({
                let field = old(self).active_field->0;
                let text = old(self).form.spec_value(field);
                let values = old(self).form.spec_values();
                let changed = final(self).form.spec_values();
                if key == 13 || virtual_key == 13 {
                    &&& final(self).active_field is None
                    &&& r == FocusChange::Release
                    &&& final(self).form == old(self).form
                    &&& final(self).status@ == "Finished editing "@ + field_label_text(field)
                } else if key == 27 || virtual_key == 27 {
                    &&& final(self).active_field is None
                    &&& r == FocusChange::Release
                    &&& final(self).form == old(self).form
                    &&& final(self).status@ == old(self).status@
                } else {
                    &&& final(self).active_field == old(self).active_field
                    &&& r == FocusChange::Keep
                    &&& final(self).status@ == old(self).status@
                    &&& changed.len() == values.len()
                    &&& forall|i: int| 0 <= i < values.len() && i != field_index(field) ==> changed[i] == values[i]
                    &&& final(self).form.spec_value(field) == edited_text(field, text, key, virtual_key)
                }
            }),
    {
        if losing_focus {
            self.active_field = None;
            return FocusChange::Keep;
        }
        if !key_down {
            return FocusChange::Keep;
        }
        let field = match self.active_field {
            Some(field) => field,
            None => return FocusChange::Keep,
        };
        if key == 13 || virtual_key == 13 {
            self.active_field = None;
            self.status = concat("Finished editing ", field_label(field));
            return FocusChange::Release;
        }
        if key == 27 || virtual_key == 27 {
            self.active_field = None;
            return FocusChange::Release;
        }
        let value = self.form.value_mut(field);
        if key == 8 || virtual_key == 8 || virtual_key == 127 {
            let _ = string_pop(value);
            return FocusChange::Keep;
        }
        if value.as_str().len() >= MAX_FIELD_BYTES || !(32 <= key && key <= 126) {
            return FocusChange::Keep;
        }
        let character = key as char;
        if field == Field::SaveName || ('0' <= character && character <= '9') || character == '+'
            || character == '-' || character == '.' || character == 'e' || character == 'E' {
            string_push(value, character);
        }
        FocusChange::Keep
    }
}

/// A position just set is applied again on exactly the frames after the
/// wait, as many times as the applications it counts, and then the
/// re-application ends.
pub proof fn lemma_reapply_schedule(p: PendingReapply, n: nat)
    requires
        p.wf(),
    ensures
        reapplied_on(Some(p), n) <==> p.wait_frames <= n < p.wait_frames + p.remaining_frames,
        n >= p.wait_frames + p.remaining_frames ==> reapply_after(Some(p), n) is None,
    decreases n,
{
    if n > 0 {
        let next = spec_reapply_step(Some(p)).0;
        match next {
            Some(q) => {
                lemma_reapply_schedule(q, (n - 1) as nat);
            },
            None => {
                lemma_reapply_idle((n - 1) as nat);
            },
        }
    }
}

/// Typing a character that a field takes and then Backspace gives the
/// field its text back.
pub proof fn lemma_backspace_undoes_typing(field: Field, text: Seq<char>, key: u8)
    requires
        edited_text(field, text, key, key) != text,
        key != 8 && key != 127,
    ensures
        edited_text(field, edited_text(field, text, key, key), 8, 8) == text,
{
    assert(text.push(key as char).drop_last() =~= text);
}

/// Every character a number needs — the digits, both signs, the decimal
/// point and the exponent marks — is appended to the field being edited,
/// whichever it is, while its text is shorter than `MAX_FIELD_BYTES` bytes:
/// a western longitude or a negative pitch, roll or vertical speed can be
/// typed, a leading `-` included.
pub proof fn lemma_number_characters_are_typed(field: Field, text: Seq<char>, key: u8, virtual_key: u8)
    requires
        48 <= key <= 57 || key == 43 || key == 45 || key == 46 || key == 101 || key == 69,
        virtual_key != 8 && virtual_key != 127,
        encode_utf8(text).len() < MAX_FIELD_BYTES,
    ensures
        edited_text(field, text, key, virtual_key) == text.push(key as char),
        key == 45 ==> edited_text(field, text, key, virtual_key) == text.push('-'),
        key == 45 && text.len() == 0 ==> edited_text(field, text, key, virtual_key) == seq!['-'],
{
    assert(encode_utf8(text).len() as usize == encode_utf8(text).len());
    if key == 45 {
        assert(key as char == '-');
        assert(Seq::<char>::empty().push('-') =~= seq!['-']);
    }
}

/// Stepping the selection one PAD forward and then one back, or back and
/// then forward, selects the PAD it started from, in a list of any length.
pub proof fn lemma_relative_steps_undo(index: int, len: int)
    requires
        0 <= index < len,
    ensures
        relative_index(relative_index(index, 1, len), -1, len) == index,
        relative_index(relative_index(index, -1, len), 1, len) == index,
{
    lemma_small_mod(index as nat, len as nat);
    if index + 1 < len {
        lemma_small_mod((index + 1) as nat, len as nat);
    } else {
        lemma_mod_sub_multiples_vanish(len, len);
        lemma_small_mod(0, len as nat);
    }
    lemma_mod_sub_multiples_vanish(len - 1, len);
    lemma_small_mod((len - 1) as nat, len as nat);
    if index > 0 {
        lemma_small_mod((index - 1) as nat, len as nat);
    } else {
        lemma_mod_sub_multiples_vanish(len, len);
        lemma_small_mod(0, len as nat);
    }
}

/// After the list is read again, the PAD that was selected stays selected
/// wherever it now stands, as long as it is still listed.
pub proof fn lemma_refresh_keeps_selected_pad(name: Seq<char>, pads: Seq<Seq<char>>)
    requires
        pads.contains(name),
    ensures
        0 <= refreshed_selection(Some(name), pads) < pads.len(),
        pads[refreshed_selection(Some(name), pads)] == name,
{
    let old_name = Some(name);
    let pred = |x: Seq<char>| x == old_name->0;
    let j = choose|j: int| 0 <= j < pads.len() && pads[j] == name;
    lemma_first_index_found(pads, pred, j);
}

/// With nothing selected before, or the selected PAD gone, the quick-save
/// file is selected after the list is read again, if it is listed.
pub proof fn lemma_refresh_falls_back_to_quick_file(old_name: Option<Seq<char>>, pads: Seq<Seq<char>>, j: int)
    requires
        0 <= j < pads.len(),
        eq_ignore_ascii_case(pads[j], quick_file()),
        old_name matches Some(name) ==> !pads.contains(name),
    ensures
        0 <= refreshed_selection(old_name, pads) <= j,
        eq_ignore_ascii_case(pads[refreshed_selection(old_name, pads)], quick_file()),
{
    if old_name is Some {
        let pred = |x: Seq<char>| x == old_name->0;
        assert forall|k: int| 0 <= k < pads.len() implies !pred(#[trigger] pads[k]) by {
            if pads[k] == old_name->0 {
                assert(pads.contains(old_name->0));
            }
        }
        lemma_first_index(pads, pred, pads.len() as int);
    }
    lemma_first_index_found(pads, |x: Seq<char>| eq_ignore_ascii_case(x, quick_file()), j);
}

/// Once nothing is pending, nothing is ever applied again.
proof fn lemma_reapply_idle(n: nat)
    ensures
        reapply_after(None, n) is None,
    decreases n,
{
    if n > 0 {
        lemma_reapply_idle((n - 1) as nat);
    }
}

} // verus!
