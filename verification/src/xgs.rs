//! The landing-speed overlay's settings: the file that remembers them, the
//! plugin menu that changes them, and keeping the overlay on screen.
use vstd::prelude::*;
use crate::numbers::{
    i32_text, i32_to_text, is_digit, lemma_decimal_digits, lemma_i32_text_round_trip,
    lemma_usize_text_round_trip, parse_i32, parse_usize, spec_parse_i32, spec_parse_usize, split_words,
    word_len, words,
};
use crate::text::{concat, decimal, is_space, string_from_chars, usize_to_decimal};

verus! {

/// Number of choices of how long the overlay stays up.
pub const SHOW_DURATION_COUNT: usize = 5;
/// Height of the overlay window.
pub const OVERLAY_HEIGHT: i32 = 170;
/// Menu item that switches the landing log on or off.
pub const MENU_LOG: usize = 1;
/// Menu item that switches the overlay in replays on or off.
pub const MENU_REPLAY: usize = 2;
/// Menu item of the first display duration; the others follow it.
pub const MENU_DURATION_BASE: usize = 10;
/// Menu item that shows a sample landing.
pub const MENU_PREVIEW: usize = 100;

/// The overlay's settings.
#[derive(Clone, Copy, Debug, PartialEq, Eq, Structural)]
pub struct XgsSettings {
    pub window_x: i32,
    pub window_y: i32,
    pub log_enabled: bool,
    /// Index into the display durations (5, 10, 30, 60 seconds, until closed).
    pub show_duration_index: usize,
    pub show_in_replay: bool,
}

/// The settings before any were saved.
pub open spec fn default_settings() -> XgsSettings {
    XgsSettings {
        window_x: 20,
        window_y: 600,
        log_enabled: false,
        show_duration_index: 3,
        show_in_replay: false,
    }
}

/// The settings file's text read: five words or more, the window position,
/// the log switch, the duration index (at most the last) and the replay
/// switch; a word that is not a number keeps that setting's default (off
/// for the switches, which are on for any number but 0). Fewer words leave
/// all the defaults.
pub open spec fn spec_settings_from_text(text: Seq<char>) -> XgsSettings {
    let w = words(text);
    if w.len() >= 5 {
        let index: usize = match spec_parse_usize(w[3]) {
            Some(v) => v,
            None => 3,
        };
        XgsSettings {
            window_x: match spec_parse_i32(w[0]) {
                Some(v) => v,
                None => 20,
            },
            window_y: match spec_parse_i32(w[1]) {
                Some(v) => v,
                None => 600,
            },
            log_enabled: match spec_parse_i32(w[2]) {
                Some(v) => v != 0,
                None => false,
            },
            show_duration_index: if index < SHOW_DURATION_COUNT - 1 {
                index
            } else {
                (SHOW_DURATION_COUNT - 1) as usize
            },
            show_in_replay: match spec_parse_i32(w[4]) {
                Some(v) => v != 0,
                None => false,
            },
        }
    } else {
        default_settings()
    }
}

/// The switch as the settings file writes it.
pub open spec fn switch_text(on: bool) -> Seq<char> {
    if on { "1"@ } else { "0"@ }
}

/// The settings file's text: the five settings separated by spaces.
pub open spec fn spec_settings_text(s: XgsSettings) -> Seq<char> {
    i32_text(s.window_x as int) + " "@ + i32_text(s.window_y as int) + " "@ + switch_text(s.log_enabled)
        + " "@ + decimal(s.show_duration_index as nat) + " "@ + switch_text(s.show_in_replay)
}

/// What a click on a menu item asks for.
#[derive(Clone, Copy, Debug, PartialEq, Eq, Structural)]
pub enum MenuOutcome {
    /// Not an item of this menu.
    Ignored,
    /// A setting changed: the menu's checks are updated and the settings saved.
    Changed,
    /// Show the sample landing, then update the checks and save.
    Preview,
}

impl XgsSettings {
    /// The settings before any were saved.
    pub fn new() -> (r: XgsSettings)
        ensures
            r == default_settings(),
    {
        XgsSettings {
            window_x: 20,
            window_y: 600,
            log_enabled: false,
            show_duration_index: 3,
            show_in_replay: false,
        }
    }

    /// The settings held by a settings file's text.
    pub fn from_text(text: &str) -> (r: XgsSettings)
        ensures
            r == spec_settings_from_text(text@),
    {
        let w = split_words(text);
        if w.len() < 5 {
            return XgsSettings::new();
        }
        let window_x = match parse_i32(w[0].as_str()) {
            Some(v) => v,
            None => 20,
        };
        let window_y = match parse_i32(w[1].as_str()) {
            Some(v) => v,
            None => 600,
        };
        let log_enabled = match parse_i32(w[2].as_str()) {
            Some(v) => v != 0,
            None => false,
        };
        let index = match parse_usize(w[3].as_str()) {
            Some(v) => v,
            None => 3,
        };
        let show_in_replay = match parse_i32(w[4].as_str()) {
            Some(v) => v != 0,
            None => false,
        };
        XgsSettings {
            window_x,
            window_y,
            log_enabled,
            show_duration_index: if index < SHOW_DURATION_COUNT - 1 {
                index
            } else {
                SHOW_DURATION_COUNT - 1
            },
            show_in_replay,
        }
    }

    /// The text the settings are saved as.
    pub fn text(&self) -> (r: String)
        ensures
            r@ == spec_settings_text(*self),
    {
        let t = concat(i32_to_text(self.window_x).as_str(), " ");
        let t = concat(t.as_str(), i32_to_text(self.window_y).as_str());
        let t = concat(t.as_str(), " ");
        let t = concat(t.as_str(), if self.log_enabled { "1" } else { "0" });
        let t = concat(t.as_str(), " ");
        let t = concat(t.as_str(), string_from_chars(&usize_to_decimal(self.show_duration_index)).as_str());
        let t = concat(t.as_str(), " ");
        concat(t.as_str(), if self.show_in_replay { "1" } else { "0" })
    }

    /// A click on menu item `item`: the log and replay items switch their
    /// setting, a duration item selects its duration, the preview item asks
    /// for the sample landing; any other item is not this menu's.
    pub fn menu_choice(&mut self, item: usize) -> (r: MenuOutcome)
        ensures
            item == MENU_LOG ==> r == MenuOutcome::Changed && *final(self) == (XgsSettings {
                log_enabled: !old(self).log_enabled,
                ..*old(self)
            }),
            item == MENU_REPLAY ==> r == MenuOutcome::Changed && *final(self) == (XgsSettings {
                show_in_replay: !old(self).show_in_replay,
                ..*old(self)
            }),
            item == MENU_PREVIEW ==> r == MenuOutcome::Preview && *final(self) == *old(self),
            MENU_DURATION_BASE <= item < MENU_DURATION_BASE + SHOW_DURATION_COUNT ==> r
                == MenuOutcome::Changed && *final(self) == (XgsSettings {
                show_duration_index: (item - MENU_DURATION_BASE) as usize,
                ..*old(self)
            }),
            item != MENU_LOG && item != MENU_REPLAY && item != MENU_PREVIEW && !(MENU_DURATION_BASE
                <= item < MENU_DURATION_BASE + SHOW_DURATION_COUNT) ==> r == MenuOutcome::Ignored
                && *final(self) == *old(self),
    {
        if item == MENU_LOG {
            self.log_enabled = !self.log_enabled;
            MenuOutcome::Changed
        } else if item == MENU_REPLAY {
            self.show_in_replay = !self.show_in_replay;
            MenuOutcome::Changed
        } else if item == MENU_PREVIEW {
            MenuOutcome::Preview
        } else if MENU_DURATION_BASE <= item && item < MENU_DURATION_BASE + SHOW_DURATION_COUNT {
            self.show_duration_index = item - MENU_DURATION_BASE;
            MenuOutcome::Changed
        } else {
            MenuOutcome::Ignored
        }
    }
}

/// The overlay's top-left corner moved onto the screen bounded by `left`,
/// `top`, `right` and `bottom`: the whole width inside when it fits, else
/// against the left edge; the whole height inside when it fits, else
/// against the top edge.
pub open spec fn spec_visible_position(x: int, y: int, width: int, left: int, top: int, right: int, bottom: int) -> (int, int) {
    let max_x = if right - width > left { right - width } else { left };
    let min_y = if bottom + OVERLAY_HEIGHT < top { bottom + OVERLAY_HEIGHT } else { top };
    (
        if x < left { left } else if x > max_x { max_x } else { x },
        if y < min_y { min_y } else if y > top { top } else { y },
    )
}

/// The overlay's position kept on screen.
pub fn visible_position(x: i32, y: i32, width: i32, left: i32, top: i32, right: i32, bottom: i32) -> (r: (i32, i32))
    requires
        i32::MIN <= right - width <= i32::MAX,
        bottom + OVERLAY_HEIGHT <= i32::MAX,
    ensures
        (r.0 as int, r.1 as int) == spec_visible_position(
            x as int,
            y as int,
            width as int,
            left as int,
            top as int,
            right as int,
            bottom as int,
        ),
{
    let max_x = if right - width > left { right - width } else { left };
    let min_y = if bottom + OVERLAY_HEIGHT < top { bottom + OVERLAY_HEIGHT } else { top };
    (
        if x < left { left } else if x > max_x { max_x } else { x },
        if y < min_y { min_y } else if y > top { top } else { y },
    )
}

proof fn lemma_words_cons(a: Seq<char>, rest: Seq<char>)
    requires
        a.len() > 0,
        forall|i: int| 0 <= i < a.len() ==> !is_space(#[trigger] a[i]),
    ensures
        words(a + " "@ + rest) == seq![a] + words(rest),
{
    reveal_strlit(" ");
    let s = a + " "@ + rest;
    lemma_word_len_prefix(a, seq![' '] + rest);
    assert(s =~= a + (seq![' '] + rest));
    assert(word_len(seq![' '] + rest) == 0);
    assert(s.take(a.len() as int) =~= a);
    let after = s.skip(a.len() as int);
    assert(after =~= seq![' '] + rest);
    assert(after.drop_first() =~= rest);
    assert(s[0] == a[0]);
    assert(word_len(s) == a.len());
    assert(is_space(after[0]));
    assert(words(after) == words(after.drop_first()));
    assert(words(s) == seq![s.take(a.len() as int)] + words(after));
}

proof fn lemma_words_single(a: Seq<char>)
    requires
        a.len() > 0,
        forall|i: int| 0 <= i < a.len() ==> !is_space(#[trigger] a[i]),
    ensures
        words(a) == seq![a],
{
    lemma_word_len_prefix(a, Seq::empty());
    assert(a + Seq::<char>::empty() =~= a);
    assert(a.take(a.len() as int) =~= a);
    assert(a.skip(a.len() as int) =~= Seq::<char>::empty());
    assert(word_len(a) == a.len());
    assert(words(Seq::<char>::empty()) == Seq::<Seq<char>>::empty());
    assert(words(a) == seq![a.take(a.len() as int)] + words(a.skip(a.len() as int)));
    assert(seq![a] + Seq::<Seq<char>>::empty() =~= seq![a]);
}

proof fn lemma_word_len_prefix(a: Seq<char>, b: Seq<char>)
    requires
        forall|i: int| 0 <= i < a.len() ==> !is_space(#[trigger] a[i]),
    ensures
        word_len(a + b) == a.len() + word_len(b),
    decreases a.len(),
{
    if a.len() > 0 {
        assert((a + b).drop_first() =~= a.drop_first() + b);
        assert forall|i: int| 0 <= i < a.drop_first().len() implies !is_space(#[trigger] a.drop_first()[i]) by {
            assert(a.drop_first()[i] == a[i + 1]);
        }
        lemma_word_len_prefix(a.drop_first(), b);
        assert((a + b)[0] == a[0]);
    } else {
        assert(a + b =~= b);
    }
}

proof fn lemma_number_text_is_a_word(v: int)
    requires
        i32::MIN <= v <= i32::MAX,
    ensures
        i32_text(v).len() > 0,
        forall|i: int| 0 <= i < i32_text(v).len() ==> !is_space(#[trigger] i32_text(v)[i]),
{
    if v < 0 {
        lemma_decimal_digits((-v) as nat);
        let s = i32_text(v);
        assert forall|i: int| 0 <= i < s.len() implies !is_space(#[trigger] s[i]) by {
            if i > 0 {
                assert(s[i] == decimal((-v) as nat)[i - 1]);
                assert(is_digit(decimal((-v) as nat)[i - 1]));
            }
        }
    } else {
        lemma_decimal_digits(v as nat);
        assert forall|i: int| 0 <= i < i32_text(v).len() implies !is_space(#[trigger] i32_text(v)[i]) by {
            assert(is_digit(decimal(v as nat)[i]));
        }
    }
}

/// Saved settings are read back as they were (the duration index being one
/// of the durations).
pub proof fn lemma_settings_round_trip(s: XgsSettings)
    requires
        s.show_duration_index < SHOW_DURATION_COUNT,
    ensures
        spec_settings_from_text(spec_settings_text(s)) == s,
{
    reveal_strlit("1");
    reveal_strlit("0");
    let t0 = i32_text(s.window_x as int);
    let t1 = i32_text(s.window_y as int);
    let t2 = switch_text(s.log_enabled);
    let t3 = decimal(s.show_duration_index as nat);
    let t4 = switch_text(s.show_in_replay);
    lemma_number_text_is_a_word(s.window_x as int);
    lemma_number_text_is_a_word(s.window_y as int);
    lemma_number_text_is_a_word(s.show_duration_index as int);
    assert(i32_text(s.show_duration_index as int) == t3);
    assert(t2.len() == 1 && !is_space(t2[0]));
    assert(t4.len() == 1 && !is_space(t4[0]));
    lemma_words_single(t4);
    lemma_words_cons(t3, t4);
    lemma_words_cons(t2, t3 + " "@ + t4);
    lemma_words_cons(t1, t2 + " "@ + t3 + " "@ + t4);
    lemma_words_cons(t0, t1 + " "@ + t2 + " "@ + t3 + " "@ + t4);
    let text = spec_settings_text(s);
    assert(text =~= t0 + " "@ + (t1 + " "@ + t2 + " "@ + t3 + " "@ + t4));
    assert(t1 + " "@ + t2 + " "@ + t3 + " "@ + t4 =~= t1 + " "@ + (t2 + " "@ + t3 + " "@ + t4));
    assert(t2 + " "@ + t3 + " "@ + t4 =~= t2 + " "@ + (t3 + " "@ + t4));
    let w = words(text);
    assert(w =~= seq![t0, t1, t2, t3, t4]);
    lemma_i32_text_round_trip(s.window_x);
    lemma_i32_text_round_trip(s.window_y);
    lemma_usize_text_round_trip(s.show_duration_index);
    lemma_i32_text_round_trip(if s.log_enabled { 1i32 } else { 0i32 });
    lemma_i32_text_round_trip(if s.show_in_replay { 1i32 } else { 0i32 });
    assert(t2 =~= i32_text(if s.log_enabled { 1int } else { 0int }));
    assert(t4 =~= i32_text(if s.show_in_replay { 1int } else { 0int }));
}

} // verus!
