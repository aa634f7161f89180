//! The power-off 180 video HUD plugin: its lifecycle and the flight it
//! follows.
use vstd::prelude::*;
use crate::numbers::{all_digits, split_words, words};
use crate::pad_list::{first_index, lemma_first_index};
use crate::lines::{index_of_char, split_lines, text_lines};
use crate::text::{chars_of, concat, string_from_chars};

verus! {

/// What the HUD plugin keeps between frames, beside the drawing state.
#[derive(Clone, Copy, Debug, PartialEq, Eq, Structural)]
pub struct HudSession {
    /// Drawing is enabled.
    pub enabled: bool,
    /// Run token of the flight being drawn, -1 before the first one.
    pub token: i32,
    /// The approach leg has been activated in the FMS.
    pub nav_ready: bool,
    /// The published `navigation_ready` value.
    pub navigation_ready: i32,
}

/// The session of a freshly started HUD: enabled, no flight yet.
pub open spec fn spec_new_session() -> HudSession {
    HudSession { enabled: true, token: -1i32, nav_ready: false, navigation_ready: 0 }
}

/// A freshly started HUD session.
pub fn new_session() -> (r: HudSession)
    ensures
        r == spec_new_session(),
{
    HudSession { enabled: true, token: -1, nav_ready: false, navigation_ready: 0 }
}

/// Whether `needle` occurs in `s`.
pub open spec fn contains_text(s: Seq<char>, needle: Seq<char>) -> bool {
    exists|i: int| 0 <= i && i + needle.len() <= s.len() && #[trigger] s.subrange(i, i + needle.len()) == needle
}

/// The AIRAC cycle named by the navigation data's `cycle_info.txt`: on the
/// first line that mentions "AIRAC cycle", the first word after its first
/// `:`, if that word is four digits.
pub open spec fn spec_airac_cycle(text: Seq<char>) -> Option<Seq<char>> {
    let lines = split_lines(text);
    match first_index(lines, |l: Seq<char>| contains_text(l, "AIRAC cycle"@)) {
        None => None,
        Some(i) => {
            let line = lines[i];
            let colon = index_of_char(line, ':');
            if colon >= line.len() {
                None
            } else {
                let w = words(line.skip(colon + 1int));
                if w.len() > 0 && w[0].len() == 4 && all_digits(w[0]) {
                    Some(w[0])
                } else {
                    None
                }
            }
        },
    }
}

/// Whether `needle` occurs in `s` at `i`.
fn matches_at(s: &Vec<char>, needle: &Vec<char>, i: usize) -> (r: bool)
    requires
        i + needle@.len() <= s@.len(),
    ensures
        r == (s@.subrange(i as int, i + needle@.len()) == needle@),
{
    let _len = s.len();
    let mut j: usize = 0;
    while j < needle.len()
        invariant
            i + needle@.len() <= s@.len(),
            s@.len() <= usize::MAX,
            j <= needle@.len(),
            forall|k: int| 0 <= k < j ==> s@[i + k] == needle@[k],
        decreases needle@.len() - j,
    {
        if s[i + j] != needle[j] {
            assert(s@.subrange(i as int, i + needle@.len())[j as int] != needle@[j as int]);
            return false;
        }
        j = j + 1;
    }
    assert(s@.subrange(i as int, i + needle@.len()) =~= needle@);
    true
}

/// Whether `needle` occurs in `s`.
fn chars_contain(s: &Vec<char>, needle: &Vec<char>) -> (r: bool)
    ensures
        r == contains_text(s@, needle@),
{
    if needle.len() > s.len() {
        return false;
    }
    let last = s.len() - needle.len();
    let mut i: usize = 0;
    loop
        invariant
            needle@.len() <= s@.len(),
            last == s@.len() - needle@.len(),
            i <= last,
            forall|k: int| 0 <= k < i ==> #[trigger] s@.subrange(k, k + needle@.len()) != needle@,
        decreases last - i,
    {
        if matches_at(s, needle, i) {
            return true;
        }
        if i == last {
            assert forall|k: int| 0 <= k && k + needle@.len() <= s@.len() implies #[trigger] s@.subrange(
                k,
                k + needle@.len(),
            ) != needle@ by {
                assert(k <= i);
            }
            return false;
        }
        i = i + 1;
    }
}

/// The AIRAC cycle named by the text of `cycle_info.txt`.
pub fn airac_cycle(text: &str) -> (r: Option<String>)
    ensures
        match spec_airac_cycle(text@) {
            Some(cycle) => r is Some && r->0@ == cycle,
            None => r is None,
        },
{
    let chars = chars_of(text);
    let lines = text_lines(&chars);
    let needle = chars_of("AIRAC cycle");
    let ghost items = split_lines(text@);
    let ghost pred = |l: Seq<char>| contains_text(l, "AIRAC cycle"@);
    let mut i: usize = 0;
    while i < lines.len()
        invariant
            i <= lines@.len(),
            lines@.len() == items.len(),
            items == split_lines(text@),
            forall|k: int| 0 <= k < lines@.len() ==> (#[trigger] lines@[k])@ == items[k],
            needle@ == "AIRAC cycle"@,
            pred == (|l: Seq<char>| contains_text(l, "AIRAC cycle"@)),
            forall|k: int| 0 <= k < i ==> !pred(#[trigger] items[k]),
        decreases lines@.len() - i,
    {
        if chars_contain(&lines[i], &needle) {
            proof {
                lemma_first_index(items, pred, i as int);
            }
            return cycle_on_line(&lines[i]);
        }
        i = i + 1;
    }
    proof {
        lemma_first_index(items, pred, items.len() as int);
    }
    None
}

/// The cycle on the line that mentions it: the first word after the first
/// `:`, if it is four digits.
fn cycle_on_line(line: &Vec<char>) -> (r: Option<String>)
    ensures
        ({
            let colon = index_of_char(line@, ':');
            let w = words(line@.skip(colon + 1int));
            if colon < line@.len() && w.len() > 0 && w[0].len() == 4 && all_digits(w[0]) {
                r is Some && r->0@ == w[0]
            } else {
                r is None
            }
        }),
{
    let mut colon: usize = 0;
    assert(line@.skip(0) =~= line@);
    while colon < line.len() && line[colon] != ':'
        invariant
            colon <= line@.len(),
            index_of_char(line@, ':') == colon + index_of_char(line@.skip(colon as int), ':'),
        decreases line@.len() - colon,
    {
        assert(line@.skip(colon as int).drop_first() =~= line@.skip(colon + 1));
        colon = colon + 1;
    }
    if colon >= line.len() {
        return None;
    }
    let mut after: Vec<char> = Vec::new();
    let mut j = colon + 1;
    while j < line.len()
        invariant
            colon < line@.len(),
            colon + 1 <= j <= line@.len(),
            after@ == line@.subrange(colon + 1, j as int),
        decreases line@.len() - j,
    {
        after.push(line[j]);
        assert(line@.subrange(colon + 1, j + 1) =~= line@.subrange(colon + 1, j as int).push(line@[j as int]));
        j = j + 1;
    }
    assert(after@ =~= line@.skip(colon + 1int));
    let text = string_from_chars(&after);
    let w = split_words(text.as_str());
    if w.len() == 0 {
        return None;
    }
    let first = chars_of(w[0].as_str());
    if first.len() != 4 {
        return None;
    }
    let mut k: usize = 0;
    while k < 4
        invariant
            first@.len() == 4,
            colon == index_of_char(line@, ':'),
            colon < line@.len(),
            words(line@.skip(colon + 1int)).len() > 0,
            first@ == words(line@.skip(colon + 1int))[0],
            k <= 4,
            forall|m: int| 0 <= m < k ==> crate::numbers::is_digit(#[trigger] first@[m]),
        decreases 4 - k,
    {
        if !('0' <= first[k] && first[k] <= '9') {
            assert(!crate::numbers::is_digit(first@[k as int]));
            return None;
        }
        k = k + 1;
    }
    Some(string_from_chars(&first))
}

/// The flight plan that loads the RNAV 22 approach into KCDW for `cycle`,
/// in X-Plane's FMS file format.
pub open spec fn spec_approach_plan(cycle: Seq<char>) -> Seq<char> {
    "I\n1100 Version\nCYCLE "@ + cycle
        + "\nADEP KCDW\nADES KCDW\nDESRWY RW22\nAPP R22\nNUMENR 2\n1 KCDW ADEP 0.000000 40.875222 -74.281361\n1 KCDW ADES 0.000000 40.875222 -74.281361\n"@
}

/// The flight plan that loads the approach for `cycle`.
pub fn approach_plan(cycle: &str) -> (r: String)
    ensures
        r@ == spec_approach_plan(cycle@),
{
    let head = concat("I\n1100 Version\nCYCLE ", cycle);
    concat(
        head.as_str(),
        "\nADEP KCDW\nADES KCDW\nDESRWY RW22\nAPP R22\nNUMENR 2\n1 KCDW ADEP 0.000000 40.875222 -74.281361\n1 KCDW ADES 0.000000 40.875222 -74.281361\n",
    )
}

/// Whether the flight-plan entries at `i` and after it are the final leg
/// of the approach: KOLLI then RW22.
pub open spec fn final_leg_at(ids: Seq<Seq<char>>, i: int) -> bool {
    0 <= i && i + 1 < ids.len() && ids[i] == "KOLLI"@ && ids[i + 1] == "RW22"@
}

/// The first entry of the flight plan (by its identifiers) that starts the
/// final leg, KOLLI followed by RW22.
pub fn final_leg_index(ids: &Vec<String>) -> (r: Option<usize>)
    ensures
        match r {
            Some(i) => final_leg_at(crate::pad_list::texts(ids@), i as int) && forall|j: int|
                0 <= j < i ==> !final_leg_at(crate::pad_list::texts(ids@), j),
            None => forall|j: int| !final_leg_at(crate::pad_list::texts(ids@), j),
        },
{
    let kolli = "KOLLI".to_owned();
    let runway = "RW22".to_owned();
    let mut i: usize = 0;
    while ids.len() > 1 && i < ids.len() - 1
        invariant
            kolli@ == "KOLLI"@,
            runway@ == "RW22"@,
            forall|j: int| 0 <= j < i ==> !final_leg_at(crate::pad_list::texts(ids@), j),
        decreases ids@.len() - i,
    {
        if ids[i] == kolli && ids[i + 1] == runway {
            return Some(i);
        }
        i = i + 1;
    }
    None
}

/// Installs the HUD created at start-up; whether the plugin started.
pub fn start(slot: &mut Option<HudSession>, created: Result<HudSession, String>) -> (r: bool)
    ensures
        r == created is Ok,
        created matches Ok(s) ==> *final(slot) == Some(s),
        created is Err ==> *final(slot) == *old(slot),
{
    match created {
        Ok(state) => {
            *slot = Some(state);
            true
        },
        Err(_) => false,
    }
}

/// X-Plane stops the plugin: the HUD is dropped.
pub fn stop(slot: &mut Option<HudSession>)
    ensures
        *final(slot) is None,
{
    *slot = None;
}

/// X-Plane enables the plugin: drawing resumes. The plugin always accepts.
pub fn enable(slot: &mut Option<HudSession>) -> (r: bool)
    ensures
        r,
        match *old(slot) {
            Some(s) => *final(slot) == Some(HudSession { enabled: true, ..s }),
            None => *final(slot) is None,
        },
{
    match slot {
        Some(state) => {
            state.enabled = true;
        },
        None => {},
    }
    true
}

/// X-Plane disables the plugin: drawing stops.
pub fn disable(slot: &mut Option<HudSession>)
    ensures
        match *old(slot) {
            Some(s) => *final(slot) == Some(HudSession { enabled: false, ..s }),
            None => *final(slot) is None,
        },
{
    match slot {
        Some(state) => {
            state.enabled = false;
        },
        None => {},
    }
}

/// A user aircraft was loaded (X-Plane's plane-loaded message for the user
/// aircraft): the next frame starts a new flight and the approach must be
/// activated again.
pub fn user_aircraft_loaded(slot: &mut Option<HudSession>)
    ensures
        match *old(slot) {
            Some(s) => *final(slot) == Some(HudSession {
                token: -1i32,
                nav_ready: false,
                navigation_ready: 0,
                ..s
            }),
            None => *final(slot) is None,
        },
{
    match slot {
        Some(state) => {
            state.token = -1;
            state.nav_ready = false;
            state.navigation_ready = 0;
        },
        None => {},
    }
}

} // verus!
