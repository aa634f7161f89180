//! The traffic-pattern tab of the Position Aircraft window: its tab, pattern
//! side and pattern position choices with their stored keys, the choice of a
//! configuration PAD and runway, the suggested file name of a placement, and
//! the settings file that remembers the tab's choices.
use vstd::prelude::*;
use crate::lines::{entry_value, find_char, find_value, index_of_char, lemma_line_end_is_index, line_end, split_lines};
use crate::pad_list::{first_index, texts};
use crate::position::{find_name, find_quick_file, quick_file};
use crate::text::{
    ascii_lowercase, ascii_uppercase, chars_ascii_lowercase, chars_ascii_uppercase, chars_eq,
    chars_of, concat, eq_ignore_ascii_case, str_eq, string_from_chars, trim, trim_chars,
};

verus! {

/// The key form of a stored value: trimmed and in ASCII lower case.
pub open spec fn key_form(value: Seq<char>) -> Seq<char> {
    ascii_lowercase(trim(value))
}

/// The key form of `value`.
fn key_form_of(value: &str) -> (r: Vec<char>)
    ensures
        r@ == key_form(value@),
{
    let chars = chars_of(value);
    let trimmed = trim_chars(&chars);
    chars_ascii_lowercase(&trimmed)
}

/// Whether `value`'s key form is `key`.
fn is_key(value: &Vec<char>, key: &str) -> (r: bool)
    ensures
        r == (value@ == key@),
{
    let key = chars_of(key);
    chars_eq(value, &key)
}

/// A key that is its own key form.
proof fn lemma_key_form_of_key(key: Seq<char>)
    requires
        key.len() > 0,
        forall|i: int| 0 <= i < key.len() ==> 'a' <= #[trigger] key[i] <= 'z',
    ensures
        key_form(key) == key,
{
    crate::text::lemma_leading_spaces(key, 0);
    assert(key.skip(0) =~= key);
    crate::text::lemma_trailing_spaces(key, key.len() as int);
    assert(key.take(key.len() as int) =~= key);
    assert(ascii_lowercase(key) =~= key);
}

/// The tab shown by the window.
#[derive(Copy, Clone, Debug, PartialEq, Eq, Structural)]
pub enum PanelTab {
    Pad,
    Pattern,
}

impl PanelTab {
    /// The key under which the tab is stored.
    pub open spec fn spec_key(self) -> Seq<char> {
        match self {
            PanelTab::Pad => "pad"@,
            PanelTab::Pattern => "pattern"@,
        }
    }

    /// The tab stored under `value`: "pattern" (in any case, with white
    /// space around) is the pattern tab, anything else the PAD tab.
    pub open spec fn spec_from_key(value: Seq<char>) -> PanelTab {
        if key_form(value) == "pattern"@ {
            PanelTab::Pattern
        } else {
            PanelTab::Pad
        }
    }

    /// The key under which the tab is stored.
    pub fn key(self) -> (r: &'static str)
        ensures
            r@ == self.spec_key(),
    {
        match self {
            PanelTab::Pad => "pad",
            PanelTab::Pattern => "pattern",
        }
    }

    /// The tab stored under `value`.
    pub fn from_key(value: &str) -> (r: PanelTab)
        ensures
            r == PanelTab::spec_from_key(value@),
    {
        let key = key_form_of(value);
        if is_key(&key, "pattern") {
            PanelTab::Pattern
        } else {
            PanelTab::Pad
        }
    }
}

/// The side of the runway the pattern is flown on.
#[derive(Copy, Clone, Debug, PartialEq, Eq, Structural)]
pub enum PatternDirection {
    Left,
    Right,
}

impl PatternDirection {
    /// The caption of the side.
    pub open spec fn spec_label(self) -> Seq<char> {
        match self {
            PatternDirection::Left => "Left traffic"@,
            PatternDirection::Right => "Right traffic"@,
        }
    }

    /// The key under which the side is stored.
    pub open spec fn spec_key(self) -> Seq<char> {
        match self {
            PatternDirection::Left => "left"@,
            PatternDirection::Right => "right"@,
        }
    }

    /// The side stored under `value`: "right" (in any case, with white
    /// space around) is right traffic, anything else left traffic.
    pub open spec fn spec_from_key(value: Seq<char>) -> PatternDirection {
        if key_form(value) == "right"@ {
            PatternDirection::Right
        } else {
            PatternDirection::Left
        }
    }

    /// The caption of the side.
    pub fn label(self) -> (r: &'static str)
        ensures
            r@ == self.spec_label(),
    {
        match self {
            PatternDirection::Left => "Left traffic",
            PatternDirection::Right => "Right traffic",
        }
    }

    /// The key under which the side is stored.
    pub fn key(self) -> (r: &'static str)
        ensures
            r@ == self.spec_key(),
    {
        match self {
            PatternDirection::Left => "left",
            PatternDirection::Right => "right",
        }
    }

    /// The side stored under `value`.
    pub fn from_key(value: &str) -> (r: PatternDirection)
        ensures
            r == PatternDirection::spec_from_key(value@),
    {
        let key = key_form_of(value);
        if is_key(&key, "right") {
            PatternDirection::Right
        } else {
            PatternDirection::Left
        }
    }
}

/// Where in the traffic pattern the aircraft is placed.
#[derive(Copy, Clone, Debug, PartialEq, Eq, Structural)]
pub enum PatternLocation {
    OnFinal,
    InterceptFinal,
    Base,
    Downwind,
    Entry,
}

/// Number of pattern positions.
pub const PATTERN_LOCATION_COUNT: usize = 5;

/// The pattern positions in the order the window cycles through them.
pub open spec fn location_at(index: int) -> PatternLocation {
    if index == 0 {
        PatternLocation::OnFinal
    } else if index == 1 {
        PatternLocation::InterceptFinal
    } else if index == 2 {
        PatternLocation::Base
    } else if index == 3 {
        PatternLocation::Downwind
    } else {
        PatternLocation::Entry
    }
}

impl PatternLocation {
    /// Every pattern position, in the order the window cycles through them.
    pub const ALL: [PatternLocation; 5] = [
        PatternLocation::OnFinal,
        PatternLocation::InterceptFinal,
        PatternLocation::Base,
        PatternLocation::Downwind,
        PatternLocation::Entry,
    ];

    /// The position of this location in the cycle.
    pub open spec fn spec_index(self) -> int {
        match self {
            PatternLocation::OnFinal => 0,
            PatternLocation::InterceptFinal => 1,
            PatternLocation::Base => 2,
            PatternLocation::Downwind => 3,
            PatternLocation::Entry => 4,
        }
    }

    /// The caption of the location.
    pub open spec fn spec_label(self) -> Seq<char> {
        match self {
            PatternLocation::OnFinal => "On final"@,
            PatternLocation::InterceptFinal => "Intercept final"@,
            PatternLocation::Base => "Base"@,
            PatternLocation::Downwind => "Downwind"@,
            PatternLocation::Entry => "45° entry"@,
        }
    }

    /// The description of the location.
    pub open spec fn spec_detail(self) -> Seq<char> {
        match self {
            PatternLocation::OnFinal => "Established on runway centerline"@,
            PatternLocation::InterceptFinal => "Forty-five degree intercept to final"@,
            PatternLocation::Base => "Halfway along the base leg"@,
            PatternLocation::Downwind => "Abeam the runway on the downwind leg"@,
            PatternLocation::Entry => "Forty-five degree entry to downwind"@,
        }
    }

    /// The key under which the location is stored.
    pub open spec fn spec_key(self) -> Seq<char> {
        match self {
            PatternLocation::OnFinal => "final"@,
            PatternLocation::InterceptFinal => "intercept"@,
            PatternLocation::Base => "base"@,
            PatternLocation::Downwind => "downwind"@,
            PatternLocation::Entry => "entry"@,
        }
    }

    /// The location stored under `value` (in any case, with white space
    /// around); anything not a location's key is on final.
    pub open spec fn spec_from_key(value: Seq<char>) -> PatternLocation {
        let key = key_form(value);
        if key == "intercept"@ {
            PatternLocation::InterceptFinal
        } else if key == "base"@ {
            PatternLocation::Base
        } else if key == "downwind"@ {
            PatternLocation::Downwind
        } else if key == "entry"@ {
            PatternLocation::Entry
        } else {
            PatternLocation::OnFinal
        }
    }

    /// The caption of the location.
    pub fn label(self) -> (r: &'static str)
        ensures
            r@ == self.spec_label(),
    {
        match self {
            PatternLocation::OnFinal => "On final",
            PatternLocation::InterceptFinal => "Intercept final",
            PatternLocation::Base => "Base",
            PatternLocation::Downwind => "Downwind",
            PatternLocation::Entry => "45° entry",
        }
    }

    /// The description of the location.
    pub fn detail(self) -> (r: &'static str)
        ensures
            r@ == self.spec_detail(),
    {
        match self {
            PatternLocation::OnFinal => "Established on runway centerline",
            PatternLocation::InterceptFinal => "Forty-five degree intercept to final",
            PatternLocation::Base => "Halfway along the base leg",
            PatternLocation::Downwind => "Abeam the runway on the downwind leg",
            PatternLocation::Entry => "Forty-five degree entry to downwind",
        }
    }

    /// The key under which the location is stored.
    pub fn key(self) -> (r: &'static str)
        ensures
            r@ == self.spec_key(),
    {
        match self {
            PatternLocation::OnFinal => "final",
            PatternLocation::InterceptFinal => "intercept",
            PatternLocation::Base => "base",
            PatternLocation::Downwind => "downwind",
            PatternLocation::Entry => "entry",
        }
    }

    /// The location stored under `value`.
    pub fn from_key(value: &str) -> (r: PatternLocation)
        ensures
            r == PatternLocation::spec_from_key(value@),
    {
        let key = key_form_of(value);
        if is_key(&key, "intercept") {
            PatternLocation::InterceptFinal
        } else if is_key(&key, "base") {
            PatternLocation::Base
        } else if is_key(&key, "downwind") {
            PatternLocation::Downwind
        } else if is_key(&key, "entry") {
            PatternLocation::Entry
        } else {
            PatternLocation::OnFinal
        }
    }

    /// The position of this location in the cycle.
    fn index(self) -> (r: usize)
        ensures
            r == self.spec_index(),
    {
        match self {
            PatternLocation::OnFinal => 0,
            PatternLocation::InterceptFinal => 1,
            PatternLocation::Base => 2,
            PatternLocation::Downwind => 3,
            PatternLocation::Entry => 4,
        }
    }

    /// The location `delta` places further round the cycle.
    pub open spec fn spec_relative(self, delta: int) -> PatternLocation {
        location_at((self.spec_index() + delta) % (PATTERN_LOCATION_COUNT as int))
    }

    /// The location `delta` places further round the cycle (backwards for a
    /// negative `delta`).
    pub fn relative(self, delta: isize) -> (r: PatternLocation)
        ensures
            r == self.spec_relative(delta as int),
    {
        let sum: i128 = self.index() as i128 + delta as i128;
        let index = match sum.checked_rem_euclid(5) {
            Some(v) => v,
            None => 0,
        };
        PatternLocation::ALL[index as usize]
    }
}

/// The configuration PAD the pattern tab uses with the PAD files `pads`:
/// the one chosen before while it is listed, else the quick-save file (in
/// any case), else the first listed, else none (empty).
pub open spec fn chosen_configuration(pads: Seq<Seq<char>>, current: Seq<char>) -> Seq<char> {
    if pads.contains(current) {
        current
    } else {
        match first_index(pads, |x: Seq<char>| eq_ignore_ascii_case(x, quick_file())) {
            Some(i) => pads[i],
            None => if pads.len() > 0 { pads[0] } else { Seq::empty() },
        }
    }
}

/// The configuration PAD to use with the PAD files `pads`.
pub fn ensure_configuration(pads: &Vec<String>, current: &String) -> (r: String)
    ensures
        r@ == chosen_configuration(texts(pads@), current@),
{
    let found = find_name(pads, current);
    proof {
        let items = texts(pads@);
        let pred = |x: Seq<char>| x == current@;
        if items.contains(current@) {
            let j = choose|j: int| 0 <= j < items.len() && items[j] == current@;
            crate::pad_list::lemma_first_index_found(items, pred, j);
        }
        crate::pad_list::lemma_first_index_some(items, pred);
    }
    if found.is_some() {
        return current.clone();
    }
    match find_quick_file(pads) {
        Some(i) => pads[i].clone(),
        None => if pads.len() > 0 { pads[0].clone() } else { String::new() },
    }
}

/// The runway the pattern tab uses among the airport's runways: the one
/// chosen before while the airport has it, else the first, else none.
pub open spec fn chosen_runway(runways: Seq<Seq<char>>, current: Seq<char>) -> Seq<char> {
    if runways.contains(current) {
        current
    } else if runways.len() > 0 {
        runways[0]
    } else {
        Seq::empty()
    }
}

/// The runway to use among `runways`.
pub fn ensure_runway(runways: &Vec<String>, current: &String) -> (r: String)
    ensures
        r@ == chosen_runway(texts(runways@), current@),
{
    let found = find_name(runways, current);
    proof {
        let items = texts(runways@);
        let pred = |x: Seq<char>| x == current@;
        if items.contains(current@) {
            let j = choose|j: int| 0 <= j < items.len() && items[j] == current@;
            crate::pad_list::lemma_first_index_found(items, pred, j);
        }
        crate::pad_list::lemma_first_index_some(items, pred);
    }
    if found.is_some() {
        current.clone()
    } else if runways.len() > 0 {
        runways[0].clone()
    } else {
        String::new()
    }
}

/// The part of a suggested file name that names the pattern position:
/// the final distance (as `final_distance` writes it) for a position on
/// final, else the position, after the pattern side where it has one.
pub open spec fn location_name(location: PatternLocation, direction: PatternDirection, final_distance: Seq<char>) -> Seq<char> {
    match location {
        PatternLocation::OnFinal => final_distance + "nm-final"@,
        PatternLocation::InterceptFinal => "intercept-final"@,
        PatternLocation::Base => direction.spec_key() + "-base"@,
        PatternLocation::Downwind => direction.spec_key() + "-downwind"@,
        PatternLocation::Entry => direction.spec_key() + "-entry"@,
    }
}

/// The file name suggested for a placement at `airport`'s runway end
/// `runway`: "AIRPORT-RWYrunway-position".
pub open spec fn spec_suggested_name(
    airport: Seq<char>,
    runway: Seq<char>,
    location: PatternLocation,
    direction: PatternDirection,
    final_distance: Seq<char>,
) -> Seq<char> {
    airport + "-RWY"@ + runway + "-"@ + location_name(location, direction, final_distance)
}

/// The last character of a placement's name for `location`, and the eighth
/// from the end: they tell the placements apart.
proof fn lemma_location_name_ends(location: PatternLocation, direction: PatternDirection, final_distance: Seq<char>)
    ensures
        ({
            let n = location_name(location, direction, final_distance);
            &&& n.len() >= 8
            &&& n.last() == match location {
                PatternLocation::OnFinal => 'l',
                PatternLocation::InterceptFinal => 'l',
                PatternLocation::Base => 'e',
                PatternLocation::Downwind => 'd',
                PatternLocation::Entry => 'y',
            }
            &&& location == PatternLocation::OnFinal ==> n[n.len() - 8] == 'n'
            &&& location == PatternLocation::InterceptFinal ==> n[n.len() - 8] == 'p'
        }),
{
    reveal_strlit("nm-final");
    reveal_strlit("intercept-final");
    reveal_strlit("-base");
    reveal_strlit("-downwind");
    reveal_strlit("-entry");
    reveal_strlit("left");
    reveal_strlit("right");
    let k = direction.spec_key();
    assert(k.len() == 4 || k.len() == 5);
}

/// Placements at different positions of the pattern get different suggested
/// names, for the same airport, runway, side and final distance, so that
/// saving one never overwrites another; a base placement's name is the
/// airport, `-RWY`, the runway, `-`, the side and `-base`.
pub proof fn lemma_suggested_names_tell_placements_apart(
    airport: Seq<char>,
    runway: Seq<char>,
    direction: PatternDirection,
    final_distance: Seq<char>,
    a: PatternLocation,
    b: PatternLocation,
)
    ensures
        a != b ==> spec_suggested_name(airport, runway, a, direction, final_distance) != spec_suggested_name(
            airport,
            runway,
            b,
            direction,
            final_distance,
        ),
        spec_suggested_name(airport, runway, PatternLocation::Base, direction, final_distance) == airport
            + "-RWY"@ + runway + "-"@ + direction.spec_key() + "-base"@,
{
    let prefix = airport + "-RWY"@ + runway + "-"@;
    let x = location_name(a, direction, final_distance);
    let y = location_name(b, direction, final_distance);
    lemma_location_name_ends(a, direction, final_distance);
    lemma_location_name_ends(b, direction, final_distance);
    if a != b && prefix + x == prefix + y {
        assert((prefix + x).skip(prefix.len() as int) =~= x);
        assert((prefix + y).skip(prefix.len() as int) =~= y);
        assert(x == y);
        assert(x.last() == y.last());
        assert(x[x.len() - 8] == y[y.len() - 8]);
    }
    assert(prefix + (direction.spec_key() + "-base"@) =~= airport + "-RWY"@ + runway + "-"@
        + direction.spec_key() + "-base"@);
}

/// The file name suggested for a placement.
pub fn suggested_name(
    airport: &str,
    runway: &str,
    location: PatternLocation,
    direction: PatternDirection,
    final_distance: &str,
) -> (r: String)
    ensures
        r@ == spec_suggested_name(airport@, runway@, location, direction, final_distance@),
{
    let place = match location {
        PatternLocation::OnFinal => concat(final_distance, "nm-final"),
        PatternLocation::InterceptFinal => "intercept-final".to_owned(),
        PatternLocation::Base => concat(direction.key(), "-base"),
        PatternLocation::Downwind => concat(direction.key(), "-downwind"),
        PatternLocation::Entry => concat(direction.key(), "-entry"),
    };
    let head = concat(airport, "-RWY");
    let head = concat(head.as_str(), runway);
    let head = concat(head.as_str(), "-");
    concat(head.as_str(), place.as_str())
}

/// The save name after the suggestion became `next`: a blank save name or
/// the previous suggestion gives way to it; anything typed is kept.
pub open spec fn spec_follow_suggestion(save_name: Seq<char>, suggestion: Seq<char>, next: Seq<char>) -> Seq<char> {
    if trim(save_name).len() == 0 || save_name == suggestion {
        next
    } else {
        save_name
    }
}

/// The suggested name became `next`: the save name follows it unless the
/// user typed one, and `next` is remembered as the suggestion.
pub fn follow_suggestion(save_name: &mut String, suggestion: &mut String, next: String)
    ensures
        final(save_name)@ == spec_follow_suggestion(old(save_name)@, old(suggestion)@, next@),
        final(suggestion)@ == next@,
{
    let chars = chars_of(save_name.as_str());
    let trimmed = trim_chars(&chars);
    if trimmed.len() == 0 || str_eq(save_name.as_str(), suggestion.as_str()) {
        *save_name = next.clone();
    }
    *suggestion = next;
}

/// A name the user typed is never replaced by a new suggestion, and a save
/// name that follows the suggestions goes on following them.
pub proof fn lemma_typed_name_kept(save_name: Seq<char>, suggestion: Seq<char>, next: Seq<char>, later: Seq<char>)
    ensures
        trim(save_name).len() > 0 && save_name != suggestion ==> spec_follow_suggestion(save_name, suggestion, next)
            == save_name,
        spec_follow_suggestion(save_name, suggestion, next) == next ==> spec_follow_suggestion(
            spec_follow_suggestion(save_name, suggestion, next),
            next,
            later,
        ) == later,
{
}

/// The airport identifier typed as `input`: trimmed and in ASCII upper
/// case; `None` when nothing was typed.
pub open spec fn spec_airport_id(input: Seq<char>) -> Option<Seq<char>> {
    let id = ascii_uppercase(trim(input));
    if id.len() == 0 { None } else { Some(id) }
}

/// The airport identifier typed as `input`.
pub fn airport_id(input: &str) -> (r: Option<String>)
    ensures
        match spec_airport_id(input@) {
            Some(id) => r is Some && r->0@ == id,
            None => r is None,
        },
{
    let chars = chars_of(input);
    let trimmed = trim_chars(&chars);
    let id = chars_ascii_uppercase(&trimmed);
    if id.len() == 0 {
        None
    } else {
        Some(string_from_chars(&id))
    }
}

/// The status shown after the pattern position changed.
pub fn location_status(location: PatternLocation) -> (r: String)
    ensures
        r@ == "Pattern location: "@ + location.spec_label(),
{
    concat("Pattern location: ", location.label())
}

/// A `key=value` line of the settings file, as its key (trimmed, in ASCII
/// lower case) and value (trimmed); blank lines, lines starting with `#`
/// and lines without `=` hold none.
pub open spec fn parse_setting_line(line: Seq<char>) -> Option<(Seq<char>, Seq<char>)> {
    let t = trim(line);
    let eq = index_of_char(t, '=');
    if t.len() == 0 || t[0] == '#' || eq >= t.len() {
        None
    } else {
        Some((ascii_lowercase(trim(t.take(eq as int))), trim(t.skip(eq + 1int))))
    }
}

/// The settings held by `lines`, in order.
pub open spec fn line_entries(lines: Seq<Seq<char>>) -> Seq<(Seq<char>, Seq<char>)>
    decreases lines.len(),
{
    if lines.len() == 0 {
        Seq::empty()
    } else {
        match parse_setting_line(lines[0]) {
            Some(entry) => seq![entry] + line_entries(lines.drop_first()),
            None => line_entries(lines.drop_first()),
        }
    }
}

/// The settings of a settings file's text, in order.
pub open spec fn setting_entries(text: Seq<char>) -> Seq<(Seq<char>, Seq<char>)> {
    line_entries(split_lines(text))
}

/// The value set last for `key` in the settings file `text`.
pub open spec fn setting_value(text: Seq<char>, key: Seq<char>) -> Option<Seq<char>> {
    entry_value(setting_entries(text), key)
}

/// The setting a line holds.
fn parse_line(line: &Vec<char>) -> (r: Option<(Vec<char>, Vec<char>)>)
    ensures
        match parse_setting_line(line@) {
            Some(entry) => r is Some && (r->0).0@ == entry.0 && (r->0).1@ == entry.1,
            None => r is None,
        },
{
    let t = trim_chars(line);
    if t.len() == 0 || t[0] == '#' {
        return None;
    }
    let eq = find_char(&t, 0, '=');
    assert(t@.skip(0) =~= t@);
    if eq >= t.len() {
        return None;
    }
    let mut key: Vec<char> = Vec::new();
    let mut i: usize = 0;
    while i < eq
        invariant
            eq < t@.len(),
            i <= eq,
            key@ == t@.take(i as int),
        decreases eq - i,
    {
        key.push(t[i]);
        assert(t@.take(i + 1) =~= t@.take(i as int).push(t@[i as int]));
        i = i + 1;
    }
    let mut value: Vec<char> = Vec::new();
    let mut j: usize = eq + 1;
    while j < t.len()
        invariant
            eq < t@.len(),
            eq + 1 <= j <= t@.len(),
            value@ == t@.subrange(eq + 1, j as int),
        decreases t@.len() - j,
    {
        value.push(t[j]);
        assert(t@.subrange(eq + 1, j + 1) =~= t@.subrange(eq + 1, j as int).push(t@[j as int]));
        j = j + 1;
    }
    assert(value@ =~= t@.skip(eq + 1));
    let key = chars_ascii_lowercase(&trim_chars(&key));
    let value = trim_chars(&value);
    Some((key, value))
}

/// The settings of the settings file `text`, in order.
fn read_entries(text: &str) -> (r: Vec<(Vec<char>, Vec<char>)>)
    ensures
        r@.len() == setting_entries(text@).len(),
        forall|k: int|
            0 <= k < r@.len() ==> (#[trigger] r@[k]).0@ == setting_entries(text@)[k].0 && r@[k].1@
                == setting_entries(text@)[k].1,
{
    let s = chars_of(text);
    let mut entries: Vec<(Vec<char>, Vec<char>)> = Vec::new();
    let ghost views = Seq::<(Seq<char>, Seq<char>)>::empty();
    let mut start: usize = 0;
    assert(s@.skip(0) =~= s@);
    loop
        invariant
            start <= s@.len(),
            s@ == text@,
            entries@.len() == views.len(),
            forall|k: int|
                0 <= k < entries@.len() ==> (#[trigger] entries@[k]).0@ == views[k].0 && entries@[k].1@
                    == views[k].1,
            setting_entries(text@) == views + line_entries(split_lines(s@.skip(start as int))),
        decreases s@.len() - start,
    {
        let end = find_char(&s, start, '\n');
        let ghost rest = s@.skip(start as int);
        proof {
            lemma_line_end_is_index(rest);
        }
        let mut line: Vec<char> = Vec::new();
        let mut i = start;
        while i < end
            invariant
                start <= i <= end <= s@.len(),
                line@ == s@.subrange(start as int, i as int),
            decreases end - i,
        {
            line.push(s[i]);
            assert(s@.subrange(start as int, i + 1) =~= s@.subrange(start as int, i as int).push(s@[i as int]));
            i = i + 1;
        }
        assert(line@ =~= rest.take(line_end(rest) as int));
        let parsed = parse_line(&line);
        let ghost before = views;
        proof {
            let lines = split_lines(rest);
            assert(lines[0] == line@);
            if line_end(rest) < rest.len() {
                assert(lines.drop_first() =~= split_lines(rest.skip(line_end(rest) + 1int)));
            } else {
                assert(lines.drop_first() =~= Seq::<Seq<char>>::empty());
            }
        }
        match parsed {
            Some(entry) => {
                proof {
                    views = views.push((entry.0@, entry.1@));
                }
                entries.push(entry);
            },
            None => {},
        }
        if end >= s.len() {
            proof {
                assert(line_entries(Seq::<Seq<char>>::empty()) =~= Seq::<(Seq<char>, Seq<char>)>::empty());
                assert(views + Seq::<(Seq<char>, Seq<char>)>::empty() =~= views);
            }
            return entries;
        }
        proof {
            assert(rest.skip(line_end(rest) + 1int) =~= s@.skip(end + 1));
            let tail = line_entries(split_lines(s@.skip(end + 1)));
            match parse_setting_line(line@) {
                Some(e) => {
                    assert(before + (seq![e] + tail) =~= views + tail);
                },
                None => {},
            }
        }
        start = end + 1;
    }
}

/// The value set last for `key` in the settings file `text`.
pub fn setting(text: &str, key: &str) -> (r: Option<String>)
    ensures
        match setting_value(text@, key@) {
            Some(v) => r is Some && r->0@ == v,
            None => r is None,
        },
{
    let entries = read_entries(text);
    assert(setting_entries(text@).take(setting_entries(text@).len() as int) =~= setting_entries(text@));
    find_value(&entries, key, Ghost(setting_entries(text@)))
}

/// The choices of the pattern tab that its settings file remembers, but
/// for the distances and the approach angle, which are numbers the caller
/// keeps (the file holds them under `approach_angle_deg`,
/// `downwind_offset_nm`, `base_intercept_nm` and `final_distance_nm`).
#[derive(Clone, Debug)]
pub struct PatternSettings {
    pub active_tab: PanelTab,
    pub airport_id: String,
    pub runway_id: String,
    pub configuration_pad: String,
    pub location: PatternLocation,
    pub direction: PatternDirection,
}

/// The tab read from a settings file.
pub open spec fn stored_tab(text: Seq<char>) -> PanelTab {
    match setting_value(text, "active_tab"@) {
        Some(v) => PanelTab::spec_from_key(v),
        None => PanelTab::Pad,
    }
}

/// An airport or runway identifier read from a settings file under `key`:
/// trimmed and in ASCII upper case; none when the file has none.
pub open spec fn stored_id(text: Seq<char>, key: Seq<char>) -> Seq<char> {
    match setting_value(text, key) {
        Some(v) => ascii_uppercase(trim(v)),
        None => Seq::empty(),
    }
}

/// The configuration PAD read from a settings file; the quick-save file
/// when the file names none.
pub open spec fn stored_configuration(text: Seq<char>) -> Seq<char> {
    match setting_value(text, "configuration_pad"@) {
        Some(v) => v,
        None => quick_file(),
    }
}

/// The pattern position read from a settings file.
pub open spec fn stored_location(text: Seq<char>) -> PatternLocation {
    match setting_value(text, "location"@) {
        Some(v) => PatternLocation::spec_from_key(v),
        None => PatternLocation::OnFinal,
    }
}

/// The pattern side read from a settings file.
pub open spec fn stored_direction(text: Seq<char>) -> PatternDirection {
    match setting_value(text, "direction"@) {
        Some(v) => PatternDirection::spec_from_key(v),
        None => PatternDirection::Left,
    }
}

/// The text under which the choices are stored: a comment line, then one
/// `key=value` line for each (see `settings_lines`).
pub open spec fn spec_settings_text(
    tab: PanelTab,
    airport: Seq<char>,
    runway: Seq<char>,
    pad: Seq<char>,
    location: PatternLocation,
    direction: PatternDirection,
) -> Seq<char> {
    join_lines(settings_lines(tab, airport, runway, pad, location, direction))
}

impl PatternSettings {
    /// The choices before any were made: the PAD tab, no airport or runway,
    /// the quick-save file, on final, left traffic.
    pub fn new() -> (r: PatternSettings)
        ensures
            r.active_tab == PanelTab::Pad,
            r.airport_id@.len() == 0,
            r.runway_id@.len() == 0,
            r.configuration_pad@ == quick_file(),
            r.location == PatternLocation::OnFinal,
            r.direction == PatternDirection::Left,
    {
        PatternSettings {
            active_tab: PanelTab::Pad,
            airport_id: String::new(),
            runway_id: String::new(),
            configuration_pad: "QuickFile.pad".to_owned(),
            location: PatternLocation::OnFinal,
            direction: PatternDirection::Left,
        }
    }

    /// The choices stored in the settings file `text`; each one the file
    /// does not set keeps its value from `new`.
    pub fn from_text(text: &str) -> (r: PatternSettings)
        ensures
            r.active_tab == stored_tab(text@),
            r.airport_id@ == stored_id(text@, "airport"@),
            r.runway_id@ == stored_id(text@, "runway"@),
            r.configuration_pad@ == stored_configuration(text@),
            r.location == stored_location(text@),
            r.direction == stored_direction(text@),
    {
        let mut settings = PatternSettings::new();
        if let Some(value) = setting(text, "active_tab") {
            settings.active_tab = PanelTab::from_key(value.as_str());
        }
        if let Some(value) = setting(text, "airport") {
            settings.airport_id = upper_trimmed(value.as_str());
        }
        if let Some(value) = setting(text, "runway") {
            settings.runway_id = upper_trimmed(value.as_str());
        }
        if let Some(value) = setting(text, "configuration_pad") {
            settings.configuration_pad = value;
        }
        if let Some(value) = setting(text, "location") {
            settings.location = PatternLocation::from_key(value.as_str());
        }
        if let Some(value) = setting(text, "direction") {
            settings.direction = PatternDirection::from_key(value.as_str());
        }
        settings
    }

    /// The lines under which the choices are stored; the numbers follow them
    /// in the file.
    pub fn text(&self) -> (r: String)
        ensures
            r@ == spec_settings_text(
                self.active_tab,
                self.airport_id@,
                self.runway_id@,
                self.configuration_pad@,
                self.location,
                self.direction,
            ),
    {
        let mut lines: Vec<String> = Vec::new();
        lines.push("# Position Aircraft pattern tab".to_owned());
        lines.push(setting_line("active_tab", self.active_tab.key()));
        lines.push(setting_line("airport", self.airport_id.as_str()));
        lines.push(setting_line("runway", self.runway_id.as_str()));
        lines.push(setting_line("configuration_pad", self.configuration_pad.as_str()));
        lines.push(setting_line("location", self.location.key()));
        lines.push(setting_line("direction", self.direction.key()));
        assert(texts(lines@) =~= settings_lines(
            self.active_tab,
            self.airport_id@,
            self.runway_id@,
            self.configuration_pad@,
            self.location,
            self.direction,
        ));
        join_with_line_breaks(&lines)
    }
}

/// The line `key=value`.
fn setting_line(key: &str, value: &str) -> (r: String)
    ensures
        r@ == key@ + "="@ + value@,
{
    let head = concat(key, "=");
    concat(head.as_str(), value)
}

proof fn lemma_join_lines_push(lines: Seq<Seq<char>>, line: Seq<char>)
    ensures
        join_lines(lines.push(line)) == join_lines(lines) + line + "\n"@,
    decreases lines.len(),
{
    if lines.len() == 0 {
        assert(lines.push(line).drop_first() =~= Seq::<Seq<char>>::empty());
        assert(lines.push(line)[0] == line);
        assert(join_lines(Seq::<Seq<char>>::empty()) == Seq::<char>::empty());
        assert(join_lines(lines.push(line)) =~= join_lines(lines) + line + "\n"@);
    } else {
        assert(lines.push(line).drop_first() =~= lines.drop_first().push(line));
        assert(lines.push(line)[0] == lines[0]);
        lemma_join_lines_push(lines.drop_first(), line);
        let rest = join_lines(lines.drop_first());
        assert(join_lines(lines.push(line)) == lines[0] + "\n"@ + (rest + line + "\n"@));
        assert(join_lines(lines) == lines[0] + "\n"@ + rest);
        assert(lines[0] + "\n"@ + (rest + line + "\n"@) =~= lines[0] + "\n"@ + rest + line + "\n"@);
    }
}

/// The lines joined, each followed by a line break.
fn join_with_line_breaks(lines: &Vec<String>) -> (r: String)
    ensures
        r@ == join_lines(texts(lines@)),
{
    let mut text = String::new();
    for i in 0..lines.len()
        invariant
            text@ == join_lines(texts(lines@.take(i as int))),
    {
        proof {
            assert(texts(lines@.take(i + 1)) =~= texts(lines@.take(i as int)).push(lines@[i as int]@));
            lemma_join_lines_push(texts(lines@.take(i as int)), lines@[i as int]@);
        }
        let line = concat(text.as_str(), lines[i].as_str());
        text = concat(line.as_str(), "\n");
    }
    assert(lines@.take(lines@.len() as int) =~= lines@);
    text
}

/// `value` trimmed and in ASCII upper case.
fn upper_trimmed(value: &str) -> (r: String)
    ensures
        r@ == ascii_uppercase(trim(value@)),
{
    let chars = chars_of(value);
    let trimmed = trim_chars(&chars);
    string_from_chars(&chars_ascii_uppercase(&trimmed))
}

/// The stored keys of the tab, the pattern side and the pattern position
/// read back as what was stored.
pub proof fn lemma_keys_round_trip(tab: PanelTab, direction: PatternDirection, location: PatternLocation)
    ensures
        PanelTab::spec_from_key(tab.spec_key()) == tab,
        PatternDirection::spec_from_key(direction.spec_key()) == direction,
        PatternLocation::spec_from_key(location.spec_key()) == location,
{
    reveal_strlit("pad");
    reveal_strlit("pattern");
    reveal_strlit("left");
    reveal_strlit("right");
    reveal_strlit("final");
    reveal_strlit("intercept");
    reveal_strlit("base");
    reveal_strlit("downwind");
    reveal_strlit("entry");
    lemma_key_form_of_key(tab.spec_key());
    lemma_key_form_of_key(direction.spec_key());
    lemma_key_form_of_key(location.spec_key());
}

/// Cycling the pattern position `delta` places and back again returns to
/// where it started, and five steps go all the way round.
pub proof fn lemma_relative_round_trip(location: PatternLocation, delta: int)
    ensures
        location.spec_relative(delta).spec_relative(-delta) == location,
        location.spec_relative(PATTERN_LOCATION_COUNT as int) == location,
{
    let n = PATTERN_LOCATION_COUNT as int;
    let i = location.spec_index();
    let j = (i + delta) % n;
    assert(location_at(j).spec_index() == j);
    vstd::arithmetic::div_mod::lemma_add_mod_noop(i + delta, -delta, n);
    vstd::arithmetic::div_mod::lemma_small_mod(i as nat, n as nat);
    vstd::arithmetic::div_mod::lemma_mod_add_multiples_vanish(i, n);
}

/// `s` joined into lines, each followed by a line break.
pub open spec fn join_lines(lines: Seq<Seq<char>>) -> Seq<char>
    decreases lines.len(),
{
    if lines.len() == 0 {
        Seq::empty()
    } else {
        lines[0] + "\n"@ + join_lines(lines.drop_first())
    }
}

/// Whether `s` holds no line break.
pub open spec fn single_line(s: Seq<char>) -> bool {
    forall|i: int| 0 <= i < s.len() ==> s[i] != '\n'
}

/// A value that reads back as itself from a settings line: on one line,
/// with no white space around it.
pub open spec fn storable(value: Seq<char>) -> bool {
    single_line(value) && trim(value) == value
}

/// An identifier that reads back as itself: storable, and in ASCII upper case.
pub open spec fn storable_id(value: Seq<char>) -> bool {
    storable(value) && ascii_uppercase(value) == value
}

/// A settings key: ASCII small letters and `_`.
pub open spec fn is_setting_key(key: Seq<char>) -> bool {
    key.len() > 0 && forall|i: int| 0 <= i < key.len() ==> ('a' <= #[trigger] key[i] <= 'z' || key[i] == '_')
}

proof fn lemma_trim_identity(s: Seq<char>)
    requires
        s.len() == 0 || (!crate::text::is_space(s[0]) && !crate::text::is_space(s.last())),
    ensures
        trim(s) == s,
{
    if s.len() > 0 {
        crate::text::lemma_leading_spaces(s, 0);
        assert(s.skip(0) =~= s);
        crate::text::lemma_trailing_spaces(s, s.len() as int);
        assert(s.take(s.len() as int) =~= s);
    } else {
        crate::text::lemma_leading_spaces(s, 0);
        assert(s.skip(0) =~= s);
        crate::text::lemma_trailing_spaces(s, 0);
    }
}

proof fn lemma_spaces_bounds(s: Seq<char>)
    ensures
        0 <= crate::text::leading_spaces(s) <= s.len(),
        0 <= crate::text::trailing_spaces(s) <= s.len(),
    decreases s.len(),
{
    if s.len() > 0 {
        lemma_spaces_bounds(s.drop_first());
        lemma_spaces_bounds(s.drop_last());
    }
}

proof fn lemma_trimmed_edges(v: Seq<char>)
    requires
        trim(v) == v,
        v.len() > 0,
    ensures
        !crate::text::is_space(v[0]),
        !crate::text::is_space(v.last()),
{
    lemma_spaces_bounds(v);
    lemma_spaces_bounds(v.drop_first());
    lemma_spaces_bounds(v.drop_last());
    let front = v.skip(crate::text::leading_spaces(v));
    lemma_spaces_bounds(front);
    assert(crate::text::leading_spaces(v) == 0);
    assert(front =~= v);
    assert(crate::text::trailing_spaces(v) == 0);
}

proof fn lemma_line_end_prefix(l: Seq<char>, r: Seq<char>)
    requires
        single_line(l),
    ensures
        line_end(l + r) == l.len() + line_end(r),
    decreases l.len(),
{
    if l.len() > 0 {
        assert((l + r).drop_first() =~= l.drop_first() + r);
        lemma_line_end_prefix(l.drop_first(), r);
    } else {
        assert(l + r =~= r);
    }
}

proof fn lemma_index_of_char_prefix(a: Seq<char>, b: Seq<char>, c: char)
    requires
        forall|i: int| 0 <= i < a.len() ==> a[i] != c,
    ensures
        index_of_char(a + b, c) == a.len() + index_of_char(b, c),
    decreases a.len(),
{
    if a.len() > 0 {
        assert((a + b).drop_first() =~= a.drop_first() + b);
        lemma_index_of_char_prefix(a.drop_first(), b, c);
    } else {
        assert(a + b =~= b);
    }
}

proof fn lemma_split_join(lines: Seq<Seq<char>>, rest: Seq<char>)
    requires
        forall|i: int| 0 <= i < lines.len() ==> single_line(#[trigger] lines[i]),
    ensures
        split_lines(join_lines(lines) + rest) == lines + split_lines(rest),
    decreases lines.len(),
{
    reveal_strlit("\n");
    if lines.len() == 0 {
        assert(join_lines(lines) + rest =~= rest);
        assert(lines + split_lines(rest) =~= split_lines(rest));
    } else {
        let l = lines[0];
        let tail = join_lines(lines.drop_first()) + rest;
        let whole = join_lines(lines) + rest;
        assert(whole =~= l + (seq!['\n'] + tail));
        lemma_line_end_prefix(l, seq!['\n'] + tail);
        assert(whole.take(l.len() as int) =~= l);
        assert(whole.skip(l.len() + 1int) =~= tail);
        lemma_split_join(lines.drop_first(), rest);
        assert(lines + split_lines(rest) =~= seq![l] + (lines.drop_first() + split_lines(rest)));
    }
}

proof fn lemma_line_entries_append(a: Seq<Seq<char>>, b: Seq<Seq<char>>)
    ensures
        line_entries(a + b) == line_entries(a) + line_entries(b),
    decreases a.len(),
{
    if a.len() == 0 {
        assert(a + b =~= b);
        assert(line_entries(a) + line_entries(b) =~= line_entries(b));
    } else {
        assert((a + b).drop_first() =~= a.drop_first() + b);
        lemma_line_entries_append(a.drop_first(), b);
        match parse_setting_line(a[0]) {
            Some(e) => {
                assert(seq![e] + (line_entries(a.drop_first()) + line_entries(b)) =~= (seq![e]
                    + line_entries(a.drop_first())) + line_entries(b));
            },
            None => {},
        }
    }
}

proof fn lemma_entry_value_append(a: Seq<(Seq<char>, Seq<char>)>, b: Seq<(Seq<char>, Seq<char>)>, key: Seq<char>)
    ensures
        entry_value(a + b, key) == match entry_value(b, key) {
            Some(v) => Some(v),
            None => entry_value(a, key),
        },
    decreases b.len(),
{
    if b.len() == 0 {
        assert(a + b =~= a);
    } else {
        assert((a + b).drop_last() =~= a + b.drop_last());
        lemma_entry_value_append(a, b.drop_last(), key);
    }
}

/// The line `key=value` holds the setting `value` for `key`.
proof fn lemma_parse_setting(key: Seq<char>, value: Seq<char>)
    requires
        is_setting_key(key),
        trim(value) == value,
    ensures
        parse_setting_line(key + "="@ + value) == Some((key, value)),
{
    reveal_strlit("=");
    let line = key + "="@ + value;
    assert(line[0] == key[0]);
    if value.len() > 0 {
        lemma_trimmed_edges(value);
        assert(line.last() == value.last());
    } else {
        assert(line.last() == '=');
    }
    lemma_trim_identity(line);
    assert forall|i: int| 0 <= i < key.len() implies key[i] != '=' by {}
    assert(line =~= key + (seq!['='] + value));
    lemma_index_of_char_prefix(key, seq!['='] + value, '=');
    assert(line.take(key.len() as int) =~= key);
    assert(line.skip(key.len() + 1int) =~= value);
    lemma_trim_identity(key);
    assert(ascii_lowercase(key) =~= key);
}

/// The lines the choices are stored in, without their line breaks.
pub open spec fn settings_lines(
    tab: PanelTab,
    airport: Seq<char>,
    runway: Seq<char>,
    pad: Seq<char>,
    location: PatternLocation,
    direction: PatternDirection,
) -> Seq<Seq<char>> {
    seq![
        "# Position Aircraft pattern tab"@,
        "active_tab"@ + "="@ + tab.spec_key(),
        "airport"@ + "="@ + airport,
        "runway"@ + "="@ + runway,
        "configuration_pad"@ + "="@ + pad,
        "location"@ + "="@ + location.spec_key(),
        "direction"@ + "="@ + direction.spec_key(),
    ]
}

/// The settings the stored lines hold, in order.
pub open spec fn stored_entries(
    tab: PanelTab,
    airport: Seq<char>,
    runway: Seq<char>,
    pad: Seq<char>,
    location: PatternLocation,
    direction: PatternDirection,
) -> Seq<(Seq<char>, Seq<char>)> {
    seq![
        ("active_tab"@, tab.spec_key()),
        ("airport"@, airport),
        ("runway"@, runway),
        ("configuration_pad"@, pad),
        ("location"@, location.spec_key()),
        ("direction"@, direction.spec_key()),
    ]
}

proof fn lemma_stored_keys_trimmed(tab: PanelTab, location: PatternLocation, direction: PatternDirection)
    ensures
        trim(tab.spec_key()) == tab.spec_key(),
        trim(location.spec_key()) == location.spec_key(),
        trim(direction.spec_key()) == direction.spec_key(),
        single_line(tab.spec_key()),
        single_line(location.spec_key()),
        single_line(direction.spec_key()),
{
    reveal_strlit("pad");
    reveal_strlit("pattern");
    reveal_strlit("left");
    reveal_strlit("right");
    reveal_strlit("final");
    reveal_strlit("intercept");
    reveal_strlit("base");
    reveal_strlit("downwind");
    reveal_strlit("entry");
    lemma_key_form_of_key(tab.spec_key());
    lemma_key_form_of_key(location.spec_key());
    lemma_key_form_of_key(direction.spec_key());
    lemma_trim_identity(tab.spec_key());
    lemma_trim_identity(location.spec_key());
    lemma_trim_identity(direction.spec_key());
}

proof fn lemma_setting_keys()
    ensures
        is_setting_key("active_tab"@),
        is_setting_key("airport"@),
        is_setting_key("runway"@),
        is_setting_key("configuration_pad"@),
        is_setting_key("location"@),
        is_setting_key("direction"@),
{
    reveal_strlit("active_tab");
    reveal_strlit("airport");
    reveal_strlit("runway");
    reveal_strlit("configuration_pad");
    reveal_strlit("location");
    reveal_strlit("direction");
}

proof fn lemma_comment_line()
    ensures
        parse_setting_line("# Position Aircraft pattern tab"@) is None,
        single_line("# Position Aircraft pattern tab"@),
{
    reveal_strlit("# Position Aircraft pattern tab");
    lemma_trim_identity("# Position Aircraft pattern tab"@);
}

#[verifier::spinoff_prover]
proof fn lemma_settings_lines_entries(
    tab: PanelTab,
    airport: Seq<char>,
    runway: Seq<char>,
    pad: Seq<char>,
    location: PatternLocation,
    direction: PatternDirection,
)
    requires
        storable_id(airport),
        storable_id(runway),
        storable(pad),
    ensures
        line_entries(settings_lines(tab, airport, runway, pad, location, direction)) == stored_entries(
            tab,
            airport,
            runway,
            pad,
            location,
            direction,
        ),
        forall|i: int|
            0 <= i < settings_lines(tab, airport, runway, pad, location, direction).len() ==> single_line(
                #[trigger] settings_lines(tab, airport, runway, pad, location, direction)[i],
            ),
{
    let lines = settings_lines(tab, airport, runway, pad, location, direction);
    let stored = stored_entries(tab, airport, runway, pad, location, direction);
    lemma_stored_keys_trimmed(tab, location, direction);
    lemma_setting_keys();
    lemma_comment_line();
    lemma_parse_setting("active_tab"@, tab.spec_key());
    lemma_parse_setting("airport"@, airport);
    lemma_parse_setting("runway"@, runway);
    lemma_parse_setting("configuration_pad"@, pad);
    lemma_parse_setting("location"@, location.spec_key());
    lemma_parse_setting("direction"@, direction.spec_key());
    assert forall|i: int| 0 <= i < 6 implies parse_setting_line(#[trigger] lines.drop_first()[i]) == Some(stored[i]) by {
        assert(lines.drop_first()[i] == lines[i + 1]);
    }
    lemma_line_entries_all(lines.drop_first(), stored);
    lemma_setting_line_single("active_tab"@, tab.spec_key());
    lemma_setting_line_single("airport"@, airport);
    lemma_setting_line_single("runway"@, runway);
    lemma_setting_line_single("configuration_pad"@, pad);
    lemma_setting_line_single("location"@, location.spec_key());
    lemma_setting_line_single("direction"@, direction.spec_key());
    assert forall|i: int| 0 <= i < lines.len() implies single_line(#[trigger] lines[i]) by {}
}

proof fn lemma_setting_line_single(key: Seq<char>, value: Seq<char>)
    requires
        is_setting_key(key),
        single_line(value),
    ensures
        single_line(key + "="@ + value),
{
    reveal_strlit("=");
    let line = key + "="@ + value;
    assert forall|i: int| 0 <= i < line.len() implies line[i] != '\n' by {
        if i < key.len() {
            assert(line[i] == key[i]);
        } else if i > key.len() {
            assert(line[i] == value[i - key.len() - 1]);
        }
    }
}

proof fn lemma_line_entries_all(lines: Seq<Seq<char>>, entries: Seq<(Seq<char>, Seq<char>)>)
    requires
        lines.len() == entries.len(),
        forall|i: int| 0 <= i < lines.len() ==> parse_setting_line(#[trigger] lines[i]) == Some(entries[i]),
    ensures
        line_entries(lines) == entries,
    decreases lines.len(),
{
    if lines.len() > 0 {
        assert forall|i: int| 0 <= i < lines.len() - 1 implies parse_setting_line(#[trigger] lines.drop_first()[i])
            == Some(entries.drop_first()[i]) by {
            assert(lines.drop_first()[i] == lines[i + 1]);
        }
        lemma_line_entries_all(lines.drop_first(), entries.drop_first());
        assert(parse_setting_line(lines[0]) == Some(entries[0]));
        assert(seq![entries[0]] + entries.drop_first() =~= entries);
    } else {
        assert(entries =~= Seq::<(Seq<char>, Seq<char>)>::empty());
    }
}

proof fn lemma_entry_value_at(entries: Seq<(Seq<char>, Seq<char>)>, i: int, key: Seq<char>)
    requires
        0 <= i < entries.len(),
        entries[i].0 == key,
        forall|j: int| i < j < entries.len() ==> (#[trigger] entries[j]).0 != key,
    ensures
        entry_value(entries, key) == Some(entries[i].1),
    decreases entries.len(),
{
    if i < entries.len() - 1 {
        assert(entries.last() == entries[entries.len() - 1]);
        let shorter = entries.drop_last();
        assert forall|j: int| i < j < shorter.len() implies (#[trigger] shorter[j]).0 != key by {
            assert(shorter[j] == entries[j]);
        }
        lemma_entry_value_at(shorter, i, key);
    }
}

proof fn lemma_stored_entry_values(
    tab: PanelTab,
    airport: Seq<char>,
    runway: Seq<char>,
    pad: Seq<char>,
    location: PatternLocation,
    direction: PatternDirection,
)
    ensures
        ({
            let stored = stored_entries(tab, airport, runway, pad, location, direction);
            &&& entry_value(stored, "active_tab"@) == Some(tab.spec_key())
            &&& entry_value(stored, "airport"@) == Some(airport)
            &&& entry_value(stored, "runway"@) == Some(runway)
            &&& entry_value(stored, "configuration_pad"@) == Some(pad)
            &&& entry_value(stored, "location"@) == Some(location.spec_key())
            &&& entry_value(stored, "direction"@) == Some(direction.spec_key())
        }),
{
    reveal_strlit("active_tab");
    reveal_strlit("airport");
    reveal_strlit("runway");
    reveal_strlit("configuration_pad");
    reveal_strlit("location");
    reveal_strlit("direction");
    let stored = stored_entries(tab, airport, runway, pad, location, direction);
    assert forall|i: int| 0 <= i < 6 implies (#[trigger] stored[i]).0.len() == seq![10int, 7, 6, 17, 8, 9][i] by {}
    lemma_entry_value_at(stored, 0, "active_tab"@);
    lemma_entry_value_at(stored, 1, "airport"@);
    lemma_entry_value_at(stored, 2, "runway"@);
    lemma_entry_value_at(stored, 3, "configuration_pad"@);
    lemma_entry_value_at(stored, 4, "location"@);
    lemma_entry_value_at(stored, 5, "direction"@);
}

/// The choices, stored with `text` and followed by lines (`rest`, such as
/// the numbers) that set none of them, read back as they were: the tab, the
/// pattern position and side, and an airport, runway and configuration PAD
/// on one line with no white space around them, the identifiers in upper case.
pub proof fn lemma_settings_round_trip(
    tab: PanelTab,
    airport: Seq<char>,
    runway: Seq<char>,
    pad: Seq<char>,
    location: PatternLocation,
    direction: PatternDirection,
    rest: Seq<char>,
)
    requires
        storable_id(airport),
        storable_id(runway),
        storable(pad),
        setting_value(rest, "active_tab"@) is None,
        setting_value(rest, "airport"@) is None,
        setting_value(rest, "runway"@) is None,
        setting_value(rest, "configuration_pad"@) is None,
        setting_value(rest, "location"@) is None,
        setting_value(rest, "direction"@) is None,
    ensures
        ({
            let text = spec_settings_text(tab, airport, runway, pad, location, direction) + rest;
            &&& stored_tab(text) == tab
            &&& stored_id(text, "airport"@) == airport
            &&& stored_id(text, "runway"@) == runway
            &&& stored_configuration(text) == pad
            &&& stored_location(text) == location
            &&& stored_direction(text) == direction
        }),
{
    let lines = settings_lines(tab, airport, runway, pad, location, direction);
    let stored = stored_entries(tab, airport, runway, pad, location, direction);
    lemma_settings_lines_entries(tab, airport, runway, pad, location, direction);
    lemma_split_join(lines, rest);
    lemma_line_entries_append(lines, split_lines(rest));
    let text = spec_settings_text(tab, airport, runway, pad, location, direction) + rest;
    assert(setting_entries(text) == stored + setting_entries(rest));
    lemma_stored_entry_values(tab, airport, runway, pad, location, direction);
    lemma_entry_value_append(stored, setting_entries(rest), "active_tab"@);
    lemma_entry_value_append(stored, setting_entries(rest), "airport"@);
    lemma_entry_value_append(stored, setting_entries(rest), "runway"@);
    lemma_entry_value_append(stored, setting_entries(rest), "configuration_pad"@);
    lemma_entry_value_append(stored, setting_entries(rest), "location"@);
    lemma_entry_value_append(stored, setting_entries(rest), "direction"@);
    lemma_keys_round_trip(tab, direction, location);
}

} // verus!
