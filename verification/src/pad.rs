//! PAD position files: the editable form fields and safe file names.
use vstd::prelude::*;
use crate::text::{
    ascii_lower, ascii_lowercase, is_space, leading_spaces, chars_end_with_ignore_ascii_case, chars_of, ends_with, string_from_chars,
    trim, trim_chars,
};

verus! {

/// One editable field of the position form.
#[derive(Copy, Clone, Debug, PartialEq, Eq, Structural)]
pub enum Field {
    Latitude,
    Longitude,
    Altitude,
    Heading,
    Pitch,
    Roll,
    Speed,
    Throttle,
    Flaps,
    Gear,
    ApMode,
    ApAltitude,
    ApVerticalVelocity,
    ApHeading,
    ApAirspeed,
    ApState,
    ApHeadingRollMode,
    SaveName,
}

/// Number of fields of the form.
pub const FIELD_COUNT: usize = 18;

/// The position of a field in the form, in declaration order.
pub open spec fn field_index(field: Field) -> int {
    match field {
        Field::Latitude => 0,
        Field::Longitude => 1,
        Field::Altitude => 2,
        Field::Heading => 3,
        Field::Pitch => 4,
        Field::Roll => 5,
        Field::Speed => 6,
        Field::Throttle => 7,
        Field::Flaps => 8,
        Field::Gear => 9,
        Field::ApMode => 10,
        Field::ApAltitude => 11,
        Field::ApVerticalVelocity => 12,
        Field::ApHeading => 13,
        Field::ApAirspeed => 14,
        Field::ApState => 15,
        Field::ApHeadingRollMode => 16,
        Field::SaveName => 17,
    }
}

impl Field {
    /// The position of this field in the form.
    pub fn index(self) -> (r: usize)
        ensures
            r == field_index(self),
            r < FIELD_COUNT,
    {
        match self {
            Field::Latitude => 0,
            Field::Longitude => 1,
            Field::Altitude => 2,
            Field::Heading => 3,
            Field::Pitch => 4,
            Field::Roll => 5,
            Field::Speed => 6,
            Field::Throttle => 7,
            Field::Flaps => 8,
            Field::Gear => 9,
            Field::ApMode => 10,
            Field::ApAltitude => 11,
            Field::ApVerticalVelocity => 12,
            Field::ApHeading => 13,
            Field::ApAirspeed => 14,
            Field::ApState => 15,
            Field::ApHeadingRollMode => 16,
            Field::SaveName => 17,
        }
    }
}

/// Distinct fields occupy distinct positions of the form.
pub proof fn lemma_field_index_injective(a: Field, b: Field)
    ensures
        0 <= field_index(a) < FIELD_COUNT,
        field_index(a) == field_index(b) ==> a == b,
{
}

/// The text of every field of the position form, and whether the autopilot
/// values are applied.
#[derive(Clone)]
pub struct Form {
    values: Vec<String>,
    use_ap: bool,
}

impl Form {
    /// The form holds one text per field.
    pub open spec fn wf(&self) -> bool {
        self.spec_values().len() == FIELD_COUNT
    }

    /// The texts of the fields, in field order.
    pub closed spec fn spec_values(&self) -> Seq<String> {
        self.values@
    }

    /// Whether the autopilot values are applied.
    pub closed spec fn spec_use_ap(&self) -> bool {
        self.use_ap
    }

    /// The text of `field`.
    pub open spec fn spec_value(&self, field: Field) -> Seq<char> {
        self.spec_values()[field_index(field)]@
    }

    /// A form made of one text per field, in field order; `None` unless there
    /// are exactly as many texts as fields.
    pub fn from_values(values: Vec<String>, use_ap: bool) -> (r: Option<Form>)
        ensures
            r is Some <==> values.len() == FIELD_COUNT,
            r matches Some(form) ==> form.wf() && form.spec_values() == values@
                && form.spec_use_ap() == use_ap,
    {
        if values.len() == FIELD_COUNT {
            Some(Form { values, use_ap })
        } else {
            None
        }
    }

    /// The text of `field`.
    pub fn value(&self, field: Field) -> (r: &str)
        requires
            self.wf(),
        ensures
            r@ == self.spec_value(field),
    {
        self.values[field.index()].as_str()
    }

    /// The text of `field`, for editing in place.
    pub fn value_mut(&mut self, field: Field) -> (r: &mut String)
        requires
            old(self).wf(),
        ensures
            *r == old(self).spec_values()[field_index(field)],
            final(self).spec_values() == old(self).spec_values().update(
                field_index(field),
                *final(r),
            ),
            final(self).spec_use_ap() == old(self).spec_use_ap(),
    {
        let index = field.index();
        &mut self.values[index]
    }

    /// Whether the autopilot values are applied.
    pub fn use_ap(&self) -> (r: bool)
        ensures
            r == self.spec_use_ap(),
    {
        self.use_ap
    }

    /// Switches the application of the autopilot values on or off.
    pub fn toggle_ap(&mut self)
        ensures
            final(self).spec_use_ap() == !old(self).spec_use_ap(),
            final(self).spec_values() == old(self).spec_values(),
    {
        self.use_ap = !self.use_ap;
    }
}

/// Whether `c` is an ASCII letter or digit.
pub open spec fn is_ascii_alnum(c: char) -> bool {
    ('0' <= c <= '9') || ('a' <= c <= 'z') || ('A' <= c <= 'Z')
}

/// The characters kept in a PAD file name: ASCII letters and digits, `-`,
/// `_`, `.` and the space.
pub open spec fn is_name_char(c: char) -> bool {
    is_ascii_alnum(c) || c == '-' || c == '_' || c == '.' || c == ' '
}

/// A kept character, or `_` in place of any other (path separators, reserved
/// characters, control and non-ASCII characters).
pub open spec fn sanitize_char(c: char) -> char {
    if is_name_char(c) { c } else { '_' }
}

/// Whether `s` holds two dots at `i` and `i + 1`.
pub open spec fn pair_at(s: Seq<char>, i: int) -> bool {
    0 <= i && i + 1 < s.len() && s[i] == '.' && s[i + 1] == '.'
}

/// Whether `s` holds two dots in a row.
pub open spec fn has_pair(s: Seq<char>) -> bool {
    exists|i: int| #[trigger] pair_at(s, i)
}

/// `s` with each `..`, taken left to right without overlap, replaced by `_`,
/// as `str::replace("..", "_")`.
pub open spec fn replace_pairs(s: Seq<char>) -> Seq<char>
    decreases s.len(),
{
    if s.len() >= 2 && s[0] == '.' && s[1] == '.' {
        seq!['_'] + replace_pairs(s.skip(2))
    } else if s.len() >= 1 {
        seq![s[0]] + replace_pairs(s.skip(1))
    } else {
        Seq::empty()
    }
}

/// Replacing never lengthens the text, and shortens it when there is a pair
/// to replace.
pub proof fn lemma_replace_pairs_len(s: Seq<char>)
    ensures
        replace_pairs(s).len() <= s.len(),
        has_pair(s) ==> replace_pairs(s).len() < s.len(),
    decreases s.len(),
{
    if s.len() >= 2 && s[0] == '.' && s[1] == '.' {
        lemma_replace_pairs_len(s.skip(2));
    } else if s.len() >= 1 {
        lemma_replace_pairs_len(s.skip(1));
        if has_pair(s) {
            let i = choose|i: int| #[trigger] pair_at(s, i);
            assert(i >= 1);
            assert(pair_at(s.skip(1), i - 1));
        }
    }
}

/// `s` with every run of dots shortened by replacing pairs until no two dots
/// stand in a row.
pub open spec fn collapse_pairs(s: Seq<char>) -> Seq<char>
    decreases s.len(),
{
    if has_pair(s) {
        proof {
            lemma_replace_pairs_len(s);
        }
        collapse_pairs(replace_pairs(s))
    } else {
        s
    }
}

/// `s` without its trailing dots and spaces.
pub open spec fn strip_trailing_dots(s: Seq<char>) -> Seq<char>
    decreases s.len(),
{
    if s.len() > 0 && (s.last() == '.' || s.last() == ' ') {
        strip_trailing_dots(s.drop_last())
    } else {
        s
    }
}

/// `s` without a final `.pad` in any letter case.
pub open spec fn drop_pad_extension(s: Seq<char>) -> Seq<char> {
    if ends_with(ascii_lowercase(s), ".pad"@) {
        s.take(s.len() - 4)
    } else {
        s
    }
}

/// The file name under which a PAD is saved for the name typed by the user:
/// trimmed; every character but ASCII letters, digits, `-`, `_`, `.` and space
/// replaced by `_`; pairs of dots replaced by `_` until none is left; trailing
/// dots and spaces removed; a `.pad` extension in any case removed; then
/// `.pad` appended. `None` when nothing is left of the name.
pub open spec fn spec_safe_pad_filename(name: Seq<char>) -> Option<Seq<char>> {
    let stem = drop_pad_extension(
        strip_trailing_dots(collapse_pairs(trim(name).map_values(|c: char| sanitize_char(c)))),
    );
    if stem.len() == 0 {
        None
    } else {
        Some(stem + ".pad"@)
    }
}

/// Whether `c` is kept as it is in a PAD file name.
fn char_is_name_char(c: char) -> (r: bool)
    ensures
        r == is_name_char(c),
{
    ('0' <= c && c <= '9') || ('a' <= c && c <= 'z') || ('A' <= c && c <= 'Z') || c == '-' || c
        == '_' || c == '.' || c == ' '
}

/// Whether two dots stand in a row in `s`.
fn chars_have_pair(s: &Vec<char>) -> (r: bool)
    ensures
        r == has_pair(s@),
{
    let mut i: usize = 0;
    while i < s.len()
        invariant
            i <= s@.len(),
            forall|k: int| 0 <= k < i ==> !#[trigger] pair_at(s@, k),
        decreases s@.len() - i,
    {
        if i + 1 < s.len() && s[i] == '.' && s[i + 1] == '.' {
            assert(pair_at(s@, i as int));
            return true;
        }
        i = i + 1;
    }
    assert forall|k: int| !#[trigger] pair_at(s@, k) by {
        if k >= i {
            assert(k + 1 >= s@.len());
        }
    }
    false
}

/// `s` with each `..` replaced by `_`, left to right.
fn chars_replace_pairs(s: &Vec<char>) -> (r: Vec<char>)
    ensures
        r@ == replace_pairs(s@),
{
    let mut r: Vec<char> = Vec::new();
    let mut i: usize = 0;
    assert(s@.skip(0) =~= s@);
    while i < s.len()
        invariant
            i <= s@.len(),
            replace_pairs(s@) == r@ + replace_pairs(s@.skip(i as int)),
        decreases s@.len() - i,
    {
        let ghost rest = s@.skip(i as int);
        if i + 1 < s.len() && s[i] == '.' && s[i + 1] == '.' {
            assert(rest.skip(2) =~= s@.skip(i + 2));
            r.push('_');
            assert(replace_pairs(rest) == seq!['_'] + replace_pairs(rest.skip(2)));
            assert(r@ + replace_pairs(s@.skip(i + 2)) =~= (r@.drop_last()) + (seq!['_'] + replace_pairs(rest.skip(2))));
            i = i + 2;
        } else {
            assert(rest.skip(1) =~= s@.skip(i + 1));
            r.push(s[i]);
            assert(replace_pairs(rest) == seq![rest[0]] + replace_pairs(rest.skip(1)));
            assert(r@ + replace_pairs(s@.skip(i + 1)) =~= (r@.drop_last()) + (seq![rest[0]] + replace_pairs(rest.skip(1))));
            i = i + 1;
        }
    }
    assert(s@.skip(i as int) =~= Seq::<char>::empty());
    assert(r@ + replace_pairs(Seq::<char>::empty()) =~= r@);
    r
}

/// A safe PAD file name for the name typed by the user: only ASCII letters,
/// digits, `-`, `_`, `.` and spaces, no two dots in a row, ending in `.pad`;
/// `None` when nothing is left of the name.
pub fn safe_pad_filename(name: &str) -> (r: Option<String>)
    ensures
        r is Some <==> spec_safe_pad_filename(name@) is Some,
        r matches Some(f) ==> f@ == spec_safe_pad_filename(name@)->0,
{
    let chars = chars_of(name);
    let trimmed = trim_chars(&chars);
    let mut output: Vec<char> = Vec::new();
    for i in 0..trimmed.len()
        invariant
            output@ == trimmed@.take(i as int).map_values(|c: char| sanitize_char(c)),
    {
        let c = trimmed[i];
        if char_is_name_char(c) {
            output.push(c);
        } else {
            output.push('_');
        }
        assert(trimmed@.take(i + 1) =~= trimmed@.take(i as int).push(c));
        assert(output@ =~= trimmed@.take(i + 1).map_values(|c: char| sanitize_char(c)));
    }
    assert(trimmed@.take(trimmed@.len() as int) =~= trimmed@);
    let ghost sanitized = output@;
    while chars_have_pair(&output)
        invariant
            collapse_pairs(sanitized) == collapse_pairs(output@),
        decreases output@.len(),
    {
        proof {
            lemma_replace_pairs_len(output@);
        }
        output = chars_replace_pairs(&output);
    }
    let ghost collapsed = output@;
    while output.len() > 0 && (output[output.len() - 1] == '.' || output[output.len() - 1] == ' ')
        invariant
            strip_trailing_dots(collapsed) == strip_trailing_dots(output@),
        decreases output@.len(),
    {
        output.pop();
    }
    let extension: Vec<char> = vec!['.', 'p', 'a', 'd'];
    proof {
        reveal_strlit(".pad");
        assert(extension@ =~= ".pad"@);
        assert(ascii_lowercase(extension@) =~= ".pad"@);
    }
    if chars_end_with_ignore_ascii_case(&output, &extension) {
        output.truncate(output.len() - 4);
    }
    if output.len() == 0 {
        None
    } else {
        let ghost stem = output@;
        output.push('.');
        output.push('p');
        output.push('a');
        output.push('d');
        assert(output@ =~= stem + ".pad"@);
        Some(string_from_chars(&output))
    }
}

/// Whether every character of `s` is kept as it is in PAD file names.
pub open spec fn all_name_chars(s: Seq<char>) -> bool {
    forall|i: int| 0 <= i < s.len() ==> is_name_char(#[trigger] s[i])
}

proof fn lemma_replace_pairs_keeps_name_chars(s: Seq<char>)
    requires
        all_name_chars(s),
    ensures
        all_name_chars(replace_pairs(s)),
    decreases s.len(),
{
    if s.len() >= 2 && s[0] == '.' && s[1] == '.' {
        assert(all_name_chars(s.skip(2))) by {
            assert forall|i: int| 0 <= i < s.skip(2).len() implies is_name_char(#[trigger] s.skip(2)[i]) by {
                assert(s.skip(2)[i] == s[i + 2]);
            }
        }
        lemma_replace_pairs_keeps_name_chars(s.skip(2));
        let r = replace_pairs(s);
        assert forall|i: int| 0 <= i < r.len() implies is_name_char(#[trigger] r[i]) by {
            if i > 0 {
                assert(r[i] == replace_pairs(s.skip(2))[i - 1]);
            }
        }
    } else if s.len() >= 1 {
        assert(all_name_chars(s.skip(1))) by {
            assert forall|i: int| 0 <= i < s.skip(1).len() implies is_name_char(#[trigger] s.skip(1)[i]) by {
                assert(s.skip(1)[i] == s[i + 1]);
            }
        }
        lemma_replace_pairs_keeps_name_chars(s.skip(1));
        let r = replace_pairs(s);
        assert forall|i: int| 0 <= i < r.len() implies is_name_char(#[trigger] r[i]) by {
            if i > 0 {
                assert(r[i] == replace_pairs(s.skip(1))[i - 1]);
            }
        }
    }
}

proof fn lemma_collapse_pairs(s: Seq<char>)
    requires
        all_name_chars(s),
    ensures
        all_name_chars(collapse_pairs(s)),
        !has_pair(collapse_pairs(s)),
    decreases s.len(),
{
    if has_pair(s) {
        lemma_replace_pairs_len(s);
        lemma_replace_pairs_keeps_name_chars(s);
        lemma_collapse_pairs(replace_pairs(s));
    }
}

proof fn lemma_strip_trailing_dots(s: Seq<char>)
    ensures
        ({
            let t = strip_trailing_dots(s);
            &&& t.len() <= s.len()
            &&& t == s.take(t.len() as int)
            &&& t.len() > 0 ==> t.last() != '.' && t.last() != ' '
        }),
    decreases s.len(),
{
    if s.len() > 0 && (s.last() == '.' || s.last() == ' ') {
        lemma_strip_trailing_dots(s.drop_last());
        let t = strip_trailing_dots(s.drop_last());
        assert(t =~= s.take(t.len() as int));
    } else {
        assert(s =~= s.take(s.len() as int));
    }
}

/// A prefix of a text without pairs of dots and with kept characters only
/// has the same properties.
proof fn lemma_prefix_keeps(s: Seq<char>, n: int)
    requires
        0 <= n <= s.len(),
        all_name_chars(s),
        !has_pair(s),
    ensures
        all_name_chars(s.take(n)),
        !has_pair(s.take(n)),
{
    let t = s.take(n);
    assert forall|i: int| 0 <= i < t.len() implies is_name_char(#[trigger] t[i]) by {
        assert(t[i] == s[i]);
    }
    assert forall|i: int| !#[trigger] pair_at(t, i) by {
        if pair_at(t, i) {
            assert(pair_at(s, i));
        }
    }
}

/// A PAD file name is safe to join to the PAD directory: it ends in `.pad`,
/// holds only ASCII letters, digits, `-`, `_`, `.` and spaces (no path
/// separator), never two dots in a row (no parent-directory step), and has a
/// non-empty name before the extension.
pub proof fn lemma_safe_pad_filename_stays_in_directory(name: Seq<char>)
    ensures
        spec_safe_pad_filename(name) matches Some(f) ==> {
            &&& ends_with(f, ".pad"@)
            &&& f.len() > 4
            &&& all_name_chars(f)
            &&& !has_pair(f)
        },
{
    reveal_strlit(".pad");
    let sanitized = trim(name).map_values(|c: char| sanitize_char(c));
    assert(all_name_chars(sanitized));
    lemma_collapse_pairs(sanitized);
    let collapsed = collapse_pairs(sanitized);
    lemma_strip_trailing_dots(collapsed);
    let stripped = strip_trailing_dots(collapsed);
    lemma_prefix_keeps(collapsed, stripped.len() as int);
    let stem = drop_pad_extension(stripped);
    let dropped = ends_with(ascii_lowercase(stripped), ".pad"@);
    if dropped {
        lemma_prefix_keeps(stripped, stripped.len() - 4);
    }
    if stem.len() > 0 {
        let f = stem + ".pad"@;
        // The last character of the stem is no dot.
        if dropped {
            let n = stripped.len();
            let l = ascii_lowercase(stripped);
            assert(l.len() == n);
            assert(l.skip(n - 4) == ".pad"@);
            assert(l.skip(n - 4)[0] == l[n - 4]);
            assert(".pad"@[0] == '.');
            assert(l[n - 4] == '.');
            assert(stripped[n - 4] == '.');
            assert(!pair_at(stripped, n - 5));
            assert(stem.last() == stripped[n - 5]);
            assert(stem.last() != '.');
        } else {
            assert(stem.last() != '.');
        }
        assert forall|i: int| 0 <= i < f.len() implies is_name_char(#[trigger] f[i]) by {
            if i < stem.len() {
                assert(f[i] == stem[i]);
            }
        }
        assert forall|i: int| !#[trigger] pair_at(f, i) by {
            if pair_at(f, i) {
                if i + 1 < stem.len() {
                    assert(pair_at(stem, i));
                } else if i + 1 == stem.len() {
                    assert(f[i] == stem.last());
                }
            }
        }
        assert(f.skip(f.len() - 4) =~= ".pad"@);
    }
}


/// The first character that `trim` keeps is no white space.
proof fn lemma_trim_first(s: Seq<char>)
    requires
        trim(s).len() > 0,
    ensures
        !is_space(trim(s)[0]),
    decreases s.len(),
{
    lemma_leading_bound(s);
    if s.len() > 0 && is_space(s[0]) {
        let d = s.drop_first();
        lemma_leading_bound(d);
        assert(s.skip(leading_spaces(s)) =~= d.skip(leading_spaces(d)));
        assert(trim(s) == trim(d));
        lemma_trim_first(d);
    } else {
        assert(leading_spaces(s) == 0);
        assert(s.skip(0) =~= s);
        lemma_trailing_bound(s);
        assert(trim(s) == s.take(s.len() - crate::text::trailing_spaces(s)));
        assert(trim(s)[0] == s[0]);
    }
}

/// `trailing_spaces` counts no more characters than there are.
proof fn lemma_trailing_bound(s: Seq<char>)
    ensures
        0 <= crate::text::trailing_spaces(s) <= s.len(),
    decreases s.len(),
{
    if s.len() > 0 && is_space(s.last()) {
        lemma_trailing_bound(s.drop_last());
    }
}

/// `leading_spaces` counts no more characters than there are.
proof fn lemma_leading_bound(s: Seq<char>)
    ensures
        0 <= leading_spaces(s) <= s.len(),
    decreases s.len(),
{
    if s.len() > 0 && is_space(s[0]) {
        lemma_leading_bound(s.drop_first());
    }
}

/// Replacing pairs of dots keeps a text that does not start with a space
/// from starting with one.
proof fn lemma_replace_pairs_first(s: Seq<char>)
    requires
        s.len() > 0,
        s[0] != ' ',
    ensures
        replace_pairs(s).len() > 0,
        replace_pairs(s)[0] != ' ',
{
}

/// Collapsing pairs of dots keeps a text that does not start with a space
/// from starting with one.
proof fn lemma_collapse_pairs_first(s: Seq<char>)
    requires
        s.len() > 0,
        s[0] != ' ',
    ensures
        collapse_pairs(s).len() > 0,
        collapse_pairs(s)[0] != ' ',
    decreases s.len(),
{
    if has_pair(s) {
        lemma_replace_pairs_len(s);
        lemma_replace_pairs_first(s);
        lemma_collapse_pairs_first(replace_pairs(s));
    }
}

/// A name that `safe_pad_filename` gave is given back unchanged: making a
/// safe name safe again changes nothing (no second `.pad`, no further
/// replacement).
pub proof fn lemma_safe_pad_filename_idempotent(name: Seq<char>)
    ensures
        spec_safe_pad_filename(name) matches Some(f) ==> spec_safe_pad_filename(f) == Some(f),
{
    reveal_strlit(".pad");
    lemma_safe_pad_filename_stays_in_directory(name);
    let t = trim(name);
    let sanitized = t.map_values(|c: char| sanitize_char(c));
    let collapsed = collapse_pairs(sanitized);
    let stripped = strip_trailing_dots(collapsed);
    let stem = drop_pad_extension(stripped);
    if stem.len() > 0 {
        let f = stem + ".pad"@;
        assert(spec_safe_pad_filename(name) == Some(f));
        // The stem starts with neither white space nor a space.
        lemma_strip_trailing_dots(collapsed);
        assert(stem.len() <= stripped.len() && stem =~= stripped.take(stem.len() as int));
        assert(stripped.len() <= collapsed.len());
        assert(sanitized.len() == t.len());
        if sanitized.len() == 0 {
            assert(collapsed == sanitized) by {
                assert(!has_pair(sanitized));
            }
        }
        assert(t.len() > 0);
        lemma_trim_first(name);
        assert(sanitized[0] == sanitize_char(t[0]));
        assert(sanitized[0] != ' ');
        lemma_collapse_pairs_first(sanitized);
        assert(stem[0] == stripped[0]);
        assert(stripped[0] == collapsed[0]);
        assert(f[0] == stem[0]);
        assert(is_name_char(f[0]));
        assert(!is_space(f[0]));
        // `f` is already trimmed, sanitized, collapsed and stripped.
        assert(f.last() == 'd');
        crate::text::lemma_leading_spaces(f, 0);
        crate::text::lemma_trailing_spaces(f, f.len() as int);
        assert(f.skip(0) =~= f);
        assert(trim(f) =~= f);
        assert(f.map_values(|c: char| sanitize_char(c)) =~= f);
        assert(collapse_pairs(f) == f);
        assert(strip_trailing_dots(f) == f);
        let l = ascii_lowercase(f);
        assert(l.skip(l.len() - 4) =~= ".pad"@) by {
            assert(f.skip(f.len() - 4) =~= ".pad"@);
            assert forall|i: int| 0 <= i < 4 implies #[trigger] l.skip(l.len() - 4)[i] == ".pad"@[i] by {
                assert(l[l.len() - 4 + i] == ascii_lower(f[f.len() - 4 + i]));
                assert(f[f.len() - 4 + i] == ".pad"@[i]);
            }
        }
        assert(drop_pad_extension(f) =~= stem);
    }
}

} // verus!
