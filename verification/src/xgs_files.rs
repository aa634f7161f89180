//! The text files the landing-speed overlay reads: the landing rating scale,
//! the mapping from aircraft to rating scales, the list of scenery packs and
//! the airport records of `apt.dat`.
use vstd::prelude::*;
use vstd::hash_set::StringHashSet;
use crate::lines::{find_char, index_of_char, lemma_index_of_char_bound, split_lines, text_lines};
use crate::numbers::{split_words, words};
use crate::text::{chars_between, chars_of, starts_with, str_eq, str_starts_with, string_from_chars, trim, trim_chars};

verus! {

/// Whether a trimmed line carries content: it is not empty and is not a `#`
/// comment.
pub open spec fn is_content(line: Seq<char>) -> bool {
    line.len() > 0 && line[0] != '#'
}

/// The trimmed lines among `lines` that carry content, in order.
pub open spec fn content_lines(lines: Seq<Seq<char>>) -> Seq<Seq<char>>
    decreases lines.len(),
{
    if lines.len() == 0 {
        Seq::empty()
    } else {
        let earlier = content_lines(lines.drop_last());
        let t = trim(lines.last());
        if is_content(t) {
            earlier.push(t)
        } else {
            earlier
        }
    }
}

/// The trimmed content lines of `text`.
fn content_lines_of(text: &str) -> (r: Vec<Vec<char>>)
    ensures
        r@.len() == content_lines(split_lines(text@)).len(),
        forall|k: int|
            0 <= k < r@.len() ==> (#[trigger] r@[k])@ == content_lines(split_lines(text@))[k],
{
    let chars = chars_of(text);
    let lines = text_lines(&chars);
    let ghost all = split_lines(text@);
    let mut r: Vec<Vec<char>> = Vec::new();
    for i in 0..lines.len()
        invariant
            lines@.len() == all.len(),
            forall|k: int| 0 <= k < lines@.len() ==> (#[trigger] lines@[k])@ == all[k],
            r@.len() == content_lines(all.take(i as int)).len(),
            forall|k: int|
                0 <= k < r@.len() ==> (#[trigger] r@[k])@ == content_lines(all.take(i as int))[k],
    {
        let t = trim_chars(&lines[i]);
        let ghost before = content_lines(all.take(i as int));
        assert(all.take(i + 1).drop_last() =~= all.take(i as int));
        assert(all.take(i + 1).last() == all[i as int]);
        if t.len() > 0 && t[0] != '#' {
            r.push(t);
            assert(content_lines(all.take(i + 1)) == before.push(t@));
        } else {
            assert(content_lines(all.take(i + 1)) == before);
        }
    }
    assert(all.take(all.len() as int) =~= all);
    r
}

/// The first content line of a rating scale: `V30`.
pub open spec fn rating_header() -> Seq<char> {
    seq!['V', '3', '0']
}

/// The most rating lines a scale reads after its header.
pub const MAX_RATING_LINES: usize = 10;

/// The rating lines of a scale whose content lines are `c`: those after the
/// header, at most `MAX_RATING_LINES` of them.
pub open spec fn rating_lines(c: Seq<Seq<char>>) -> Seq<Seq<char>> {
    if c.len() - 1 > MAX_RATING_LINES {
        c.subrange(1, MAX_RATING_LINES + 1)
    } else {
        c.subrange(1, c.len() as int)
    }
}

/// The rating lines of the scale `text`: `None` when its first content line
/// is not the `V30` header, else the content lines after the header, at
/// most `MAX_RATING_LINES`. Content lines are trimmed, not empty and not
/// `#` comments.
pub fn rating_body(text: &str) -> (r: Option<Vec<String>>)
    ensures
        ({
            let c = content_lines(split_lines(text@));
            &&& r is None <==> !(c.len() > 0 && c[0] == rating_header())
            &&& r is Some ==> r->0@.len() == rating_lines(c).len() && forall|k: int|
                0 <= k < r->0@.len() ==> (#[trigger] r->0@[k])@ == rating_lines(c)[k]
        }),
{
    let c = content_lines_of(text);
    let ghost cv = content_lines(split_lines(text@));
    if c.len() == 0 {
        return None;
    }
    let first = &c[0];
    if !(first.len() == 3 && first[0] == 'V' && first[1] == '3' && first[2] == '0') {
        assert(c@[0]@ != rating_header()) by {
            if c@[0]@ == rating_header() {
                assert(c@[0]@[0] == 'V' && c@[0]@[1] == '3' && c@[0]@[2] == '0');
            }
        }
        return None;
    }
    assert(c@[0]@ =~= rating_header());
    let end: usize = if c.len() - 1 > MAX_RATING_LINES {
        MAX_RATING_LINES + 1
    } else {
        c.len()
    };
    let ghost wanted = rating_lines(cv);
    let mut body: Vec<String> = Vec::new();
    let mut i: usize = 1;
    while i < end
        invariant
            1 <= i <= end <= c@.len(),
            c@.len() == cv.len(),
            forall|k: int| 0 <= k < c@.len() ==> (#[trigger] c@[k])@ == cv[k],
            wanted == cv.subrange(1, end as int),
            body@.len() == i - 1,
            forall|k: int| 0 <= k < body@.len() ==> (#[trigger] body@[k])@ == wanted[k],
        decreases end - i,
    {
        body.push(string_from_chars(&c[i]));
        i = i + 1;
    }
    Some(body)
}

/// How a rating line gives its limit on the sink rate.
pub enum RatingLimit {
    /// In metres per second, the text of the number.
    MetersPerSecond(String),
    /// In feet per minute, the text of the number.
    FeetPerMinute(String),
    /// No limit: the line rates every sink rate not rated before it.
    Unlimited,
}

/// A rating line: its limit and the text shown for landings within it.
pub struct RatingLine {
    pub limit: RatingLimit,
    pub text: String,
}

/// Why a rating line was refused.
#[derive(Debug, Clone, Copy, PartialEq, Eq, Structural)]
pub enum RatingLineError {
    /// It has fewer than three `;`-separated fields.
    MissingField,
    /// Its third field, the text, is empty.
    EmptyText,
}

/// The three fields of a rating line, split at its first two `;` and
/// trimmed (the third keeps any later `;`), or `None` when it has fewer than
/// two `;`.
pub open spec fn rating_fields(line: Seq<char>) -> Option<(Seq<char>, Seq<char>, Seq<char>)> {
    let i = index_of_char(line, ';');
    let rest = line.skip(i as int + 1);
    let j = index_of_char(rest, ';');
    if i >= line.len() || j >= rest.len() {
        None
    } else {
        Some((trim(line.take(i as int)), trim(rest.take(j as int)), trim(rest.skip(j as int + 1))))
    }
}

/// Reads a rating line `m/s;fpm;text`: the limit is the metres per second
/// when that field is not empty, else the feet per minute when that one is
/// not, else there is none.
pub fn rating_line(line: &str) -> (r: Result<RatingLine, RatingLineError>)
    ensures
        match rating_fields(line@) {
            None => r == Err::<RatingLine, RatingLineError>(RatingLineError::MissingField),
            Some((mps, fpm, text)) => if text.len() == 0 {
                r == Err::<RatingLine, RatingLineError>(RatingLineError::EmptyText)
            } else {
                &&& r is Ok
                &&& r->Ok_0.text@ == text
                &&& mps.len() > 0 ==> (r->Ok_0.limit matches RatingLimit::MetersPerSecond(n) && n@
                    == mps)
                &&& mps.len() == 0 && fpm.len() > 0 ==> (r->Ok_0.limit matches RatingLimit::FeetPerMinute(
                    n,
                ) && n@ == fpm)
                &&& mps.len() == 0 && fpm.len() == 0 ==> r->Ok_0.limit is Unlimited
            },
        },
{
    let s = chars_of(line);
    proof {
        lemma_index_of_char_bound(s@, ';');
    }
    let i = find_char(&s, 0, ';');
    assert(s@.skip(0) =~= s@);
    if i == s.len() {
        return Err(RatingLineError::MissingField);
    }
    let j = find_char(&s, i + 1, ';');
    let ghost rest = s@.skip(i + 1);
    proof {
        lemma_index_of_char_bound(rest, ';');
    }
    if j == s.len() {
        return Err(RatingLineError::MissingField);
    }
    let mps = trim_chars(&chars_between(&s, 0, i));
    let fpm = trim_chars(&chars_between(&s, i + 1, j));
    let text = trim_chars(&chars_between(&s, j + 1, s.len()));
    assert(s@.subrange(0, i as int) =~= s@.take(i as int));
    assert(s@.subrange(i + 1, j as int) =~= rest.take(j - (i + 1)));
    assert(s@.subrange(j + 1, s@.len() as int) =~= rest.skip(j - (i + 1) + 1));
    if text.len() == 0 {
        return Err(RatingLineError::EmptyText);
    }
    let limit = if mps.len() > 0 {
        RatingLimit::MetersPerSecond(string_from_chars(&mps))
    } else if fpm.len() > 0 {
        RatingLimit::FeetPerMinute(string_from_chars(&fpm))
    } else {
        RatingLimit::Unlimited
    };
    Ok(RatingLine { limit, text: string_from_chars(&text) })
}


/// The scale files that the mapping whose content lines are `c` names for
/// the aircraft type `icao`: the second word of each line whose first word
/// is `icao`, in order.
pub open spec fn mapped_files(c: Seq<Seq<char>>, icao: Seq<char>) -> Seq<Seq<char>>
    decreases c.len(),
{
    if c.len() == 0 {
        Seq::empty()
    } else {
        let earlier = mapped_files(c.drop_last(), icao);
        let w = words(c.last());
        if w.len() >= 2 && w[0] == icao {
            earlier.push(w[1])
        } else {
            earlier
        }
    }
}

/// The rating scale files that the mapping `mapping` names for the aircraft
/// type `icao`, in the order in which they are tried.
pub fn rating_files_for(mapping: &str, icao: &str) -> (r: Vec<String>)
    ensures
        r@.len() == mapped_files(content_lines(split_lines(mapping@)), icao@).len(),
        forall|k: int|
            0 <= k < r@.len() ==> (#[trigger] r@[k])@ == mapped_files(
                content_lines(split_lines(mapping@)),
                icao@,
            )[k],
{
    let c = content_lines_of(mapping);
    let ghost cv = content_lines(split_lines(mapping@));
    let mut r: Vec<String> = Vec::new();
    for i in 0..c.len()
        invariant
            c@.len() == cv.len(),
            forall|k: int| 0 <= k < c@.len() ==> (#[trigger] c@[k])@ == cv[k],
            r@.len() == mapped_files(cv.take(i as int), icao@).len(),
            forall|k: int|
                0 <= k < r@.len() ==> (#[trigger] r@[k])@ == mapped_files(cv.take(i as int), icao@)[k],
    {
        let line = string_from_chars(&c[i]);
        let w = split_words(line.as_str());
        let ghost before = mapped_files(cv.take(i as int), icao@);
        assert(cv.take(i + 1).drop_last() =~= cv.take(i as int));
        assert(cv.take(i + 1).last() == cv[i as int]);
        if w.len() >= 2 && str_eq(w[0].as_str(), icao) {
            r.push(w[1].clone());
            assert(mapped_files(cv.take(i + 1), icao@) == before.push(w@[1]@));
        } else {
            assert(mapped_files(cv.take(i + 1), icao@) == before);
        }
    }
    assert(cv.take(cv.len() as int) =~= cv);
    r
}

/// The word that opens a scenery pack's line in `scenery_packs.ini`, with
/// the space after it.
pub open spec fn pack_prefix() -> Seq<char> {
    seq!['S', 'C', 'E', 'N', 'E', 'R', 'Y', '_', 'P', 'A', 'C', 'K', ' ']
}

/// The scenery packs that the lines `lines` list: of each line that,
/// trimmed, starts with `SCENERY_PACK `, the rest of it, trimmed.
pub open spec fn pack_paths(lines: Seq<Seq<char>>) -> Seq<Seq<char>>
    decreases lines.len(),
{
    if lines.len() == 0 {
        Seq::empty()
    } else {
        let earlier = pack_paths(lines.drop_last());
        let t = trim(lines.last());
        if starts_with(t, pack_prefix()) {
            earlier.push(trim(t.skip(pack_prefix().len() as int)))
        } else {
            earlier
        }
    }
}

/// The scenery packs that `scenery_packs.ini` lists, in its order, each as
/// the path it gives relative to the simulator's folder.
pub fn scenery_packs(ini: &str) -> (r: Vec<String>)
    ensures
        r@.len() == pack_paths(split_lines(ini@)).len(),
        forall|k: int| 0 <= k < r@.len() ==> (#[trigger] r@[k])@ == pack_paths(split_lines(ini@))[k],
{
    let chars = chars_of(ini);
    let lines = text_lines(&chars);
    let ghost all = split_lines(ini@);
    let prefix = "SCENERY_PACK ";
    proof {
        reveal_strlit("SCENERY_PACK ");
        assert(prefix@ =~= pack_prefix());
    }
    let mut r: Vec<String> = Vec::new();
    for i in 0..lines.len()
        invariant
            prefix@ == pack_prefix(),
            lines@.len() == all.len(),
            forall|k: int| 0 <= k < lines@.len() ==> (#[trigger] lines@[k])@ == all[k],
            r@.len() == pack_paths(all.take(i as int)).len(),
            forall|k: int|
                0 <= k < r@.len() ==> (#[trigger] r@[k])@ == pack_paths(all.take(i as int))[k],
    {
        let t = trim_chars(&lines[i]);
        let ts = string_from_chars(&t);
        let ghost before = pack_paths(all.take(i as int));
        assert(all.take(i + 1).drop_last() =~= all.take(i as int));
        assert(all.take(i + 1).last() == all[i as int]);
        if str_starts_with(ts.as_str(), prefix) {
            let rest = trim_chars(&chars_between(&t, 13, t.len()));
            assert(t@.subrange(13, t@.len() as int) =~= t@.skip(13));
            r.push(string_from_chars(&rest));
            assert(pack_paths(all.take(i + 1)) == before.push(rest@));
        } else {
            assert(pack_paths(all.take(i + 1)) == before);
        }
    }
    assert(all.take(all.len() as int) =~= all);
    r
}

/// Whether `code` opens an airport's records in `apt.dat`: `1` a land
/// airport, `16` a seaplane base, `17` a heliport.
pub open spec fn is_airport_code(code: Seq<char>) -> bool {
    code == seq!['1'] || code == seq!['1', '6'] || code == seq!['1', '7']
}

/// The code of a land airport.
pub open spec fn land_airport_code() -> Seq<char> {
    seq!['1']
}

/// The code of a runway record.
pub open spec fn runway_code() -> Seq<char> {
    seq!['1', '0', '0']
}

/// The fewest words of an airport header: code, elevation, two unused
/// fields, identifier.
pub const AIRPORT_HEADER_WORDS: usize = 5;

/// The fewest words of a runway record.
pub const RUNWAY_RECORD_WORDS: usize = 26;

/// What reading a line whose words are `w` makes of the scan whose seen
/// identifiers are `seen` and whose airport being read is `current`
/// (identifier, elevation, accepted): an airport header records its
/// identifier as seen and becomes the airport being read, accepted when it
/// is a land airport whose identifier was not seen before; any other line
/// leaves the scan as it is.
pub open spec fn apt_next(
    seen: Set<Seq<char>>,
    current: Option<(Seq<char>, Seq<char>, bool)>,
    w: Seq<Seq<char>>,
) -> (Set<Seq<char>>, Option<(Seq<char>, Seq<char>, bool)>) {
    if w.len() >= AIRPORT_HEADER_WORDS && is_airport_code(w[0]) {
        (seen.insert(w[4]), Some((w[4], w[1], w[0] == land_airport_code() && !seen.contains(w[4]))))
    } else {
        (seen, current)
    }
}

/// Whether an airport is being read and was accepted.
pub open spec fn is_accepted(current: Option<(Seq<char>, Seq<char>, bool)>) -> bool {
    match current {
        Some((_, _, accepted)) => accepted,
        None => false,
    }
}

/// The airport (identifier, elevation) whose runway the line with words `w`
/// records while `current` is being read: some when the line is a runway
/// record and the airport was accepted.
pub open spec fn apt_record(current: Option<(Seq<char>, Seq<char>, bool)>, w: Seq<Seq<char>>) -> Option<
    (Seq<char>, Seq<char>),
> {
    match current {
        Some((id, elevation, accepted)) => if w.len() >= RUNWAY_RECORD_WORDS && w[0] == runway_code()
            && accepted {
            Some((id, elevation))
        } else {
            None
        },
        None => None,
    }
}

/// The airport whose records are being read.
pub struct AirportHeader {
    pub id: String,
    /// The elevation's text, in feet.
    pub elevation: String,
    /// Whether its runways are taken.
    pub accepted: bool,
}

/// The airport being read, as (identifier, elevation, accepted).
pub open spec fn header_view(h: Option<AirportHeader>) -> Option<(Seq<char>, Seq<char>, bool)> {
    match h {
        Some(h) => Some((h.id@, h.elevation@, h.accepted)),
        None => None,
    }
}

/// A runway record of an accepted airport: the airport's identifier and
/// elevation, and the record's words.
pub struct RunwayRecord {
    pub airport: String,
    pub elevation: String,
    pub fields: Vec<String>,
}

/// Reads the airport records of `apt.dat` files line by line. The
/// identifiers seen are kept from file to file, so that an airport's runways
/// come from the first land-airport record with its identifier.
pub struct AptScan {
    pub seen: StringHashSet,
    pub current: Option<AirportHeader>,
}

impl View for AptScan {
    type V = (Set<Seq<char>>, Option<(Seq<char>, Seq<char>, bool)>);

    open spec fn view(&self) -> Self::V {
        (self.seen@, header_view(self.current))
    }
}

impl AptScan {
    /// A scan that has seen nothing.
    pub fn new() -> (r: AptScan)
        ensures
            r@ == (Set::<Seq<char>>::empty(), None::<(Seq<char>, Seq<char>, bool)>),
    {
        AptScan { seen: StringHashSet::new(), current: None }
    }

    /// Starts on a new file: no airport is being read.
    pub fn start_file(&mut self)
        ensures
            final(self)@ == (old(self)@.0, None::<(Seq<char>, Seq<char>, bool)>),
    {
        self.current = None;
    }

    /// Reads `line`, and gives the runway record it holds for an accepted
    /// airport.
    pub fn line(&mut self, line: &str) -> (r: Option<RunwayRecord>)
        ensures
            final(self)@ == apt_next(old(self)@.0, old(self)@.1, words(line@)),
            match apt_record(old(self)@.1, words(line@)) {
                None => r is None,
                Some((id, elevation)) => {
                    &&& r is Some
                    &&& r->0.airport@ == id
                    &&& r->0.elevation@ == elevation
                    &&& r->0.fields@.len() == words(line@).len()
                    &&& forall|k: int|
                        0 <= k < r->0.fields@.len() ==> (#[trigger] r->0.fields@[k])@ == words(
                            line@,
                        )[k]
                },
            },
    {
        let w = split_words(line);
        let ghost wv = words(line@);
        if w.len() == 0 {
            return None;
        }
        let code = chars_of(w[0].as_str());
        let land = code.len() == 1 && code[0] == '1';
        let airport = land || (code.len() == 2 && code[0] == '1' && (code[1] == '6' || code[1] == '7'));
        proof {
            if land {
                assert(code@ =~= land_airport_code());
            } else if code@ == land_airport_code() {
                assert(code@[0] == '1');
            }
            if code.len() == 2 && code[0] == '1' && code[1] == '6' {
                assert(code@ =~= seq!['1', '6']);
            }
            if code.len() == 2 && code[0] == '1' && code[1] == '7' {
                assert(code@ =~= seq!['1', '7']);
            }
            if code@ == seq!['1', '6'] || code@ == seq!['1', '7'] {
                assert(code@.len() == 2 && code@[0] == '1');
            }
            assert(airport == is_airport_code(wv[0]));
            assert(land == (wv[0] == land_airport_code()));
        }
        if airport {
            if w.len() >= AIRPORT_HEADER_WORDS {
                let fresh = self.seen.insert(w[4].clone());
                self.current = Some(
                    AirportHeader { id: w[4].clone(), elevation: w[1].clone(), accepted: land && fresh },
                );
            }
            return None;
        }
        let runway = code.len() == 3 && code[0] == '1' && code[1] == '0' && code[2] == '0';
        proof {
            if runway {
                assert(code@ =~= runway_code());
            } else if code@ == runway_code() {
                assert(code@[0] == '1' && code@[1] == '0' && code@[2] == '0');
            }
        }
        if !runway || w.len() < RUNWAY_RECORD_WORDS {
            return None;
        }
        match &self.current {
            Some(h) => {
                if h.accepted {
                    Some(
                        RunwayRecord {
                            airport: h.id.clone(),
                            elevation: h.elevation.clone(),
                            fields: w,
                        },
                    )
                } else {
                    None
                }
            },
            None => None,
        }
    }
}

/// The identifiers of the airports accepted while reading the lines `lines`
/// from the scan `(seen, current)`, in order.
pub open spec fn accepted_airports(
    seen: Set<Seq<char>>,
    current: Option<(Seq<char>, Seq<char>, bool)>,
    lines: Seq<Seq<char>>,
) -> Seq<Seq<char>>
    decreases lines.len(),
{
    if lines.len() == 0 {
        Seq::empty()
    } else {
        let w = words(lines[0]);
        let next = apt_next(seen, current, w);
        let here = if w.len() >= AIRPORT_HEADER_WORDS && is_airport_code(w[0]) && is_accepted(next.1) {
            seq![w[4]]
        } else {
            Seq::empty()
        };
        here + accepted_airports(next.0, next.1, lines.drop_first())
    }
}

/// Each airport is accepted at most once, and never one whose identifier
/// was seen before: where several scenery packs define an airport, the
/// first definition read is the one whose runways count.
pub proof fn lemma_airports_accepted_once(
    seen: Set<Seq<char>>,
    current: Option<(Seq<char>, Seq<char>, bool)>,
    lines: Seq<Seq<char>>,
)
    ensures
        accepted_airports(seen, current, lines).no_duplicates(),
        forall|k: int|
            0 <= k < accepted_airports(seen, current, lines).len() ==> !seen.contains(
                #[trigger] accepted_airports(seen, current, lines)[k],
            ),
    decreases lines.len(),
{
    if lines.len() > 0 {
        let w = words(lines[0]);
        let next = apt_next(seen, current, w);
        lemma_airports_accepted_once(next.0, next.1, lines.drop_first());
        let rest = accepted_airports(next.0, next.1, lines.drop_first());
        let all = accepted_airports(seen, current, lines);
        assert(next.0.subset_of(next.0));
        assert forall|k: int| 0 <= k < rest.len() implies !seen.contains(#[trigger] rest[k]) by {
            if w.len() >= AIRPORT_HEADER_WORDS && is_airport_code(w[0]) {
                assert(next.0.contains(rest[k]) ==> seen.insert(w[4]).contains(rest[k]));
            }
        }
        if w.len() >= AIRPORT_HEADER_WORDS && is_airport_code(w[0]) && is_accepted(next.1) {
            assert(all == seq![w[4]] + rest);
            assert(next.0.contains(w[4]));
            assert forall|i: int, j: int| 0 <= i < j < all.len() implies all[i] != all[j] by {
                if i == 0 {
                    assert(all[j] == rest[j - 1]);
                } else {
                    assert(all[i] == rest[i - 1] && all[j] == rest[j - 1]);
                }
            }
            assert forall|k: int| 0 <= k < all.len() implies !seen.contains(#[trigger] all[k]) by {
                if k > 0 {
                    assert(all[k] == rest[k - 1]);
                }
            }
        } else {
            assert(all =~= rest);
        }
    }
}

} // verus!
