//! The text files the Shuttle HUD reads: the combiner's optics, one
//! `key value` pair a line, and the runway list, one comma-separated runway
//! a line.
use vstd::prelude::*;
use crate::lines::{lines_of, split_at_char, split_chars, str_lines};
use crate::numbers::{split_words, words};
use crate::text::string_from_chars;

verus! {

/// The first two words of each of `lines` that has two at least: a key and
/// the text of its value, in order.
pub open spec fn key_value_pairs(lines: Seq<Seq<char>>) -> Seq<(Seq<char>, Seq<char>)>
    decreases lines.len(),
{
    if lines.len() == 0 {
        Seq::empty()
    } else {
        let earlier = key_value_pairs(lines.drop_last());
        let w = words(lines.last());
        if w.len() >= 2 {
            earlier.push((w[0], w[1]))
        } else {
            earlier
        }
    }
}

/// The key and value text of each line of the optics file `text` that has
/// two words at least, in order; a later line sets a key again.
pub fn optics_entries(text: &str) -> (r: Vec<(String, String)>)
    ensures
        r@.len() == key_value_pairs(str_lines(text@)).len(),
        forall|k: int|
            0 <= k < r@.len() ==> (#[trigger] r@[k]).0@ == key_value_pairs(str_lines(text@))[k].0
                && r@[k].1@ == key_value_pairs(str_lines(text@))[k].1,
{
    let lines = lines_of(text);
    let ghost all = str_lines(text@);
    let mut r: Vec<(String, String)> = Vec::new();
    for i in 0..lines.len()
        invariant
            lines@.len() == all.len(),
            forall|k: int| 0 <= k < lines@.len() ==> (#[trigger] lines@[k])@ == all[k],
            r@.len() == key_value_pairs(all.take(i as int)).len(),
            forall|k: int|
                0 <= k < r@.len() ==> (#[trigger] r@[k]).0@ == key_value_pairs(all.take(i as int))[k].0
                    && r@[k].1@ == key_value_pairs(all.take(i as int))[k].1,
    {
        let line = string_from_chars(&lines[i]);
        let w = split_words(line.as_str());
        let ghost before = key_value_pairs(all.take(i as int));
        assert(all.take(i + 1).drop_last() =~= all.take(i as int));
        assert(all.take(i + 1).last() == all[i as int]);
        if w.len() >= 2 {
            r.push((w[0].clone(), w[1].clone()));
            assert(key_value_pairs(all.take(i + 1)) == before.push((w@[0]@, w@[1]@)));
        } else {
            assert(key_value_pairs(all.take(i + 1)) == before);
        }
    }
    assert(all.take(all.len() as int) =~= all);
    r
}

/// The fields of a runway line: name, threshold latitude and longitude, end
/// latitude and longitude, width, displaced threshold, elevation.
pub const RUNWAY_COLUMNS: usize = 8;

/// The comma-separated fields of each of `lines` that has exactly
/// `RUNWAY_COLUMNS` of them, in order.
pub open spec fn runway_rows(lines: Seq<Seq<char>>) -> Seq<Seq<Seq<char>>>
    decreases lines.len(),
{
    if lines.len() == 0 {
        Seq::empty()
    } else {
        let earlier = runway_rows(lines.drop_last());
        let fields = split_at_char(lines.last(), ',');
        if fields.len() == RUNWAY_COLUMNS {
            earlier.push(fields)
        } else {
            earlier
        }
    }
}

/// Whether the texts `r` are the fields `row`.
pub open spec fn same_fields(r: Seq<String>, row: Seq<Seq<char>>) -> bool {
    r.len() == row.len() && forall|j: int| 0 <= j < r.len() ==> (#[trigger] r[j])@ == row[j]
}

/// The fields of the lines of the runway list `text` that have exactly
/// `RUNWAY_COLUMNS` comma-separated fields, in order.
pub fn runway_fields(text: &str) -> (r: Vec<Vec<String>>)
    ensures
        r@.len() == runway_rows(str_lines(text@)).len(),
        forall|k: int| 0 <= k < r@.len() ==> same_fields((#[trigger] r@[k])@, runway_rows(str_lines(text@))[k]),
{
    let lines = lines_of(text);
    let ghost all = str_lines(text@);
    let mut r: Vec<Vec<String>> = Vec::new();
    for i in 0..lines.len()
        invariant
            lines@.len() == all.len(),
            forall|k: int| 0 <= k < lines@.len() ==> (#[trigger] lines@[k])@ == all[k],
            r@.len() == runway_rows(all.take(i as int)).len(),
            forall|k: int|
                0 <= k < r@.len() ==> same_fields((#[trigger] r@[k])@, runway_rows(all.take(i as int))[k]),
    {
        let parts = split_chars(&lines[i], ',');
        let ghost before = runway_rows(all.take(i as int));
        assert(all.take(i + 1).drop_last() =~= all.take(i as int));
        assert(all.take(i + 1).last() == all[i as int]);
        if parts.len() == RUNWAY_COLUMNS {
            let mut row: Vec<String> = Vec::new();
            for j in 0..parts.len()
                invariant
                    row@.len() == j,
                    forall|m: int| 0 <= m < j ==> (#[trigger] row@[m])@ == parts@[m]@,
            {
                row.push(string_from_chars(&parts[j]));
            }
            let ghost fields = split_at_char(all[i as int], ',');
            assert(same_fields(row@, fields));
            r.push(row);
            assert(runway_rows(all.take(i + 1)) == before.push(fields));
        } else {
            assert(runway_rows(all.take(i + 1)) == before);
        }
    }
    assert(all.take(all.len() as int) =~= all);
    r
}

} // verus!
