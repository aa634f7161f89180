//! Text taken apart at line breaks and at a given character, as
//! `str::lines`, `str::split` and `str::split_once` take it apart.
use vstd::prelude::*;
use crate::text::{chars_between, chars_eq, chars_of, string_from_chars};

verus! {

/// Index of the first line break in `s`, or its length when there is none.
pub open spec fn line_end(s: Seq<char>) -> nat
    decreases s.len(),
{
    if s.len() == 0 || s[0] == '\n' {
        0
    } else {
        1 + line_end(s.drop_first())
    }
}

/// The lines of `s`, split at each line break (a line's trailing `\r` is
/// white space, which the readers of settings and PAD files trim away).
pub open spec fn split_lines(s: Seq<char>) -> Seq<Seq<char>>
    decreases s.len(),
{
    let e = line_end(s);
    if e >= s.len() {
        seq![s]
    } else {
        seq![s.take(e as int)] + split_lines(s.skip(e + 1int))
    }
}

/// Index of the first `c` in `s`, or its length when there is none.
pub open spec fn index_of_char(s: Seq<char>, c: char) -> nat
    decreases s.len(),
{
    if s.len() == 0 || s[0] == c {
        0
    } else {
        1 + index_of_char(s.drop_first(), c)
    }
}

/// Index of the first `c` in `s` from `start` on, or its length.
pub fn find_char(s: &Vec<char>, start: usize, c: char) -> (r: usize)
    requires
        start <= s@.len(),
    ensures
        r == start + index_of_char(s@.skip(start as int), c),
        r <= s@.len(),
{
    let mut i = start;
    while i < s.len() && s[i] != c
        invariant
            start <= i <= s@.len(),
            start + index_of_char(s@.skip(start as int), c) == i + index_of_char(s@.skip(i as int), c),
        decreases s@.len() - i,
    {
        assert(s@.skip(i as int).drop_first() =~= s@.skip(i + 1));
        i = i + 1;
    }
    proof {
        lemma_index_of_char_bound(s@.skip(i as int), c);
    }
    i
}

pub proof fn lemma_index_of_char_bound(s: Seq<char>, c: char)
    ensures
        index_of_char(s, c) <= s.len(),
        index_of_char(s, c) < s.len() ==> s[index_of_char(s, c) as int] == c,
        forall|k: int| 0 <= k < index_of_char(s, c) ==> s[k] != c,
    decreases s.len(),
{
    if s.len() > 0 && s[0] != c {
        lemma_index_of_char_bound(s.drop_first(), c);
        assert forall|k: int| 0 <= k < index_of_char(s, c) implies s[k] != c by {
            if k > 0 {
                assert(s[k] == s.drop_first()[k - 1]);
            }
        }
    }
}

pub proof fn lemma_line_end_is_index(s: Seq<char>)
    ensures
        line_end(s) == index_of_char(s, '\n'),
    decreases s.len(),
{
    if s.len() > 0 && s[0] != '\n' {
        lemma_line_end_is_index(s.drop_first());
    }
}

/// The lines of `text`.
pub fn text_lines(text: &Vec<char>) -> (r: Vec<Vec<char>>)
    ensures
        r@.len() == split_lines(text@).len(),
        forall|k: int| 0 <= k < r@.len() ==> (#[trigger] r@[k])@ == split_lines(text@)[k],
{
    let mut lines: Vec<Vec<char>> = Vec::new();
    let ghost done = Seq::<Seq<char>>::empty();
    let mut start: usize = 0;
    assert(text@.skip(0) =~= text@);
    loop
        invariant
            start <= text@.len(),
            lines@.len() == done.len(),
            forall|k: int| 0 <= k < lines@.len() ==> (#[trigger] lines@[k])@ == done[k],
            split_lines(text@) == done + split_lines(text@.skip(start as int)),
        decreases text@.len() - start,
    {
        let ghost rest = text@.skip(start as int);
        let mut end = start;
        while end < text.len() && text[end] != '\n'
            invariant
                start <= end <= text@.len(),
                rest == text@.skip(start as int),
                line_end(rest) == (end - start) + line_end(text@.skip(end as int)),
            decreases text@.len() - end,
        {
            assert(text@.skip(end as int).drop_first() =~= text@.skip(end + 1));
            end = end + 1;
        }
        let mut line: Vec<char> = Vec::new();
        let mut i = start;
        while i < end
            invariant
                start <= i <= end <= text@.len(),
                line@ == text@.subrange(start as int, i as int),
            decreases end - i,
        {
            line.push(text[i]);
            assert(text@.subrange(start as int, i + 1) =~= text@.subrange(start as int, i as int).push(text@[i as int]));
            i = i + 1;
        }
        assert(line_end(rest) == end - start);
        assert(line@ =~= rest.take(line_end(rest) as int));
        proof {
            done = done.push(line@);
        }
        lines.push(line);
        if end >= text.len() {
            assert(split_lines(rest) =~= seq![rest]);
            assert(rest.take(line_end(rest) as int) =~= rest);
            assert(split_lines(text@) =~= done);
            return lines;
        }
        proof {
            assert(rest.skip(line_end(rest) + 1int) =~= text@.skip(end + 1));
            assert(done.drop_last() + (seq![line@] + split_lines(text@.skip(end + 1))) =~= done + split_lines(
                text@.skip(end + 1),
            ));
        }
        start = end + 1;
    }
}

/// The value set last for `key` among `entries`.
pub open spec fn entry_value(entries: Seq<(Seq<char>, Seq<char>)>, key: Seq<char>) -> Option<Seq<char>>
    decreases entries.len(),
{
    if entries.len() == 0 {
        None
    } else if entries.last().0 == key {
        Some(entries.last().1)
    } else {
        entry_value(entries.drop_last(), key)
    }
}

/// The value set last for `key` in `entries`.
pub(crate) fn find_value(entries: &Vec<(Vec<char>, Vec<char>)>, key: &str, Ghost(views): Ghost<Seq<(Seq<char>, Seq<char>)>>) -> (r: Option<String>)
    requires
        entries@.len() == views.len(),
        forall|k: int|
            0 <= k < entries@.len() ==> (#[trigger] entries@[k]).0@ == views[k].0 && entries@[k].1@
                == views[k].1,
    ensures
        match entry_value(views, key@) {
            Some(v) => r is Some && r->0@ == v,
            None => r is None,
        },
{
    let wanted = chars_of(key);
    let mut i = entries.len();
    assert(views.take(views.len() as int) =~= views);
    while i > 0
        invariant
            wanted@ == key@,
            i <= entries@.len(),
            entries@.len() == views.len(),
            forall|k: int|
                0 <= k < entries@.len() ==> (#[trigger] entries@[k]).0@ == views[k].0 && entries@[k].1@
                    == views[k].1,
            entry_value(views, key@) == entry_value(views.take(i as int), key@),
        decreases i,
    {
        let ghost prefix = views.take(i as int);
        assert(prefix.last() == views[i - 1]);
        assert(prefix.drop_last() =~= views.take(i - 1));
        if chars_eq(&entries[i - 1].0, &wanted) {
            return Some(string_from_chars(&entries[i - 1].1));
        }
        i = i - 1;
    }
    None
}


/// The lines of `s` as `str::lines` gives them: split at each line break,
/// a carriage return just before the break dropped, and no empty line after
/// a final break.
pub open spec fn str_lines(s: Seq<char>) -> Seq<Seq<char>>
    decreases s.len(),
{
    if s.len() == 0 {
        Seq::empty()
    } else {
        let e = line_end(s);
        if e < s.len() {
            let line = s.take(e as int);
            let line = if line.len() > 0 && line.last() == '\r' {
                line.drop_last()
            } else {
                line
            };
            seq![line] + str_lines(s.skip(e + 1int))
        } else {
            seq![s]
        }
    }
}

/// The lines of `text`, as `str::lines` gives them.
pub fn lines_of(text: &str) -> (r: Vec<Vec<char>>)
    ensures
        r@.len() == str_lines(text@).len(),
        forall|k: int| 0 <= k < r@.len() ==> (#[trigger] r@[k])@ == str_lines(text@)[k],
{
    let s = chars_of(text);
    let mut lines: Vec<Vec<char>> = Vec::new();
    let ghost done = Seq::<Seq<char>>::empty();
    let mut start: usize = 0;
    assert(s@.skip(0) =~= s@);
    while start < s.len()
        invariant
            s@ == text@,
            start <= s@.len(),
            lines@.len() == done.len(),
            forall|k: int| 0 <= k < lines@.len() ==> (#[trigger] lines@[k])@ == done[k],
            str_lines(text@) == done + str_lines(s@.skip(start as int)),
        decreases s@.len() - start,
    {
        let ghost rest = s@.skip(start as int);
        let end = find_char(&s, start, '\n');
        proof {
            lemma_line_end_is_index(rest);
        }
        assert(line_end(rest) == end - start);
        let mut stop = end;
        if end < s.len() && end > start && s[end - 1] == '\r' {
            stop = end - 1;
        }
        let line = chars_between(&s, start, stop);
        let ghost expected = if end < s@.len() {
            let l = rest.take(line_end(rest) as int);
            if l.len() > 0 && l.last() == '\r' {
                l.drop_last()
            } else {
                l
            }
        } else {
            rest
        };
        proof {
            if end < s@.len() {
                assert(rest.take(line_end(rest) as int) =~= s@.subrange(start as int, end as int));
            } else {
                assert(rest =~= s@.subrange(start as int, end as int));
            }
        }
        assert(line@ =~= expected);
        proof {
            done = done.push(line@);
        }
        lines.push(line);
        if end >= s.len() {
            assert(str_lines(rest) =~= seq![rest]);
            assert(str_lines(text@) =~= done);
            return lines;
        }
        proof {
            assert(rest.skip(line_end(rest) + 1int) =~= s@.skip(end + 1));
            assert(done.drop_last() + (seq![line@] + str_lines(s@.skip(end + 1))) =~= done + str_lines(
                s@.skip(end + 1),
            ));
        }
        start = end + 1;
    }
    assert(s@.skip(start as int).len() == 0);
    assert(done + str_lines(s@.skip(start as int)) =~= done);
    lines
}

/// The parts of `s` between the `c`s, as `str::split` with a character
/// gives them.
pub open spec fn split_at_char(s: Seq<char>, c: char) -> Seq<Seq<char>>
    decreases s.len(),
{
    let i = index_of_char(s, c);
    if i >= s.len() {
        seq![s]
    } else {
        seq![s.take(i as int)] + split_at_char(s.skip(i + 1int), c)
    }
}

/// The parts of `s` between the `c`s.
pub fn split_chars(s: &Vec<char>, c: char) -> (r: Vec<Vec<char>>)
    ensures
        r@.len() == split_at_char(s@, c).len(),
        forall|k: int| 0 <= k < r@.len() ==> (#[trigger] r@[k])@ == split_at_char(s@, c)[k],
{
    let mut parts: Vec<Vec<char>> = Vec::new();
    let ghost done = Seq::<Seq<char>>::empty();
    let mut start: usize = 0;
    assert(s@.skip(0) =~= s@);
    loop
        invariant
            start <= s@.len(),
            parts@.len() == done.len(),
            forall|k: int| 0 <= k < parts@.len() ==> (#[trigger] parts@[k])@ == done[k],
            split_at_char(s@, c) == done + split_at_char(s@.skip(start as int), c),
        decreases s@.len() - start,
    {
        let ghost rest = s@.skip(start as int);
        let end = find_char(s, start, c);
        let part = chars_between(s, start, end);
        proof {
            assert(end - start == index_of_char(rest, c));
            assert(part@ =~= rest.take(index_of_char(rest, c) as int));
            done = done.push(part@);
        }
        parts.push(part);
        if end >= s.len() {
            assert(rest.take(index_of_char(rest, c) as int) =~= rest);
            assert(split_at_char(s@, c) =~= done);
            return parts;
        }
        proof {
            assert(rest.skip(index_of_char(rest, c) + 1int) =~= s@.skip(end + 1));
            assert(done.drop_last() + (seq![part@] + split_at_char(s@.skip(end + 1), c)) =~= done
                + split_at_char(s@.skip(end + 1), c));
        }
        start = end + 1;
    }
}

} // verus!
