//! The text of PAD files: `[SECTION]` headers and `Key = value` lines, read
//! as the plugin reads them, section and key names in any case.
use vstd::prelude::*;
use crate::lines::{entry_value, find_char, find_value, index_of_char, split_lines, text_lines};
use crate::text::{ascii_lowercase, chars_ascii_lowercase, chars_between, chars_of, trim, trim_chars};

verus! {

/// Whether the trimmed line `t` opens a section: it starts with `[` and
/// ends with `]`.
pub open spec fn is_section_header(t: Seq<char>) -> bool {
    t.len() > 0 && t[0] == '[' && t.last() == ']'
}

/// The name of the section opened by the header `t`: what stands between
/// the brackets, trimmed and in ASCII lower case.
pub open spec fn section_name(t: Seq<char>) -> Seq<char> {
    ascii_lowercase(trim(t.subrange(1, t.len() - 1)))
}

/// The values set by `lines` under `section` and the sections that follow
/// it, in order: each `key = value` line (not blank, not a `;` or `#`
/// comment) gives the value (trimmed) under the name "section.key", the key
/// trimmed and in ASCII lower case.
pub open spec fn section_entries(lines: Seq<Seq<char>>, section: Seq<char>) -> Seq<(Seq<char>, Seq<char>)>
    decreases lines.len(),
{
    if lines.len() == 0 {
        Seq::empty()
    } else {
        let t = trim(lines[0]);
        if is_section_header(t) {
            section_entries(lines.drop_first(), section_name(t))
        } else if t.len() == 0 || t[0] == ';' || t[0] == '#' {
            section_entries(lines.drop_first(), section)
        } else {
            let eq = index_of_char(t, '=');
            if eq < t.len() {
                seq![(section + "."@ + ascii_lowercase(trim(t.take(eq as int))), trim(t.skip(eq + 1int)))]
                    + section_entries(lines.drop_first(), section)
            } else {
                section_entries(lines.drop_first(), section)
            }
        }
    }
}

/// The values a PAD file's text sets, in order; lines before the first
/// header belong to the unnamed section.
pub open spec fn pad_entries(text: Seq<char>) -> Seq<(Seq<char>, Seq<char>)> {
    section_entries(split_lines(text), Seq::empty())
}

/// The value a PAD file's text sets last for `key` in `section` (in any
/// case), unless it is empty.
pub open spec fn spec_pad_value(text: Seq<char>, section: Seq<char>, key: Seq<char>) -> Option<Seq<char>> {
    match entry_value(pad_entries(text), ascii_lowercase(section) + "."@ + ascii_lowercase(key)) {
        Some(v) => if v.len() > 0 { Some(v) } else { None },
        None => None,
    }
}

/// `a` followed by `b`.
fn chars_append(a: &Vec<char>, b: &Vec<char>) -> (r: Vec<char>)
    ensures
        r@ == a@ + b@,
{
    let mut r = a.clone();
    assert(r@ =~= a@);
    let mut i: usize = 0;
    while i < b.len()
        invariant
            i <= b@.len(),
            r@ == a@ + b@.take(i as int),
        decreases b@.len() - i,
    {
        r.push(b[i]);
        assert(b@.take(i + 1) =~= b@.take(i as int).push(b@[i as int]));
        assert(a@ + b@.take(i + 1) =~= (a@ + b@.take(i as int)).push(b@[i as int]));
        i = i + 1;
    }
    assert(b@.take(b@.len() as int) =~= b@);
    r
}

/// The values the PAD file's text sets, in order.
fn read_pad_entries(text: &str) -> (r: Vec<(Vec<char>, Vec<char>)>)
    ensures
        r@.len() == pad_entries(text@).len(),
        forall|k: int|
            0 <= k < r@.len() ==> (#[trigger] r@[k]).0@ == pad_entries(text@)[k].0 && r@[k].1@
                == pad_entries(text@)[k].1,
{
    let chars = chars_of(text);
    let lines = text_lines(&chars);
    let ghost all = split_lines(text@);
    let mut entries: Vec<(Vec<char>, Vec<char>)> = Vec::new();
    let ghost views = Seq::<(Seq<char>, Seq<char>)>::empty();
    let mut section: Vec<char> = Vec::new();
    let dot: Vec<char> = vec!['.'];
    proof {
        reveal_strlit(".");
        assert(dot@ =~= "."@);
    }
    let mut i: usize = 0;
    assert(all.skip(0) =~= all);
    while i < lines.len()
        invariant
            i <= lines@.len(),
            all == split_lines(text@),
            lines@.len() == all.len(),
            forall|k: int| 0 <= k < lines@.len() ==> (#[trigger] lines@[k])@ == all[k],
            dot@ == "."@,
            entries@.len() == views.len(),
            forall|k: int|
                0 <= k < entries@.len() ==> (#[trigger] entries@[k]).0@ == views[k].0 && entries@[k].1@
                    == views[k].1,
            pad_entries(text@) == views + section_entries(all.skip(i as int), section@),
        decreases lines@.len() - i,
    {
        let ghost rest = all.skip(i as int);
        assert(rest[0] == lines@[i as int]@);
        assert(rest.drop_first() =~= all.skip(i + 1));
        let t = trim_chars(&lines[i]);
        let n = t.len();
        if n > 0 && t[0] == '[' && t[n - 1] == ']' {
            let inner = chars_between(&t, 1, n - 1);
            section = chars_ascii_lowercase(&trim_chars(&inner));
        } else if n == 0 || t[0] == ';' || t[0] == '#' {
        } else {
            let eq = find_char(&t, 0, '=');
            assert(t@.skip(0) =~= t@);
            if eq < n {
                let key = chars_ascii_lowercase(&trim_chars(&chars_between(&t, 0, eq)));
                let value = trim_chars(&chars_between(&t, eq + 1, n));
                assert(t@.subrange(0, eq as int) =~= t@.take(eq as int));
                assert(t@.subrange(eq + 1, n as int) =~= t@.skip(eq + 1int));
                let name = chars_append(&chars_append(&section, &dot), &key);
                proof {
                    let e = (name@, value@);
                    assert(views + (seq![e] + section_entries(all.skip(i + 1), section@)) =~= views.push(e)
                        + section_entries(all.skip(i + 1), section@));
                    views = views.push(e);
                }
                entries.push((name, value));
            }
        }
        i = i + 1;
    }
    assert(section_entries(all.skip(i as int), section@) =~= Seq::<(Seq<char>, Seq<char>)>::empty()) by {
        assert(all.skip(i as int).len() == 0);
    }
    assert(views + Seq::<(Seq<char>, Seq<char>)>::empty() =~= views);
    entries
}

/// The value the PAD file's text sets last for `key` in `section` (in any
/// case), unless it is empty.
pub fn pad_value(text: &str, section: &str, key: &str) -> (r: Option<String>)
    ensures
        match spec_pad_value(text@, section@, key@) {
            Some(v) => r is Some && r->0@ == v,
            None => r is None,
        },
{
    let entries = read_pad_entries(text);
    let section = chars_ascii_lowercase(&chars_of(section));
    let key = chars_ascii_lowercase(&chars_of(key));
    let dot: Vec<char> = vec!['.'];
    proof {
        reveal_strlit(".");
        assert(dot@ =~= "."@);
    }
    let name = crate::text::string_from_chars(&chars_append(&chars_append(&section, &dot), &key));
    match find_value(&entries, name.as_str(), Ghost(pad_entries(text@))) {
        Some(v) => if v.as_str().is_empty() { None } else { Some(v) },
        None => None,
    }
}

} // verus!
