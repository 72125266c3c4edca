//! The start line and header lines that a connection begins with.
use crate::table::{insert_pair, Table};
use crate::text::{
    chars_of, split, split_chars, split_once, split_once_chars, string_of, string_views, views,
};
use vstd::prelude::*;

verus! {

/// The first three parts of a start line split at single spaces: method,
/// target and version; `None` where there are fewer than three.
pub fn start_line_parts(line: &str) -> (r: Option<(String, String, String)>)
    ensures
        r is Some <==> split(line@, " "@).len() >= 3,
        r matches Some((m, p, v)) ==> m@ == split(line@, " "@)[0] && p@ == split(line@, " "@)[1]
            && v@ == split(line@, " "@)[2],
{
    let parts = split_chars(&chars_of(line), &chars_of(" "));
    if parts.len() < 3 {
        return None;
    }
    assert(views(parts@)[0] == parts@[0]@);
    assert(views(parts@)[1] == parts@[1]@);
    assert(views(parts@)[2] == parts@[2]@);
    Some((string_of(&parts[0]), string_of(&parts[1]), string_of(&parts[2])))
}

/// The key and value of a header line `key: value`; `None` where the line
/// holds no `: `.
pub fn header_pair(line: &str) -> (r: Option<(String, String)>)
    ensures
        r matches Some((k, v)) ==> split_once(line@, ": "@) == Some((k@, v@)),
        r is None ==> split_once(line@, ": "@) is None,
{
    match split_once_chars(&chars_of(line), &chars_of(": ")) {
        Some((k, v)) => Some((string_of(&k), string_of(&v))),
        None => None,
    }
}

/// The headers of `lines[i..]` added to `acc`: each line `key: value` sets
/// `key` to `value`; a line without `: ` (an empty line among them) is
/// skipped.
pub open spec fn headers_of_lines(
    lines: Seq<Seq<char>>,
    i: int,
    acc: Seq<(Seq<char>, Seq<char>)>,
) -> Seq<(Seq<char>, Seq<char>)>
    decreases lines.len() - i,
{
    if i < 0 || i >= lines.len() {
        acc
    } else {
        match split_once(lines[i], ": "@) {
            Some((k, v)) => headers_of_lines(lines, i + 1, insert_pair(acc, k, v)),
            None => headers_of_lines(lines, i + 1, acc),
        }
    }
}

/// The number of lines of `lines[i..]` without `: `.
pub open spec fn lines_skipped(lines: Seq<Seq<char>>, i: int) -> nat
    decreases lines.len() - i,
{
    if i < 0 || i >= lines.len() {
        0
    } else if split_once(lines[i], ": "@) is Some {
        lines_skipped(lines, i + 1)
    } else {
        1 + lines_skipped(lines, i + 1)
    }
}

proof fn lemma_lines_skipped_bound(lines: Seq<Seq<char>>, i: int)
    requires
        0 <= i <= lines.len(),
    ensures
        lines_skipped(lines, i) <= lines.len() - i,
    decreases lines.len() - i,
{
    if i < lines.len() {
        lemma_lines_skipped_bound(lines, i + 1);
    }
}

/// The headers of the lines that follow a start line, and how many lines
/// were skipped for holding no `: `. Each line `key: value` sets `key`,
/// a later line replacing an earlier value; an empty line holds no `: `, so
/// it is skipped like any other such line.
pub fn collect_headers(lines: &Vec<String>) -> (r: (Table<String>, usize))
    ensures
        r.0@ == headers_of_lines(string_views(lines@), 0, seq![]),
        r.1 == lines_skipped(string_views(lines@), 0),
{
    let ghost ls = string_views(lines@);
    let mut headers: Table<String> = Table::new();
    let mut skipped: usize = 0;
    let mut i: usize = 0;
    proof {
        lemma_lines_skipped_bound(ls, 0);
    }
    while i < lines.len()
        invariant
            i <= lines@.len(),
            ls == string_views(lines@),
            headers_of_lines(ls, i as int, headers@) == headers_of_lines(ls, 0, seq![]),
            skipped + lines_skipped(ls, i as int) == lines_skipped(ls, 0),
            lines_skipped(ls, 0) <= lines@.len(),
        decreases lines.len() - i,
    {
        assert(ls[i as int] == lines@[i as int]@);
        match header_pair(lines[i].as_str()) {
            Some((key, val)) => {
                headers.insert(key, val);
            },
            None => {
                skipped = skipped + 1;
            },
        }
        i = i + 1;
    }
    (headers, skipped)
}

} // verus!
