//! Character-level text operations used by the parsers.
//!
//! Every operation works on sequences of `char`; its meaning is given by a
//! spec function over `Seq<char>` that follows the behaviour of the
//! corresponding `str` method of the standard library.
use core::num::ParseIntError;
use vstd::prelude::*;

verus! {

/// The Unicode `White_Space` property.
pub open spec fn is_white(c: char) -> bool {
    let u = c as u32;
    ||| (0x09 <= u && u <= 0x0d)
    ||| u == 0x20
    ||| u == 0x85
    ||| u == 0xa0
    ||| u == 0x1680
    ||| (0x2000 <= u && u <= 0x200a)
    ||| u == 0x2028
    ||| u == 0x2029
    ||| u == 0x202f
    ||| u == 0x205f
    ||| u == 0x3000
}

/// Whether `c` has the Unicode `White_Space` property.
pub fn is_whitespace(c: char) -> (r: bool)
    ensures
        r == is_white(c),
{
    let u = c as u32;
    (0x09 <= u && u <= 0x0d) || u == 0x20 || u == 0x85 || u == 0xa0 || u == 0x1680 || (0x2000
        <= u && u <= 0x200a) || u == 0x2028 || u == 0x2029 || u == 0x202f || u == 0x205f || u
        == 0x3000
}

/// Appends `c` to `s` with `String::push`; the contract claims that `s`
/// then holds its former characters followed by `c`.
#[verifier::external_body]
fn push_char(s: &mut String, c: char)
    ensures
        final(s)@ == old(s)@.push(c),
{
    s.push(c)
}

/// The characters of a string slice, in order.
pub fn chars_of(s: &str) -> (r: Vec<char>)
    ensures
        r@ == s@,
{
    let mut r: Vec<char> = Vec::new();
    for c in it: s.chars()
        invariant
            r@ == it.seq().take(it.index() as int),
    {
        r.push(c);
    }
    r
}

/// A `String` holding the characters `v[lo..hi]`.
pub fn string_of_range(v: &Vec<char>, lo: usize, hi: usize) -> (r: String)
    requires
        lo <= hi <= v@.len(),
    ensures
        r@ == v@.subrange(lo as int, hi as int),
{
    let mut r = String::new();
    let mut i = lo;
    while i < hi
        invariant
            lo <= i <= hi <= v@.len(),
            r@ == v@.subrange(lo as int, i as int),
        decreases hi - i,
    {
        push_char(&mut r, v[i]);
        assert(v@.subrange(lo as int, i + 1) == v@.subrange(lo as int, i as int).push(v@[i as int]));
        i = i + 1;
    }
    r
}

/// A `String` holding the characters of `v`.
pub fn string_of(v: &Vec<char>) -> (r: String)
    ensures
        r@ == v@,
{
    let r = string_of_range(v, 0, v.len());
    assert(v@.subrange(0, v@.len() as int) == v@);
    r
}

/// The characters `v[lo..hi]`.
pub fn slice_chars(v: &Vec<char>, lo: usize, hi: usize) -> (r: Vec<char>)
    requires
        lo <= hi <= v@.len(),
    ensures
        r@ == v@.subrange(lo as int, hi as int),
{
    let mut r: Vec<char> = Vec::new();
    let mut i = lo;
    while i < hi
        invariant
            lo <= i <= hi <= v@.len(),
            r@ == v@.subrange(lo as int, i as int),
        decreases hi - i,
    {
        r.push(v[i]);
        assert(v@.subrange(lo as int, i + 1) == v@.subrange(lo as int, i as int).push(v@[i as int]));
        i = i + 1;
    }
    r
}

/// Whether two character sequences are equal.
pub fn chars_eq(a: &Vec<char>, b: &Vec<char>) -> (r: bool)
    ensures
        r == (a@ == b@),
{
    if a.len() != b.len() {
        return false;
    }
    let mut i: usize = 0;
    while i < a.len()
        invariant
            a@.len() == b@.len(),
            i <= a@.len(),
            forall|j: int| 0 <= j < i ==> a@[j] == b@[j],
        decreases a.len() - i,
    {
        if a[i] != b[i] {
            return false;
        }
        i = i + 1;
    }
    assert(a@ =~= b@);
    true
}

// ---------------------------------------------------------------------------
// Trimming
// ---------------------------------------------------------------------------

/// The number of leading white-space characters of `s`.
pub open spec fn lead(s: Seq<char>) -> nat
    decreases s.len(),
{
    if s.len() > 0 && is_white(s[0]) {
        1 + lead(s.drop_first())
    } else {
        0
    }
}

/// The number of trailing white-space characters of `s`.
pub open spec fn trail(s: Seq<char>) -> nat
    decreases s.len(),
{
    if s.len() > 0 && is_white(s.last()) {
        1 + trail(s.drop_last())
    } else {
        0
    }
}

/// `s` without its leading white space (`str::trim_start`).
pub open spec fn trim_start(s: Seq<char>) -> Seq<char> {
    s.skip(lead(s) as int)
}

/// `s` without its trailing white space (`str::trim_end`).
pub open spec fn trim_end(s: Seq<char>) -> Seq<char> {
    s.take(s.len() - trail(s))
}

/// `s` without leading and trailing white space (`str::trim`).
pub open spec fn trim(s: Seq<char>) -> Seq<char> {
    trim_end(trim_start(s))
}

proof fn lemma_lead(s: Seq<char>, k: int)
    requires
        0 <= k <= s.len(),
        forall|i: int| 0 <= i < k ==> is_white(#[trigger] s[i]),
        k == s.len() || !is_white(s[k]),
    ensures
        lead(s) == k,
    decreases s.len(),
{
    if k > 0 {
        let t = s.drop_first();
        assert forall|i: int| 0 <= i < k - 1 implies is_white(#[trigger] t[i]) by {
            assert(t[i] == s[i + 1]);
        }
        if k - 1 < t.len() {
            assert(t[k - 1] == s[k]);
        }
        lemma_lead(t, k - 1);
    }
}

proof fn lemma_trail(s: Seq<char>, k: int)
    requires
        0 <= k <= s.len(),
        forall|i: int| s.len() - k <= i < s.len() ==> is_white(#[trigger] s[i]),
        k == s.len() || !is_white(s[s.len() - k - 1]),
    ensures
        trail(s) == k,
    decreases s.len(),
{
    if k > 0 {
        let t = s.drop_last();
        assert forall|i: int| t.len() - (k - 1) <= i < t.len() implies is_white(
            #[trigger] t[i],
        ) by {
            assert(t[i] == s[i]);
        }
        if k - 1 < t.len() {
            assert(t[t.len() - (k - 1) - 1] == s[s.len() - k - 1]);
        }
        assert(is_white(s.last()));
        lemma_trail(t, k - 1);
    }
}

/// Trimming `s` keeps `s[a..b]` where everything before `a` and from `b`
/// on is white space and `s[a]`, `s[b - 1]` are not.
pub proof fn lemma_trim_of(s: Seq<char>, a: int, b: int)
    requires
        0 <= a < b <= s.len(),
        forall|i: int| 0 <= i < a ==> is_white(#[trigger] s[i]),
        forall|i: int| b <= i < s.len() ==> is_white(#[trigger] s[i]),
        !is_white(s[a]),
        !is_white(s[b - 1]),
    ensures
        trim(s) == s.subrange(a, b),
{
    lemma_lead(s, a);
    let t = s.skip(a);
    assert forall|i: int| t.len() - (s.len() - b) <= i < t.len() implies is_white(#[trigger] t[i]) by {
        assert(t[i] == s[i + a]);
    }
    assert(t[t.len() - (s.len() - b) - 1] == s[b - 1]);
    lemma_trail(t, s.len() - b);
    assert(trim(s) =~= s.subrange(a, b));
}

/// A text made only of white space trims to nothing.
pub proof fn lemma_trim_white(s: Seq<char>)
    requires
        forall|i: int| 0 <= i < s.len() ==> is_white(#[trigger] s[i]),
    ensures
        trim(s).len() == 0,
{
    lemma_lead(s, s.len() as int);
}

/// The bounds of `v` once leading white space is removed from `v[lo..hi]`.
fn skip_white_forward(v: &Vec<char>, lo: usize, hi: usize) -> (r: usize)
    requires
        lo <= hi <= v@.len(),
    ensures
        lo <= r <= hi,
        r - lo == lead(v@.subrange(lo as int, hi as int)),
{
    let ghost s = v@.subrange(lo as int, hi as int);
    let mut i = lo;
    while i < hi && is_whitespace(v[i])
        invariant
            lo <= i <= hi <= v@.len(),
            s == v@.subrange(lo as int, hi as int),
            forall|j: int| 0 <= j < i - lo ==> is_white(#[trigger] s[j]),
        decreases hi - i,
    {
        i = i + 1;
    }
    proof {
        if i < hi {
            assert(s[i - lo] == v@[i as int]);
        }
        lemma_lead(s, i - lo);
    }
    i
}

/// The end of `v[lo..hi]` once trailing white space is removed.
fn skip_white_backward(v: &Vec<char>, lo: usize, hi: usize) -> (r: usize)
    requires
        lo <= hi <= v@.len(),
    ensures
        lo <= r <= hi,
        hi - r == trail(v@.subrange(lo as int, hi as int)),
{
    let ghost s = v@.subrange(lo as int, hi as int);
    let mut i = hi;
    while i > lo && is_whitespace(v[i - 1])
        invariant
            lo <= i <= hi <= v@.len(),
            s == v@.subrange(lo as int, hi as int),
            forall|j: int| s.len() - (hi - i) <= j < s.len() ==> is_white(#[trigger] s[j]),
        decreases i - lo,
    {
        i = i - 1;
    }
    proof {
        if i > lo {
            assert(s[s.len() - (hi - i) - 1] == v@[i - 1]);
        }
        lemma_trail(s, hi - i);
    }
    i
}

/// `v` without leading and trailing white space (`str::trim`).
pub fn trim_chars(v: &Vec<char>) -> (r: Vec<char>)
    ensures
        r@ == trim(v@),
{
    let a = skip_white_forward(v, 0, v.len());
    let b = skip_white_backward(v, a, v.len());
    proof {
        assert(v@.subrange(0, v@.len() as int) == v@);
        assert(v@.subrange(a as int, v@.len() as int) == trim_start(v@));
    }
    slice_chars(v, a, b)
}

/// `v` without trailing white space (`str::trim_end`).
pub fn trim_end_chars(v: &Vec<char>) -> (r: Vec<char>)
    ensures
        r@ == trim_end(v@),
{
    let b = skip_white_backward(v, 0, v.len());
    proof {
        assert(v@.subrange(0, v@.len() as int) == v@);
    }
    slice_chars(v, 0, b)
}


// ---------------------------------------------------------------------------
// Searching and splitting
// ---------------------------------------------------------------------------

/// The first position at or after `i` where `p` occurs in `s`.
pub open spec fn find_from(s: Seq<char>, p: Seq<char>, i: int) -> Option<int>
    decreases s.len() - i,
{
    if i < 0 || i + p.len() > s.len() {
        None
    } else if s.subrange(i, i + p.len()) == p {
        Some(i)
    } else if p.len() == 0 {
        None
    } else {
        find_from(s, p, i + 1)
    }
}

/// The pieces of `s` between the occurrences of `p`, where the piece being
/// read starts at `start` and the search goes on at `i` (`str::split`).
pub open spec fn split_from(s: Seq<char>, p: Seq<char>, start: int, i: int) -> Seq<Seq<char>>
    decreases s.len() - i,
{
    if i < 0 || p.len() == 0 || i + p.len() > s.len() {
        seq![s.subrange(start, s.len() as int)]
    } else if s.subrange(i, i + p.len()) == p {
        seq![s.subrange(start, i)] + split_from(s, p, i + p.len(), i + p.len())
    } else {
        split_from(s, p, start, i + 1)
    }
}

proof fn lemma_find_from_at(s: Seq<char>, p: Seq<char>, i: int, k: int)
    requires
        p.len() > 0,
        0 <= i <= k,
        k + p.len() <= s.len(),
        s.subrange(k, k + p.len()) == p,
        forall|j: int| 0 <= j < k ==> #[trigger] s.subrange(j, j + p.len()) != p,
    ensures
        find_from(s, p, i) == Some(k),
    decreases k - i,
{
    if i < k {
        lemma_find_from_at(s, p, i + 1, k);
    }
}

/// The first occurrence of `p` is found where it is.
pub proof fn lemma_find_at(s: Seq<char>, p: Seq<char>, k: int)
    requires
        p.len() > 0,
        0 <= k,
        k + p.len() <= s.len(),
        s.subrange(k, k + p.len()) == p,
        forall|j: int| 0 <= j < k ==> #[trigger] s.subrange(j, j + p.len()) != p,
    ensures
        find_from(s, p, 0) == Some(k),
{
    lemma_find_from_at(s, p, 0, k);
}

proof fn lemma_split_from_none(s: Seq<char>, p: Seq<char>, i: int)
    requires
        p.len() > 0,
        0 <= i,
        forall|j: int| 0 <= j && j + p.len() <= s.len() ==> #[trigger] s.subrange(j, j + p.len()) != p,
    ensures
        split_from(s, p, 0, i) == seq![s.subrange(0, s.len() as int)],
    decreases s.len() - i,
{
    if i + p.len() <= s.len() {
        lemma_split_from_none(s, p, i + 1);
    }
}

/// A text in which `p` does not occur splits into itself alone.
pub proof fn lemma_split_none(s: Seq<char>, p: Seq<char>)
    requires
        p.len() > 0,
        forall|j: int| 0 <= j && j + p.len() <= s.len() ==> #[trigger] s.subrange(j, j + p.len()) != p,
    ensures
        split(s, p) == seq![s],
{
    lemma_split_from_none(s, p, 0);
    assert(s.subrange(0, s.len() as int) =~= s);
}

/// `str::split`; an empty pattern leaves `s` whole.
pub open spec fn split(s: Seq<char>, p: Seq<char>) -> Seq<Seq<char>> {
    split_from(s, p, 0, 0)
}

/// `str::split_once`: the text before and after the first occurrence of `p`.
pub open spec fn split_once(s: Seq<char>, p: Seq<char>) -> Option<(Seq<char>, Seq<char>)> {
    match find_from(s, p, 0) {
        Some(i) => Some((s.take(i), s.skip(i + p.len()))),
        None => None,
    }
}

/// `str::ends_with`.
pub open spec fn ends_with(s: Seq<char>, p: Seq<char>) -> bool {
    p.len() <= s.len() && s.skip(s.len() - p.len()) == p
}

/// `str::strip_suffix`.
pub open spec fn strip_suffix(s: Seq<char>, p: Seq<char>) -> Option<Seq<char>> {
    if ends_with(s, p) {
        Some(s.take(s.len() - p.len()))
    } else {
        None
    }
}

/// The non-empty runs of non-white characters of `s`, where the run being
/// read starts at `start` and the scan goes on at `i` (`str::split_whitespace`).
pub open spec fn words_from(s: Seq<char>, start: int, i: int) -> Seq<Seq<char>>
    decreases s.len() - i,
{
    if i < 0 || start < 0 || start > i || i >= s.len() {
        if 0 <= start < s.len() {
            seq![s.subrange(start, s.len() as int)]
        } else {
            seq![]
        }
    } else if is_white(s[i]) {
        (if start < i {
            seq![s.subrange(start, i)]
        } else {
            seq![]
        }) + words_from(s, i + 1, i + 1)
    } else {
        words_from(s, start, i + 1)
    }
}

/// `str::split_whitespace`.
pub open spec fn words(s: Seq<char>) -> Seq<Seq<char>> {
    words_from(s, 0, 0)
}

/// The views of a sequence of character vectors.
pub open spec fn views(v: Seq<Vec<char>>) -> Seq<Seq<char>> {
    v.map_values(|x: Vec<char>| x@)
}

/// The views of a sequence of strings.
pub open spec fn string_views(v: Seq<String>) -> Seq<Seq<char>> {
    v.map_values(|x: String| x@)
}

/// Whether `p` occurs in `v` at position `i`.
fn occurs_at(v: &Vec<char>, p: &Vec<char>, i: usize) -> (r: bool)
    requires
        i <= v@.len(),
    ensures
        r == (i + p@.len() <= v@.len() && v@.subrange(i as int, i + p@.len()) == p@),
{
    if p.len() > v.len() - i {
        return false;
    }
    let mut j: usize = 0;
    while j < p.len()
        invariant
            i + p@.len() <= v@.len(),
            v@.len() <= usize::MAX,
            j <= p@.len(),
            forall|k: int| 0 <= k < j ==> v@[i + k] == p@[k],
        decreases p.len() - j,
    {
        if v[i + j] != p[j] {
            assert(v@.subrange(i as int, i + p@.len())[j as int] != p@[j as int]);
            return false;
        }
        j = j + 1;
    }
    assert(v@.subrange(i as int, i + p@.len()) =~= p@);
    true
}

/// The first position where `p` occurs in `v` (`str::find`).
pub fn find_chars(v: &Vec<char>, p: &Vec<char>) -> (r: Option<usize>)
    ensures
        r matches Some(i) ==> find_from(v@, p@, 0) == Some(i as int) && i + p@.len() <= v@.len(),
        r is None ==> find_from(v@, p@, 0) is None,
{
    let mut i: usize = 0;
    while i <= v.len()
        invariant
            i <= v@.len() + 1,
            find_from(v@, p@, 0) == find_from(v@, p@, i as int),
        decreases v.len() + 1 - i,
    {
        if occurs_at(v, p, i) {
            return Some(i);
        }
        if p.len() == 0 {
            assert(v@.subrange(i as int, i as int) =~= p@);
            return None;
        }
        if p.len() > v.len() - i {
            return None;
        }
        i = i + 1;
    }
    None
}

/// `str::split_once`.
pub fn split_once_chars(v: &Vec<char>, p: &Vec<char>) -> (r: Option<(Vec<char>, Vec<char>)>)
    ensures
        r matches Some((a, b)) ==> split_once(v@, p@) == Some((a@, b@)),
        r is None ==> split_once(v@, p@) is None,
{
    match find_chars(v, p) {
        Some(i) => {
            let n = v.len();
            let a = slice_chars(v, 0, i);
            let b = slice_chars(v, i + p.len(), n);
            assert(a@ == v@.take(i as int));
            assert(b@ == v@.skip(i + p@.len()));
            assert(split_once(v@, p@) == Some((a@, b@)));
            Some((a, b))
        },
        None => None,
    }
}

/// `str::split`; an empty pattern leaves `v` whole.
pub fn split_chars(v: &Vec<char>, p: &Vec<char>) -> (r: Vec<Vec<char>>)
    ensures
        views(r@) == split(v@, p@),
{
    let mut r: Vec<Vec<char>> = Vec::new();
    if p.len() == 0 {
        let whole = slice_chars(v, 0, v.len());
        r.push(whole);
        assert(views(r@) =~= seq![v@.subrange(0, v@.len() as int)]);
        return r;
    }
    let mut start: usize = 0;
    let mut i: usize = 0;
    while p.len() <= v.len() - i
        invariant
            p@.len() > 0,
            start <= i <= v@.len(),
            views(r@) + split_from(v@, p@, start as int, i as int) == split(v@, p@),
        decreases v.len() - i,
    {
        if occurs_at(v, p, i) {
            let piece = slice_chars(v, start, i);
            proof {
                assert(views(r@.push(piece)) == views(r@).push(piece@));
                assert(views(r@).push(piece@) + split_from(v@, p@, i + p@.len(), i + p@.len())
                    == views(r@) + split_from(v@, p@, start as int, i as int));
            }
            r.push(piece);
            i = i + p.len();
            start = i;
        } else {
            i = i + 1;
        }
    }
    let last = slice_chars(v, start, v.len());
    proof {
        assert(views(r@.push(last)) == views(r@).push(last@));
        assert(views(r@) + split_from(v@, p@, start as int, i as int) == views(r@).push(last@));
    }
    r.push(last);
    r
}

/// `str::split_whitespace`.
pub fn words_chars(v: &Vec<char>) -> (r: Vec<Vec<char>>)
    ensures
        views(r@) == words(v@),
{
    let mut r: Vec<Vec<char>> = Vec::new();
    let mut start: usize = 0;
    let mut i: usize = 0;
    while i < v.len()
        invariant
            start <= i <= v@.len(),
            views(r@) + words_from(v@, start as int, i as int) == words(v@),
        decreases v.len() - i,
    {
        if is_whitespace(v[i]) {
            if start < i {
                let piece = slice_chars(v, start, i);
                proof {
                    assert(views(r@.push(piece)) == views(r@).push(piece@));
                    assert(views(r@).push(piece@) + words_from(v@, i + 1, i + 1) == views(r@)
                        + words_from(v@, start as int, i as int));
                }
                r.push(piece);
            } else {
                assert(views(r@) + words_from(v@, i + 1, i + 1) == views(r@) + words_from(
                    v@,
                    start as int,
                    i as int,
                ));
            }
            i = i + 1;
            start = i;
        } else {
            i = i + 1;
        }
    }
    if start < v.len() {
        let last = slice_chars(v, start, v.len());
        proof {
            assert(views(r@.push(last)) == views(r@).push(last@));
            assert(views(r@) + words_from(v@, start as int, i as int) == views(r@).push(last@));
        }
        r.push(last);
    } else {
        assert(views(r@) + words_from(v@, start as int, i as int) == views(r@));
    }
    r
}

/// `str::ends_with`.
pub fn ends_with_chars(v: &Vec<char>, p: &Vec<char>) -> (r: bool)
    ensures
        r == ends_with(v@, p@),
{
    if p.len() > v.len() {
        return false;
    }
    let r = occurs_at(v, p, v.len() - p.len());
    assert(v@.subrange(v@.len() - p@.len(), v@.len() as int) == v@.skip(v@.len() - p@.len()));
    r
}

/// The strings holding each of the given character vectors.
pub fn strings_of(v: &Vec<Vec<char>>) -> (r: Vec<String>)
    ensures
        string_views(r@) == views(v@),
{
    let mut r: Vec<String> = Vec::new();
    let mut i: usize = 0;
    while i < v.len()
        invariant
            i <= v@.len(),
            string_views(r@) == views(v@.take(i as int)),
        decreases v.len() - i,
    {
        let s = string_of(&v[i]);
        proof {
            assert(v@.take(i + 1) == v@.take(i as int).push(v@[i as int]));
            assert(views(v@.take(i as int).push(v@[i as int])) == views(v@.take(i as int)).push(
                v@[i as int]@,
            ));
            assert(string_views(r@.push(s)) == string_views(r@).push(s@));
        }
        r.push(s);
        i = i + 1;
    }
    assert(v@.take(v@.len() as int) == v@);
    r
}

// ---------------------------------------------------------------------------
// Joining
// ---------------------------------------------------------------------------

/// The pieces of `parts` joined by `sep` (`[String]::join`).
pub open spec fn join(parts: Seq<Seq<char>>, sep: Seq<char>) -> Seq<char>
    decreases parts.len(),
{
    if parts.len() == 0 {
        seq![]
    } else if parts.len() == 1 {
        parts[0]
    } else {
        join(parts.drop_last(), sep) + sep + parts.last()
    }
}

proof fn lemma_join_prepend(a: Seq<char>, rest: Seq<Seq<char>>, sep: Seq<char>)
    requires
        rest.len() > 0,
    ensures
        join(seq![a] + rest, sep) == a + sep + join(rest, sep),
    decreases rest.len(),
{
    let all = seq![a] + rest;
    if rest.len() == 1 {
        assert(all.drop_last() =~= seq![a]);
        assert(rest =~= seq![rest[0]]);
    } else {
        lemma_join_prepend(a, rest.drop_last(), sep);
        assert(all.drop_last() =~= seq![a] + rest.drop_last());
        assert(all.last() == rest.last());
        assert(join(all, sep) == join(seq![a] + rest.drop_last(), sep) + sep + rest.last());
        assert(join(rest, sep) == join(rest.drop_last(), sep) + sep + rest.last());
        assert(a + sep + join(rest.drop_last(), sep) + sep + rest.last() =~= a + sep + (join(
            rest.drop_last(),
            sep,
        ) + sep + rest.last()));
    }
}

proof fn lemma_join_split_from(s: Seq<char>, p: Seq<char>, start: int, i: int)
    requires
        p.len() > 0,
        0 <= start <= i,
        start <= s.len(),
    ensures
        join(split_from(s, p, start, i), p) == s.subrange(start, s.len() as int),
    decreases s.len() - i,
{
    if !(i < 0 || p.len() == 0 || i + p.len() > s.len()) {
        if s.subrange(i, i + p.len()) == p {
            let rest = split_from(s, p, i + p.len(), i + p.len());
            lemma_join_split_from(s, p, i + p.len(), i + p.len());
            lemma_split_from_nonempty(s, p, i + p.len(), i + p.len());
            lemma_join_prepend(s.subrange(start, i), rest, p);
            assert(s.subrange(start, s.len() as int) =~= s.subrange(start, i) + p + s.subrange(
                i + p.len(),
                s.len() as int,
            ));
        } else {
            lemma_join_split_from(s, p, start, i + 1);
        }
    }
}

/// `str::split` never gives an empty list.
pub proof fn lemma_split_from_nonempty(s: Seq<char>, p: Seq<char>, start: int, i: int)
    ensures
        split_from(s, p, start, i).len() >= 1,
    decreases s.len() - i,
{
    if !(i < 0 || p.len() == 0 || i + p.len() > s.len()) {
        if s.subrange(i, i + p.len()) == p {
            lemma_split_from_nonempty(s, p, i + p.len(), i + p.len());
        } else {
            lemma_split_from_nonempty(s, p, start, i + 1);
        }
    }
}

/// Joining the pieces of `s` between the occurrences of `p` with `p` gives
/// `s` back.
pub proof fn lemma_join_split(s: Seq<char>, p: Seq<char>)
    requires
        p.len() > 0,
    ensures
        join(split(s, p), p) == s,
{
    lemma_join_split_from(s, p, 0, 0);
    assert(s.subrange(0, s.len() as int) =~= s);
}

/// Appends every character of `t` to `s`.
pub fn push_all(s: &mut String, t: &Vec<char>)
    ensures
        final(s)@ == old(s)@ + t@,
{
    let mut i: usize = 0;
    while i < t.len()
        invariant
            i <= t@.len(),
            s@ == old(s)@ + t@.take(i as int),
        decreases t.len() - i,
    {
        push_char(s, t[i]);
        assert(t@.take(i + 1) == t@.take(i as int).push(t@[i as int]));
        i = i + 1;
    }
    assert(t@.take(t@.len() as int) == t@);
}

/// The strings of `parts` joined by `sep` (`[String]::join`).
pub fn join_strings(parts: &Vec<String>, sep: &str) -> (r: String)
    ensures
        r@ == join(string_views(parts@), sep@),
{
    let sep_chars = chars_of(sep);
    let mut r = String::new();
    let mut i: usize = 0;
    while i < parts.len()
        invariant
            i <= parts@.len(),
            sep_chars@ == sep@,
            r@ == join(string_views(parts@.take(i as int)), sep@),
        decreases parts.len() - i,
    {
        let piece = chars_of(parts[i].as_str());
        proof {
            let done = string_views(parts@.take(i + 1));
            assert(parts@.take(i + 1).drop_last() == parts@.take(i as int));
            assert(done.drop_last() == string_views(parts@.take(i as int)));
            assert(done.last() == parts@[i as int]@);
        }
        if i > 0 {
            push_all(&mut r, &sep_chars);
        }
        push_all(&mut r, &piece);
        i = i + 1;
    }
    assert(parts@.take(parts@.len() as int) == parts@);
    r
}

// ---------------------------------------------------------------------------
// Decimal numbers
// ---------------------------------------------------------------------------

/// Whether `c` is an ASCII decimal digit.
pub open spec fn is_digit(c: char) -> bool {
    '0' <= c && c <= '9'
}

/// The decimal digit for `d` (`0 <= d < 10`).
pub open spec fn digit(d: int) -> char {
    (48 + d) as char
}

/// The decimal notation of `n`, as `usize`'s `Display` writes it.
pub open spec fn decimal(n: nat) -> Seq<char>
    decreases n,
{
    if n < 10 {
        seq![digit(n as int)]
    } else {
        decimal(n / 10).push(digit((n % 10) as int))
    }
}

/// The value of a sequence of decimal digits.
pub open spec fn digits_value(s: Seq<char>) -> nat
    decreases s.len(),
{
    if s.len() == 0 {
        0
    } else {
        digits_value(s.drop_last()) * 10 + ((s.last() as int - 48) as nat)
    }
}

/// The digits of `s` once an optional leading `+` is removed.
pub open spec fn unsigned_digits(s: Seq<char>) -> Seq<char> {
    if s.len() > 0 && s[0] == '+' {
        s.drop_first()
    } else {
        s
    }
}

/// The `usize` that `s` denotes, where `usize`'s `FromStr` accepts it: an
/// optional `+` followed by at least one ASCII digit, with a value that fits.
pub open spec fn usize_value(s: Seq<char>) -> Option<usize> {
    let d = unsigned_digits(s);
    if d.len() > 0 && (forall|i: int| 0 <= i < d.len() ==> is_digit(#[trigger] d[i]))
        && digits_value(d) <= usize::MAX {
        Some(digits_value(d) as usize)
    } else {
        None
    }
}

/// Appends the decimal notation of `n` to `s`.
pub fn push_decimal(s: &mut String, n: usize)
    ensures
        final(s)@ == old(s)@ + decimal(n as nat),
    decreases n,
{
    if n >= 10 {
        push_decimal(s, n / 10);
    }
    let d = (n % 10) as u8;
    let c = (48u8 + d) as char;
    assert(c == digit(d as int));
    push_char(s, c);
}

proof fn lemma_decimal_digits(n: nat)
    ensures
        decimal(n).len() > 0,
        forall|i: int| 0 <= i < decimal(n).len() ==> is_digit(#[trigger] decimal(n)[i]),
        digits_value(decimal(n)) == n,
    decreases n,
{
    let r = (n % 10) as int;
    assert(digit(r) as int == 48 + r);
    if n < 10 {
        assert(decimal(n).drop_last() =~= Seq::<char>::empty());
        assert(decimal(n).last() == digit(r));
        assert(r == n);
        assert(digits_value(decimal(n)) == digits_value(decimal(n).drop_last()) * 10 + ((
        decimal(n).last() as int - 48) as nat));
    } else {
        lemma_decimal_digits(n / 10);
        let d = decimal(n);
        assert(d.drop_last() == decimal(n / 10));
        assert(d.last() == digit(r));
        assert((n / 10) * 10 + r == n) by (nonlinear_arith)
            requires
                r == n % 10,
        ;
        assert(digits_value(d) == digits_value(d.drop_last()) * 10 + ((d.last() as int
            - 48) as nat));
        assert forall|i: int| 0 <= i < d.len() implies is_digit(#[trigger] d[i]) by {
            if i < d.len() - 1 {
                assert(d[i] == decimal(n / 10)[i]);
            }
        }
    }
}

/// The decimal notation of a number that fits in `usize` reads back as
/// that number.
pub proof fn lemma_decimal_round_trip(n: usize)
    ensures
        usize_value(decimal(n as nat)) == Some(n),
{
    lemma_decimal_digits(n as nat);
    assert(is_digit(decimal(n as nat)[0]));
    assert(unsigned_digits(decimal(n as nat)) == decimal(n as nat));
}

/// `core::num::ParseIntError`, carried in errors as an opaque value.
#[verifier::external_type_specification]
#[verifier::external_body]
pub struct ExParseIntError(ParseIntError);

/// Parses a `usize` with `str::parse::<usize>`; the contract claims that
/// it succeeds exactly on an optional `+` followed by one or more ASCII
/// digits whose value fits in `usize` (as `from_str_radix` documents), and
/// then gives that value. The error's content is left unsaid.
#[verifier::external_body]
pub(crate) fn parse_usize(s: &str) -> (r: Result<usize, ParseIntError>)
    ensures
        r is Ok <==> usize_value(s@) is Some,
        r matches Ok(n) ==> usize_value(s@) == Some(n),
{
    s.parse::<usize>()
}

} // verus!
