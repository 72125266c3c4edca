//! An in-memory byte reader with the line and exact-length reads that the
//! request parsers use, following `std::io::BufRead::read_line` and
//! `std::io::Read::read_exact` on a buffered slice.
use std::string::FromUtf8Error;
use vstd::prelude::*;
use vstd::utf8::*;

verus! {

/// Why a read failed.
#[derive(Debug, Clone, Copy, PartialEq, Eq, Structural)]
pub enum ReadError {
    /// The input ended before the requested number of bytes.
    UnexpectedEof,
    /// A line was not valid UTF-8.
    InvalidData,
}

/// The number of bytes that the next line takes: up to and including the
/// first `\n`, or everything that is left.
pub open spec fn line_len(rem: Seq<u8>) -> nat
    decreases rem.len(),
{
    if rem.len() == 0 {
        0
    } else if rem[0] == 10 {
        1
    } else {
        1 + line_len(rem.drop_first())
    }
}

/// The bytes of the next line, its `\n` included.
pub open spec fn next_line(rem: Seq<u8>) -> Seq<u8> {
    rem.take(line_len(rem) as int)
}

/// What is left once the next line is read.
pub open spec fn after_line(rem: Seq<u8>) -> Seq<u8> {
    rem.skip(line_len(rem) as int)
}

/// The text of a line that is valid UTF-8.
pub open spec fn line_text(rem: Seq<u8>) -> Option<Seq<char>> {
    if valid_utf8(next_line(rem)) {
        Some(decode_utf8(next_line(rem)))
    } else {
        None
    }
}

proof fn lemma_line_len(rem: Seq<u8>, k: int)
    requires
        0 <= k <= rem.len(),
        forall|j: int| 0 <= j < k ==> #[trigger] rem[j] != 10,
    ensures
        k == rem.len() ==> line_len(rem) == k,
        k < rem.len() && rem[k] == 10 ==> line_len(rem) == k + 1,
    decreases k,
{
    if k > 0 {
        let t = rem.drop_first();
        assert forall|j: int| 0 <= j < k - 1 implies #[trigger] t[j] != 10 by {
            assert(t[j] == rem[j + 1]);
        }
        if k < rem.len() {
            assert(t[k - 1] == rem[k]);
        }
        lemma_line_len(t, k - 1);
    }
}

/// A line is never longer than what is left, and takes at least one byte
/// where anything is left.
pub proof fn lemma_line_len_bound(rem: Seq<u8>)
    ensures
        line_len(rem) <= rem.len(),
        rem.len() > 0 ==> line_len(rem) > 0,
    decreases rem.len(),
{
    if rem.len() > 0 && rem[0] != 10 {
        lemma_line_len_bound(rem.drop_first());
    }
}

/// Reading a line loses no byte: the line and what is left after it make up
/// what there was.
pub proof fn lemma_line_then_rest(rem: Seq<u8>)
    ensures
        next_line(rem) + after_line(rem) == rem,
{
    lemma_line_len_bound(rem);
    assert(next_line(rem) + after_line(rem) =~= rem);
}

/// `std::string::FromUtf8Error`, carried in errors as an opaque value.
/// An ASCII line that ends with its only `\n`, written in UTF-8 in front of
/// `rest`, is read back as that line, and `rest` is what is left.
pub proof fn lemma_ascii_line(t: Seq<char>, rest: Seq<u8>)
    requires
        is_ascii_chars(t),
        t.len() > 0,
        t.last() == '\n',
        forall|i: int| 0 <= i < t.len() - 1 ==> t[i] != '\n',
    ensures
        line_text(encode_utf8(t) + rest) == Some(t),
        after_line(encode_utf8(t) + rest) == rest,
{
    let b = encode_utf8(t);
    let rem = b + rest;
    is_ascii_chars_encode_utf8(t);
    assert forall|j: int| 0 <= j < t.len() - 1 implies #[trigger] rem[j] != 10 by {
        let c = t[j];
        let u = c as u32;
        assert(rem[j] == b[j]);
        assert(b[j] == c as u8);
        assert(u < 128);
        assert(u < 128 ==> (u as u8 == 10 <==> u == 10)) by (bit_vector);
    }
    let last = t.len() - 1;
    assert(rem[last] == b[last]);
    assert(b[last] == ('\n' as u8));
    lemma_line_len(rem, last);
    assert(next_line(rem) =~= b);
    assert(after_line(rem) =~= rest);
    encode_utf8_valid_utf8(t);
    encode_utf8_decode_utf8(t);
}

#[verifier::external_type_specification]
#[verifier::external_body]
pub struct ExFromUtf8Error(FromUtf8Error);

/// Decodes bytes with `String::from_utf8`; the contract claims that it
/// succeeds exactly on valid UTF-8 (vstd's `valid_utf8`) and that the string
/// then holds the decoded characters (vstd's `decode_utf8`). The error's
/// content is left unsaid.
#[verifier::external_body]
pub(crate) fn utf8_string(bytes: Vec<u8>) -> (r: Result<String, FromUtf8Error>)
    ensures
        r is Ok <==> valid_utf8(bytes@),
        r matches Ok(s) ==> s@ == decode_utf8(bytes@),
{
    String::from_utf8(bytes)
}

/// A reader over a buffer of bytes.
pub struct ByteReader {
    data: Vec<u8>,
    pos: usize,
}

impl ByteReader {
    #[verifier::type_invariant]
    spec fn inv(self) -> bool {
        self.pos <= self.data@.len()
    }

    /// The bytes not read yet.
    pub closed spec fn view(self) -> Seq<u8> {
        self.data@.skip(self.pos as int)
    }

    /// A reader over a copy of `data`.
    pub fn new(data: &[u8]) -> (r: ByteReader)
        ensures
            r.view() == data@,
    {
        let mut v: Vec<u8> = Vec::new();
        let mut i: usize = 0;
        while i < data.len()
            invariant
                i <= data@.len(),
                v@ == data@.take(i as int),
            decreases data.len() - i,
        {
            v.push(data[i]);
            assert(data@.take(i + 1) == data@.take(i as int).push(data@[i as int]));
            i = i + 1;
        }
        assert(data@.take(data@.len() as int) == data@);
        let r = ByteReader { data: v, pos: 0 };
        assert(r.view() == v@);
        r
    }

    /// Whether every byte has been read.
    pub fn is_empty(&self) -> (r: bool)
        ensures
            r == (self.view().len() == 0),
    {
        proof {
            use_type_invariant(self);
        }
        self.pos == self.data.len()
    }

    /// Reads the next line, its `\n` included (`BufRead::read_line`). At the
    /// end of the input the line is empty. The line is consumed even where
    /// it is not valid UTF-8, which is then an `InvalidData` error.
    pub fn read_line(&mut self) -> (r: Result<String, ReadError>)
        ensures
            final(self).view() == after_line(old(self).view()),
            r is Ok <==> line_text(old(self).view()) is Some,
            r matches Ok(s) ==> line_text(old(self).view()) == Some(s@),
            r matches Err(e) ==> e == ReadError::InvalidData,
    {
        proof {
            use_type_invariant(&*self);
        }
        let ghost rem = self.view();
        let mut line: Vec<u8> = Vec::new();
        let mut i = self.pos;
        let mut found = false;
        while i < self.data.len() && !found
            invariant
                self.pos <= i <= self.data@.len(),
                rem == self.data@.skip(self.pos as int),
                !found ==> forall|j: int| 0 <= j < i - self.pos ==> #[trigger] rem[j] != 10,
                found ==> i > self.pos && rem[i - self.pos - 1] == 10 && forall|j: int|
                    0 <= j < i - self.pos - 1 ==> #[trigger] rem[j] != 10,
                line@ == rem.take(i - self.pos),
            decreases self.data.len() - i,
        {
            let b = self.data[i];
            assert(rem[i - self.pos] == b);
            line.push(b);
            assert(rem.take(i + 1 - self.pos) == rem.take(i - self.pos).push(b));
            if b == 10 {
                found = true;
            }
            i = i + 1;
        }
        proof {
            if found {
                lemma_line_len(rem, i - self.pos - 1);
            } else {
                lemma_line_len(rem, i - self.pos);
            }
        }
        self.pos = i;
        assert(self.view() == after_line(rem));
        match utf8_string(line) {
            Ok(s) => Ok(s),
            Err(_) => Err(ReadError::InvalidData),
        }
    }

    /// Reads exactly `n` bytes (`Read::read_exact`). Where fewer are left,
    /// they are all consumed and the result is `UnexpectedEof`.
    pub fn read_exact(&mut self, n: usize) -> (r: Result<Vec<u8>, ReadError>)
        ensures
            n <= old(self).view().len() ==> (r matches Ok(b) && b@ == old(self).view().take(
                n as int,
            )) && final(self).view() == old(self).view().skip(n as int),
            n > old(self).view().len() ==> r == Err::<Vec<u8>, ReadError>(
                ReadError::UnexpectedEof,
            ) && final(self).view().len() == 0,
    {
        proof {
            use_type_invariant(&*self);
        }
        let ghost rem = self.view();
        if n > self.data.len() - self.pos {
            self.pos = self.data.len();
            assert(self.view().len() == 0);
            return Err(ReadError::UnexpectedEof);
        }
        let mut out: Vec<u8> = Vec::new();
        let mut i: usize = 0;
        while i < n
            invariant
                i <= n,
                self.pos + n <= self.data@.len(),
                self.data@.len() <= usize::MAX,
                rem == self.data@.skip(self.pos as int),
                out@ == rem.take(i as int),
            decreases n - i,
        {
            let b = self.data[self.pos + i];
            out.push(b);
            assert(rem.take(i + 1) == rem.take(i as int).push(b));
            i = i + 1;
        }
        self.pos = self.pos + n;
        assert(self.view() == rem.skip(n as int));
        Ok(out)
    }
}

} // verus!
