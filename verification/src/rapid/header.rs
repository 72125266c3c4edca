//! Header values.
use crate::table::ValueView;
use crate::text::{
    chars_of, find_chars, split, split_chars, split_once, string_of, string_views, trim,
    trim_chars, views,
};
use std::str::FromStr;
use vstd::prelude::*;

verus! {

/// A value for a single header.
///
/// When converting from a [`str`], it is an error if the header value is
/// empty or contains only white space.
#[derive(Debug, PartialEq, Eq)]
pub enum HeaderValue {
    Single(String),
    Many(Vec<String>),
}

/// A header value that is empty or only white space.
#[derive(Debug)]
pub struct InvalidHeaderValueError;

impl View for HeaderValue {
    type V = ValueView;

    open spec fn view(&self) -> ValueView {
        match self {
            HeaderValue::Single(s) => ValueView::Single(s@),
            HeaderValue::Many(v) => ValueView::Many(string_views(v@)),
        }
    }
}

/// The value that the text `s` holds once trimmed: `None` where nothing is
/// left; the trimmed pieces between commas where there is a comma; the
/// trimmed text otherwise.
pub open spec fn header_value(s: Seq<char>) -> Option<ValueView> {
    let t = trim(s);
    if t.len() == 0 {
        None
    } else if split_once(t, ","@) is Some {
        Some(ValueView::Many(split(t, ","@).map_values(|p: Seq<char>| trim(p))))
    } else {
        Some(ValueView::Single(t))
    }
}

impl HeaderValue {
    /// The value that `s` holds; an error where `s` is empty or only white space.
    pub fn from_str(s: &str) -> (r: Result<HeaderValue, InvalidHeaderValueError>)
        ensures
            r matches Ok(v) ==> header_value(s@) == Some(v@),
            r is Err ==> header_value(s@) is None,
    {
        let trimmed = trim_chars(&chars_of(s));
        if trimmed.len() == 0 {
            return Err(InvalidHeaderValueError);
        }
        let comma = chars_of(",");
        if find_chars(&trimmed, &comma).is_some() {
            let parts = split_chars(&trimmed, &comma);
            let ghost ps = views(parts@);
            let mut values: Vec<String> = Vec::new();
            let mut i: usize = 0;
            while i < parts.len()
                invariant
                    i <= parts@.len(),
                    ps == views(parts@),
                    string_views(values@) == ps.take(i as int).map_values(|p: Seq<char>| trim(p)),
                decreases parts.len() - i,
            {
                let piece = string_of(&trim_chars(&parts[i]));
                proof {
                    assert(ps[i as int] == parts@[i as int]@);
                    assert(string_views(values@.push(piece)) == string_views(values@).push(piece@));
                    assert(ps.take(i + 1) == ps.take(i as int).push(ps[i as int]));
                    assert(ps.take(i + 1).map_values(|p: Seq<char>| trim(p)) =~= ps.take(
                        i as int,
                    ).map_values(|p: Seq<char>| trim(p)).push(trim(ps[i as int])));
                }
                values.push(piece);
                i = i + 1;
            }
            assert(ps.take(ps.len() as int) == ps);
            Ok(HeaderValue::Many(values))
        } else {
            Ok(HeaderValue::Single(string_of(&trimmed)))
        }
    }
}

impl FromStr for HeaderValue {
    type Err = InvalidHeaderValueError;

    fn from_str(s: &str) -> (r: Result<HeaderValue, InvalidHeaderValueError>)
        ensures
            r matches Ok(v) ==> header_value(s@) == Some(v@),
            r is Err ==> header_value(s@) is None,
    {
        HeaderValue::from_str(s)
    }
}

} // verus!
