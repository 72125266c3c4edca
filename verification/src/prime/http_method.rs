//! HTTP methods.
use crate::text::{chars_eq, chars_of};
use std::str::FromStr;
use vstd::prelude::*;

verus! {

/// An error when an HTTP method is invalid; the invalid method is stored.
#[derive(Debug, PartialEq)]
pub struct InvalidHttpMethodError(pub String);

/// All valid and supported HTTP methods.
#[derive(Debug, Clone, Copy, PartialEq, Eq, Hash, Structural)]
pub enum HttpMethod {
    HEAD,
    GET,
    QUERY,
    POST,
    PUT,
    PATCH,
    DELETE,
    OPTIONS,
    CONNECT,
    TRACE,
}

/// The method that `s` names, or `s` itself where it names none.
pub open spec fn http_method_named(s: Seq<char>) -> Result<HttpMethod, Seq<char>> {
    if s == "HEAD"@ {
        Ok(HttpMethod::HEAD)
    } else if s == "GET"@ {
        Ok(HttpMethod::GET)
    } else if s == "QUERY"@ {
        Ok(HttpMethod::QUERY)
    } else if s == "POST"@ {
        Ok(HttpMethod::POST)
    } else if s == "PUT"@ {
        Ok(HttpMethod::PUT)
    } else if s == "PATCH"@ {
        Ok(HttpMethod::PATCH)
    } else if s == "DELETE"@ {
        Ok(HttpMethod::DELETE)
    } else if s == "OPTIONS"@ {
        Ok(HttpMethod::OPTIONS)
    } else if s == "CONNECT"@ {
        Ok(HttpMethod::CONNECT)
    } else if s == "TRACE"@ {
        Ok(HttpMethod::TRACE)
    } else {
        Err(s)
    }
}

impl HttpMethod {
    /// The name of the method.
    pub open spec fn name(self) -> Seq<char> {
        match self {
            HttpMethod::HEAD => "HEAD"@,
            HttpMethod::GET => "GET"@,
            HttpMethod::QUERY => "QUERY"@,
            HttpMethod::POST => "POST"@,
            HttpMethod::PUT => "PUT"@,
            HttpMethod::PATCH => "PATCH"@,
            HttpMethod::DELETE => "DELETE"@,
            HttpMethod::OPTIONS => "OPTIONS"@,
            HttpMethod::CONNECT => "CONNECT"@,
            HttpMethod::TRACE => "TRACE"@,
        }
    }

    /// The methods whose body is used.
    pub open spec fn body_allowed(self) -> bool {
        self == HttpMethod::POST || self == HttpMethod::PUT || self == HttpMethod::PATCH || self
            == HttpMethod::QUERY
    }

    /// Whether this method allows a body to be present and used or not.
    ///
    /// If `false`, the body should be ignored, even if present.
    pub fn allows_body(&self) -> (r: bool)
        ensures
            r == self.body_allowed(),
    {
        match self {
            HttpMethod::POST | HttpMethod::PUT | HttpMethod::PATCH | HttpMethod::QUERY => true,
            _ => false,
        }
    }

    /// The method named `s`; any other text is refused and kept in the error.
    pub fn from_str(s: &str) -> (r: Result<HttpMethod, InvalidHttpMethodError>)
        ensures
            r matches Ok(m) ==> http_method_named(s@) == Ok::<HttpMethod, Seq<char>>(m),
            r matches Err(e) ==> http_method_named(s@) == Err::<HttpMethod, Seq<char>>(e.0@),
    {
        let c = chars_of(s);
        if chars_eq(&c, &chars_of("HEAD")) {
            Ok(HttpMethod::HEAD)
        } else if chars_eq(&c, &chars_of("GET")) {
            Ok(HttpMethod::GET)
        } else if chars_eq(&c, &chars_of("QUERY")) {
            Ok(HttpMethod::QUERY)
        } else if chars_eq(&c, &chars_of("POST")) {
            Ok(HttpMethod::POST)
        } else if chars_eq(&c, &chars_of("PUT")) {
            Ok(HttpMethod::PUT)
        } else if chars_eq(&c, &chars_of("PATCH")) {
            Ok(HttpMethod::PATCH)
        } else if chars_eq(&c, &chars_of("DELETE")) {
            Ok(HttpMethod::DELETE)
        } else if chars_eq(&c, &chars_of("OPTIONS")) {
            Ok(HttpMethod::OPTIONS)
        } else if chars_eq(&c, &chars_of("CONNECT")) {
            Ok(HttpMethod::CONNECT)
        } else if chars_eq(&c, &chars_of("TRACE")) {
            Ok(HttpMethod::TRACE)
        } else {
            Err(InvalidHttpMethodError(s.to_owned()))
        }
    }
}

impl FromStr for HttpMethod {
    type Err = InvalidHttpMethodError;

    fn from_str(s: &str) -> (r: Result<HttpMethod, InvalidHttpMethodError>)
        ensures
            r matches Ok(m) ==> http_method_named(s@) == Ok::<HttpMethod, Seq<char>>(m),
            r matches Err(e) ==> http_method_named(s@) == Err::<HttpMethod, Seq<char>>(e.0@),
    {
        HttpMethod::from_str(s)
    }
}

/// Reading a method's own name gives the method back.
pub proof fn lemma_http_method_name_round_trip(m: HttpMethod)
    ensures
        http_method_named(m.name()) == Ok::<HttpMethod, Seq<char>>(m),
{
    reveal_strlit("HEAD");
    assert("HEAD"@.len() == 4 && "HEAD"@[0] == 'H');
    reveal_strlit("GET");
    assert("GET"@.len() == 3 && "GET"@[0] == 'G');
    reveal_strlit("QUERY");
    assert("QUERY"@.len() == 5 && "QUERY"@[0] == 'Q');
    reveal_strlit("POST");
    assert("POST"@.len() == 4 && "POST"@[0] == 'P');
    reveal_strlit("PUT");
    assert("PUT"@.len() == 3 && "PUT"@[0] == 'P');
    reveal_strlit("PATCH");
    assert("PATCH"@.len() == 5 && "PATCH"@[0] == 'P');
    reveal_strlit("DELETE");
    assert("DELETE"@.len() == 6 && "DELETE"@[0] == 'D');
    reveal_strlit("OPTIONS");
    assert("OPTIONS"@.len() == 7 && "OPTIONS"@[0] == 'O');
    reveal_strlit("CONNECT");
    assert("CONNECT"@.len() == 7 && "CONNECT"@[0] == 'C');
    reveal_strlit("TRACE");
    assert("TRACE"@.len() == 5 && "TRACE"@[0] == 'T');
}

} // verus!
