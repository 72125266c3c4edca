//! HTTP methods.
use crate::text::{chars_eq, chars_of};
use std::str::FromStr;
use vstd::prelude::*;

verus! {

/// An invalid method was received.
#[derive(Debug)]
pub struct InvalidMethodError;

/// All valid and supported HTTP methods.
#[derive(Debug, Clone, Copy, PartialEq, Eq, Structural)]
pub enum Method {
    HEAD,
    GET,
    QUERY,
    POST,
    PUT,
    PATCH,
    DELETE,
    OPTIONS,
    CONNECT,
    TRACE,
}

/// The method that `s` names.
pub open spec fn method_named(s: Seq<char>) -> Option<Method> {
    if s == "HEAD"@ {
        Some(Method::HEAD)
    } else if s == "GET"@ {
        Some(Method::GET)
    } else if s == "QUERY"@ {
        Some(Method::QUERY)
    } else if s == "POST"@ {
        Some(Method::POST)
    } else if s == "PUT"@ {
        Some(Method::PUT)
    } else if s == "PATCH"@ {
        Some(Method::PATCH)
    } else if s == "DELETE"@ {
        Some(Method::DELETE)
    } else if s == "OPTIONS"@ {
        Some(Method::OPTIONS)
    } else if s == "CONNECT"@ {
        Some(Method::CONNECT)
    } else if s == "TRACE"@ {
        Some(Method::TRACE)
    } else {
        None
    }
}

impl Method {
    /// The name of the method.
    pub open spec fn name(self) -> Seq<char> {
        match self {
            Method::HEAD => "HEAD"@,
            Method::GET => "GET"@,
            Method::QUERY => "QUERY"@,
            Method::POST => "POST"@,
            Method::PUT => "PUT"@,
            Method::PATCH => "PATCH"@,
            Method::DELETE => "DELETE"@,
            Method::OPTIONS => "OPTIONS"@,
            Method::CONNECT => "CONNECT"@,
            Method::TRACE => "TRACE"@,
        }
    }

    /// The methods whose body is read.
    pub open spec fn body_allowed(self) -> bool {
        self == Method::POST || self == Method::PUT || self == Method::PATCH || self
            == Method::QUERY
    }

    /// Whether this method allows a body to be present and used or not.
    pub fn allows_body(&self) -> (r: bool)
        ensures
            r == self.body_allowed(),
    {
        match self {
            Method::POST | Method::PUT | Method::PATCH | Method::QUERY => true,
            _ => false,
        }
    }

    /// The method named `s`.
    pub fn from_str(s: &str) -> (r: Result<Method, InvalidMethodError>)
        ensures
            r matches Ok(m) ==> method_named(s@) == Some(m),
            r is Err ==> method_named(s@) is None,
    {
        let c = chars_of(s);
        if chars_eq(&c, &chars_of("HEAD")) {
            Ok(Method::HEAD)
        } else if chars_eq(&c, &chars_of("GET")) {
            Ok(Method::GET)
        } else if chars_eq(&c, &chars_of("QUERY")) {
            Ok(Method::QUERY)
        } else if chars_eq(&c, &chars_of("POST")) {
            Ok(Method::POST)
        } else if chars_eq(&c, &chars_of("PUT")) {
            Ok(Method::PUT)
        } else if chars_eq(&c, &chars_of("PATCH")) {
            Ok(Method::PATCH)
        } else if chars_eq(&c, &chars_of("DELETE")) {
            Ok(Method::DELETE)
        } else if chars_eq(&c, &chars_of("OPTIONS")) {
            Ok(Method::OPTIONS)
        } else if chars_eq(&c, &chars_of("CONNECT")) {
            Ok(Method::CONNECT)
        } else if chars_eq(&c, &chars_of("TRACE")) {
            Ok(Method::TRACE)
        } else {
            Err(InvalidMethodError)
        }
    }
}

impl FromStr for Method {
    type Err = InvalidMethodError;

    fn from_str(s: &str) -> (r: Result<Method, InvalidMethodError>)
        ensures
            r matches Ok(m) ==> method_named(s@) == Some(m),
            r is Err ==> method_named(s@) is None,
    {
        Method::from_str(s)
    }
}

/// Reading a method's own name gives the method back.
pub proof fn lemma_method_name_round_trip(m: Method)
    ensures
        method_named(m.name()) == Some(m),
{
    reveal_strlit("HEAD");
    assert("HEAD"@.len() == 4 && "HEAD"@[0] == 'H');
    reveal_strlit("GET");
    assert("GET"@.len() == 3 && "GET"@[0] == 'G');
    reveal_strlit("QUERY");
    assert("QUERY"@.len() == 5 && "QUERY"@[0] == 'Q');
    reveal_strlit("POST");
    assert("POST"@.len() == 4 && "POST"@[0] == 'P');
    reveal_strlit("PUT");
    assert("PUT"@.len() == 3 && "PUT"@[0] == 'P');
    reveal_strlit("PATCH");
    assert("PATCH"@.len() == 5 && "PATCH"@[0] == 'P');
    reveal_strlit("DELETE");
    assert("DELETE"@.len() == 6 && "DELETE"@[0] == 'D');
    reveal_strlit("OPTIONS");
    assert("OPTIONS"@.len() == 7 && "OPTIONS"@[0] == 'O');
    reveal_strlit("CONNECT");
    assert("CONNECT"@.len() == 7 && "CONNECT"@[0] == 'C');
    reveal_strlit("TRACE");
    assert("TRACE"@.len() == 5 && "TRACE"@[0] == 'T');
}

} // verus!
