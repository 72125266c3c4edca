//! HTTP methods that routes are registered for.
use crate::text::{chars_eq, chars_of};
use std::str::FromStr;
use vstd::prelude::*;

verus! {

/// The methods that routes are registered for.
#[derive(Debug, Clone, Copy, PartialEq, Eq, Hash, Structural)]
pub enum Method {
    HEAD,
    GET,
    QUERY,
    POST,
    PUT,
    PATCH,
    DELETE,
    OPTIONS,
}

/// The method that `s` names.
pub open spec fn route_method_named(s: Seq<char>) -> Option<Method> {
    if s == "HEAD"@ {
        Some(Method::HEAD)
    } else if s == "GET"@ {
        Some(Method::GET)
    } else if s == "QUERY"@ {
        Some(Method::QUERY)
    } else if s == "POST"@ {
        Some(Method::POST)
    } else if s == "PUT"@ {
        Some(Method::PUT)
    } else if s == "PATCH"@ {
        Some(Method::PATCH)
    } else if s == "DELETE"@ {
        Some(Method::DELETE)
    } else if s == "OPTIONS"@ {
        Some(Method::OPTIONS)
    } else {
        None
    }
}

impl Method {
    /// The method named `s`.
    pub fn from_str(s: &str) -> (r: Result<Method, ()>)
        ensures
            r matches Ok(m) ==> route_method_named(s@) == Some(m),
            r is Err ==> route_method_named(s@) is None,
    {
        let c = chars_of(s);
        if chars_eq(&c, &chars_of("HEAD")) {
            Ok(Method::HEAD)
        } else if chars_eq(&c, &chars_of("GET")) {
            Ok(Method::GET)
        } else if chars_eq(&c, &chars_of("QUERY")) {
            Ok(Method::QUERY)
        } else if chars_eq(&c, &chars_of("POST")) {
            Ok(Method::POST)
        } else if chars_eq(&c, &chars_of("PUT")) {
            Ok(Method::PUT)
        } else if chars_eq(&c, &chars_of("PATCH")) {
            Ok(Method::PATCH)
        } else if chars_eq(&c, &chars_of("DELETE")) {
            Ok(Method::DELETE)
        } else if chars_eq(&c, &chars_of("OPTIONS")) {
            Ok(Method::OPTIONS)
        } else {
            Err(())
        }
    }
}

impl FromStr for Method {
    type Err = ();

    fn from_str(s: &str) -> (r: Result<Method, ()>)
        ensures
            r matches Ok(m) ==> route_method_named(s@) == Some(m),
            r is Err ==> route_method_named(s@) is None,
    {
        Method::from_str(s)
    }
}

impl Method {
    /// The name of the method.
    pub open spec fn name(self) -> Seq<char> {
        match self {
            Method::HEAD => "HEAD"@,
            Method::GET => "GET"@,
            Method::QUERY => "QUERY"@,
            Method::POST => "POST"@,
            Method::PUT => "PUT"@,
            Method::PATCH => "PATCH"@,
            Method::DELETE => "DELETE"@,
            Method::OPTIONS => "OPTIONS"@,
        }
    }
}

/// Reading a method's own name gives the method back.
pub proof fn lemma_route_method_name_round_trip(m: Method)
    ensures
        route_method_named(m.name()) == Some(m),
{
    reveal_strlit("HEAD");
    assert("HEAD"@.len() == 4 && "HEAD"@[0] == 'H');
    reveal_strlit("GET");
    assert("GET"@.len() == 3 && "GET"@[0] == 'G');
    reveal_strlit("QUERY");
    assert("QUERY"@.len() == 5 && "QUERY"@[0] == 'Q');
    reveal_strlit("POST");
    assert("POST"@.len() == 4 && "POST"@[0] == 'P');
    reveal_strlit("PUT");
    assert("PUT"@.len() == 3 && "PUT"@[0] == 'P');
    reveal_strlit("PATCH");
    assert("PATCH"@.len() == 5 && "PATCH"@[0] == 'P');
    reveal_strlit("DELETE");
    assert("DELETE"@.len() == 6 && "DELETE"@[0] == 'D');
    reveal_strlit("OPTIONS");
    assert("OPTIONS"@.len() == 7 && "OPTIONS"@[0] == 'O');
}

} // verus!
