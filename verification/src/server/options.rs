//! Options for initializing a server.
use crate::text::{chars_of, push_all, push_decimal, decimal};
use vstd::prelude::*;

verus! {

/// Various options for initializing a server.
pub struct CreateServerOptions<'a> {
    /// The IP address on which to listen.
    ip_address: &'a str,
    /// The port to listen to.
    port: u16,
}

impl<'a> CreateServerOptions<'a> {
    /// The IP address on which to listen.
    pub closed spec fn ip(self) -> Seq<char> {
        self.ip_address@
    }

    /// The port to listen to.
    pub closed spec fn port_number(self) -> u16 {
        self.port
    }

    /// Options for the given address and port.
    pub fn new(ip_address: &'a str, port: u16) -> (r: Self)
        ensures
            r.ip() == ip_address@,
            r.port_number() == port,
    {
        CreateServerOptions { ip_address, port }
    }

    /// The address to listen on: the IP address, `:` and the port.
    pub fn address(&self) -> (r: String)
        ensures
            r@ == self.ip() + ":"@ + decimal(self.port_number() as nat),
    {
        let mut r = self.ip_address.to_owned();
        push_all(&mut r, &chars_of(":"));
        push_decimal(&mut r, self.port as usize);
        r
    }
}

impl<'a> Default for CreateServerOptions<'a> {
    fn default() -> (r: Self)
        ensures
            r.ip() == "127.0.0.1"@,
            r.port_number() == 8080,
    {
        CreateServerOptions { ip_address: "127.0.0.1", port: 8080 }
    }
}

} // verus!
