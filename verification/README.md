# prime_server

Two HTTP/1.1 request parsers and the responses that go with them, written in
Verus: every function of the library carries a contract, stated over spec
functions on byte and character sequences, and Verus proves it, with three
exceptions. Three calls into std are trusted wrappers whose contracts Verus
takes on faith: `String::push` (`text::push_char`), `str::parse::<usize>`
(`text::parse_usize`) and `String::from_utf8` (`reader::utf8_string`).

- `src/` is the library (see the module list in `src/lib.rs`).
- `tests/` runs the library on concrete requests.
- `app/` holds the servers: listening on TCP, reading what a client sends
  and writing the response that the library builds.

Run a server with `app prime`, `app rapid`, `app callback` or `app echo`;
each listens on 127.0.0.1:8080.
