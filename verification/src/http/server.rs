//! The node's plain HTTP endpoint: what it answers.
use vstd::prelude::*;

verus! {

broadcast use vstd::string::group_string_axioms;

/// The HTTP server.
#[derive(Debug)]
pub struct HttpServer {}

impl HttpServer {
    /// The HTTP server.
    pub fn new() -> (r: Self) {
        HttpServer {  }
    }

    /// Whether the server is started: only when enabled.
    pub fn serves(enable: bool) -> (r: bool)
        ensures
            r == enable,
    {
        enable
    }
}

/// Answers the HTTP server's requests.
#[derive(Debug)]
pub struct HttpHandler {}

impl HttpHandler {
    /// The body of the answer to every request.
    pub fn handle() -> (r: String)
        ensures
            r@ == "Hello, World"@,
    {
        "Hello, World".to_string()
    }
}

} // verus!
