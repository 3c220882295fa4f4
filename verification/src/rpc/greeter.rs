//! The greeting service.
use vstd::prelude::*;

verus! {

/// Answers greetings.
#[derive(Debug, Default)]
pub struct GreeterService {}

impl GreeterService {
    /// The greeting service.
    pub fn new() -> (r: Self) {
        GreeterService {  }
    }

    /// The reply to a greeting from `name`: "Hello {name}!".
    pub fn say_hello(&self, name: &str) -> (r: String)
        ensures
            r@ == "Hello "@ + name@ + "!"@,
    {
        let mut m = String::from_str("Hello ");
        m.append(name);
        m.append("!");
        m
    }
}

} // verus!
