//! The taurpc twin of the benchmark's `greet`: a resolver set in taurpc's
//! shape, where the resolver consumes a cloned owner.

use vstd::prelude::*;
use crate::text::concat3;
use crate::greeters::greeting;

verus! {

/// The procedure under test, identical across twins.
pub trait Greeter {
    fn greet(self, name: String) -> String;
}

/// Unit state standing in for a real procedure set owner.
#[derive(Clone)]
pub struct GreeterImpl;

impl Greeter for GreeterImpl {
    fn greet(self, name: String) -> (out: String)
        ensures
            out@ == greeting(name@),
    {
        concat3("Hello, ", name.as_str(), "!")
    }
}

} // verus!
