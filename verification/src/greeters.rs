//! The `greet` procedure sets that the dispatch benchmarks measure: a sync
//! set, its twin meant to run off the IPC thread, and the twin that also reads
//! managed state.

use vstd::prelude::*;
use crate::text::concat3;

verus! {

/// What every greeter answers for `name`: `Hello, {name}!`.
pub open spec fn greeting(name: Seq<char>) -> Seq<char> {
    "Hello, "@ + name + "!"@
}

/// The procedure under test, identical across twins.
pub trait Greeter {
    fn greet(&self, name: String) -> String;
}

/// The twin of `greet` that a handler spawns and resolves later, as taurpc's
/// resolvers always are.
pub trait GreeterAsync {
    fn greet(&self, name: String) -> String;
}

/// Unit state standing in for a real procedure set owner.
pub struct App;

impl Greeter for App {
    fn greet(&self, name: String) -> (out: String)
        ensures
            out@ == greeting(name@),
    {
        concat3("Hello, ", name.as_str(), "!")
    }
}

/// Owner of the spawned set, kept apart from `App` so each owner implements
/// a single procedure set.
pub struct AsyncApp;

impl GreeterAsync for AsyncApp {
    fn greet(&self, name: String) -> (out: String)
        ensures
            out@ == greeting(name@),
    {
        concat3("Hello, ", name.as_str(), "!")
    }
}

/// Managed state for the state-reading twin: the greeting's prefix.
pub struct Prefix(pub &'static str);

/// The spawned twin that also takes managed state: the same workload plus the
/// prefix the handler resolves from the app's state.
pub trait GreeterAsyncState {
    fn greet(&self, prefix: &Prefix, name: String) -> String;
}

/// Owner of the state-reading set.
pub struct AsyncStateApp;

impl GreeterAsyncState for AsyncStateApp {
    fn greet(&self, prefix: &Prefix, name: String) -> (out: String)
        ensures
            out@ == prefix.0@ + ", "@ + name@ + "!"@,
    {
        let mut out = concat3(prefix.0, ", ", name.as_str());
        out.push('!');
        proof {
            reveal_strlit("!");
        }
        out
    }
}

} // verus!
