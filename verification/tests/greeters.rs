use ttipc::greeters::{App, AsyncApp, AsyncStateApp, Greeter, GreeterAsync, GreeterAsyncState, Prefix};
use ttipc::taurpc_greeter::{Greeter as TaurpcGreeter, GreeterImpl};

#[test]
fn every_twin_greets_alike() {
    assert_eq!(Greeter::greet(&App, String::from("world")), "Hello, world!");
    assert_eq!(GreeterAsync::greet(&AsyncApp, String::from("world")), "Hello, world!");
    assert_eq!(TaurpcGreeter::greet(GreeterImpl, String::from("world")), "Hello, world!");
    assert_eq!(GreeterImpl.clone().greet(String::from("")), "Hello, !");
}

#[test]
fn the_state_twin_reads_its_prefix() {
    let prefix = Prefix("Howdy");
    assert_eq!(GreeterAsyncState::greet(&AsyncStateApp, &prefix, String::from("world")), "Howdy, world!");
}
