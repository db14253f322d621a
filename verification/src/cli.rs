//! What the server is told on its command line.

use vstd::prelude::*;

verus! {

/// The port to listen on where none is given.
pub const DEFAULT_PORT: u16 = 9000;

/// A simple danmaku server.
#[derive(Debug)]
pub struct Args {
    /// the address to listen on
    pub address: String,
    /// the port to listen on
    pub port: u16,
    /// the number of threads to use
    pub threads: usize,
    /// verbose logging
    pub verbose: bool,
    /// show version information and exit
    pub version: bool,
}

} // verus!
