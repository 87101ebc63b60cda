//! Command line: the address to listen on and the role of the node.
use vstd::prelude::*;

use crate::text::str_equal;

verus! {

/// The role of a node: the master also keeps the store and runs the
/// scheduler; a slave only serves the API and works.
#[derive(Clone, Debug)]
pub enum RunType {
    Master,
    Slave,
}

/// The lowercase form of `s`, as `str::to_lowercase` gives it (the Unicode
/// lowercase mapping of each character).
pub uninterp spec fn lowercase_of(s: Seq<char>) -> Seq<char>;

/// Calls `str::to_lowercase`; its result is a function of the string alone,
/// named `lowercase_of`.
#[verifier::external_body]
fn lowercase(s: &str) -> (r: String)
    ensures
        r@ == lowercase_of(s@),
{
    s.to_lowercase()
}

impl RunType {
    /// The role that an already lowercased name selects.
    pub open spec fn for_lowercase(lowered: Seq<char>) -> RunType {
        if lowered == "master"@ {
            RunType::Master
        } else {
            RunType::Slave
        }
    }

    /// The role that a lowercased name selects: "master" selects the master,
    /// anything else a slave.
    pub fn from_lowercase(lowered: &str) -> (r: RunType)
        ensures
            r == RunType::for_lowercase(lowered@),
    {
        if str_equal(lowered, "master") {
            RunType::Master
        } else {
            RunType::Slave
        }
    }

    /// The role that `input` names, in any case: "master" selects the
    /// master, anything else a slave.
    pub fn from_str(input: &str) -> (r: RunType)
        ensures
            r == RunType::for_lowercase(lowercase_of(input@)),
    {
        let lowered = lowercase(input);
        RunType::from_lowercase(lowered.as_str())
    }
}

/// What a node is started with: the address its API listens on and its
/// role.
#[derive(Clone, Debug)]
#[allow(non_snake_case)]
pub struct Args {
    pub address: String,
    pub runType: RunType,
}

impl Args {
    /// The arguments of a node from its command line `args`: the address is
    /// the first argument after the program, the role the second.
    pub fn handle(args: &Vec<String>) -> (a: Args)
        requires
            args@.len() >= 3,
        ensures
            a.address == args@[1],
            a.runType == RunType::for_lowercase(lowercase_of(args@[2]@)),
    {
        Args { address: args[1].clone(), runType: RunType::from_str(args[2].as_str()) }
    }
}

} // verus!
