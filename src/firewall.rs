//! The shape of the firewall configuration: zones, their chains and their
//! forwarding entries, each naming the rule sets that it includes.
use vstd::prelude::*;

verus! {

/// The whole firewall configuration.
#[derive(Debug)]
pub struct FirewallConfig {
    pub zones: Vec<Zone>,
}

/// A zone with its input and output chains and its forwarding entries.
#[derive(Debug)]
pub struct Zone {
    pub name: String,
    pub input: Option<Chain>,
    pub output: Option<Chain>,
    pub forward: Option<Vec<Forward>>,
}

/// A chain and the rule sets it includes.
#[derive(Debug)]
pub struct Chain {
    pub includes: Option<Vec<String>>,
}

/// Forwarding to a destination zone, with the rule sets it includes.
#[derive(Debug)]
pub struct Forward {
    pub dest: String,
    pub includes: Option<Vec<String>>,
}

} // verus!
