//! What the operator reads of a configuration.

use crate::ordered_map::OrderedMap;
use vstd::prelude::*;

verus! {

/// A configuration: a named request to discover the devices of one protocol.
#[derive(Debug)]
pub struct Configuration {
    pub name: String,
    pub namespace: String,
    pub uid: String,
    /// Name of the protocol whose handlers discover for this configuration.
    pub protocol: String,
    /// Settings for the handlers, which the operator forwards unread.
    pub discovery_details: OrderedMap<String, String>,
}

} // verus!
