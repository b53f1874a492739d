//! The discovery details of a configuration: text keyed by text, which the
//! operator hands to discovery handlers as it is.

use crate::ordered_map::{has_key, value_of, OrderedMap};
use vstd::prelude::*;

verus! {

/// Key under which the details hold the settings of an embedded handler.
pub const PROTOCOL_HANDLER_KEY: &'static str = "protocolHandler";

/// Why discovery details yield no handler settings.
#[derive(Clone, Copy, Debug, PartialEq, Eq, Structural)]
pub enum DiscoveryDetailsError {
    /// The details hold nothing under `PROTOCOL_HANDLER_KEY`.
    GenericHandlersNotSupported,
    /// What the details hold under `PROTOCOL_HANDLER_KEY` describes no
    /// handler of the expected protocol.
    NoEmbeddedSupport,
}

impl DiscoveryDetailsError {
    /// The error as a sentence.
    pub fn message(&self) -> (text: &'static str)
        ensures
            text@ == match *self {
                DiscoveryDetailsError::GenericHandlersNotSupported => {
                    "Generic discovery handlers not supported"@
                },
                DiscoveryDetailsError::NoEmbeddedSupport => {
                    "Discovery details had protocol handler but does not have embedded support"@
                },
            },
    {
        match self {
            DiscoveryDetailsError::GenericHandlersNotSupported => {
                "Generic discovery handlers not supported"
            },
            DiscoveryDetailsError::NoEmbeddedSupport => {
                "Discovery details had protocol handler but does not have embedded support"
            },
        }
    }
}

/// The settings text that `discovery_details` hold for an embedded handler.
pub fn protocol_handler_text(
    discovery_details: &OrderedMap<String, String>,
) -> (text: Result<&String, DiscoveryDetailsError>)
    ensures
        match text {
            Ok(t) => has_key(discovery_details@, PROTOCOL_HANDLER_KEY@) && *t == value_of(
                discovery_details@,
                PROTOCOL_HANDLER_KEY@,
            ),
            Err(e) => e == DiscoveryDetailsError::GenericHandlersNotSupported && !has_key(
                discovery_details@,
                PROTOCOL_HANDLER_KEY@,
            ),
        },
{
    let key = PROTOCOL_HANDLER_KEY.to_owned();
    match discovery_details.get(&key) {
        Some(t) => Ok(t),
        None => Err(DiscoveryDetailsError::GenericHandlersNotSupported),
    }
}

} // verus!
