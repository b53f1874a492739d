//! A discovery handler for testing: it reports the devices that its
//! configuration describes, or none while it is told to be offline.

use crate::device::Device;
use crate::discovery_details::DiscoveryDetailsError;
use crate::text::{contains, text_contains};
use vstd::prelude::*;

verus! {

/// Protocol name under which debug echo handlers register.
pub const PROTOCOL_NAME: &'static str = "debugEcho";

/// Endpoint of the debug echo discovery service.
pub const DISCOVERY_ENDPOINT: &'static str = "[::1]:10001";

/// Seconds between two looks at the availability text.
pub const DISCOVERY_INTERVAL_SECS: u64 = 10;

/// File whose text says whether the described devices are available.
pub const DEBUG_ECHO_AVAILABILITY_CHECK_PATH: &'static str = "/tmp/debug-echo-availability.txt";

/// Word in the availability text that makes the devices undiscoverable.
pub const OFFLINE: &'static str = "OFFLINE";

/// The devices that a debug echo handler is to report.
#[derive(Debug)]
pub struct DebugEchoDiscoveryHandlerConfig {
    pub descriptions: Vec<String>,
}

/// The handler settings that discovery details can describe.
#[derive(Debug)]
pub enum DiscoveryHandlerType {
    DebugEcho(DebugEchoDiscoveryHandlerConfig),
}

/// Where a run of discovery stands: what it reported last.
#[derive(Clone, Copy, Debug, PartialEq, Eq, Structural)]
pub struct DiscoverState {
    /// The handler last found, or reported, the devices offline.
    pub offline: bool,
    /// Nothing was reported yet.
    pub first_loop: bool,
}

/// True when the availability text makes the devices undiscoverable.
pub open spec fn says_offline(availability: Seq<char>) -> bool {
    text_contains(availability, OFFLINE@)
}

/// True when the handler is to report that no device is visible: the devices
/// just went offline, or were offline when discovery began and nothing was
/// reported yet.
pub open spec fn reports_none(state: DiscoverState, offline_now: bool) -> bool {
    (offline_now && !state.offline) || (state.offline && state.first_loop)
}

/// True when the handler is to report every described device: the devices
/// just came back, or were available when discovery began and nothing was
/// reported yet.
pub open spec fn reports_all(state: DiscoverState, offline_now: bool) -> bool {
    !reports_none(state, offline_now) && ((!offline_now && state.offline) || (!state.offline
        && state.first_loop))
}

/// The state after a look at the availability text.
pub open spec fn next_state(state: DiscoverState, offline_now: bool) -> DiscoverState {
    if reports_none(state, offline_now) {
        DiscoverState { offline: true, first_loop: false }
    } else if reports_all(state, offline_now) {
        DiscoverState { offline: false, first_loop: false }
    } else {
        state
    }
}

/// True when `devices` are the devices for `descriptions`: one for each
/// description, in order, with the description as its id and nothing else.
pub open spec fn described_devices(descriptions: Seq<String>, devices: Seq<Device>) -> bool {
    &&& devices.len() == descriptions.len()
    &&& forall|i: int|
        0 <= i < devices.len() ==> {
            &&& (#[trigger] devices[i]).id@ == descriptions[i]@
            &&& devices[i].properties@.len() == 0
            &&& devices[i].mounts@.len() == 0
            &&& devices[i].device_specs@.len() == 0
        }
}

/// The debug echo discovery handler.
#[derive(Debug)]
pub struct DebugEchoDiscoveryHandler {}

impl DebugEchoDiscoveryHandler {
    pub fn new() -> (handler: Self)
        ensures
            handler == (DebugEchoDiscoveryHandler {  }),
    {
        DebugEchoDiscoveryHandler {  }
    }

    /// The state in which discovery begins, given the availability text read
    /// at that moment.
    pub fn begin(&self, availability: &str) -> (state: DiscoverState)
        ensures
            state == (DiscoverState { offline: says_offline(availability@), first_loop: true }),
    {
        DiscoverState { offline: contains(availability, OFFLINE), first_loop: true }
    }

    /// One round of discovery: given the availability text read in this
    /// round, moves `state` on and returns the device list to send, if the
    /// round calls for one.
    pub fn poll(
        &self,
        state: &mut DiscoverState,
        config: &DebugEchoDiscoveryHandlerConfig,
        availability: &str,
    ) -> (response: Option<Vec<Device>>)
        ensures
            *final(state) == next_state(*old(state), says_offline(availability@)),
            reports_none(*old(state), says_offline(availability@)) ==> response is Some
                && response->0@.len() == 0,
            reports_all(*old(state), says_offline(availability@)) ==> response is Some
                && described_devices(config.descriptions@, response->0@),
            !reports_none(*old(state), says_offline(availability@)) && !reports_all(
                *old(state),
                says_offline(availability@),
            ) ==> response is None,
    {
        let offline_now = contains(availability, OFFLINE);
        if (offline_now && !state.offline) || (state.offline && state.first_loop) {
            state.first_loop = false;
            state.offline = true;
            Some(Vec::new())
        } else if (!offline_now && state.offline) || (!state.offline && state.first_loop) {
            state.first_loop = false;
            state.offline = false;
            Some(devices_for(&config.descriptions))
        } else {
            None
        }
    }
}

/// The devices for `descriptions`.
pub fn devices_for(descriptions: &Vec<String>) -> (devices: Vec<Device>)
    ensures
        described_devices(descriptions@, devices@),
{
    let mut devices: Vec<Device> = Vec::new();
    let mut i: usize = 0;
    while i < descriptions.len()
        invariant
            i <= descriptions@.len(),
            described_devices(descriptions@.take(i as int), devices@),
        decreases descriptions@.len() - i,
    {
        devices.push(Device::new(descriptions[i].clone()));
        i += 1;
    }
    assert(descriptions@.take(i as int) =~= descriptions@);
    devices
}

/// The settings of a debug echo handler out of what the settings text of
/// the discovery details was read as; `None` stands for text that could not
/// be read.
pub fn get_configuration(
    parsed: Option<DiscoveryHandlerType>,
) -> (config: Result<DebugEchoDiscoveryHandlerConfig, DiscoveryDetailsError>)
    ensures
        match parsed {
            Some(DiscoveryHandlerType::DebugEcho(c)) => config == Ok::<
                DebugEchoDiscoveryHandlerConfig,
                DiscoveryDetailsError,
            >(c),
            None => config == Err::<DebugEchoDiscoveryHandlerConfig, DiscoveryDetailsError>(
                DiscoveryDetailsError::NoEmbeddedSupport,
            ),
        },
{
    match parsed {
        Some(DiscoveryHandlerType::DebugEcho(c)) => Ok(c),
        None => Err(DiscoveryDetailsError::NoEmbeddedSupport),
    }
}

} // verus!
