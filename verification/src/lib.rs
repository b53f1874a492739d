//! The discovery operator of a node-local device agent, and the rules of
//! its discovery handlers.
//!
//! For each configuration the agent keeps streams to the discovery
//! handlers of the configuration's protocol, follows the devices that they
//! report, and keeps an instance with a device plugin for each device. This
//! library holds the decisions of that work; it performs no input or
//! output. Its operations take what was observed and return what is to be
//! done, and the program around it opens the streams, reads the clock and
//! carries the decisions out.
//!
//! Times are whole seconds on a monotonic clock that the caller reads.
//!
//! - [`discovery_operator`] handles discovery results: it names the
//!   instances, brings their connectivity up to date and requests device
//!   plugins. [`instance`] holds the rules of instance connectivity.
//! - [`start_discovery`] decides which sessions to start and stop and how a
//!   session with one handler proceeds; [`registration`] is the table of
//!   handlers that the sessions keep up to date; [`stream`] tells how a
//!   handler's endpoint is reached.
//! - [`digest`] computes the digests that name instances.
//! - [`debug_echo`], [`onvif`] and [`zeroconf`] hold the rules of three
//!   discovery handlers.
//! - [`ordered_map`] and [`text`] are the map and the text search that the
//!   rest is built on.
//! - [`instance_proofs`], [`session_proofs`] and [`discovery_proofs`] state
//!   and prove what holds of instances, handlers and instance names
//!   whatever is observed.

pub mod configuration;
pub mod constants;
pub mod debug_echo;
pub mod device;
pub mod digest;
pub mod discovery_details;
pub mod discovery_operator;
pub mod discovery_proofs;
pub mod instance;
pub mod instance_proofs;
pub mod onvif;
pub mod ordered_map;
pub mod registration;
pub mod session_proofs;
pub mod start_discovery;
pub mod stream;
pub mod text;
pub mod zeroconf;
