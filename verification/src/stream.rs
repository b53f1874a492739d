//! Where the stream of a discovery handler is opened.

use crate::registration::EMBEDDED_DISCOVERY_HANDLER_ENDPOINT;
use crate::text::{same_text, starts_with, text_starts_with};
use vstd::prelude::*;

verus! {

/// Directory in which discovery handlers place their sockets.
pub const DISCOVERY_HANDLER_PATH: &'static str = "/var/lib/akri/discovery";

/// How the stream of a discovery handler is reached.
#[derive(Clone, Copy, Debug, PartialEq, Eq, Structural)]
pub enum StreamSource {
    /// A handler that runs inside the agent.
    Embedded,
    /// A service on a Unix domain socket; the endpoint is the socket's path.
    UnixSocket,
    /// A service on the network; the endpoint is its address.
    Network,
}

/// How the handler at `endpoint` is reached. The endpoint for embedded
/// handlers means an embedded handler only where the agent has one for the
/// configuration; an endpoint under the socket directory is a socket; any
/// other is a network address.
pub open spec fn stream_source(
    endpoint: Seq<char>,
    discovery_handler_path: Seq<char>,
    has_embedded_handler: bool,
) -> StreamSource {
    if endpoint == EMBEDDED_DISCOVERY_HANDLER_ENDPOINT@ && has_embedded_handler {
        StreamSource::Embedded
    } else if text_starts_with(endpoint, discovery_handler_path) {
        StreamSource::UnixSocket
    } else {
        StreamSource::Network
    }
}

/// Decides how the handler at `endpoint` is reached. `has_embedded_handler`
/// says whether the agent has an embedded handler for the configuration.
pub fn classify_endpoint(
    endpoint: &str,
    discovery_handler_path: &str,
    has_embedded_handler: bool,
) -> (source: StreamSource)
    ensures
        source == stream_source(endpoint@, discovery_handler_path@, has_embedded_handler),
{
    if same_text(endpoint, EMBEDDED_DISCOVERY_HANDLER_ENDPOINT) && has_embedded_handler {
        StreamSource::Embedded
    } else if starts_with(endpoint, discovery_handler_path) {
        StreamSource::UnixSocket
    } else {
        StreamSource::Network
    }
}

/// Where a discovery handler serves and under which endpoint it registers.
#[derive(Debug)]
pub struct HandlerEndpoint {
    /// The address or socket path at which the handler serves.
    pub serve_at: String,
    /// The endpoint that the handler gives when it registers.
    pub register_as: String,
    /// True when the handler serves on a Unix domain socket.
    pub use_uds: bool,
}

/// The address at which a handler serves on the network.
pub open spec fn network_address(pod_ip: Seq<char>, discovery_port: Seq<char>) -> Seq<char> {
    pod_ip + seq![':'] + discovery_port
}

/// The path of a handler's socket in the socket directory.
pub open spec fn socket_path(
    discovery_handler_path: Seq<char>,
    socket_name: Seq<char>,
) -> Seq<char> {
    discovery_handler_path + seq!['/'] + socket_name
}

/// The prefix that makes an address an endpoint to register.
pub open spec fn http_scheme() -> Seq<char> {
    seq!['h', 't', 't', 'p', ':', '/', '/']
}

/// Decides where a discovery handler serves. A handler that knows the IP
/// address of its pod serves on the network, at that address and its
/// port, and registers the address with the `http://` scheme in front. A
/// handler without one serves on its socket in the socket directory and
/// registers the socket's path.
pub fn handler_endpoint(
    pod_ip: Option<&str>,
    discovery_port: &str,
    discovery_handler_path: &str,
    socket_name: &str,
) -> (endpoint: HandlerEndpoint)
    ensures
        match pod_ip {
            Some(ip) => {
                &&& !endpoint.use_uds
                &&& endpoint.serve_at@ == network_address(ip@, discovery_port@)
                &&& endpoint.register_as@ == http_scheme() + network_address(ip@, discovery_port@)
            },
            None => {
                &&& endpoint.use_uds
                &&& endpoint.serve_at@ == socket_path(discovery_handler_path@, socket_name@)
                &&& endpoint.register_as@ == socket_path(discovery_handler_path@, socket_name@)
            },
        },
{
    proof {
        reveal_strlit(":");
        reveal_strlit("/");
        reveal_strlit("http://");
    }
    match pod_ip {
        Some(ip) => {
            let mut serve_at = ip.to_owned();
            serve_at.append(":");
            serve_at.append(discovery_port);
            assert(serve_at@ =~= network_address(ip@, discovery_port@));
            let mut register_as = "http://".to_owned();
            register_as.append(serve_at.as_str());
            assert("http://"@ =~= http_scheme());
            HandlerEndpoint { serve_at, register_as, use_uds: false }
        },
        None => {
            let mut serve_at = discovery_handler_path.to_owned();
            serve_at.append("/");
            serve_at.append(socket_name);
            assert(serve_at@ =~= socket_path(discovery_handler_path@, socket_name@));
            let register_as = serve_at.clone();
            HandlerEndpoint { serve_at, register_as, use_uds: true }
        },
    }
}

} // verus!
