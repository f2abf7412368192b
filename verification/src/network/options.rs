//! What is set on sockets.
use vstd::prelude::*;

use crate::config::NetworkConfig;

verus! {

/// Seconds between two keepalive probes.
pub const KEEPALIVE_INTERVAL_SECS: u64 = 10;

/// Options of a connected socket.
#[derive(Debug, Clone, Copy, PartialEq, Eq, Structural)]
pub struct SocketOptions {
    pub nodelay: bool,
    /// Seconds of silence before keepalive probes, if there are any
    pub keepalive_secs: Option<u64>,
    pub recv_buffer_size: Option<usize>,
    pub send_buffer_size: Option<usize>,
}

/// Options of a connected socket, to a client or to a backend: keepalive is off at zero.
pub fn socket_options(config: &NetworkConfig) -> (r: SocketOptions)
    ensures
        r == (SocketOptions {
            nodelay: config.tcp_nodelay,
            keepalive_secs: if config.tcp_keepalive_secs > 0 {
                Some(config.tcp_keepalive_secs)
            } else {
                None
            },
            recv_buffer_size: config.recv_buffer_size,
            send_buffer_size: config.send_buffer_size,
        }),
{
    SocketOptions {
        nodelay: config.tcp_nodelay,
        keepalive_secs: if config.tcp_keepalive_secs > 0 {
            Some(config.tcp_keepalive_secs)
        } else {
            None
        },
        recv_buffer_size: config.recv_buffer_size,
        send_buffer_size: config.send_buffer_size,
    }
}

/// A socket is set up as configured; without a keepalive time there are no probes.
pub proof fn law_sockets_are_set_up_as_configured(config: NetworkConfig, r: SocketOptions)
    requires
        call_ensures(socket_options, (&config,), r),
    ensures
        r.nodelay == config.tcp_nodelay,
        r.recv_buffer_size == config.recv_buffer_size,
        r.send_buffer_size == config.send_buffer_size,
        config.tcp_keepalive_secs == 0 <==> r.keepalive_secs is None,
        r.keepalive_secs matches Some(n) ==> n == config.tcp_keepalive_secs,
{
}

} // verus!
