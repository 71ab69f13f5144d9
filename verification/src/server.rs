//! Configuration shared by all sessions of one listener.

use vstd::prelude::*;
use crate::ports::PortRange;

verus! {

/// What every session needs to know: where to send datagrams, where to
/// bind, and how long a read may block.
pub struct Server {
    /// Address of the remote UDP endpoint, as `host:port`.
    pub udp_target: String,
    /// Local host on which UDP sockets are bound.
    pub udp_host: String,
    /// Lowest local UDP port to try.
    pub udp_low_port: u16,
    /// Highest local UDP port to try.
    pub udp_high_port: u16,
    /// Longest time a read may block, in whole seconds. `None` blocks
    /// without limit.
    pub socket_timeout: Option<u64>,
}

/// The timeout that a number of seconds stands for: zero means none.
pub open spec fn timeout_of(secs: u64) -> Option<u64> {
    if secs == 0 {
        None
    } else {
        Some(secs)
    }
}

impl Server {
    /// A timeout, where there is one, is longer than zero seconds.
    pub open spec fn wf(&self) -> bool {
        self.socket_timeout != Some(0u64)
    }

    /// Builds the configuration. `secs == 0` switches the timeout off.
    pub fn new(
        udp_target: String,
        udp_host: String,
        udp_low_port: u16,
        udp_high_port: u16,
        secs: u64,
    ) -> (server: Server)
        ensures
            server.udp_target == udp_target,
            server.udp_host == udp_host,
            server.udp_low_port == udp_low_port,
            server.udp_high_port == udp_high_port,
            server.socket_timeout == timeout_of(secs),
            server.wf(),
    {
        Server {
            udp_target,
            udp_host,
            udp_low_port,
            udp_high_port,
            socket_timeout: match secs {
                0 => None,
                x => Some(x),
            },
        }
    }

    /// The ports that sessions of this configuration may bind, or `None`
    /// where the low port is above the high port.
    pub fn port_range(&self) -> (r: Option<PortRange>)
        ensures
            r.is_some() <==> self.udp_low_port <= self.udp_high_port,
            r matches Some(range) ==> range.wf() && range.host == self.udp_host && range.low
                == self.udp_low_port && range.high == self.udp_high_port,
    {
        PortRange::new(self.udp_host.clone(), self.udp_low_port, self.udp_high_port)
    }
}

} // verus!
