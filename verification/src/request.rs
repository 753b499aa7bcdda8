//! The scan request: target host, port range, and the list of ports that the
//! dispatcher probes.

use vstd::prelude::*;

verus! {

/// Immutable description of one scan: the target host (a textual IP address)
/// and the half-open port range `[from_port, to_port)`.
///
/// Invariant: `0 < from_port` (port 0 is never a valid start), and
/// `to_port <= 65535` holds by the type. A request with
/// `from_port >= to_port` describes an empty scan.
pub struct ScanRequest {
    pub host: String,
    pub from_port: u16,
    pub to_port: u16,
}

/// A port `p` is in the scanned range exactly when `from_port <= p < to_port`.
pub open spec fn port_in_range(req: ScanRequest, p: u16) -> bool {
    req.from_port <= p < req.to_port
}

/// Number of ports the scan probes: the size of `[from_port, to_port)`.
pub open spec fn range_len(req: ScanRequest) -> int {
    if req.from_port < req.to_port {
        req.to_port - req.from_port
    } else {
        0
    }
}

impl ScanRequest {
    /// Build a request from validated input.
    pub fn new(host: String, from_port: u16, to_port: u16) -> (req: ScanRequest)
        requires
            0 < from_port,
        ensures
            req.host == host,
            req.from_port == from_port,
            req.to_port == to_port,
    {
        ScanRequest { host, from_port, to_port }
    }

    /// The ports the dispatcher probes: `from_port, from_port + 1, ...,
    /// to_port - 1`, each exactly once, in ascending order. Empty when
    /// `from_port >= to_port`.
    pub fn ports_to_probe(&self) -> (ports: Vec<u16>)
        ensures
            ports@.len() == range_len(*self),
            forall|i: int| 0 <= i < ports@.len() ==> ports@[i] == self.from_port + i,
            forall|i: int| 0 <= i < ports@.len() ==> port_in_range(*self, #[trigger] ports@[i]),
            forall|p: u16| ports@.contains(p) <==> port_in_range(*self, p),
            ports@.no_duplicates(),
    {
        let mut ports: Vec<u16> = Vec::new();
        if self.from_port >= self.to_port {
            return ports;
        }
        let mut p: u16 = self.from_port;
        while p < self.to_port
            invariant
                self.from_port <= p <= self.to_port,
                ports@.len() == p - self.from_port,
                forall|i: int| 0 <= i < ports@.len() ==> ports@[i] == self.from_port + i,
            decreases self.to_port - p,
        {
            ports.push(p);
            p = p + 1;
        }
        proof {
            assert forall|q: u16| port_in_range(*self, q) implies ports@.contains(q) by {
                let i = q - self.from_port;
                assert(ports@[i as int] == q);
            }
        }
        ports
    }
}

/// Accepts a start port exactly when it is greater than 0.
pub fn start_port_guard(port: &u16) -> (r: bool)
    ensures
        r == (*port > 0),
{
    *port > 0
}

/// Accepts an end port exactly when it is at most 65535. An end port at or
/// below the start port is still accepted: it describes an empty scan.
pub fn end_port_guard(port: &u16) -> (r: bool)
    ensures
        r == (*port <= crate::MAX_PORT_NUMBER),
{
    *port <= crate::MAX_PORT_NUMBER
}

} // verus!
