//! Telling when a connection would lead back to the proxy itself.
use vstd::prelude::*;

use crate::addr;
use crate::addr::{IpAddress, SocketAddress};

verus! {

/// Knows where the proxy listens and which addresses are this host's own.
#[derive(Clone, Debug)]
pub struct LoopDetector {
    listen_addrs: Vec<SocketAddress>,
    local_addrs: Vec<IpAddress>,
}

/// Whether an address is this host's own, given those of its interfaces.
pub open spec fn local(ip: IpAddress, known: Seq<IpAddress>) -> bool {
    addr::loopback(ip) || addr::unspecified(ip) || known.contains(ip)
}

/// Whether a connection to `target` would reach a proxy that listens on `listen`: it is one of
/// those addresses, or an address of this host with one of those ports.
pub open spec fn loops(listen: Seq<SocketAddress>, known: Seq<IpAddress>, target: SocketAddress) -> bool {
    ||| listen.contains(target)
    ||| local(target.ip, known) && exists|i: int| 0 <= i < listen.len() && (#[trigger] listen[i]).port == target.port
}

impl LoopDetector {
    /// The addresses the proxy listens on.
    pub closed spec fn listening(&self) -> Seq<SocketAddress> {
        self.listen_addrs@
    }

    /// The addresses known to be this host's own.
    pub closed spec fn known_local(&self) -> Seq<IpAddress> {
        self.local_addrs@
    }

    /// A detector for a proxy that listens on the given addresses, with no interfaces known yet.
    pub fn new(listen_addrs: Vec<SocketAddress>) -> (r: Self)
        ensures
            r.listening() == listen_addrs@,
            r.known_local() == Seq::<IpAddress>::empty(),
    {
        LoopDetector { listen_addrs, local_addrs: Vec::new() }
    }

    /// Whether connecting to `target` would create a loop.
    pub fn would_loop(&self, target: SocketAddress) -> (r: bool)
        ensures
            r == loops(self.listening(), self.known_local(), target),
            self.listening().contains(target) ==> r,
            r ==> exists|i: int| 0 <= i < self.listening().len() && (#[trigger] self.listening()[i]).port == target.port,
            !r ==> forall|i: int|
                0 <= i < self.listening().len() && (#[trigger] self.listening()[i]).port == target.port ==> target
                    != self.listening()[i] && !addr::loopback(target.ip) && !addr::unspecified(target.ip)
                    && !self.known_local().contains(target.ip),
    {
        let mut port_matches = false;
        let mut i: usize = 0;
        while i < self.listen_addrs.len()
            invariant
                i <= self.listen_addrs@.len(),
                forall|j: int| 0 <= j < i ==> self.listen_addrs@[j] != target,
                port_matches == exists|j: int| 0 <= j < i && (#[trigger] self.listen_addrs@[j]).port == target.port,
            decreases self.listen_addrs.len() - i,
        {
            if self.listen_addrs[i] == target {
                return true;
            }
            if self.listen_addrs[i].port == target.port {
                port_matches = true;
            }
            i = i + 1;
        }
        port_matches && self.is_local_ip(target.ip)
    }

    fn is_local_ip(&self, ip: IpAddress) -> (r: bool)
        ensures
            r == local(ip, self.known_local()),
    {
        if addr::is_loopback(ip) || addr::is_unspecified(ip) {
            return true;
        }
        let mut i: usize = 0;
        while i < self.local_addrs.len()
            invariant
                i <= self.local_addrs@.len(),
                forall|j: int| 0 <= j < i ==> self.local_addrs@[j] != ip,
            decreases self.local_addrs.len() - i,
        {
            if self.local_addrs[i] == ip {
                return true;
            }
            i = i + 1;
        }
        false
    }

    /// Take over the addresses of the system's interfaces (none where they could not be listed),
    /// and loopback and unspecified beside them.
    pub fn refresh_local_addrs(&mut self, interfaces: Vec<IpAddress>)
        ensures
            final(self).listening() == old(self).listening(),
            final(self).known_local() == interfaces@ + seq![
                IpAddress::V4(0x7f00_0001),
                IpAddress::V6(1),
                IpAddress::V4(0),
                IpAddress::V6(0),
            ],
    {
        let ghost given = interfaces@;
        let mut ips = interfaces;
        ips.push(IpAddress::V4(0x7f00_0001));
        ips.push(IpAddress::V6(1));
        ips.push(IpAddress::V4(0));
        ips.push(IpAddress::V6(0));
        assert(ips@ =~= given + seq![
            IpAddress::V4(0x7f00_0001),
            IpAddress::V6(1),
            IpAddress::V4(0),
            IpAddress::V6(0),
        ]);
        self.local_addrs = ips;
    }
}

/// A proxy never connects to an address it listens on: whatever is known of the interfaces,
/// that is a loop, and so is every loopback address with one of its ports.
pub proof fn law_own_addresses_loop(listen: Seq<SocketAddress>, known: Seq<IpAddress>, i: int, target: SocketAddress)
    requires
        0 <= i < listen.len(),
        target == listen[i] || addr::loopback(target.ip) && target.port == listen[i].port,
    ensures
        loops(listen, known, target),
{
}

/// A target whose port the proxy does not listen on is no loop.
pub proof fn law_other_ports_do_not_loop(listen: Seq<SocketAddress>, known: Seq<IpAddress>, target: SocketAddress)
    requires
        forall|i: int| 0 <= i < listen.len() ==> (#[trigger] listen[i]).port != target.port,
    ensures
        !loops(listen, known, target),
{
}

/// A target that the proxy does not listen on and whose address is not this host's is no loop,
/// whatever its port.
pub proof fn law_other_hosts_do_not_loop(listen: Seq<SocketAddress>, known: Seq<IpAddress>, target: SocketAddress)
    requires
        !listen.contains(target),
        !addr::loopback(target.ip),
        !addr::unspecified(target.ip),
        !known.contains(target.ip),
    ensures
        !loops(listen, known, target),
{
}

/// An address of one of this host's interfaces with a port the proxy listens on is a loop.
pub proof fn law_interfaces_of_this_host_loop(
    listen: Seq<SocketAddress>,
    known: Seq<IpAddress>,
    i: int,
    target: SocketAddress,
)
    requires
        0 <= i < listen.len(),
        listen[i].port == target.port,
        known.contains(target.ip) || addr::unspecified(target.ip),
    ensures
        loops(listen, known, target),
{
}

} // verus!
