//! Packets that are turned towards the proxy on their way out.
use vstd::prelude::*;

use crate::addr::{IpAddress, SocketAddress};

verus! {

/// How long a turned connection is remembered, in seconds.
pub const NAT_TTL_SECS: u64 = 60;

/// Who talks to whom in a packet: the addresses, and the ports where it is a TCP packet.
#[derive(Clone, Copy, Debug)]
pub struct PacketEnds {
    pub addresses: Option<(IpAddress, IpAddress)>,
    pub ports: Option<(u16, u16)>,
}

/// What `PacketHeaders::from_ip_slice` reads from the start of a packet; nothing where it fails.
pub uninterp spec fn packet_ends(packet: Seq<u8>) -> Option<PacketEnds>;

/// `PacketHeaders::from_ip_slice` decodes the IP header and the transport header of a packet.
#[verifier::external_body]
pub(crate) fn read_packet(packet: &[u8]) -> (r: Option<PacketEnds>)
    ensures
        r == packet_ends(packet@),
{
    let headers = etherparse::PacketHeaders::from_ip_slice(packet).ok()?;
    let addresses = headers.ip.map(|ip| match ip {
        etherparse::IpHeader::Version4(h, _) => (
            IpAddress::V4(u32::from_be_bytes(h.source)), IpAddress::V4(u32::from_be_bytes(h.destination))),
        etherparse::IpHeader::Version6(h, _) => (
            IpAddress::V6(u128::from_be_bytes(h.source)), IpAddress::V6(u128::from_be_bytes(h.destination))),
    });
    let ports = match headers.transport {
        Some(etherparse::TransportHeader::Tcp(h)) => Some((h.source_port, h.destination_port)),
        _ => None,
    };
    Some(PacketEnds { addresses, ports })
}

/// The length of the header of an IPv4 packet.
pub open spec fn header_len(packet: Seq<u8>) -> int {
    (packet[0] % 16) * 4
}

/// Whether a packet is long enough to be turned.
pub open spec fn can_turn(packet: Seq<u8>, source: IpAddress) -> bool {
    match source {
        IpAddress::V4(_) => packet.len() > 0 && header_len(packet) >= 20 && packet.len() >= header_len(packet) + 4,
        IpAddress::V6(_) => packet.len() >= 44,
    }
}

/// A packet with the bytes from `at` on replaced.
pub open spec fn overwritten(packet: Seq<u8>, at: int, bytes: Seq<u8>) -> Seq<u8> {
    Seq::new(
        packet.len(),
        |i: int|
            if at <= i < at + bytes.len() {
                bytes[i - at]
            } else {
                packet[i]
            },
    )
}

/// The bytes of a port in network order.
pub open spec fn port_bytes(port: u16) -> Seq<u8> {
    seq![(port / 256) as u8, (port % 256) as u8]
}

/// The bytes of 127.0.0.1.
pub open spec fn v4_loopback() -> Seq<u8> {
    seq![127u8, 0u8, 0u8, 1u8]
}

/// The bytes of ::1.
pub open spec fn v6_loopback() -> Seq<u8> {
    Seq::new(15, |i: int| 0u8).push(1u8)
}

/// A packet turned to a port of this host. An IPv4 packet loses its header checksum.
pub open spec fn turned(packet: Seq<u8>, source: IpAddress, port: u16) -> Seq<u8> {
    match source {
        IpAddress::V4(_) => overwritten(
            overwritten(
                overwritten(packet, 16, v4_loopback()),
                header_len(packet) + 2,
                port_bytes(port),
            ),
            10,
            seq![0u8, 0u8],
        ),
        IpAddress::V6(_) => overwritten(overwritten(packet, 24, v6_loopback()), 42, port_bytes(port)),
    }
}

fn overwrite(packet: &mut Vec<u8>, at: usize, bytes: &Vec<u8>)
    requires
        at + bytes@.len() <= old(packet)@.len(),
    ensures
        final(packet)@ == overwritten(old(packet)@, at as int, bytes@),
{
    let ghost before = packet@;
    let mut i: usize = 0;
    assert(packet.len() <= usize::MAX);
    assert(packet@ =~= overwritten(before, at as int, bytes@.subrange(0, 0)));
    while i < bytes.len()
        invariant
            i <= bytes@.len(),
            at + bytes@.len() <= before.len() <= usize::MAX,
            packet@ == overwritten(before, at as int, bytes@.subrange(0, i as int)),
        decreases bytes.len() - i,
    {
        packet.set(at + i, bytes[i]);
        i = i + 1;
        assert(packet@ =~= overwritten(before, at as int, bytes@.subrange(0, i as int)));
    }
    assert(bytes@.subrange(0, i as int) =~= bytes@);
}

/// What becomes of a packet.
#[derive(Clone, Copy, Debug, PartialEq, Eq, Structural)]
pub enum PacketStep {
    /// Put it back as it was.
    Pass,
    /// Put it back turned, with its checksums made anew, and remember where it was going.
    Turned { source: SocketAddress, destination: SocketAddress },
    /// Remember where it was going, but do not put it back.
    Discard { source: SocketAddress, destination: SocketAddress },
}

/// What becomes of a packet between the given ends.
pub open spec fn packet_step(packet: Seq<u8>, ends: Option<PacketEnds>) -> PacketStep {
    match ends {
        Some(PacketEnds { addresses: Some(a), ports: Some(p) }) => {
            let source = SocketAddress { ip: a.0, port: p.0, flow_info: 0, scope_id: 0 };
            let destination = SocketAddress { ip: a.1, port: p.1, flow_info: 0, scope_id: 0 };
            if can_turn(packet, a.0) {
                PacketStep::Turned { source, destination }
            } else {
                PacketStep::Discard { source, destination }
            }
        },
        _ => PacketStep::Pass,
    }
}

/// Turn a packet between the given ends to a port of this host, where it is a TCP packet.
pub fn redirect_between(packet: &mut Vec<u8>, ends: Option<PacketEnds>, proxy_port: u16) -> (r: PacketStep)
    ensures
        r == packet_step(old(packet)@, ends),
        final(packet)@ == match r {
            PacketStep::Turned { source, destination } => turned(old(packet)@, source.ip, proxy_port),
            _ => old(packet)@,
        },
        r is Pass <==> !(ends matches Some(e) && e.addresses is Some && e.ports is Some),
        r matches PacketStep::Turned { source, destination } ==> source.ip == (ends->0.addresses->0).0 && source.port == (
        ends->0.ports->0).0 && destination.ip == (ends->0.addresses->0).1 && destination.port == (ends->0.ports->0).1,
        r matches PacketStep::Discard { source, destination } ==> source.ip == (ends->0.addresses->0).0 && source.port
            == (ends->0.ports->0).0 && destination.ip == (ends->0.addresses->0).1 && destination.port == (
        ends->0.ports->0).1,
        r !is Turned ==> final(packet)@ == old(packet)@,
        final(packet)@.len() == old(packet)@.len(),
{
    let ends = match ends {
        Some(e) => e,
        None => {
            return PacketStep::Pass;
        },
    };
    let (addresses, ports) = match (ends.addresses, ends.ports) {
        (Some(a), Some(p)) => (a, p),
        _ => {
            return PacketStep::Pass;
        },
    };
    let source = SocketAddress::new(addresses.0, ports.0);
    let destination = SocketAddress::new(addresses.1, ports.1);
    let port: Vec<u8> = vec![(proxy_port / 256) as u8, (proxy_port % 256) as u8];
    assert(port@ =~= port_bytes(proxy_port));
    match addresses.0 {
        IpAddress::V4(_) => {
            if packet.len() == 0 {
                return PacketStep::Discard { source, destination };
            }
            let header: usize = (packet[0] % 16) as usize * 4;
            if header < 20 || packet.len() < header + 4 {
                return PacketStep::Discard { source, destination };
            }
            let host: Vec<u8> = vec![127, 0, 0, 1];
            assert(host@ =~= v4_loopback());
            let blank: Vec<u8> = vec![0, 0];
            assert(blank@ =~= seq![0u8, 0u8]);
            overwrite(packet, 16, &host);
            overwrite(packet, header + 2, &port);
            overwrite(packet, 10, &blank);
        },
        IpAddress::V6(_) => {
            if packet.len() < 44 {
                return PacketStep::Discard { source, destination };
            }
            let host: Vec<u8> = vec![0, 0, 0, 0, 0, 0, 0, 0, 0, 0, 0, 0, 0, 0, 0, 1];
            assert(host@ =~= v6_loopback());
            overwrite(packet, 24, &host);
            overwrite(packet, 42, &port);
        },
    }
    PacketStep::Turned { source, destination }
}

/// Turn a packet to a port of this host, where it is a TCP packet.
pub fn redirect(packet: &mut Vec<u8>, proxy_port: u16) -> (r: PacketStep)
    ensures
        r == packet_step(old(packet)@, packet_ends(old(packet)@)),
        final(packet)@ == match r {
            PacketStep::Turned { source, destination } => turned(old(packet)@, source.ip, proxy_port),
            _ => old(packet)@,
        },
{
    let ends = read_packet(packet.as_slice());
    redirect_between(packet, ends, proxy_port)
}

/// A turned packet keeps its length and the address it came from.
pub proof fn law_turned_packets_keep_their_source(packet: Seq<u8>, source: IpAddress, port: u16)
    requires
        can_turn(packet, source),
    ensures
        turned(packet, source, port).len() == packet.len(),
        source is V4 ==> turned(packet, source, port).subrange(12, 16) == packet.subrange(12, 16),
        source is V6 ==> turned(packet, source, port).subrange(8, 24) == packet.subrange(8, 24),
{
    let t = turned(packet, source, port);
    if source is V4 {
        assert(t.subrange(12, 16) =~= packet.subrange(12, 16));
    } else {
        assert(t.subrange(8, 24) =~= packet.subrange(8, 24));
    }
}

/// A turned packet goes to this host and to the port it was turned to, and nothing else in it
/// changes but the header checksum of IPv4.
pub proof fn law_turned_packets_lead_here(packet: Seq<u8>, source: IpAddress, port: u16, i: int)
    requires
        can_turn(packet, source),
        0 <= i < packet.len(),
    ensures
        ({
            let t = turned(packet, source, port);
            let h = (packet[0] % 16) * 4;
            &&& source is V4 ==> {
                &&& t[16] == 127 && t[17] == 0 && t[18] == 0 && t[19] == 1
                &&& t[h + 2] * 256 + t[h + 3] == port
                &&& t[10] == 0 && t[11] == 0
                &&& i < 10 || 12 <= i < 16 || 20 <= i < h + 2 || h + 4 <= i ==> t[i] == packet[i]
            }
            &&& source is V6 ==> {
                &&& 24 <= i < 39 ==> t[i] == 0
                &&& t[39] == 1
                &&& t[42] * 256 + t[43] == port
                &&& i < 24 || 40 <= i < 42 || 44 <= i ==> t[i] == packet[i]
            }
        }),
{
}

/// A TCP packet is remembered with both its ends, and only a TCP packet is; whether it is put back
/// depends on its length.
pub proof fn law_tcp_packets_are_remembered(
    packet: Seq<u8>,
    from: IpAddress,
    to: IpAddress,
    from_port: u16,
    to_port: u16,
)
    ensures
        ({
            let ends = Some(PacketEnds { addresses: Some((from, to)), ports: Some((from_port, to_port)) });
            let source = SocketAddress { ip: from, port: from_port, flow_info: 0, scope_id: 0 };
            let destination = SocketAddress { ip: to, port: to_port, flow_info: 0, scope_id: 0 };
            &&& can_turn(packet, from) ==> packet_step(packet, ends) == (PacketStep::Turned { source, destination })
            &&& !can_turn(packet, from) ==> packet_step(packet, ends) == (PacketStep::Discard { source, destination })
        }),
        packet_step(packet, Some(PacketEnds { addresses: Some((from, to)), ports: None })) is Pass,
        packet_step(packet, None) is Pass,
        from is V6 ==> (can_turn(packet, from) <==> packet.len() >= 44),
        from is V4 && packet.len() > 0 && packet[0] == 0x45 ==> (can_turn(packet, from) <==> packet.len() >= 24),
{
}

} // verus!
