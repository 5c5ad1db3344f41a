//! The address a connection was made to before it was redirected here.
use vstd::prelude::*;

use crate::addr::{IpAddress, SocketAddress};

verus! {

/// The address families of Linux.
pub const AF_INET: u16 = 2;

pub const AF_INET6: u16 = 10;

/// The address families of macOS, as its packet filter has them.
pub const PF_AF_INET: u8 = 2;

pub const PF_AF_INET6: u8 = 30;

/// Where control messages with an original destination are found.
pub const SOL_IP: i32 = 0;

pub const IP_RECVORIGDSTADDR: i32 = 20;

pub const SOL_IPV6: i32 = 41;

pub const IPV6_RECVORIGDSTADDR: i32 = 74;

/// The number some bytes spell, highest first.
pub open spec fn be(bytes: Seq<u8>) -> nat
    decreases bytes.len(),
{
    if bytes.len() == 0 {
        0
    } else {
        be(bytes.drop_last()) * 256 + bytes.last() as nat
    }
}

/// The bytes that spell a number, highest first.
pub open spec fn be_bytes(n: nat, len: nat) -> Seq<u8>
    decreases len,
{
    if len == 0 {
        Seq::empty()
    } else {
        be_bytes(n / 256, (len - 1) as nat).push((n % 256) as u8)
    }
}

/// 256 to the power of `len`.
pub open spec fn radix(len: nat) -> nat
    decreases len,
{
    if len == 0 {
        1
    } else {
        256 * radix((len - 1) as nat)
    }
}

/// Bytes that spell a number are read as that number, where they are enough for it.
pub proof fn lemma_be_round_trip(n: nat, len: nat)
    requires
        n < radix(len),
    ensures
        be(be_bytes(n, len)) == n,
        be_bytes(n, len).len() == len,
    decreases len,
{
    if len > 0 {
        assert(n / 256 < radix((len - 1) as nat)) by (nonlinear_arith)
            requires
                n < 256 * radix((len - 1) as nat),
        ;
        lemma_be_round_trip(n / 256, (len - 1) as nat);
        let b = be_bytes(n, len);
        assert(b.drop_last() =~= be_bytes(n / 256, (len - 1) as nat));
    }
}

/// Some bytes spell a number that fits them.
pub proof fn lemma_be_bound(bytes: Seq<u8>)
    ensures
        be(bytes) < radix(bytes.len()),
    decreases bytes.len(),
{
    if bytes.len() > 0 {
        lemma_be_bound(bytes.drop_last());
        assert(be(bytes.drop_last()) * 256 + 255 < 256 * radix((bytes.len() - 1) as nat)) by (nonlinear_arith)
            requires
                be(bytes.drop_last()) < radix((bytes.len() - 1) as nat),
        ;
    }
}

proof fn lemma_radixes()
    ensures
        radix(0) == 1,
        radix(2) == 0x1_0000,
        radix(4) == 0x1_0000_0000,
        radix(16) == 0x1_0000_0000_0000_0000_0000_0000_0000_0000,
{
    reveal_with_fuel(radix, 17);
}

fn write_be(n: u128, len: usize) -> (r: Vec<u8>)
    ensures
        r@ == be_bytes(n as nat, len as nat),
    decreases len,
{
    if len == 0 {
        Vec::new()
    } else {
        let mut out = write_be(n / 256, len - 1);
        out.push((n % 256) as u8);
        out
    }
}

fn read_be(bytes: &[u8]) -> (r: u128)
    requires
        bytes@.len() <= 16,
    ensures
        r == be(bytes@),
{
    let mut n: u128 = 0;
    let mut i: usize = 0;
    while i < bytes.len()
        invariant
            i <= bytes@.len() <= 16,
            n == be(bytes@.subrange(0, i as int)),
        decreases bytes.len() - i,
    {
        let ghost prefix = bytes@.subrange(0, i + 1);
        proof {
            assert(prefix.drop_last() =~= bytes@.subrange(0, i as int));
            lemma_be_bound(prefix);
            lemma_radix_grows((i + 1) as nat, 16);
            lemma_radixes();
        }
        n = n * 256 + bytes[i] as u128;
        i = i + 1;
    }
    assert(bytes@.subrange(0, i as int) =~= bytes@);
    n
}

proof fn lemma_radix_grows(a: nat, b: nat)
    requires
        a <= b,
    ensures
        radix(a) <= radix(b),
        radix(a) > 0,
    decreases b,
{
    if b > 0 {
        if a < b {
            lemma_radix_grows(a, (b - 1) as nat);
        } else {
            lemma_radix_grows((a - 1) as nat, (b - 1) as nat);
        }
    }
}

/// An address as the system keeps it: the port and the address in network order. `flow_info` and
/// `scope_id` matter to IPv6 only.
#[derive(Clone, Debug)]
pub struct RawAddress {
    pub family: u16,
    pub port: Vec<u8>,
    pub octets: Vec<u8>,
    pub flow_info: u32,
    pub scope_id: u32,
}

/// Why an address of the system could not be read.
#[derive(Clone, Copy, Debug, PartialEq, Eq, Structural)]
pub enum RawAddressError {
    UnknownFamily,
}

/// Whether an address of the system has as many bytes as its family asks for.
pub open spec fn complete(raw: RawAddress) -> bool {
    &&& raw.port@.len() == 2
    &&& raw.family == AF_INET ==> raw.octets@.len() == 4
    &&& raw.family == AF_INET6 ==> raw.octets@.len() == 16
}

/// The address that one of the system stands for.
pub open spec fn address_from(raw: RawAddress) -> Option<SocketAddress> {
    if raw.family == AF_INET {
        Some(
            SocketAddress {
                ip: IpAddress::V4(be(raw.octets@) as u32),
                port: be(raw.port@) as u16,
                flow_info: 0,
                scope_id: 0,
            },
        )
    } else if raw.family == AF_INET6 {
        Some(
            SocketAddress {
                ip: IpAddress::V6(be(raw.octets@) as u128),
                port: be(raw.port@) as u16,
                flow_info: raw.flow_info,
                scope_id: raw.scope_id,
            },
        )
    } else {
        None
    }
}

/// The address that one of the system stands for.
pub fn sockaddr_to_socket_addr(raw: &RawAddress) -> (r: Result<SocketAddress, RawAddressError>)
    requires
        complete(*raw),
    ensures
        match r {
            Ok(a) => address_from(*raw) == Some(a),
            Err(_) => address_from(*raw) is None,
        },
        r is Ok <==> raw.family == 2 || raw.family == 10,
        r matches Ok(a) ==> a.port == raw.port@[0] * 256 + raw.port@[1],
        r matches Ok(a) ==> (raw.family == 2 ==> (a.ip matches IpAddress::V4(n) && n == ((raw.octets@[0] * 256
            + raw.octets@[1]) * 256 + raw.octets@[2]) * 256 + raw.octets@[3]) && a.flow_info == 0 && a.scope_id == 0),
        r matches Ok(a) ==> (raw.family == 10 ==> (a.ip matches IpAddress::V6(n) && n == be(raw.octets@)) && a.flow_info
            == raw.flow_info && a.scope_id == raw.scope_id),
{
    proof {
        law_bytes_are_in_network_order(raw.port@);
        law_bytes_are_in_network_order(raw.octets@);
        lemma_radixes();
        lemma_be_bound(raw.port@);
        lemma_be_bound(raw.octets@);
    }
    let port: u16 = read_be(raw.port.as_slice()) as u16;
    if raw.family == AF_INET {
        let n: u32 = read_be(raw.octets.as_slice()) as u32;
        Ok(SocketAddress::new(IpAddress::V4(n), port))
    } else if raw.family == AF_INET6 {
        let n: u128 = read_be(raw.octets.as_slice());
        Ok(SocketAddress { ip: IpAddress::V6(n), port, flow_info: raw.flow_info, scope_id: raw.scope_id })
    } else {
        Err(RawAddressError::UnknownFamily)
    }
}

/// The address to bind a transparent socket to, as the system wants it.
pub fn socket_addr_to_sockaddr(a: SocketAddress) -> (r: RawAddress)
    ensures
        complete(r),
        r.flow_info == 0,
        r.scope_id == 0,
        r.port@ == be_bytes(a.port as nat, 2),
        match a.ip {
            IpAddress::V4(n) => r.family == AF_INET && r.octets@ == be_bytes(n as nat, 4),
            IpAddress::V6(n) => r.family == AF_INET6 && r.octets@ == be_bytes(n as nat, 16),
        },
        address_from(r) == Some(SocketAddress { flow_info: 0, scope_id: 0, ..a }),
        r.family == (if a.ip is V4 {
            2u16
        } else {
            10u16
        }),
        a.port == r.port@[0] * 256 + r.port@[1],
        a.ip matches IpAddress::V4(n) ==> n == ((r.octets@[0] * 256 + r.octets@[1]) * 256 + r.octets@[2]) * 256
            + r.octets@[3],
{
    proof {
        lemma_radixes();
        lemma_be_round_trip(a.port as nat, 2);
    }
    let port = write_be(a.port as u128, 2);
    proof {
        law_bytes_are_in_network_order(port@);
    }
    match a.ip {
        IpAddress::V4(n) => {
            proof {
                lemma_be_round_trip(n as nat, 4);
                law_bytes_are_in_network_order(be_bytes(n as nat, 4));
            }
            RawAddress { family: AF_INET, port, octets: write_be(n as u128, 4), flow_info: 0, scope_id: 0 }
        },
        IpAddress::V6(n) => {
            proof {
                lemma_be_round_trip(n as nat, 16);
            }
            RawAddress { family: AF_INET6, port, octets: write_be(n, 16), flow_info: 0, scope_id: 0 }
        },
    }
}

/// Options that let a socket carry traffic of other addresses.
pub const IP_TRANSPARENT: i32 = 19;

pub const IPV6_TRANSPARENT: i32 = 75;

pub const SOL_SOCKET: i32 = 1;

pub const SO_REUSEADDR: i32 = 2;

/// An option that is switched on for a socket, and whether the socket is of no use without it.
#[derive(Clone, Copy, Debug, PartialEq, Eq, Structural)]
pub struct SocketOption {
    pub level: i32,
    pub name: i32,
    pub required: bool,
}

/// The options of the socket that redirected datagrams arrive on. IPv6 may be disabled, so that its
/// options may fail.
pub open spec fn tproxy_list() -> Seq<SocketOption> {
    seq![
        SocketOption { level: SOL_IP, name: IP_TRANSPARENT, required: true },
        SocketOption { level: SOL_IP, name: IP_RECVORIGDSTADDR, required: true },
        SocketOption { level: SOL_IPV6, name: IPV6_TRANSPARENT, required: false },
        SocketOption { level: SOL_IPV6, name: IPV6_RECVORIGDSTADDR, required: false },
    ]
}

/// The options of the socket that redirected datagrams arrive on, in the order they are set.
pub fn tproxy_options() -> (r: Vec<SocketOption>)
    ensures
        r@ == tproxy_list(),
        r@.len() == 4,
        r@[0] == (SocketOption { level: 0, name: 19, required: true }),
        r@[1] == (SocketOption { level: 0, name: 20, required: true }),
        r@[2] == (SocketOption { level: 41, name: 75, required: false }),
        r@[3] == (SocketOption { level: 41, name: 74, required: false }),
{
    let r: Vec<SocketOption> = vec![
        SocketOption { level: SOL_IP, name: IP_TRANSPARENT, required: true },
        SocketOption { level: SOL_IP, name: IP_RECVORIGDSTADDR, required: true },
        SocketOption { level: SOL_IPV6, name: IPV6_TRANSPARENT, required: false },
        SocketOption { level: SOL_IPV6, name: IPV6_RECVORIGDSTADDR, required: false },
    ];
    assert(r@ =~= tproxy_list());
    r
}

/// The options of a socket that answers from an address which is not this host's.
pub open spec fn transparent_list(a: SocketAddress) -> Seq<SocketOption> {
    let first = seq![SocketOption { level: SOL_IP, name: IP_TRANSPARENT, required: true }];
    let next = if a.ip is V6 {
        first.push(SocketOption { level: SOL_IPV6, name: IPV6_TRANSPARENT, required: false })
    } else {
        first
    };
    next.push(SocketOption { level: SOL_SOCKET, name: SO_REUSEADDR, required: true })
}

/// The options of a socket that answers from an address which is not this host's, in the order they
/// are set before it is bound there.
pub fn transparent_options(a: SocketAddress) -> (r: Vec<SocketOption>)
    ensures
        r@ == transparent_list(a),
        r@[0] == (SocketOption { level: 0, name: 19, required: true }),
        r@.last() == (SocketOption { level: 1, name: 2, required: true }),
        a.ip is V4 ==> r@.len() == 2,
        a.ip is V6 ==> r@.len() == 3 && r@[1] == (SocketOption { level: 41, name: 75, required: false }),
{
    let mut r: Vec<SocketOption> = Vec::new();
    r.push(SocketOption { level: SOL_IP, name: IP_TRANSPARENT, required: true });
    match a.ip {
        IpAddress::V6(_) => {
            r.push(SocketOption { level: SOL_IPV6, name: IPV6_TRANSPARENT, required: false });
        },
        IpAddress::V4(_) => {},
    }
    r.push(SocketOption { level: SOL_SOCKET, name: SO_REUSEADDR, required: true });
    assert(r@ =~= transparent_list(a));
    r
}

/// A control message that came with a datagram.
#[derive(Clone, Debug)]
pub struct ControlMessage {
    pub level: i32,
    pub kind: i32,
    pub address: RawAddress,
}

/// Whether a control message tells an original IPv4 destination.
pub open spec fn tells_v4(m: ControlMessage) -> bool {
    m.level == SOL_IP && m.kind == IP_RECVORIGDSTADDR
}

/// Whether a control message tells an original IPv6 destination.
pub open spec fn tells_v6(m: ControlMessage) -> bool {
    m.level == SOL_IPV6 && m.kind == IPV6_RECVORIGDSTADDR
}

/// Whether a control message has as many bytes as what it tells asks for.
pub open spec fn complete_message(m: ControlMessage) -> bool {
    &&& tells_v4(m) ==> m.address.port@.len() == 2 && m.address.octets@.len() == 4
    &&& tells_v6(m) ==> m.address.port@.len() == 2 && m.address.octets@.len() == 16
}

/// The original destination among the control messages of a datagram: what the first that tells one
/// says.
pub open spec fn destination_among(list: Seq<ControlMessage>) -> Option<SocketAddress>
    decreases list.len(),
{
    if list.len() == 0 {
        None
    } else if tells_v4(list[0]) {
        Some(
            SocketAddress {
                ip: IpAddress::V4(be(list[0].address.octets@) as u32),
                port: be(list[0].address.port@) as u16,
                flow_info: 0,
                scope_id: 0,
            },
        )
    } else if tells_v6(list[0]) {
        Some(
            SocketAddress {
                ip: IpAddress::V6(be(list[0].address.octets@) as u128),
                port: be(list[0].address.port@) as u16,
                flow_info: list[0].address.flow_info,
                scope_id: list[0].address.scope_id,
            },
        )
    } else {
        destination_among(list.subrange(1, list.len() as int))
    }
}

/// The original destination among the control messages of a datagram.
pub fn parse_orig_dst(list: &Vec<ControlMessage>) -> (r: Option<SocketAddress>)
    requires
        forall|i: int| 0 <= i < list@.len() ==> complete_message(#[trigger] list@[i]),
    ensures
        r == destination_among(list@),
        r is None <==> forall|i: int|
            0 <= i < list@.len() ==> !((#[trigger] list@[i]).level == 0 && list@[i].kind == 20) && !(list@[i].level
                == 41 && list@[i].kind == 74),
{
    proof {
        law_the_first_message_that_tells_decides(list@);
    }
    let mut i: usize = 0;
    assert(list@.subrange(0, list@.len() as int) =~= list@);
    while i < list.len()
        invariant
            i <= list@.len(),
            forall|j: int| 0 <= j < list@.len() ==> complete_message(#[trigger] list@[j]),
            destination_among(list@.subrange(i as int, list@.len() as int)) == destination_among(list@),
        decreases list.len() - i,
    {
        let ghost rest = list@.subrange(i as int, list@.len() as int);
        assert(rest[0] == list@[i as int]);
        assert(rest.subrange(1, rest.len() as int) =~= list@.subrange(i + 1, list@.len() as int));
        let m = &list[i];
        proof {
            lemma_radixes();
            lemma_be_bound(m.address.port@);
            lemma_be_bound(m.address.octets@);
        }
        if m.level == SOL_IP && m.kind == IP_RECVORIGDSTADDR {
            let n: u32 = read_be(m.address.octets.as_slice()) as u32;
            let port: u16 = read_be(m.address.port.as_slice()) as u16;
            return Some(SocketAddress::new(IpAddress::V4(n), port));
        }
        if m.level == SOL_IPV6 && m.kind == IPV6_RECVORIGDSTADDR {
            let n: u128 = read_be(m.address.octets.as_slice());
            let port: u16 = read_be(m.address.port.as_slice()) as u16;
            return Some(
                SocketAddress {
                    ip: IpAddress::V6(n),
                    port,
                    flow_info: m.address.flow_info,
                    scope_id: m.address.scope_id,
                },
            );
        }
        i = i + 1;
    }
    assert(list@.subrange(i as int, list@.len() as int).len() == 0);
    None
}

/// What the original destination of a redirected IPv4 connection is; another family is not
/// supported.
pub fn original_dst_from_socket(raw: &RawAddress) -> (r: Result<SocketAddress, RawAddressError>)
    requires
        complete(*raw),
    ensures
        match r {
            Ok(a) => raw.family == AF_INET && address_from(*raw) == Some(a),
            Err(_) => raw.family != AF_INET,
        },
        r is Ok <==> raw.family == 2,
        r matches Ok(a) ==> a.port == raw.port@[0] * 256 + raw.port@[1] && (a.ip matches IpAddress::V4(n) && n == ((
        raw.octets@[0] * 256 + raw.octets@[1]) * 256 + raw.octets@[2]) * 256 + raw.octets@[3]),
{
    if raw.family == AF_INET {
        sockaddr_to_socket_addr(raw)
    } else {
        Err(RawAddressError::UnknownFamily)
    }
}

/// A question to the macOS packet filter: where was this connection going? Addresses take sixteen
/// bytes, of which IPv4 uses the first four; all of it is in network order.
#[derive(Clone, Debug)]
pub struct NatLookup {
    pub family: u8,
    pub proto: u8,
    pub direction: u8,
    pub source: Vec<u8>,
    pub source_port: Vec<u8>,
    pub destination: Vec<u8>,
    pub destination_port: Vec<u8>,
}

/// An address in the sixteen bytes of the packet filter.
pub open spec fn filter_bytes(ip: IpAddress) -> Seq<u8> {
    match ip {
        IpAddress::V4(n) => be_bytes(n as nat, 4) + be_bytes(0, 12),
        IpAddress::V6(n) => be_bytes(n as nat, 16),
    }
}

fn write_filter_bytes(ip: IpAddress) -> (r: Vec<u8>)
    ensures
        r@ == filter_bytes(ip),
        r@.len() == 16,
{
    proof {
        lemma_radixes();
        lemma_radix_grows(0, 12);
        lemma_be_round_trip(0, 12);
    }
    match ip {
        IpAddress::V4(n) => {
            proof {
                lemma_be_round_trip(n as nat, 4);
            }
            let mut out = write_be(n as u128, 4);
            let mut pad = write_be(0, 12);
            out.append(&mut pad);
            out
        },
        IpAddress::V6(n) => {
            proof {
                lemma_be_round_trip(n as nat, 16);
            }
            write_be(n, 16)
        },
    }
}

/// The protocol number of TCP, and the direction in which the packet filter is asked.
pub const PROTO_TCP: u8 = 6;

pub const PF_IN: u8 = 1;

/// The question to the packet filter about a connection from `src` that reached `dst` here.
pub fn nat_lookup(src: SocketAddress, dst: SocketAddress) -> (r: NatLookup)
    ensures
        r.family == (if src.ip is V4 {
            PF_AF_INET
        } else {
            PF_AF_INET6
        }),
        r.proto == PROTO_TCP,
        r.direction == PF_IN,
        r.source@ == filter_bytes(src.ip),
        r.source_port@ == be_bytes(src.port as nat, 2),
        r.destination@ == filter_bytes(dst.ip),
        r.destination_port@ == be_bytes(dst.port as nat, 2),
        src.ip is V4 ==> r.family == 2,
        src.ip is V6 ==> r.family == 30,
        r.proto == 6,
        r.direction == 1,
        src.port == r.source_port@[0] * 256 + r.source_port@[1],
        dst.port == r.destination_port@[0] * 256 + r.destination_port@[1],
        r.source@.len() == 16,
        r.destination@.len() == 16,
        src.ip matches IpAddress::V4(n) ==> n == ((r.source@[0] * 256 + r.source@[1]) * 256 + r.source@[2]) * 256
            + r.source@[3],
        dst.ip matches IpAddress::V4(n) ==> n == ((r.destination@[0] * 256 + r.destination@[1]) * 256
            + r.destination@[2]) * 256 + r.destination@[3],
        src.ip matches IpAddress::V6(n) ==> n == be(r.source@),
        dst.ip matches IpAddress::V6(n) ==> n == be(r.destination@),
{
    proof {
        lemma_radixes();
        lemma_be_round_trip(src.port as nat, 2);
        lemma_be_round_trip(dst.port as nat, 2);
        law_bytes_are_in_network_order(be_bytes(src.port as nat, 2));
        law_bytes_are_in_network_order(be_bytes(dst.port as nat, 2));
        lemma_filter_start(src.ip);
        lemma_filter_start(dst.ip);
    }
    let family: u8 = match src.ip {
        IpAddress::V4(_) => PF_AF_INET,
        IpAddress::V6(_) => PF_AF_INET6,
    };
    NatLookup {
        family,
        proto: PROTO_TCP,
        direction: PF_IN,
        source: write_filter_bytes(src.ip),
        source_port: write_be(src.port as u128, 2),
        destination: write_filter_bytes(dst.ip),
        destination_port: write_be(dst.port as u128, 2),
    }
}

/// The address in an answer of the packet filter.
pub open spec fn filter_address(family: u8, octets: Seq<u8>, port: Seq<u8>) -> SocketAddress {
    SocketAddress {
        ip: if family == PF_AF_INET {
            IpAddress::V4(be(octets.subrange(0, 4)) as u32)
        } else {
            IpAddress::V6(be(octets) as u128)
        },
        port: be(port) as u16,
        flow_info: 0,
        scope_id: 0,
    }
}

/// The original destination in an answer of the packet filter.
pub fn nat_answer(family: u8, octets: &Vec<u8>, port: &Vec<u8>) -> (r: SocketAddress)
    requires
        octets@.len() == 16,
        port@.len() == 2,
    ensures
        r == filter_address(family, octets@, port@),
        r.port == port@[0] * 256 + port@[1],
        family == 2 ==> (r.ip matches IpAddress::V4(n) && n == ((octets@[0] * 256 + octets@[1]) * 256 + octets@[2])
            * 256 + octets@[3]),
        family != 2 ==> (r.ip matches IpAddress::V6(n) && n == be(octets@)),
{
    proof {
        law_bytes_are_in_network_order(port@);
        law_bytes_are_in_network_order(octets@.subrange(0, 4));
        lemma_radixes();
        lemma_be_bound(port@);
        lemma_be_bound(octets@);
        lemma_be_bound(octets@.subrange(0, 4));
    }
    let number: u16 = read_be(port.as_slice()) as u16;
    if family == PF_AF_INET {
        let n: u32 = read_be(vstd::slice::slice_subrange(octets.as_slice(), 0, 4)) as u32;
        SocketAddress::new(IpAddress::V4(n), number)
    } else {
        SocketAddress::new(IpAddress::V6(read_be(octets.as_slice())), number)
    }
}

/// What the packet filter is told of an address, it can tell back: the bytes of a question read as
/// an answer give the address that was asked about, without its flow information and scope.
pub proof fn law_filter_bytes_name_their_address(a: SocketAddress)
    ensures
        filter_address(
            if a.ip is V4 {
                PF_AF_INET
            } else {
                PF_AF_INET6
            },
            filter_bytes(a.ip),
            be_bytes(a.port as nat, 2),
        ) == (SocketAddress { flow_info: 0, scope_id: 0, ..a }),
{
    lemma_radixes();
    lemma_be_round_trip(a.port as nat, 2);
    match a.ip {
        IpAddress::V4(n) => {
            lemma_be_round_trip(n as nat, 4);
            assert(filter_bytes(a.ip).subrange(0, 4) =~= be_bytes(n as nat, 4));
        },
        IpAddress::V6(n) => {
            lemma_be_round_trip(n as nat, 16);
        },
    }
}

proof fn lemma_filter_start(ip: IpAddress)
    ensures
        ip matches IpAddress::V4(n) ==> n == ((filter_bytes(ip)[0] * 256 + filter_bytes(ip)[1]) * 256 + filter_bytes(
            ip,
        )[2]) * 256 + filter_bytes(ip)[3],
        ip matches IpAddress::V6(n) ==> n == be(filter_bytes(ip)),
{
    lemma_radixes();
    match ip {
        IpAddress::V4(n) => {
            lemma_be_round_trip(n as nat, 4);
            law_bytes_are_in_network_order(be_bytes(n as nat, 4));
        },
        IpAddress::V6(n) => {
            lemma_be_round_trip(n as nat, 16);
        },
    }
}

/// Bytes are read in network order: of a port the first byte counts 256, of an address the first
/// counts most.
pub proof fn law_bytes_are_in_network_order(bytes: Seq<u8>)
    ensures
        bytes.len() == 2 ==> be(bytes) == bytes[0] * 256 + bytes[1],
        bytes.len() == 4 ==> be(bytes) == ((bytes[0] * 256 + bytes[1]) * 256 + bytes[2]) * 256 + bytes[3],
{
    reveal_with_fuel(be, 5);
    if bytes.len() == 2 || bytes.len() == 4 {
        let one = bytes.drop_last();
        let two = one.drop_last();
        assert(one.last() == bytes[bytes.len() - 2]);
        if bytes.len() == 4 {
            let three = two.drop_last();
            assert(two.last() == bytes[1]);
            assert(three.last() == bytes[0]);
            assert(three.drop_last().len() == 0);
        } else {
            assert(two.len() == 0);
        }
    }
}

/// The first byte of a number counts as often as the bytes behind it can tell apart.
pub proof fn law_first_bytes_count_most(first: u8, rest: Seq<u8>)
    ensures
        be(seq![first] + rest) == first * radix(rest.len()) + be(rest),
    decreases rest.len(),
{
    let all = seq![first] + rest;
    reveal_with_fuel(be, 2);
    if rest.len() == 0 {
        assert(all.drop_last().len() == 0);
        assert(all.last() == first);
        assert(radix(0) == 1);
    } else {
        assert(all.last() == rest.last());
        law_first_bytes_count_most(first, rest.drop_last());
        assert(all.drop_last() =~= seq![first] + rest.drop_last());
        let r = radix((rest.len() - 1) as nat);
        let b = be(rest.drop_last());
        assert((first * r + b) * 256 == first * (256 * r) + b * 256) by (nonlinear_arith);
    }
}

/// The destination of a datagram is what the first of its control messages that tells one says;
/// where none does, it is not known.
pub proof fn law_the_first_message_that_tells_decides(list: Seq<ControlMessage>)
    ensures
        destination_among(list) is None <==> forall|i: int|
            0 <= i < list.len() ==> !((#[trigger] list[i]).level == 0 && list[i].kind == 20) && !(list[i].level == 41
                && list[i].kind == 74),
    decreases list.len(),
{
    if list.len() > 0 && !tells_v4(list[0]) && !tells_v6(list[0]) {
        let rest = list.subrange(1, list.len() as int);
        law_the_first_message_that_tells_decides(rest);
        assert forall|i: int| 0 < i < list.len() implies #[trigger] list[i] == rest[i - 1] by {}
        assert forall|i: int| 0 <= i < rest.len() implies #[trigger] rest[i] == list[i + 1] by {}
    }
}

/// Messages before the first that tells a destination do not matter, and that one is read in network
/// order.
pub proof fn law_destinations_are_read_from_their_message(list: Seq<ControlMessage>, at: int)
    requires
        0 <= at < list.len(),
        complete_message(list[at]),
        tells_v4(list[at]) || tells_v6(list[at]),
        forall|i: int| 0 <= i < at ==> !tells_v4(#[trigger] list[i]) && !tells_v6(list[i]),
    ensures
        destination_among(list) matches Some(a) && ({
            let m = list[at].address;
            &&& a.port == m.port@[0] * 256 + m.port@[1]
            &&& list[at].level == 0 ==> (a.ip matches IpAddress::V4(n) && n == ((m.octets@[0] * 256 + m.octets@[1])
                * 256 + m.octets@[2]) * 256 + m.octets@[3])
            &&& list[at].level == 41 ==> (a.ip matches IpAddress::V6(n) && n == be(m.octets@)) && a.flow_info
                == m.flow_info && a.scope_id == m.scope_id
        }),
    decreases at,
{
    if at == 0 {
        let m = list[0].address;
        lemma_radixes();
        lemma_be_bound(m.port@);
        lemma_be_bound(m.octets@);
        law_bytes_are_in_network_order(m.port@);
        law_bytes_are_in_network_order(m.octets@);
    } else {
        let rest = list.subrange(1, list.len() as int);
        assert forall|i: int| 0 <= i < at - 1 implies !tells_v4(#[trigger] rest[i]) && !tells_v6(rest[i]) by {
            assert(rest[i] == list[i + 1]);
        }
        assert(rest[at - 1] == list[at]);
        assert(!tells_v4(list[0]) && !tells_v6(list[0]));
        law_destinations_are_read_from_their_message(rest, at - 1);
    }
}

} // verus!
