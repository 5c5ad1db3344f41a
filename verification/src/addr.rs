//! Network addresses.
use vstd::prelude::*;

use crate::text;

verus! {

/// An IP address as the number its bytes spell, first byte highest.
#[derive(Clone, Copy, Debug, PartialEq, Eq, Structural)]
pub enum IpAddress {
    V4(u32),
    V6(u128),
}

/// An IP address with a port. `flow_info` and `scope_id` are zero but for an IPv6 address.
#[derive(Clone, Copy, Debug, PartialEq, Eq, Structural)]
pub struct SocketAddress {
    pub ip: IpAddress,
    pub port: u16,
    pub flow_info: u32,
    pub scope_id: u32,
}

impl SocketAddress {
    /// An address with a port.
    pub fn new(ip: IpAddress, port: u16) -> (r: Self)
        ensures
            r == (SocketAddress { ip, port, flow_info: 0, scope_id: 0 }),
    {
        SocketAddress { ip, port, flow_info: 0, scope_id: 0 }
    }
}

/// Two to the power of `n`.
pub open spec fn two_to(n: nat) -> nat
    decreases n,
{
    if n == 0 {
        1
    } else {
        2 * two_to((n - 1) as nat)
    }
}

/// Whether a prefix length fits the family of an address.
pub open spec fn prefix_fits(ip: IpAddress, prefix: u8) -> bool {
    match ip {
        IpAddress::V4(_) => prefix <= 32,
        IpAddress::V6(_) => prefix <= 128,
    }
}

/// Whether two addresses are of one family and agree on their first `prefix` bits.
pub open spec fn same_network(net: IpAddress, prefix: u8, ip: IpAddress) -> bool {
    match (net, ip) {
        (IpAddress::V4(a), IpAddress::V4(b)) => a as nat / two_to((32 - prefix) as nat) == b as nat / two_to(
            (32 - prefix) as nat,
        ),
        (IpAddress::V6(a), IpAddress::V6(b)) => a as nat / two_to((128 - prefix) as nat) == b as nat / two_to(
            (128 - prefix) as nat,
        ),
        _ => false,
    }
}

/// `IpNetwork::contains` compares the first bits of two addresses of one family.
#[verifier::external_body]
pub(crate) fn network_contains(net: IpAddress, prefix: u8, ip: IpAddress) -> (r: bool)
    requires
        prefix_fits(net, prefix),
    ensures
        r == same_network(net, prefix, ip),
{
    let outside = |a: IpAddress, p: u8| match a {
        IpAddress::V4(n) => ipnetwork::IpNetwork::new(n.to_be_bytes().into(), p).unwrap(),
        IpAddress::V6(n) => ipnetwork::IpNetwork::new(n.to_be_bytes().into(), p).unwrap(),
    };
    outside(net, prefix).contains(outside(ip, 0).ip())
}

/// The address and the prefix length that `IpNetwork::from_str` reads from a text, or what is wrong
/// with it.
pub uninterp spec fn network_of(s: Seq<char>) -> Result<(IpAddress, u8), Seq<char>>;

/// `IpNetwork::from_str` reads an address, or an address with a prefix length behind a slash.
/// Without a slash the prefix length is that of a single address. An error is told by its text.
#[verifier::external_body]
pub(crate) fn parse_network(s: &str) -> (r: Result<(IpAddress, u8), String>)
    ensures
        match r {
            Ok(n) => network_of(s@) == Ok::<(IpAddress, u8), Seq<char>>(n) && prefix_fits(n.0, n.1),
            Err(e) => network_of(s@) == Err::<(IpAddress, u8), Seq<char>>(e@),
        },
{
    match s.parse::<ipnetwork::IpNetwork>() {
        Ok(ipnetwork::IpNetwork::V4(n)) => Ok((IpAddress::V4(n.ip().into()), n.prefix())),
        Ok(ipnetwork::IpNetwork::V6(n)) => Ok((IpAddress::V6(n.ip().into()), n.prefix())),
        Err(e) => Err(e.to_string()),
    }
}

/// The address a text spells, which has no slash in it.
pub open spec fn address_of(s: Seq<char>) -> Option<IpAddress> {
    if text::find_from(s, '/', 0) < s.len() {
        None
    } else {
        match network_of(s) {
            Ok(n) => Some(n.0),
            Err(_) => None,
        }
    }
}

/// The address a text spells.
pub fn parse_address(s: &str) -> (r: Option<IpAddress>)
    ensures
        r == address_of(s@),
{
    let chars = text::chars_of(s);
    if text::find_char(chars.as_slice(), '/', 0) < chars.len() {
        return None;
    }
    match parse_network(s) {
        Ok(n) => Some(n.0),
        Err(_) => None,
    }
}

/// How an IPv6 address is written.
pub uninterp spec fn v6_text(n: u128) -> Seq<char>;

/// An address given to `IpNetwork::new` with prefix length 0 comes back from `ip` as it was; its
/// `to_string` writes it out.
#[verifier::external_body]
pub(crate) fn write_v6(n: u128) -> (r: String)
    ensures
        r@ == v6_text(n),
{
    ipnetwork::IpNetwork::new(n.to_be_bytes().into(), 0).unwrap().ip().to_string()
}

/// An IPv4 address as four decimal numbers with dots between them.
pub open spec fn v4_text(n: u32) -> Seq<char> {
    text::decimal(n as nat / 0x100_0000) + "."@ + text::decimal(n as nat / 0x1_0000 % 0x100) + "."@ + text::decimal(
        n as nat / 0x100 % 0x100,
    ) + "."@ + text::decimal(n as nat % 0x100)
}

/// How an address is written.
pub open spec fn ip_text(ip: IpAddress) -> Seq<char> {
    match ip {
        IpAddress::V4(n) => v4_text(n),
        IpAddress::V6(n) => v6_text(n),
    }
}

/// Write an address out.
pub fn write_ip(ip: IpAddress) -> (r: String)
    ensures
        r@ == ip_text(ip),
        ip matches IpAddress::V4(n) ==> r@ == text::decimal(n as nat / 16777216) + "."@ + text::decimal(
            n as nat / 65536 % 256,
        ) + "."@ + text::decimal(n as nat / 256 % 256) + "."@ + text::decimal(n as nat % 256),
        ip matches IpAddress::V6(n) ==> r@ == v6_text(n),
{
    match ip {
        IpAddress::V4(n) => {
            let mut out = text::decimal_text((n / 0x100_0000) as u64);
            out.append(".");
            out.append(text::decimal_text((n / 0x1_0000 % 0x100) as u64).as_str());
            out.append(".");
            out.append(text::decimal_text((n / 0x100 % 0x100) as u64).as_str());
            out.append(".");
            out.append(text::decimal_text((n % 0x100) as u64).as_str());
            out
        },
        IpAddress::V6(n) => write_v6(n),
    }
}

/// Whether an address means this host: 127.0.0.0/8 or ::1.
pub open spec fn loopback(ip: IpAddress) -> bool {
    match ip {
        IpAddress::V4(n) => n / 0x100_0000 == 127,
        IpAddress::V6(n) => n == 1,
    }
}

/// Whether an address is all zeros.
pub open spec fn unspecified(ip: IpAddress) -> bool {
    match ip {
        IpAddress::V4(n) => n == 0,
        IpAddress::V6(n) => n == 0,
    }
}

/// Whether an address means this host.
pub fn is_loopback(ip: IpAddress) -> (r: bool)
    ensures
        r == loopback(ip),
        ip matches IpAddress::V4(n) ==> r == (0x7f00_0000 <= n <= 0x7fff_ffff),
        ip matches IpAddress::V6(n) ==> r == (n == 1),
{
    match ip {
        IpAddress::V4(n) => n / 0x100_0000 == 127,
        IpAddress::V6(n) => n == 1,
    }
}

/// Whether an address is all zeros.
pub fn is_unspecified(ip: IpAddress) -> (r: bool)
    ensures
        r == unspecified(ip),
        r <==> ip == IpAddress::V4(0) || ip == IpAddress::V6(0),
{
    match ip {
        IpAddress::V4(n) => n == 0,
        IpAddress::V6(n) => n == 0,
    }
}

/// The four numbers an IPv4 address is written with are its bytes, highest first.
pub proof fn law_v4_texts_spell_the_bytes(a: u8, b: u8, c: u8, d: u8)
    ensures
        ip_text(IpAddress::V4((a * 0x100_0000 + b * 0x1_0000 + c * 0x100 + d) as u32)) == text::decimal(a as nat)
            + "."@ + text::decimal(b as nat) + "."@ + text::decimal(c as nat) + "."@ + text::decimal(d as nat),
{
    let n: int = a * 0x100_0000 + b * 0x1_0000 + c * 0x100 + d;
    vstd::arithmetic::div_mod::lemma_fundamental_div_mod_converse(
        n,
        0x100_0000,
        a as int,
        b * 0x1_0000 + c * 0x100 + d,
    );
    vstd::arithmetic::div_mod::lemma_fundamental_div_mod_converse(n, 0x1_0000, a * 0x100 + b, c * 0x100 + d);
    vstd::arithmetic::div_mod::lemma_fundamental_div_mod_converse(a * 0x100 + b, 0x100, a as int, b as int);
    vstd::arithmetic::div_mod::lemma_fundamental_div_mod_converse(
        n,
        0x100,
        a * 0x1_0000 + b * 0x100 + c,
        d as int,
    );
    vstd::arithmetic::div_mod::lemma_fundamental_div_mod_converse(
        a * 0x1_0000 + b * 0x100 + c,
        0x100,
        a * 0x100 + b,
        c as int,
    );
}

/// This host's own addresses are 127.0.0.0 to 127.255.255.255 and ::1.
pub proof fn law_loopback_addresses_are_these(ip: IpAddress)
    ensures
        loopback(ip) <==> (ip matches IpAddress::V4(n) && 0x7f00_0000 <= n <= 0x7fff_ffff) || ip == IpAddress::V6(1),
{
}

/// Every address is in the network of prefix length 0 of its family, and only an address itself is
/// in its network of full length.
pub proof fn law_prefixes_bound_networks(net: IpAddress, ip: IpAddress)
    ensures
        net is V4 && ip is V4 ==> same_network(net, 0, ip),
        net is V6 && ip is V6 ==> same_network(net, 0, ip),
        net is V4 ==> (same_network(net, 32, ip) <==> net == ip),
        net is V6 ==> (same_network(net, 128, ip) <==> net == ip),
        net is V4 != ip is V4 ==> !same_network(net, 0, ip),
{
    lemma_powers();
    assert(two_to(0) == 1);
    match (net, ip) {
        (IpAddress::V4(a), IpAddress::V4(b)) => {
            vstd::arithmetic::div_mod::lemma_div_basics(a as int);
            vstd::arithmetic::div_mod::lemma_div_basics(b as int);
            vstd::arithmetic::div_mod::lemma_basic_div(a as int, 0x1_0000_0000);
            vstd::arithmetic::div_mod::lemma_basic_div(b as int, 0x1_0000_0000);
        },
        (IpAddress::V6(a), IpAddress::V6(b)) => {
            vstd::arithmetic::div_mod::lemma_div_basics(a as int);
            vstd::arithmetic::div_mod::lemma_div_basics(b as int);
            vstd::arithmetic::div_mod::lemma_basic_div(a as int, u128::MAX + 1);
            vstd::arithmetic::div_mod::lemma_basic_div(b as int, u128::MAX + 1);
        },
        _ => {},
    }
}

proof fn lemma_two_to_adds(a: nat, b: nat)
    ensures
        two_to(a + b) == two_to(a) * two_to(b),
    decreases b,
{
    if b > 0 {
        lemma_two_to_adds(a, (b - 1) as nat);
        let x = two_to(a);
        let y = two_to((b - 1) as nat);
        assert(2 * (x * y) == x * (2 * y)) by (nonlinear_arith);
    } else {
        assert(two_to(0) == 1);
    }
}

proof fn lemma_powers()
    ensures
        two_to(32) == 0x1_0000_0000,
        two_to(128) == u128::MAX + 1,
{
    assert(two_to(16) == 0x1_0000) by {
        reveal_with_fuel(two_to, 17);
    }
    lemma_two_to_adds(16, 16);
    lemma_two_to_adds(32, 32);
    lemma_two_to_adds(64, 64);
    let x = two_to(32);
    let y = two_to(64);
    assert(y == u64::MAX + 1) by (nonlinear_arith)
        requires
            x == 0x1_0000_0000,
            y == x * x,
    ;
    assert(y * y == u128::MAX + 1) by (nonlinear_arith)
        requires
            y == u64::MAX + 1,
    ;
}

} // verus!
