//! Connections that were redirected here.
use vstd::prelude::*;

use crate::addr::{IpAddress, SocketAddress};

verus! {

/// The ways in which asking for an original destination fails, as far as they differ here.
#[derive(Clone, Copy, Debug, PartialEq, Eq, Structural)]
pub enum DstErrorKind {
    Unsupported,
    NotFound,
    AddrNotAvailable,
    InvalidInput,
    Other,
}

/// Whether a connection goes on without an original destination after such a failure.
pub open spec fn recoverable(kind: DstErrorKind) -> bool {
    kind != DstErrorKind::Other
}

/// Whether a connection goes on without an original destination after such a failure.
pub fn is_recoverable_original_dst_error(kind: DstErrorKind) -> (r: bool)
    ensures
        r == recoverable(kind),
        r <==> kind is Unsupported || kind is NotFound || kind is AddrNotAvailable || kind is InvalidInput,
{
    match kind {
        DstErrorKind::Unsupported
        | DstErrorKind::NotFound
        | DstErrorKind::AddrNotAvailable
        | DstErrorKind::InvalidInput => true,
        DstErrorKind::Other => false,
    }
}

/// What is known of the original destination of an accepted connection, from what asking for it gave.
/// A failure that is not recoverable is the caller's.
pub fn target_of(asked: Result<Option<SocketAddress>, DstErrorKind>) -> (r: Result<
    Option<SocketAddress>,
    DstErrorKind,
>)
    ensures
        r == match asked {
            Ok(a) => Ok(a),
            Err(kind) => if recoverable(kind) {
                Ok(None)
            } else {
                Err(kind)
            },
        },
        asked is Ok ==> r == asked,
        asked matches Err(kind) ==> (kind is Other <==> r is Err) && (kind !is Other ==> r == Ok::<
            Option<SocketAddress>,
            DstErrorKind,
        >(None)),
{
    match asked {
        Ok(a) => Ok(a),
        Err(kind) => if is_recoverable_original_dst_error(kind) {
            Ok(None)
        } else {
            Err(kind)
        },
    }
}

/// An address as a number of its own, by which addresses are ordered within their family.
pub open spec fn ip_number(ip: IpAddress) -> nat {
    match ip {
        IpAddress::V4(n) => n as nat,
        IpAddress::V6(n) => n as nat,
    }
}

/// The order of addresses: IPv4 before IPv6, then by address, port, flow information and scope.
pub open spec fn precedes(a: SocketAddress, b: SocketAddress) -> bool {
    if a.ip is V4 != b.ip is V4 {
        a.ip is V4
    } else if ip_number(a.ip) != ip_number(b.ip) {
        ip_number(a.ip) < ip_number(b.ip)
    } else if a.port != b.port {
        a.port < b.port
    } else if a.flow_info != b.flow_info {
        a.flow_info < b.flow_info
    } else {
        a.scope_id < b.scope_id
    }
}

/// Whether addresses stand in their order, none of them twice.
pub open spec fn in_order(list: Seq<SocketAddress>) -> bool {
    forall|i: int, j: int| 0 <= i < j < list.len() ==> precedes(#[trigger] list[i], #[trigger] list[j])
}

fn comes_before(a: SocketAddress, b: SocketAddress) -> (r: bool)
    ensures
        r == precedes(a, b),
{
    let (x, y) = match (a.ip, b.ip) {
        (IpAddress::V4(_), IpAddress::V6(_)) => {
            return true;
        },
        (IpAddress::V6(_), IpAddress::V4(_)) => {
            return false;
        },
        (IpAddress::V4(m), IpAddress::V4(n)) => (m as u128, n as u128),
        (IpAddress::V6(m), IpAddress::V6(n)) => (m, n),
    };
    if x != y {
        x < y
    } else if a.port != b.port {
        a.port < b.port
    } else if a.flow_info != b.flow_info {
        a.flow_info < b.flow_info
    } else {
        a.scope_id < b.scope_id
    }
}

fn insert_in_order(list: &mut Vec<SocketAddress>, a: SocketAddress)
    requires
        in_order(old(list)@),
    ensures
        in_order(final(list)@),
        final(list)@.to_set() == old(list)@.to_set().insert(a),
{
    let ghost before = list@;
    let mut i: usize = 0;
    while i < list.len() && comes_before(list[i], a)
        invariant
            i <= list@.len(),
            list@ == before,
            in_order(before),
            forall|j: int| 0 <= j < i ==> precedes(#[trigger] list@[j], a),
        decreases list.len() - i,
    {
        i = i + 1;
    }
    if i < list.len() && list[i] == a {
        assert(before[i as int] == a);
        assert(list@.to_set() =~= before.to_set().insert(a));
        return;
    }
    list.insert(i, a);
    proof {
        let after = list@;
        assert(after =~= before.insert(i as int, a));
        assert forall|x: int, y: int| 0 <= x < y < after.len() implies precedes(
            #[trigger] after[x],
            #[trigger] after[y],
        ) by {
            if x == i {
                assert(after[y] == before[y - 1]);
                assert(precedes(a, before[i as int]));
            }
        }
        assert forall|e: SocketAddress| after.to_set().contains(e) == before.to_set().insert(a).contains(e) by {
            if after.contains(e) {
                let k = choose|k: int| 0 <= k < after.len() && after[k] == e;
                if k < i {
                    assert(before[k] == e);
                } else if k > i {
                    assert(before[k - 1] == e);
                }
            }
            if before.contains(e) {
                let k = choose|k: int| 0 <= k < before.len() && before[k] == e;
                if k < i {
                    assert(after[k] == e);
                } else {
                    assert(after[k + 1] == e);
                }
            }
            if e == a {
                assert(after[i as int] == e);
            }
        }
        assert(after.to_set() =~= before.to_set().insert(a));
    }
}

/// The addresses the proxy listens on, for loop detection: those it was told of and the one its
/// listener has, in their order and each once.
pub fn listen_addrs(told: &Vec<SocketAddress>, own: Option<SocketAddress>) -> (r: Vec<SocketAddress>)
    ensures
        in_order(r@),
        r@.to_set() == match own {
            Some(a) => told@.to_set().insert(a),
            None => told@.to_set(),
        },
{
    let mut out: Vec<SocketAddress> = Vec::new();
    let mut i: usize = 0;
    assert(out@.to_set() =~= told@.subrange(0, 0).to_set());
    while i < told.len()
        invariant
            i <= told@.len(),
            in_order(out@),
            out@.to_set() == told@.subrange(0, i as int).to_set(),
        decreases told.len() - i,
    {
        insert_in_order(&mut out, told[i]);
        proof {
            let less = told@.subrange(0, i as int);
            let more = told@.subrange(0, i + 1);
            assert(more =~= less.push(told@[i as int]));
            assert forall|e: SocketAddress| less.to_set().insert(told@[i as int]).contains(e)
                == more.to_set().contains(e) by {
                if less.contains(e) {
                    let k = choose|k: int| 0 <= k < less.len() && less[k] == e;
                    assert(more[k] == e);
                }
                if more.contains(e) {
                    let k = choose|k: int| 0 <= k < more.len() && more[k] == e;
                    if k < i {
                        assert(less[k] == e);
                    }
                }
                assert(more[i as int] == told@[i as int]);
            }
            assert(less.to_set().insert(told@[i as int]) =~= more.to_set());
        }
        i = i + 1;
    }
    assert(told@.subrange(0, i as int) =~= told@);
    match own {
        Some(a) => {
            insert_in_order(&mut out, a);
        },
        None => {},
    }
    out
}

/// Of two different addresses exactly one comes first, and what comes first of three is found by
/// pairs.
pub proof fn law_addresses_have_one_order(a: SocketAddress, b: SocketAddress, c: SocketAddress)
    ensures
        !precedes(a, a),
        a != b ==> precedes(a, b) != precedes(b, a),
        precedes(a, b) && precedes(b, c) ==> precedes(a, c),
{
}

/// IPv4 comes before IPv6; within a family the smaller address comes first, and of one address the
/// smaller port.
pub proof fn law_smaller_addresses_come_first(a: SocketAddress, b: SocketAddress)
    ensures
        a.ip is V4 && b.ip is V6 ==> precedes(a, b),
        a.ip is V4 && b.ip is V4 && ip_number(a.ip) < ip_number(b.ip) ==> precedes(a, b),
        a.ip is V6 && b.ip is V6 && ip_number(a.ip) < ip_number(b.ip) ==> precedes(a, b),
        a.ip == b.ip && a.port < b.port ==> precedes(a, b),
{
}

} // verus!
