//! Datagram sessions: which there are, when they are over, and what is recorded of them.
use vstd::prelude::*;

use crate::addr;
use crate::addr::{IpAddress, SocketAddress};
use crate::flow::{
    CloseReason, Flow, FlowView, Layer, LayerView, NetworkInfo, NetworkView, TextMap, Timestamp,
    TransportProtocol, UdpLayer,
};
use crate::intercept;
use crate::intercept::InterceptionResult;
use crate::table;
use crate::text;

verus! {

/// What tells one session from another: who sends to whom.
#[derive(Clone, Copy, Debug, PartialEq, Eq, Structural)]
pub struct UdpSessionKey {
    pub src_ip: IpAddress,
    pub src_port: u16,
    pub dst_ip: IpAddress,
    pub dst_port: u16,
}

/// The key of the session between two addresses.
pub open spec fn key_of(src: SocketAddress, dst: SocketAddress) -> UdpSessionKey {
    UdpSessionKey { src_ip: src.ip, src_port: src.port, dst_ip: dst.ip, dst_port: dst.port }
}

impl UdpSessionKey {
    /// The key of the session between two addresses.
    pub fn new(src: SocketAddress, dst: SocketAddress) -> (r: Self)
        ensures
            r == key_of(src, dst),
            r.src_ip == src.ip,
            r.src_port == src.port,
            r.dst_ip == dst.ip,
            r.dst_port == dst.port,
    {
        UdpSessionKey { src_ip: src.ip, src_port: src.port, dst_ip: dst.ip, dst_port: dst.port }
    }
}

/// One session. `created_at` and `last_activity` are nanoseconds on a clock that does not run
/// backwards; `started_at` is a moment by the wall clock.
#[derive(Clone, Copy, Debug, PartialEq, Eq, Structural)]
pub struct UdpSession {
    pub flow_id: u128,
    pub key: UdpSessionKey,
    pub src: SocketAddress,
    pub dst: SocketAddress,
    pub started_at: Timestamp,
    pub created_at: u128,
    pub last_activity: u128,
    pub packet_count: usize,
    pub bytes_transferred: usize,
}

/// A session that has just seen its first datagram.
pub open spec fn fresh(src: SocketAddress, dst: SocketAddress, flow_id: u128, started_at: Timestamp, now: u128) -> UdpSession {
    UdpSession {
        flow_id,
        key: key_of(src, dst),
        src,
        dst,
        started_at,
        created_at: now,
        last_activity: now,
        packet_count: 1,
        bytes_transferred: 0,
    }
}

/// A session that has seen another datagram from its client.
pub open spec fn touched(s: UdpSession, now: u128) -> UdpSession {
    UdpSession { last_activity: now, packet_count: s.packet_count.wrapping_add(1), ..s }
}

/// Whether a session has been quiet for longer than `timeout`.
pub open spec fn idle(s: UdpSession, timeout: u128, now: u128) -> bool {
    now > s.last_activity && now - s.last_activity > timeout
}

/// The sessions there are.
pub struct UdpSessionManager {
    sessions: Vec<UdpSession>,
    idle_timeout: u128,
}

spec fn keyed(list: Seq<UdpSession>) -> Seq<(UdpSessionKey, UdpSession)> {
    list.map_values(|s: UdpSession| (s.key, s))
}

/// What a datagram leads to.
#[derive(Debug)]
pub enum UdpStep {
    /// It has nowhere to go.
    Ignore,
    /// Its session is new: interceptors are asked about this record first.
    Ask(Flow),
    /// It goes on.
    Forward,
}

/// The record a session opens with: no end, and counters that stand at its first datagram.
pub open spec fn opening(s: UdpSession, len: usize, now: Timestamp) -> FlowView {
    FlowView {
        id: s.flow_id,
        start_time: now,
        end_time: None,
        close_reason: None,
        network: endpoints(s),
        layer: LayerView::Udp(UdpLayer { payload_size: len, packet_count: 1 }),
        tags: Seq::empty(),
        meta: Map::empty(),
        resilience_trace: None,
        rule_variables: Map::empty(),
        matched_rules: Seq::empty(),
    }
}

/// The record a session closes with: its end, and its totals.
pub open spec fn closing(s: UdpSession, now: Timestamp) -> FlowView {
    FlowView {
        id: s.flow_id,
        start_time: s.started_at,
        end_time: Some(now),
        close_reason: Some(CloseReason::Completed),
        network: endpoints(s),
        layer: LayerView::Udp(UdpLayer { payload_size: s.bytes_transferred, packet_count: s.packet_count }),
        tags: seq!["closed"@],
        meta: Map::empty(),
        resilience_trace: None,
        rule_variables: Map::empty(),
        matched_rules: Seq::empty(),
    }
}

/// The two ends of a session.
pub open spec fn endpoints(s: UdpSession) -> NetworkView {
    NetworkView {
        client_ip: addr::ip_text(s.src.ip),
        client_port: s.src.port,
        server_ip: addr::ip_text(s.dst.ip),
        server_port: s.dst.port,
        server_host: None,
        protocol: TransportProtocol::UDP,
        tls: false,
        tls_version: None,
        sni: None,
    }
}

fn network_of(s: &UdpSession) -> (r: NetworkInfo)
    ensures
        r@ == endpoints(*s),
        r.client_ip@ == addr::ip_text(s.src.ip),
        r.client_port == s.src.port,
        r.server_ip@ == addr::ip_text(s.dst.ip),
        r.server_port == s.dst.port,
        r.protocol is UDP,
{
    NetworkInfo {
        client_ip: addr::write_ip(s.src.ip),
        client_port: s.src.port,
        server_ip: addr::write_ip(s.dst.ip),
        server_port: s.dst.port,
        server_host: None,
        protocol: TransportProtocol::UDP,
        tls: false,
        tls_version: None,
        sni: None,
    }
}

/// The record a session opens with.
pub fn opening_flow(s: &UdpSession, len: usize, now: Timestamp) -> (r: Flow)
    ensures
        r@ == opening(*s, len, now),
        r.id == s.flow_id,
        r.start_time == now,
        r.end_time is None,
        r.network.client_ip@ == addr::ip_text(s.src.ip),
        r.network.client_port == s.src.port,
        r.network.server_ip@ == addr::ip_text(s.dst.ip),
        r.network.server_port == s.dst.port,
        r.network.protocol is UDP,
        r.layer matches Layer::Udp(u) && u.payload_size == len && u.packet_count == 1,
        r.tags@.len() == 0,
{
    let r = Flow {
        id: s.flow_id,
        start_time: now,
        end_time: None,
        close_reason: None,
        network: network_of(s),
        layer: Layer::Udp(UdpLayer { payload_size: len, packet_count: 1 }),
        tags: Vec::new(),
        meta: TextMap::new(),
        resilience_trace: None,
        rule_variables: TextMap::new(),
        matched_rules: Vec::new(),
    };
    assert(r@ =~= opening(*s, len, now));
    r
}

/// Where a datagram goes: to the address a lookup gave, or else to the fixed one.
pub fn resolve_udp_dst(looked_up: Option<SocketAddress>, fixed: Option<SocketAddress>) -> (r: Option<SocketAddress>)
    ensures
        r == (if looked_up is Some {
            looked_up
        } else {
            fixed
        }),
{
    match looked_up {
        Some(a) => Some(a),
        None => fixed,
    }
}

/// Whether a datagram that came from an address is a reply of the session to `dst`.
pub fn is_reply(from: SocketAddress, dst: SocketAddress) -> (r: bool)
    ensures
        r == (from == dst),
{
    from == dst
}

impl UdpSessionManager {
    /// Each session is known once, under its own key.
    #[verifier::type_invariant]
    spec fn sessions_are_distinct(&self) -> bool {
        &&& table::distinct(keyed(self.sessions@))
        &&& forall|i: int|
            0 <= i < self.sessions@.len() ==> (#[trigger] self.sessions@[i]).key == key_of(
                self.sessions@[i].src,
                self.sessions@[i].dst,
            )
    }

    /// The sessions there are.
    pub closed spec fn sessions(&self) -> Map<UdpSessionKey, UdpSession> {
        table::table_of(keyed(self.sessions@))
    }

    /// How long a session may be quiet.
    pub closed spec fn timeout(&self) -> u128 {
        self.idle_timeout
    }

    /// No sessions yet.
    pub fn new(idle_timeout: u128) -> (r: Self)
        ensures
            r.sessions() == Map::<UdpSessionKey, UdpSession>::empty(),
            r.timeout() == idle_timeout,
    {
        let r = UdpSessionManager { sessions: Vec::new(), idle_timeout };
        assert(keyed(r.sessions@).len() == 0);
        r
    }

    fn find(&self, key: UdpSessionKey) -> (r: Option<usize>)
        ensures
            match r {
                Some(i) => i < self.sessions@.len() && self.sessions@[i as int].key == key
                    && self.sessions().dom().contains(key) && self.sessions()[key] == self.sessions@[i as int],
                None => !self.sessions().dom().contains(key) && forall|j: int|
                    0 <= j < self.sessions@.len() ==> (#[trigger] self.sessions@[j]).key != key,
            },
    {
        proof {
            use_type_invariant(self);
        }
        let ghost all = keyed(self.sessions@);
        let mut i: usize = 0;
        while i < self.sessions.len()
            invariant
                i <= self.sessions@.len(),
                all == keyed(self.sessions@),
                table::distinct(all),
                forall|j: int| 0 <= j < i ==> (#[trigger] all[j]).0 != key,
                forall|j: int| 0 <= j < i ==> (#[trigger] self.sessions@[j]).key != key,
            decreases self.sessions.len() - i,
        {
            assert(all[i as int].0 == self.sessions@[i as int].key);
            if self.sessions[i].key == key {
                proof {
                    table::lemma_lookup(all, key, i as int);
                }
                return Some(i);
            }
            i = i + 1;
        }
        proof {
            table::lemma_lookup(all, key, -1);
        }
        None
    }

    fn replace(&mut self, i: usize, session: UdpSession)
        requires
            i < old(self).listed().len(),
            session.key == old(self).listed()[i as int].key,
            session.key == key_of(session.src, session.dst),
        ensures
            final(self).sessions() == old(self).sessions().insert(session.key, session),
            final(self).timeout() == old(self).timeout(),
    {
        proof {
            use_type_invariant(&*self);
        }
        let mut list: Vec<UdpSession> = Vec::new();
        let ghost before = keyed(self.sessions@);
        let ghost kept = self.sessions@;
        assert(keyed(list@).len() == 0);
        std::mem::swap(&mut list, &mut self.sessions);
        proof {
            table::lemma_update(before, i as int, session);
        }
        list.set(i, session);
        proof {
            let after = before.update(i as int, (before[i as int].0, session));
            assert(keyed(list@) =~= after);
            assert forall|a: int, b: int| 0 <= a < b < after.len() implies (#[trigger] after[a]).0 != (
            #[trigger] after[b]).0 by {
                assert(before[a].0 != before[b].0);
            }
            assert forall|a: int| 0 <= a < list@.len() implies (#[trigger] list@[a]).key == key_of(
                list@[a].src,
                list@[a].dst,
            ) by {
                if a != i {
                    assert(list@[a] == kept[a]);
                }
            }
        }
        self.sessions = list;
    }

    spec fn listed(&self) -> Seq<UdpSession> {
        self.sessions@
    }

    /// Whether there is a session between two addresses.
    pub fn knows(&self, src: SocketAddress, dst: SocketAddress) -> (r: bool)
        ensures
            r == self.sessions().dom().contains(key_of(src, dst)),
    {
        self.find(UdpSessionKey::new(src, dst)).is_some()
    }

    /// The session between two addresses: the one there is, which has then seen another datagram, or
    /// a new one. The flag tells which.
    pub fn get_or_create_session(
        &mut self,
        src: SocketAddress,
        dst: SocketAddress,
        flow_id: u128,
        started_at: Timestamp,
        now: u128,
    ) -> (r: (UdpSession, bool))
        ensures
            r.1 == !old(self).sessions().dom().contains(key_of(src, dst)),
            r.0 == (if r.1 {
                fresh(src, dst, flow_id, started_at, now)
            } else {
                touched(old(self).sessions()[key_of(src, dst)], now)
            }),
            final(self).sessions() == old(self).sessions().insert(key_of(src, dst), r.0),
            final(self).timeout() == old(self).timeout(),
            r.1 ==> r.0.flow_id == flow_id && r.0.src == src && r.0.dst == dst && r.0.started_at == started_at
                && r.0.created_at == now && r.0.packet_count == 1 && r.0.bytes_transferred == 0,
            !r.1 ==> ({
                let s = old(self).sessions()[key_of(src, dst)];
                r.0.flow_id == s.flow_id && r.0.src == s.src && r.0.dst == s.dst && r.0.started_at == s.started_at
                    && r.0.created_at == s.created_at && r.0.packet_count == s.packet_count.wrapping_add(1)
                    && r.0.bytes_transferred == s.bytes_transferred
            }),
            r.0.last_activity == now,
    {
        proof {
            use_type_invariant(&*self);
        }
        let key = UdpSessionKey::new(src, dst);
        match self.find(key) {
            Some(i) => {
                let s = self.sessions[i];
                let session = UdpSession { last_activity: now, packet_count: s.packet_count.wrapping_add(1), ..s };
                self.replace(i, session);
                (session, false)
            },
            None => {
                let session = UdpSession {
                    flow_id,
                    key,
                    src,
                    dst,
                    started_at,
                    created_at: now,
                    last_activity: now,
                    packet_count: 1,
                    bytes_transferred: 0,
                };
                let mut list: Vec<UdpSession> = Vec::new();
                let ghost before = keyed(self.sessions@);
                let ghost kept = self.sessions@;
                assert(keyed(list@).len() == 0);
                std::mem::swap(&mut list, &mut self.sessions);
                list.push(session);
                proof {
                    let after = before.push((key, session));
                    assert(keyed(list@) =~= after);
                    assert(after.drop_last() =~= before);
                    assert forall|a: int, b: int| 0 <= a < b < after.len() implies (#[trigger] after[a]).0 != (
                    #[trigger] after[b]).0 by {
                        assert(before[a].0 == kept[a].key);
                        if b < before.len() {
                            assert(before[a].0 != before[b].0);
                        }
                    }
                    assert forall|a: int| 0 <= a < list@.len() implies (#[trigger] list@[a]).key == key_of(
                        list@[a].src,
                        list@[a].dst,
                    ) by {
                        if a < kept.len() {
                            assert(list@[a] == kept[a]);
                        }
                    }
                }
                self.sessions = list;
                (session, true)
            },
        }
    }

    /// How long a session may be quiet before it is over.
    pub fn idle_timeout(&self) -> (r: u128)
        ensures
            r == self.timeout(),
    {
        self.idle_timeout
    }

    /// A datagram came in. Without a destination it has nowhere to go.
    pub fn on_datagram(
        &mut self,
        src: SocketAddress,
        dst: Option<SocketAddress>,
        len: usize,
        flow_id: u128,
        now: u128,
        wall: Timestamp,
    ) -> (r: UdpStep)
        ensures
            final(self).timeout() == old(self).timeout(),
            match dst {
                None => r is Ignore && final(self).sessions() == old(self).sessions(),
                Some(to) => if old(self).sessions().dom().contains(key_of(src, to)) {
                    &&& r is Forward
                    &&& final(self).sessions() == old(self).sessions().insert(
                        key_of(src, to),
                        touched(old(self).sessions()[key_of(src, to)], now),
                    )
                } else {
                    let session = fresh(src, to, flow_id, wall, now);
                    &&& r is Ask
                    &&& r->Ask_0@ == opening(session, len, wall)
                    &&& final(self).sessions() == old(self).sessions().insert(key_of(src, to), session)
                },
            },
            r matches UdpStep::Ask(flow) ==> (dst matches Some(to) && flow.id == flow_id && flow.start_time == wall
                && flow.network.client_ip@ == addr::ip_text(src.ip) && flow.network.client_port == src.port
                && flow.network.server_ip@ == addr::ip_text(to.ip) && flow.network.server_port == to.port && (
            flow.layer matches Layer::Udp(u) && u.payload_size == len && u.packet_count == 1)),
    {
        match dst {
            None => UdpStep::Ignore,
            Some(to) => {
                let (session, is_new) = self.get_or_create_session(src, to, flow_id, wall, now);
                if is_new {
                    UdpStep::Ask(opening_flow(&session, len, wall))
                } else {
                    UdpStep::Forward
                }
            },
        }
    }

    fn forget(&mut self, key: UdpSessionKey)
        ensures
            final(self).sessions() == old(self).sessions().remove(key),
            final(self).timeout() == old(self).timeout(),
    {
        proof {
            use_type_invariant(&*self);
        }
        match self.find(key) {
            Some(i) => {
                let mut list: Vec<UdpSession> = Vec::new();
                let ghost before = keyed(self.sessions@);
                let ghost kept = self.sessions@;
                assert(keyed(list@).len() == 0);
                std::mem::swap(&mut list, &mut self.sessions);
                proof {
                    table::lemma_remove(before, i as int);
                }
                list.remove(i);
                proof {
                    assert(keyed(list@) =~= before.remove(i as int));
                    assert forall|a: int| 0 <= a < list@.len() implies (#[trigger] list@[a]).key == key_of(
                        list@[a].src,
                        list@[a].dst,
                    ) by {
                        let x = if a < i { a } else { a + 1 };
                        assert(list@[a] == kept[x]);
                    }
                }
                self.sessions = list;
            },
            None => {
                assert(self.sessions().remove(key) =~= self.sessions());
            },
        }
    }

    /// Interceptors have been asked about a new session; `true` lets its datagrams go on. A session
    /// they drop is blocked entirely: it is not kept, so its next datagram is asked about again.
    pub fn on_session_verdict(
        &mut self,
        src: SocketAddress,
        dst: SocketAddress,
        verdict: &InterceptionResult,
    ) -> (r: bool)
        ensures
            r == !(*verdict is Drop),
            final(self).timeout() == old(self).timeout(),
            final(self).sessions() == (if r {
                old(self).sessions()
            } else {
                old(self).sessions().remove(key_of(src, dst))
            }),
    {
        if intercept::blocks_session(verdict) {
            self.forget(UdpSessionKey::new(src, dst));
            false
        } else {
            true
        }
    }

    /// Some bytes went on from the client.
    pub fn on_sent(&mut self, src: SocketAddress, dst: SocketAddress, len: usize)
        ensures
            final(self).timeout() == old(self).timeout(),
            final(self).sessions() == (if old(self).sessions().dom().contains(key_of(src, dst)) {
                let s = old(self).sessions()[key_of(src, dst)];
                old(self).sessions().insert(
                    key_of(src, dst),
                    UdpSession { bytes_transferred: s.bytes_transferred.wrapping_add(len), ..s },
                )
            } else {
                old(self).sessions()
            }),
    {
        proof {
            use_type_invariant(&*self);
        }
        match self.find(UdpSessionKey::new(src, dst)) {
            Some(i) => {
                let s = self.sessions[i];
                self.replace(i, UdpSession { bytes_transferred: s.bytes_transferred.wrapping_add(len), ..s });
            },
            None => {},
        }
    }

    /// Some bytes came back to the client.
    pub fn on_reply(&mut self, src: SocketAddress, dst: SocketAddress, len: usize, now: u128)
        ensures
            final(self).timeout() == old(self).timeout(),
            final(self).sessions() == (if old(self).sessions().dom().contains(key_of(src, dst)) {
                let s = old(self).sessions()[key_of(src, dst)];
                old(self).sessions().insert(
                    key_of(src, dst),
                    UdpSession {
                        bytes_transferred: s.bytes_transferred.wrapping_add(len),
                        last_activity: now,
                        ..s
                    },
                )
            } else {
                old(self).sessions()
            }),
    {
        proof {
            use_type_invariant(&*self);
        }
        match self.find(UdpSessionKey::new(src, dst)) {
            Some(i) => {
                let s = self.sessions[i];
                self.replace(
                    i,
                    UdpSession {
                        bytes_transferred: s.bytes_transferred.wrapping_add(len),
                        last_activity: now,
                        ..s
                    },
                );
            },
            None => {},
        }
    }

    /// Take out the sessions that have been quiet for too long. Each of them comes back once, and the
    /// others stay as they are.
    pub fn cleanup_idle_sessions(&mut self, now: u128) -> (r: Vec<UdpSession>)
        ensures
            final(self).timeout() == old(self).timeout(),
            forall|key: UdpSessionKey| #[trigger]
                final(self).sessions().dom().contains(key) <==> old(self).sessions().dom().contains(key) && !idle(
                    old(self).sessions()[key],
                    old(self).timeout(),
                    now,
                ),
            forall|key: UdpSessionKey| #[trigger]
                final(self).sessions().dom().contains(key) ==> final(self).sessions()[key] == old(self).sessions()[key],
            forall|i: int|
                0 <= i < r@.len() ==> old(self).sessions().dom().contains((#[trigger] r@[i]).key) && old(self).sessions()[r@[i].key] == r@[i] && idle(r@[i], old(self).timeout(), now),
            forall|key: UdpSessionKey| #[trigger]
                old(self).sessions().dom().contains(key) && idle(old(self).sessions()[key], old(self).timeout(), now)
                    ==> r@.contains(old(self).sessions()[key]),
            forall|i: int, j: int| 0 <= i < j < r@.len() ==> (#[trigger] r@[i]).key != (#[trigger] r@[j]).key,
    {
        proof {
            use_type_invariant(&*self);
        }
        let mut list: Vec<UdpSession> = Vec::new();
        let timeout: u128 = self.idle_timeout;
        let ghost all = self.sessions@;
        assert(keyed(list@).len() == 0);
        std::mem::swap(&mut list, &mut self.sessions);
        let mut kept: Vec<UdpSession> = Vec::new();
        let mut expired: Vec<UdpSession> = Vec::new();
        let ghost mut kept_at: Seq<int> = Seq::empty();
        let ghost mut expired_at: Seq<int> = Seq::empty();
        let mut i: usize = 0;
        while i < list.len()
            invariant
                i <= list@.len(),
                list@ == all,
                table::distinct(keyed(all)),
                forall|a: int| 0 <= a < all.len() ==> (#[trigger] all[a]).key == key_of(all[a].src, all[a].dst),
                kept_at.len() == kept@.len(),
                expired_at.len() == expired@.len(),
                forall|a: int| 0 <= a < kept_at.len() ==> 0 <= #[trigger] kept_at[a] < i,
                forall|a: int| 0 <= a < kept@.len() ==> (#[trigger] kept@[a]) == all[kept_at[a]],
                forall|a: int| 0 <= a < kept@.len() ==> !idle(#[trigger] kept@[a], timeout, now),
                forall|a: int| 0 <= a < expired_at.len() ==> 0 <= #[trigger] expired_at[a] < i,
                forall|a: int| 0 <= a < expired@.len() ==> (#[trigger] expired@[a]) == all[expired_at[a]],
                forall|a: int| 0 <= a < expired@.len() ==> idle(#[trigger] expired@[a], timeout, now),
                forall|b: int|
                    0 <= b < i ==> if idle(#[trigger] all[b], timeout, now) {
                        expired@.contains(all[b])
                    } else {
                        kept@.contains(all[b])
                    },
                forall|a: int, b: int| 0 <= a < b < kept@.len() ==> (#[trigger] kept@[a]).key != (#[trigger] kept@[b]).key,
                forall|a: int, b: int|
                    0 <= a < b < expired@.len() ==> (#[trigger] expired@[a]).key != (#[trigger] expired@[b]).key,
            decreases list.len() - i,
        {
            let s = list[i];
            let ghost kept_before = kept@;
            let ghost expired_before = expired@;
            proof {
                assert forall|b: int| 0 <= b < i implies (#[trigger] all[b]).key != s.key by {
                    assert(keyed(all)[b].0 != keyed(all)[i as int].0);
                }
            }
            if now > s.last_activity && now - s.last_activity > timeout {
                expired.push(s);
                proof {
                    expired_at = expired_at.push(i as int);
                    assert(expired@[expired_before.len() as int] == all[i as int]);
                    assert forall|b: int| 0 <= b < i + 1 implies if idle(#[trigger] all[b], timeout, now) {
                        expired@.contains(all[b])
                    } else {
                        kept@.contains(all[b])
                    } by {
                        if b < i && idle(all[b], timeout, now) {
                            let k = choose|k: int| 0 <= k < expired_before.len() && expired_before[k] == all[b];
                            assert(expired@[k] == all[b]);
                        }
                    }
                }
            } else {
                kept.push(s);
                proof {
                    kept_at = kept_at.push(i as int);
                    assert(kept@[kept_before.len() as int] == all[i as int]);
                    assert forall|b: int| 0 <= b < i + 1 implies if idle(#[trigger] all[b], timeout, now) {
                        expired@.contains(all[b])
                    } else {
                        kept@.contains(all[b])
                    } by {
                        if b < i && !idle(all[b], timeout, now) {
                            let k = choose|k: int| 0 <= k < kept_before.len() && kept_before[k] == all[b];
                            assert(kept@[k] == all[b]);
                        }
                    }
                }
            }
            i = i + 1;
        }
        proof {
            let before = keyed(all);
            let after = keyed(kept@);
            assert forall|a: int, b: int| 0 <= a < b < after.len() implies (#[trigger] after[a]).0 != (
            #[trigger] after[b]).0 by {
                assert(kept@[a].key != kept@[b].key);
            }
            table::lemma_entries(before);
            table::lemma_entries(after);
            assert forall|b: int| 0 <= b < all.len() implies table::table_of(before).dom().contains(
                (#[trigger] all[b]).key,
            ) && table::table_of(before)[all[b].key] == all[b] by {
                assert(before[b] == (all[b].key, all[b]));
            }
            assert forall|a: int| 0 <= a < kept@.len() implies table::table_of(after).dom().contains(
                (#[trigger] kept@[a]).key,
            ) && table::table_of(after)[kept@[a].key] == kept@[a] by {
                assert(after[a] == (kept@[a].key, kept@[a]));
            }
            assert forall|key: UdpSessionKey| #[trigger]
                table::table_of(after).dom().contains(key) implies table::table_of(before).dom().contains(key)
                && !idle(table::table_of(before)[key], timeout, now) && table::table_of(after)[key] == table::table_of(
                before,
            )[key] by {
                let a = choose|a: int| 0 <= a < after.len() && (#[trigger] after[a]).0 == key;
                assert(kept@[a].key == key);
                assert(all[kept_at[a]].key == key);
            }
            assert forall|key: UdpSessionKey| #[trigger]
                table::table_of(before).dom().contains(key) implies if idle(
                table::table_of(before)[key],
                timeout,
                now,
            ) {
                expired@.contains(table::table_of(before)[key])
            } else {
                table::table_of(after).dom().contains(key)
            } by {
                let b = choose|b: int| 0 <= b < before.len() && (#[trigger] before[b]).0 == key;
                assert(all[b].key == key);
                if !idle(all[b], timeout, now) {
                    let k = choose|k: int| 0 <= k < kept@.len() && kept@[k] == all[b];
                    assert(kept@[k].key == key);
                }
            }
            assert forall|a: int| 0 <= a < kept@.len() implies (#[trigger] kept@[a]).key == key_of(
                kept@[a].src,
                kept@[a].dst,
            ) by {
                assert(all[kept_at[a]] == kept@[a]);
            }
            assert forall|a: int| 0 <= a < expired@.len() implies table::table_of(before).dom().contains(
                (#[trigger] expired@[a]).key,
            ) && table::table_of(before)[expired@[a].key] == expired@[a] by {
                assert(all[expired_at[a]] == expired@[a]);
            }
        }
        self.sessions = kept;
        expired
    }

    /// The record a session closes with.
    pub fn closing_flow(session: &UdpSession, now: Timestamp) -> (r: Flow)
        ensures
            r@ == closing(*session, now),
            r.id == session.flow_id,
            r.start_time == session.started_at,
            r.end_time == Some(now),
            r.close_reason == Some(CloseReason::Completed),
            r.network.client_ip@ == addr::ip_text(session.src.ip),
            r.network.client_port == session.src.port,
            r.network.server_ip@ == addr::ip_text(session.dst.ip),
            r.network.server_port == session.dst.port,
            r.network.protocol is UDP,
            r.layer matches Layer::Udp(u) && u.payload_size == session.bytes_transferred && u.packet_count
                == session.packet_count,
            r.tags@.len() == 1 && r.tags@[0]@ == "closed"@,
    {
        let mut tags: Vec<String> = Vec::new();
        tags.push(text::copy("closed"));
        let r = Flow {
            id: session.flow_id,
            start_time: session.started_at,
            end_time: Some(now),
            close_reason: Some(CloseReason::Completed),
            network: network_of(session),
            layer: Layer::Udp(
                UdpLayer { payload_size: session.bytes_transferred, packet_count: session.packet_count },
            ),
            tags,
            meta: TextMap::new(),
            resilience_trace: None,
            rule_variables: TextMap::new(),
            matched_rules: Vec::new(),
        };
        assert(r@ =~= closing(*session, now));
        r
    }

    /// Close the sessions that have been quiet for too long: one record for each.
    pub fn close_idle_sessions(&mut self, now: u128, wall: Timestamp) -> (r: Vec<Flow>)
        ensures
            final(self).timeout() == old(self).timeout(),
            forall|key: UdpSessionKey| #[trigger]
                final(self).sessions().dom().contains(key) <==> old(self).sessions().dom().contains(key) && !idle(
                    old(self).sessions()[key],
                    old(self).timeout(),
                    now,
                ),
            forall|key: UdpSessionKey| #[trigger]
                final(self).sessions().dom().contains(key) ==> final(self).sessions()[key] == old(self).sessions()[key],
            exists|gone: Seq<UdpSession>|
                {
                    &&& #[trigger] gone.len() == r@.len()
                    &&& forall|i: int| 0 <= i < gone.len() ==> (#[trigger] r@[i])@ == closing(gone[i], wall)
                    &&& forall|i: int|
                        0 <= i < gone.len() ==> old(self).sessions().dom().contains((#[trigger] gone[i]).key) && old(self).sessions()[gone[i].key] == gone[i] && idle(gone[i], old(self).timeout(), now)
                    &&& forall|key: UdpSessionKey| #[trigger]
                        old(self).sessions().dom().contains(key) && idle(
                            old(self).sessions()[key],
                            old(self).timeout(),
                            now,
                        ) ==> gone.contains(old(self).sessions()[key])
                    &&& forall|i: int, j: int|
                        0 <= i < j < gone.len() ==> (#[trigger] gone[i]).key != (#[trigger] gone[j]).key
                },
    {
        let expired = self.cleanup_idle_sessions(now);
        let mut flows: Vec<Flow> = Vec::new();
        let mut i: usize = 0;
        while i < expired.len()
            invariant
                i <= expired@.len(),
                flows@.len() == i,
                forall|j: int| 0 <= j < i ==> (#[trigger] flows@[j])@ == closing(expired@[j], wall),
            decreases expired.len() - i,
        {
            flows.push(Self::closing_flow(&expired[i], wall));
            i = i + 1;
        }
        assert(expired@.len() == flows@.len());
        flows
    }
}

/// A session is recorded twice under one identifier: an opening without an end, whose counters stand
/// at the first datagram, and a closing with an end and the totals.
pub proof fn law_sessions_open_and_close(s: UdpSession, len: usize, opened: Timestamp, closed: Timestamp)
    ensures
        opening(s, len, opened).id == closing(s, closed).id,
        opening(s, len, opened).end_time is None,
        opening(s, len, opened).layer == LayerView::Udp(UdpLayer { payload_size: len, packet_count: 1 }),
        closing(s, closed).end_time == Some(closed),
        closing(s, closed).layer == LayerView::Udp(
            UdpLayer { payload_size: s.bytes_transferred, packet_count: s.packet_count },
        ),
{
}

/// A session that has just seen a datagram is not idle.
pub proof fn law_active_sessions_are_kept(s: UdpSession, timeout: u128, now: u128)
    ensures
        !idle(touched(s, now), timeout, now),
{
}

/// Both records of a session name the same two ends, and the closing one tells when the session
/// began.
pub proof fn law_records_name_both_ends(s: UdpSession, len: usize, opened: Timestamp, closed: Timestamp)
    ensures
        opening(s, len, opened).start_time == opened,
        closing(s, closed).start_time == s.started_at,
        closing(s, closed).close_reason == Some(CloseReason::Completed),
        closing(s, closed).tags == seq!["closed"@],
        opening(s, len, opened).tags.len() == 0,
        forall|n: NetworkView|
            n == opening(s, len, opened).network || n == closing(s, closed).network ==> #[trigger] n.client_ip
                == addr::ip_text(s.src.ip) && n.client_port == s.src.port && n.server_ip == addr::ip_text(s.dst.ip)
                && n.server_port == s.dst.port && n.protocol is UDP,
{
}

/// Two datagrams belong to one session where they come from the same address and port and go to the
/// same address and port, and only there.
pub proof fn law_keys_tell_sessions_apart(
    src: SocketAddress,
    dst: SocketAddress,
    other_src: SocketAddress,
    other_dst: SocketAddress,
)
    ensures
        key_of(src, dst) == key_of(other_src, other_dst) <==> src.ip == other_src.ip && src.port == other_src.port
            && dst.ip == other_dst.ip && dst.port == other_dst.port,
{
}

/// A session is over once more time than the timeout has passed since its last datagram.
pub proof fn law_quiet_sessions_are_over(s: UdpSession, timeout: u128, now: u128)
    ensures
        idle(s, timeout, now) <==> s.last_activity + timeout < now,
{
}

/// Another datagram changes when a session was last active and how many datagrams it has seen, and
/// nothing else; a new session has seen one.
pub proof fn law_datagrams_are_counted(
    s: UdpSession,
    src: SocketAddress,
    dst: SocketAddress,
    flow_id: u128,
    started_at: Timestamp,
    now: u128,
)
    ensures
        touched(s, now).last_activity == now,
        s.packet_count < usize::MAX ==> touched(s, now).packet_count == s.packet_count + 1,
        touched(s, now).flow_id == s.flow_id,
        touched(s, now).key == s.key,
        touched(s, now).src == s.src && touched(s, now).dst == s.dst,
        touched(s, now).started_at == s.started_at && touched(s, now).created_at == s.created_at,
        touched(s, now).bytes_transferred == s.bytes_transferred,
        fresh(src, dst, flow_id, started_at, now).packet_count == 1,
        fresh(src, dst, flow_id, started_at, now).bytes_transferred == 0,
        fresh(src, dst, flow_id, started_at, now).flow_id == flow_id,
        fresh(src, dst, flow_id, started_at, now).src == src && fresh(src, dst, flow_id, started_at, now).dst == dst,
{
}

} // verus!
