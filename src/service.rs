//! The discovery service's decisions: what to write to the store at startup
//! and on each protocol event, when a resolution may go to the network, and
//! how a boot node is asked and its reply taken in. The runtime around it
//! performs each step's I/O and hands the outcome back.
use vstd::prelude::*;
use vstd::bytes::spec_u64_to_le_bytes;
use crate::codec::{
    boot_request_bytes, bytes_eq, copy_bytes, decode_peer_address, encode_addr, encode_boot_request,
    encode_peer_address, encode_seq, is_addr_encoding, lemma_encode_injective, next_seq,
    next_seq_spec, seq_key, seq_key_bytes, IpAddress, PeerAddress, StoreLookup, StoreWrite,
};
use crate::error::DiscoveryError;
use crate::external::{is_secp256k1_public_key, keccak256, keccak_of, parses_as_public_key};
use crate::gate::{gate_fires, poll_spec, HeartbeatGates, HEARTBEAT_INTERVAL_SECS};

verus! {

/// What the discovery protocol reports of a node: its identity key and, when
/// present, its IPv4 address and discovery UDP port.
#[derive(Debug)]
pub struct NodeRecord {
    pub identity: Vec<u8>,
    pub ip4: Option<[u8; 4]>,
    pub udp4: Option<u16>,
}

/// An inbound event of the discovery protocol.
#[derive(Debug)]
pub enum DiscoveryEvent {
    Discovered(NodeRecord),
    SessionEstablished(NodeRecord),
    /// The protocol learned the local node's external IPv4 socket.
    SocketUpdatedV4 { ip: [u8; 4], port: u16 },
    /// The protocol learned the local node's external IPv6 socket.
    SocketUpdatedV6,
    /// Any other event; it is ignored.
    Other,
}

/// The service address of an observed discovery endpoint: present only when
/// both the IPv4 address and a UDP port not below the offset are known.
pub open spec fn observed_address(ip4: Option<[u8; 4]>, udp4: Option<u16>, offset: u16) -> Option<
    PeerAddress,
> {
    match (ip4, udp4) {
        (Some(ip), Some(port)) => if port >= offset {
            Some(PeerAddress { ip: IpAddress::V4(ip), port: (port - offset) as u16 })
        } else {
            None
        },
        _ => None,
    }
}

/// The identity and address that a node record lets the store learn.
pub open spec fn record_observation(r: NodeRecord, offset: u16) -> Option<(Seq<u8>, PeerAddress)> {
    match observed_address(r.ip4, r.udp4, offset) {
        Some(a) => Some((r.identity@, a)),
        None => None,
    }
}

/// The identity and address that an event lets the store learn.
pub open spec fn event_observation(own: Seq<u8>, offset: u16, ev: DiscoveryEvent) -> Option<
    (Seq<u8>, PeerAddress),
> {
    match ev {
        DiscoveryEvent::Discovered(r) => record_observation(r, offset),
        DiscoveryEvent::SessionEstablished(r) => record_observation(r, offset),
        DiscoveryEvent::SocketUpdatedV4 { ip, port } => match observed_address(
            Some(ip),
            Some(port),
            offset,
        ) {
            Some(a) => Some((own, a)),
            None => None,
        },
        _ => None,
    }
}

/// The observations of a lookup result, in order.
pub open spec fn records_observations(rs: Seq<NodeRecord>, offset: u16) -> Seq<(Seq<u8>, PeerAddress)>
    decreases rs.len(),
{
    if rs.len() == 0 {
        Seq::empty()
    } else {
        let head = records_observations(rs.drop_last(), offset);
        match record_observation(rs.last(), offset) {
            Some(o) => head.push(o),
            None => head,
        }
    }
}

/// Whether a store write records the given observation.
pub open spec fn writes_observation(w: StoreWrite, o: (Seq<u8>, PeerAddress)) -> bool {
    w.key@ == o.0 && w.value@ == encode_addr(o.1)
}

/// What the service writes when it starts.
#[derive(Debug)]
pub struct Startup {
    /// The sequence number of the local node record.
    pub seq: u64,
    /// The new counter, under its key.
    pub seq_write: StoreWrite,
    /// The local node's own service address, under its identity.
    pub local_write: StoreWrite,
}

/// A network lookup for one peer: a DHT search for its node id, then a
/// question to one boot node.
#[derive(Debug)]
pub struct LookupPlan {
    pub node_id: Vec<u8>,
    /// The boot node to ask, if there is any.
    pub boot_index: Option<usize>,
}

/// How a resolution proceeds.
#[derive(Debug)]
pub enum QueryPlan {
    /// Answer from the store, with no network activity.
    ReadLocal,
    /// The identity is not a public key: the answer is `None`.
    NotAKey,
    /// Run the lookup, then answer from the store.
    Lookup(LookupPlan),
}

/// A question to a boot node: where to send it and the request bytes.
#[derive(Debug)]
pub struct BootQuery {
    pub ip: [u8; 4],
    pub port: u16,
    pub request: Vec<u8>,
}

/// Whether a store read shows that nothing was known of a peer before; a
/// failed read counts as known.
pub fn is_new_op(lookup: &StoreLookup) -> (r: bool)
    ensures
        r == (lookup is Absent),
{
    match lookup {
        StoreLookup::Absent => true,
        _ => false,
    }
}

/// The store write for an observation, if the record yields one.
fn observation_write(identity: &[u8], ip4: Option<[u8; 4]>, udp4: Option<u16>, offset: u16) -> (r:
    Option<StoreWrite>)
    ensures
        match (r, observed_address(ip4, udp4, offset)) {
            (Some(w), Some(a)) => w.key@ == identity@ && w.value@ == encode_addr(a),
            (None, None) => true,
            _ => false,
        },
{
    match (ip4, udp4) {
        (Some(ip), Some(port)) => {
            if port >= offset {
                let a = PeerAddress { ip: IpAddress::V4(ip), port: port - offset };
                Some(StoreWrite { key: copy_bytes(identity), value: encode_peer_address(&a) })
            } else {
                None
            }
        },
        _ => None,
    }
}

/// The decision state of one node's discovery service.
pub struct Discovery {
    identity: Vec<u8>,
    port_offset: u16,
    protocol_version: u32,
    boot_enrs: Vec<NodeRecord>,
    heartbeats: HeartbeatGates,
}

impl Discovery {
    pub closed spec fn wf(&self) -> bool {
        self.heartbeats.wf()
    }

    /// The local node's identity key.
    pub closed spec fn own_identity(&self) -> Seq<u8> {
        self.identity@
    }

    pub closed spec fn offset(&self) -> u16 {
        self.port_offset
    }

    pub closed spec fn version(&self) -> u32 {
        self.protocol_version
    }

    pub closed spec fn boots(&self) -> Seq<NodeRecord> {
        self.boot_enrs@
    }

    /// When each peer's next network lookup is due.
    pub closed spec fn gates(&self) -> Map<Seq<u8>, u64> {
        self.heartbeats@
    }

    pub closed spec fn heartbeat_interval(&self) -> u64 {
        self.heartbeats.spec_interval()
    }

    /// Starts a service for the local node at `ip`:`udp_port`, given what the
    /// store holds under the sequence counter's key. Fails with the counter's
    /// error if it cannot be advanced, else with `ConfigInvalid` if the port
    /// lies below the offset; otherwise returns the service, with no gates
    /// yet, and the writes to apply before the protocol starts.
    pub fn spawn(
        ip: [u8; 4],
        udp_port: u16,
        identity: Vec<u8>,
        boot_enrs: Vec<NodeRecord>,
        stored_seq: &StoreLookup,
        port_offset: u16,
        protocol_version: u32,
    ) -> (r: Result<(Discovery, Startup), DiscoveryError>)
        ensures
            match next_seq_spec(stored_seq.value()) {
                Err(e) => r == Err::<(Discovery, Startup), DiscoveryError>(e),
                Ok(seq) => if udp_port < port_offset {
                    r == Err::<(Discovery, Startup), DiscoveryError>(DiscoveryError::ConfigInvalid)
                } else {
                    match r {
                        Ok((d, s)) => {
                            &&& d.wf()
                            &&& d.own_identity() == identity@
                            &&& d.offset() == port_offset
                            &&& d.version() == protocol_version
                            &&& d.boots() == boot_enrs@
                            &&& d.gates() == Map::<Seq<u8>, u64>::empty()
                            &&& d.heartbeat_interval() == HEARTBEAT_INTERVAL_SECS
                            &&& s.seq == seq
                            &&& s.seq_write.key@ == seq_key_bytes()
                            &&& s.seq_write.value@ == spec_u64_to_le_bytes(seq)
                            &&& s.local_write.key@ == identity@
                            &&& s.local_write.value@ == encode_addr(
                                PeerAddress { ip: IpAddress::V4(ip), port: (udp_port - port_offset) as u16 },
                            )
                        },
                        Err(_) => false,
                    }
                },
            },
    {
        let seq = match next_seq(stored_seq) {
            Ok(v) => v,
            Err(e) => {
                return Err(e);
            },
        };
        if udp_port < port_offset {
            return Err(DiscoveryError::ConfigInvalid);
        }
        let local = PeerAddress { ip: IpAddress::V4(ip), port: udp_port - port_offset };
        let startup = Startup {
            seq,
            seq_write: StoreWrite { key: seq_key(), value: encode_seq(seq) },
            local_write: StoreWrite { key: copy_bytes(identity.as_slice()), value: encode_peer_address(&local) },
        };
        let d = Discovery {
            identity,
            port_offset,
            protocol_version,
            boot_enrs,
            heartbeats: HeartbeatGates::new(HEARTBEAT_INTERVAL_SECS),
        };
        Ok((d, startup))
    }

    /// The store write that an inbound protocol event calls for: the
    /// observed peer (or, on a socket update, the local node) under its
    /// identity, with the discovery port translated to the service port.
    pub fn handle_event(&self, ev: &DiscoveryEvent) -> (r: Option<StoreWrite>)
        ensures
            match (r, event_observation(self.own_identity(), self.offset(), *ev)) {
                (Some(w), Some(o)) => writes_observation(w, o),
                (None, None) => true,
                _ => false,
            },
    {
        match ev {
            DiscoveryEvent::Discovered(rec) => observation_write(
                rec.identity.as_slice(),
                rec.ip4,
                rec.udp4,
                self.port_offset,
            ),
            DiscoveryEvent::SessionEstablished(rec) => observation_write(
                rec.identity.as_slice(),
                rec.ip4,
                rec.udp4,
                self.port_offset,
            ),
            DiscoveryEvent::SocketUpdatedV4 { ip, port } => observation_write(
                self.identity.as_slice(),
                Some(*ip),
                Some(*port),
                self.port_offset,
            ),
            _ => None,
        }
    }

    /// The store writes for the records that a DHT lookup returned, in order,
    /// one for each record that carries an IPv4 address and UDP port.
    pub fn discover(&self, records: &Vec<NodeRecord>) -> (r: Vec<StoreWrite>)
        ensures
            r@.len() == records_observations(records@, self.offset()).len(),
            forall|i: int|
                0 <= i < r@.len() ==> writes_observation(
                    #[trigger] r@[i],
                    records_observations(records@, self.offset())[i],
                ),
    {
        let mut out: Vec<StoreWrite> = Vec::new();
        let mut i: usize = 0;
        while i < records.len()
            invariant
                0 <= i <= records@.len(),
                out@.len() == records_observations(records@.subrange(0, i as int), self.offset()).len(),
                forall|j: int|
                    0 <= j < out@.len() ==> writes_observation(
                        #[trigger] out@[j],
                        records_observations(records@.subrange(0, i as int), self.offset())[j],
                    ),
            decreases records@.len() - i,
        {
            let rec = &records[i];
            let ghost prefix = records@.subrange(0, i as int);
            let ghost next = records@.subrange(0, i + 1);
            assert(next.drop_last() =~= prefix);
            assert(next.last() == records@[i as int]);
            match observation_write(rec.identity.as_slice(), rec.ip4, rec.udp4, self.port_offset) {
                Some(w) => {
                    out.push(w);
                },
                None => {},
            }
            i = i + 1;
        }
        assert(records@.subrange(0, records@.len() as int) =~= records@);
        out
    }

    /// The lookup for `pk` when its gate has fired: the DHT node id is the
    /// Keccak-256 digest of the key, and the boot node is `random` modulo the
    /// number of boot nodes (none when there are none).
    pub fn update_addr(&self, pk: &[u8], random: usize) -> (r: LookupPlan)
        ensures
            r.node_id@ == keccak_of(pk@),
            r.boot_index == if self.boots().len() == 0 {
                None::<usize>
            } else {
                Some((random as int % self.boots().len() as int) as usize)
            },
    {
        let node_id = keccak256(pk);
        let n = self.boot_enrs.len();
        let boot_index = if n == 0 {
            None
        } else {
            Some(random % n)
        };
        LookupPlan { node_id, boot_index }
    }

    /// Decides how to resolve `pk` at time `now` (in seconds). The local
    /// node's own identity is always answered from the store; a string that is
    /// not a public key gets no answer; any other key polls its gate, and the
    /// network is used only when its heartbeat permits it.
    pub fn query_addr(&mut self, pk: &[u8], now: u64) -> (r: QueryPlan)
        requires
            old(self).wf(),
        ensures
            final(self).wf(),
            final(self).own_identity() == old(self).own_identity(),
            final(self).offset() == old(self).offset(),
            final(self).version() == old(self).version(),
            final(self).boots() == old(self).boots(),
            final(self).heartbeat_interval() == old(self).heartbeat_interval(),
            if pk@ == old(self).own_identity() {
                r is ReadLocal && final(self).gates() == old(self).gates()
            } else if !is_secp256k1_public_key(pk@) {
                r is NotAKey && final(self).gates() == old(self).gates()
            } else {
                &&& final(self).gates() == poll_spec(
                    old(self).gates(),
                    pk@,
                    now,
                    old(self).heartbeat_interval(),
                )
                &&& if gate_fires(old(self).gates(), pk@, now) {
                    match r {
                        QueryPlan::Lookup(p) => {
                            &&& p.node_id@ == keccak_of(pk@)
                            &&& (old(self).boots().len() == 0 <==> p.boot_index is None)
                            &&& (p.boot_index matches Some(i) ==> i < old(self).boots().len())
                        },
                        _ => false,
                    }
                } else {
                    r is ReadLocal
                }
            },
    {
        if bytes_eq(self.identity.as_slice(), pk) {
            return QueryPlan::ReadLocal;
        }
        if !parses_as_public_key(pk) {
            return QueryPlan::NotAKey;
        }
        if self.heartbeats.poll(pk, now) {
            let random: usize = rand::random();
            QueryPlan::Lookup(self.update_addr(pk, random))
        } else {
            QueryPlan::ReadLocal
        }
    }

    /// The answer of the store for a peer: the decoded address, or `None` when
    /// nothing is stored, the read failed, or the value is not an address.
    pub fn query_addr_from_local_store(&self, lookup: &StoreLookup) -> (r: Option<PeerAddress>)
        ensures
            match lookup.value() {
                None => r is None,
                Some(b) => match r {
                    Some(a) => encode_addr(a) == b,
                    None => !is_addr_encoding(b),
                },
            },
    {
        match lookup {
            StoreLookup::Found(b) => decode_peer_address(b.as_slice()),
            _ => None,
        }
    }

    /// The question for boot node `boot_idx` about `pk`: sent to the node's
    /// discovery socket, with the service's protocol version, validator id 0
    /// and the key as payload. `None` when there is no such boot node or its
    /// record lacks an IPv4 address or UDP port.
    pub fn query_addr_from_boot(&self, boot_idx: usize, pk: &[u8]) -> (r: Option<BootQuery>)
        ensures
            match r {
                Some(q) => {
                    &&& boot_idx < self.boots().len()
                    &&& self.boots()[boot_idx as int].ip4 == Some(q.ip)
                    &&& self.boots()[boot_idx as int].udp4 == Some(q.port)
                    &&& q.request@ == boot_request_bytes(self.version(), 0, pk@)
                },
                None => boot_idx >= self.boots().len() || self.boots()[boot_idx as int].ip4 is None
                    || self.boots()[boot_idx as int].udp4 is None,
            },
    {
        if boot_idx >= self.boot_enrs.len() {
            return None;
        }
        let boot = &self.boot_enrs[boot_idx];
        match (boot.ip4, boot.udp4) {
            (Some(ip), Some(port)) => Some(
                BootQuery { ip, port, request: encode_boot_request(self.protocol_version, 0, pk) },
            ),
            _ => None,
        }
    }

    /// Takes in a boot node's reply about `pk` (`None` on timeout or transport
    /// error): the address it names and the store write that records it, or
    /// `None` when there was no reply or it is not an address.
    pub fn boot_reply(&self, pk: &[u8], reply: &Option<Vec<u8>>) -> (r: Option<(PeerAddress, StoreWrite)>)
        ensures
            match reply {
                None => r is None,
                Some(b) => match r {
                    Some((a, w)) => encode_addr(a) == b@ && w.key@ == pk@ && w.value@ == b@,
                    None => !is_addr_encoding(b@),
                },
            },
    {
        match reply {
            Some(b) => match decode_peer_address(b.as_slice()) {
                Some(a) => Some((a, StoreWrite { key: copy_bytes(pk), value: encode_peer_address(&a) })),
                None => None,
            },
            None => None,
        }
    }
}

/// After the store records an observation for `k`, reading `k` back yields
/// exactly the observed address: the stored bytes decode to it and to no
/// other address.
pub proof fn lemma_write_then_read(store: Map<Seq<u8>, Seq<u8>>, w: StoreWrite, k: Seq<u8>, a: PeerAddress)
    requires
        writes_observation(w, (k, a)),
    ensures
        store.insert(w.key@, w.value@).contains_key(k),
        is_addr_encoding(store.insert(w.key@, w.value@)[k]),
        forall|b: PeerAddress| encode_addr(b) == store.insert(w.key@, w.value@)[k] ==> b == a,
{
    assert(is_addr_encoding(encode_addr(a)));
    assert forall|b: PeerAddress| encode_addr(b) == store.insert(w.key@, w.value@)[k] implies b == a by {
        lemma_encode_injective(b, a);
    }
}

/// Every address that an event or a lookup result writes to the store carries
/// the observed discovery port minus the offset.
pub proof fn lemma_port_translation(own: Seq<u8>, offset: u16, ev: DiscoveryEvent, rs: Seq<NodeRecord>)
    ensures
        event_observation(own, offset, ev) matches Some(o) ==> o.1.port + offset == match ev {
            DiscoveryEvent::Discovered(r) => r.udp4->0 as int,
            DiscoveryEvent::SessionEstablished(r) => r.udp4->0 as int,
            DiscoveryEvent::SocketUpdatedV4 { ip, port } => port as int,
            _ => 0int,
        },
        forall|r: NodeRecord|
            #[trigger] record_observation(r, offset) matches Some(o) ==> o.1.port + offset
                == r.udp4->0,
        forall|i: int|
            #![trigger records_observations(rs, offset)[i]]
            0 <= i < records_observations(rs, offset).len() ==> exists|j: int|
                0 <= j < rs.len() && #[trigger] record_observation(rs[j], offset) == Some(
                    records_observations(rs, offset)[i],
                ),
    decreases rs.len(),
{
    if rs.len() > 0 {
        lemma_port_translation(own, offset, ev, rs.drop_last());
        let init = rs.drop_last();
        let head = records_observations(init, offset);
        let full = records_observations(rs, offset);
        assert forall|i: int| #![trigger full[i]] 0 <= i < full.len() implies exists|j: int|
            0 <= j < rs.len() && #[trigger] record_observation(rs[j], offset) == Some(full[i]) by {
            if i < head.len() {
                assert(full[i] == head[i]);
                let j = choose|j: int|
                    0 <= j < init.len() && #[trigger] record_observation(init[j], offset) == Some(head[i]);
                assert(rs[j] == init[j]);
            } else {
                let j = rs.len() - 1;
                assert(rs[j] == rs.last());
                assert(record_observation(rs[j], offset) == Some(full[i]));
            }
        }
    }
}

} // verus!
