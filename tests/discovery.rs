use dvf_discovery::codec::{
    decode_peer_address, encode_boot_request, encode_peer_address, encode_seq, next_seq, seq_key,
    IpAddress, PeerAddress, StoreLookup,
};
use dvf_discovery::error::DiscoveryError;
use dvf_discovery::gate::{HeartbeatGates, HEARTBEAT_INTERVAL_SECS};
use dvf_discovery::service::{is_new_op, Discovery, DiscoveryEvent, NodeRecord, QueryPlan, Startup};

/// The compressed secp256k1 generator point: a valid public key.
fn peer_key() -> Vec<u8> {
    vec![
        0x02, 0x79, 0xbe, 0x66, 0x7e, 0xf9, 0xdc, 0xbb, 0xac, 0x55, 0xa0, 0x62, 0x95, 0xce, 0x87, 0x0b,
        0x07, 0x02, 0x9b, 0xfc, 0xdb, 0x2d, 0xce, 0x28, 0xd9, 0x59, 0xf2, 0x81, 0x5b, 0x16, 0xf8, 0x17,
        0x98,
    ]
}

fn own_key() -> Vec<u8> {
    vec![3u8; 33]
}

fn boot(ip: [u8; 4], port: u16) -> NodeRecord {
    NodeRecord { identity: vec![9u8; 33], ip4: Some(ip), udp4: Some(port) }
}

fn start(udp_port: u16, offset: u16, boots: Vec<NodeRecord>) -> (Discovery, Startup) {
    Discovery::spawn([10, 0, 0, 1], udp_port, own_key(), boots, &StoreLookup::Absent, offset, 1)
        .unwrap()
}

fn decode(b: &Vec<u8>) -> Option<PeerAddress> {
    decode_peer_address(b.as_slice())
}

#[test]
fn ipv4_address_encoding_is_exact() {
    let a = PeerAddress::v4(1, 2, 3, 4, 9000);
    assert_eq!(encode_peer_address(&a), vec![4, 1, 2, 3, 4, 0x28, 0x23]);
    assert_eq!(decode(&vec![4, 1, 2, 3, 4, 0x28, 0x23]), Some(a));
}

#[test]
fn ipv6_address_round_trips() {
    let mut o = [0u8; 16];
    o[15] = 1;
    let a = PeerAddress { ip: IpAddress::V6(o), port: 443 };
    let b = encode_peer_address(&a);
    assert_eq!(b.len(), 19);
    assert_eq!(b[0], 6);
    assert_eq!(decode(&b), Some(a));
}

#[test]
fn malformed_address_bytes_decode_to_none() {
    assert_eq!(decode(&vec![]), None);
    assert_eq!(decode(&vec![5, 1, 2, 3, 4, 0, 0]), None);
    assert_eq!(decode(&vec![4, 1, 2, 3, 4, 0]), None);
    assert_eq!(decode(&vec![6, 1, 2, 3, 4, 0, 0]), None);
}

#[test]
fn boot_request_bytes_are_exact() {
    let r = encode_boot_request(7, 0, &[0xaa, 0xbb]);
    let mut expected = vec![7u8, 0, 0, 0];
    expected.extend_from_slice(&[0u8; 8]);
    expected.extend_from_slice(&[2u8, 0, 0, 0, 0, 0, 0, 0]);
    expected.extend_from_slice(&[0xaa, 0xbb]);
    assert_eq!(r, expected);
}

#[test]
fn sequence_counter_persistence() {
    assert_eq!(seq_key(), b"seq".to_vec());
    let (_, first) = start(30303, 1, vec![]);
    assert_eq!(first.seq, 2);
    assert_eq!(first.seq_write.key, b"seq".to_vec());
    assert_eq!(first.seq_write.value, 2u64.to_le_bytes().to_vec());
    let stored = StoreLookup::Found(first.seq_write.value.clone());
    let (_, second) =
        Discovery::spawn([10, 0, 0, 1], 30303, own_key(), vec![], &stored, 1, 1).unwrap();
    assert_eq!(second.seq, 3);
    assert_eq!(second.seq_write.value, 3u64.to_le_bytes().to_vec());
    let corrupt = StoreLookup::Found(vec![0u8; 7]);
    let r = Discovery::spawn([10, 0, 0, 1], 30303, own_key(), vec![], &corrupt, 1, 1);
    assert_eq!(r.err(), Some(DiscoveryError::StoreCorrupt));
}

#[test]
fn sequence_counter_edge_values() {
    assert_eq!(next_seq(&StoreLookup::Failed), Ok(2));
    assert_eq!(next_seq(&StoreLookup::Found(encode_seq(41))), Ok(42));
    assert_eq!(
        next_seq(&StoreLookup::Found(encode_seq(u64::MAX))),
        Err(DiscoveryError::SequenceExhausted)
    );
    assert_eq!(next_seq(&StoreLookup::Found(vec![0u8; 9])), Err(DiscoveryError::StoreCorrupt));
}

#[test]
fn port_below_offset_is_refused_at_startup() {
    let r = Discovery::spawn([10, 0, 0, 1], 3, own_key(), vec![], &StoreLookup::Absent, 4, 1);
    assert_eq!(r.err(), Some(DiscoveryError::ConfigInvalid));
}

#[test]
fn port_offset_is_applied_once() {
    let (d, s) = start(30303, 1, vec![]);
    assert_eq!(s.local_write.key, own_key());
    assert_eq!(decode(&s.local_write.value), Some(PeerAddress::v4(10, 0, 0, 1, 30302)));
    let local = d.query_addr_from_local_store(&StoreLookup::Found(s.local_write.value.clone()));
    assert_eq!(local, Some(PeerAddress::v4(10, 0, 0, 1, 30302)));
    let ev = DiscoveryEvent::Discovered(NodeRecord {
        identity: peer_key(),
        ip4: Some([1, 1, 1, 1]),
        udp4: Some(30305),
    });
    let w = d.handle_event(&ev).unwrap();
    assert_eq!(w.key, peer_key());
    assert_eq!(decode(&w.value), Some(PeerAddress::v4(1, 1, 1, 1, 30304)));
}

#[test]
fn socket_update_rewrites_local_entry() {
    let (d, _) = start(30303, 1, vec![]);
    let w = d.handle_event(&DiscoveryEvent::SocketUpdatedV4 { ip: [5, 6, 7, 8], port: 41000 }).unwrap();
    assert_eq!(w.key, own_key());
    assert_eq!(decode(&w.value), Some(PeerAddress::v4(5, 6, 7, 8, 40999)));
    assert!(d.handle_event(&DiscoveryEvent::SocketUpdatedV6).is_none());
    assert!(d.handle_event(&DiscoveryEvent::Other).is_none());
}

#[test]
fn session_established_is_recorded_like_discovered() {
    let (d, _) = start(30303, 1, vec![]);
    let rec = NodeRecord { identity: peer_key(), ip4: Some([2, 2, 2, 2]), udp4: Some(9001) };
    let w = d.handle_event(&DiscoveryEvent::SessionEstablished(rec)).unwrap();
    assert_eq!(w.key, peer_key());
    assert_eq!(decode(&w.value), Some(PeerAddress::v4(2, 2, 2, 2, 9000)));
    let no_port = NodeRecord { identity: peer_key(), ip4: Some([2, 2, 2, 2]), udp4: None };
    assert!(d.handle_event(&DiscoveryEvent::Discovered(no_port)).is_none());
    let low = NodeRecord { identity: peer_key(), ip4: Some([2, 2, 2, 2]), udp4: Some(0) };
    assert!(d.handle_event(&DiscoveryEvent::Discovered(low)).is_none());
}

#[test]
fn lookup_result_writes_each_usable_record_in_order() {
    let (d, _) = start(30303, 1, vec![]);
    let records = vec![
        NodeRecord { identity: vec![1u8; 33], ip4: Some([1, 2, 3, 4]), udp4: Some(100) },
        NodeRecord { identity: vec![2u8; 33], ip4: None, udp4: Some(100) },
        NodeRecord { identity: vec![3u8; 33], ip4: Some([4, 3, 2, 1]), udp4: Some(201) },
    ];
    let ws = d.discover(&records);
    assert_eq!(ws.len(), 2);
    assert_eq!(ws[0].key, vec![1u8; 33]);
    assert_eq!(decode(&ws[0].value), Some(PeerAddress::v4(1, 2, 3, 4, 99)));
    assert_eq!(ws[1].key, vec![3u8; 33]);
    assert_eq!(decode(&ws[1].value), Some(PeerAddress::v4(4, 3, 2, 1, 200)));
}

#[test]
fn heartbeat_gating() {
    let (mut d, _) = start(30303, 1, vec![boot([9, 9, 9, 9], 9000)]);
    let k = peer_key();
    assert!(matches!(d.query_addr(&k, 1000), QueryPlan::Lookup(_)));
    for i in 0..100u64 {
        let now = 1000 + i % HEARTBEAT_INTERVAL_SECS;
        assert!(matches!(d.query_addr(&k, now), QueryPlan::ReadLocal));
    }
    assert!(matches!(d.query_addr(&k, 1000 + HEARTBEAT_INTERVAL_SECS), QueryPlan::Lookup(_)));
}

#[test]
fn gate_delays_after_a_late_permit() {
    let mut g = HeartbeatGates::new(60);
    assert!(g.poll(&[1], 0));
    assert!(!g.poll(&[1], 59));
    assert!(g.poll(&[2], 59));
    assert!(g.poll(&[1], 500));
    assert!(!g.poll(&[1], 559));
    assert!(g.poll(&[1], 560));
    assert_eq!(g.interval(), 60);
}

#[test]
fn self_resolution_uses_the_store_only() {
    let (mut d, s) = start(30303, 1, vec![boot([9, 9, 9, 9], 9000)]);
    for now in 0..3u64 {
        assert!(matches!(d.query_addr(&own_key(), now * 100), QueryPlan::ReadLocal));
    }
    let r = d.query_addr_from_local_store(&StoreLookup::Found(s.local_write.value.clone()));
    assert_eq!(r, Some(PeerAddress::v4(10, 0, 0, 1, 30302)));
}

#[test]
fn non_key_identity_is_not_resolved() {
    let (mut d, _) = start(30303, 1, vec![]);
    assert!(matches!(d.query_addr(&[1, 2, 3], 0), QueryPlan::NotAKey));
    assert!(matches!(d.query_addr(&[], 0), QueryPlan::NotAKey));
}

#[test]
fn cold_start_without_reachable_boot_node() {
    let (mut d, _) = start(30303, 1, vec![boot([9, 9, 9, 9], 9000)]);
    let k = peer_key();
    match d.query_addr(&k, 0) {
        QueryPlan::Lookup(p) => {
            assert_eq!(p.boot_index, Some(0));
            let q = d.query_addr_from_boot(0, &k).unwrap();
            assert_eq!(q.ip, [9, 9, 9, 9]);
            assert_eq!(q.port, 9000);
            assert!(d.boot_reply(&k, &None).is_none());
        }
        _ => panic!("the first resolution must go to the network"),
    }
    assert_eq!(d.query_addr_from_local_store(&StoreLookup::Absent), None);
    assert!(matches!(d.query_addr(&k, 30), QueryPlan::ReadLocal));
    assert_eq!(d.query_addr_from_local_store(&StoreLookup::Absent), None);
}

#[test]
fn boot_node_hit_is_recorded() {
    let (d, _) = start(30303, 1, vec![boot([9, 9, 9, 9], 9000)]);
    let k = peer_key();
    let reply = encode_peer_address(&PeerAddress::v4(1, 2, 3, 4, 9000));
    let (a, w) = d.boot_reply(&k, &Some(reply)).unwrap();
    assert_eq!(a, PeerAddress::v4(1, 2, 3, 4, 9000));
    assert_eq!(w.key, k);
    assert!(is_new_op(&StoreLookup::Absent));
    assert!(!is_new_op(&StoreLookup::Found(w.value.clone())));
    assert!(!is_new_op(&StoreLookup::Failed));
    let read = d.query_addr_from_local_store(&StoreLookup::Found(w.value));
    assert_eq!(read, Some(PeerAddress::v4(1, 2, 3, 4, 9000)));
    assert!(d.boot_reply(&k, &Some(vec![1, 2, 3])).is_none());
}

#[test]
fn boot_query_carries_version_and_key() {
    let (d, _) = start(30303, 1, vec![boot([9, 9, 9, 9], 9000), NodeRecord {
        identity: vec![8u8; 33],
        ip4: None,
        udp4: Some(1),
    }]);
    let q = d.query_addr_from_boot(0, &[0xab]).unwrap();
    assert_eq!(q.request, encode_boot_request(1, 0, &[0xab]));
    assert_eq!(&q.request[0..4], &[1u8, 0, 0, 0]);
    assert!(d.query_addr_from_boot(1, &[0xab]).is_none());
    assert!(d.query_addr_from_boot(2, &[0xab]).is_none());
}

#[test]
fn lookup_targets_keccak_node_id() {
    let (d, _) = start(30303, 1, vec![boot([9, 9, 9, 9], 9000), boot([8, 8, 8, 8], 9000)]);
    let p = d.update_addr(&[], 5);
    let empty_digest: Vec<u8> = vec![
        0xc5, 0xd2, 0x46, 0x01, 0x86, 0xf7, 0x23, 0x3c, 0x92, 0x7e, 0x7d, 0xb2, 0xdc, 0xc7, 0x03,
        0xc0, 0xe5, 0x00, 0xb6, 0x53, 0xca, 0x82, 0x27, 0x3b, 0x7b, 0xfa, 0xd8, 0x04, 0x5d, 0x85,
        0xa4, 0x70,
    ];
    assert_eq!(p.node_id, empty_digest);
    assert_eq!(p.boot_index, Some(1));
    let (lonely, _) = start(30303, 1, vec![]);
    assert_eq!(lonely.update_addr(&peer_key(), 5).boot_index, None);
}
