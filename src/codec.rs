//! Byte encodings used by the address store and the boot-node query.
use vstd::prelude::*;
use vstd::bytes::{
    spec_u16_to_le_bytes, spec_u32_to_le_bytes, spec_u64_from_le_bytes, spec_u64_to_le_bytes,
    u16_from_le_bytes, u16_to_le_bytes, u32_to_le_bytes, u64_from_le_bytes, u64_to_le_bytes,
};
use crate::error::DiscoveryError;

verus! {

/// Family tag of an IPv4 address in the stored encoding.
pub const FAMILY_V4: u8 = 4;

/// Family tag of an IPv6 address in the stored encoding.
pub const FAMILY_V6: u8 = 6;

/// An IP address as its octets in network order.
#[derive(Clone, Copy, Debug, PartialEq, Eq)]
pub enum IpAddress {
    V4([u8; 4]),
    V6([u8; 16]),
}

/// A resolved transport endpoint of a peer: its address and service port.
#[derive(Clone, Copy, Debug, PartialEq, Eq)]
pub struct PeerAddress {
    pub ip: IpAddress,
    pub port: u16,
}

impl PeerAddress {
    pub fn v4(a: u8, b: u8, c: u8, d: u8, port: u16) -> (r: PeerAddress)
        ensures
            r == (PeerAddress { ip: IpAddress::V4([a, b, c, d]), port }),
    {
        PeerAddress { ip: IpAddress::V4([a, b, c, d]), port }
    }
}

/// Whether two byte strings are equal.
pub fn bytes_eq(a: &[u8], b: &[u8]) -> (r: bool)
    ensures
        r == (a@ == b@),
{
    if a.len() != b.len() {
        return false;
    }
    let mut i: usize = 0;
    while i < a.len()
        invariant
            a@.len() == b@.len(),
            0 <= i <= a@.len(),
            forall|j: int| 0 <= j < i ==> a@[j] == b@[j],
        decreases a@.len() - i,
    {
        if a[i] != b[i] {
            return false;
        }
        i = i + 1;
    }
    assert(a@ =~= b@);
    true
}

/// A fresh vector holding the given bytes.
pub fn copy_bytes(b: &[u8]) -> (r: Vec<u8>)
    ensures
        r@ == b@,
{
    let mut out: Vec<u8> = Vec::new();
    let mut i: usize = 0;
    while i < b.len()
        invariant
            0 <= i <= b@.len(),
            out@ == b@.subrange(0, i as int),
        decreases b@.len() - i,
    {
        out.push(b[i]);
        assert(b@.subrange(0, i + 1) =~= b@.subrange(0, i as int).push(b@[i as int]));
        i = i + 1;
    }
    assert(b@.subrange(0, b@.len() as int) =~= b@);
    out
}

/// Family tag followed by the octets.
pub open spec fn ip_bytes(ip: IpAddress) -> Seq<u8> {
    match ip {
        IpAddress::V4(o) => seq![FAMILY_V4] + o@,
        IpAddress::V6(o) => seq![FAMILY_V6] + o@,
    }
}

/// The stored form of a peer address: family tag, octets, little-endian port.
pub open spec fn encode_addr(a: PeerAddress) -> Seq<u8> {
    ip_bytes(a.ip) + spec_u16_to_le_bytes(a.port)
}

/// Whether some peer address is stored as exactly these bytes.
pub open spec fn is_addr_encoding(b: Seq<u8>) -> bool {
    exists|a: PeerAddress| encode_addr(a) == b
}

proof fn lemma_encode_shape(a: PeerAddress)
    ensures
        encode_addr(a).len() == match a.ip {
            IpAddress::V4(_) => 7int,
            IpAddress::V6(_) => 19int,
        },
        encode_addr(a)[0] == match a.ip {
            IpAddress::V4(_) => FAMILY_V4,
            IpAddress::V6(_) => FAMILY_V6,
        },
{
    vstd::bytes::lemma_auto_spec_u16_to_from_le_bytes();
}

/// Two peer addresses with the same stored form are equal.
pub proof fn lemma_encode_injective(a: PeerAddress, b: PeerAddress)
    requires
        encode_addr(a) == encode_addr(b),
    ensures
        a == b,
{
    vstd::bytes::lemma_auto_spec_u16_to_from_le_bytes();
    lemma_encode_shape(a);
    lemma_encode_shape(b);
    let e = encode_addr(a);
    let n = e.len() as int;
    assert(spec_u16_to_le_bytes(a.port) =~= e.subrange(n - 2, n));
    assert(spec_u16_to_le_bytes(b.port) =~= e.subrange(n - 2, n));
    match (a.ip, b.ip) {
        (IpAddress::V4(x), IpAddress::V4(y)) => {
            assert(x@ =~= e.subrange(1, 5));
            assert(y@ =~= e.subrange(1, 5));
            vstd::array::axiom_array_ext_equal(x, y);
        },
        (IpAddress::V6(x), IpAddress::V6(y)) => {
            assert(x@ =~= e.subrange(1, 17));
            assert(y@ =~= e.subrange(1, 17));
            vstd::array::axiom_array_ext_equal(x, y);
        },
        _ => {},
    }
}

/// Serializes a peer address for the store.
pub fn encode_peer_address(a: &PeerAddress) -> (r: Vec<u8>)
    ensures
        r@ == encode_addr(*a),
{
    let mut out: Vec<u8> = Vec::new();
    match a.ip {
        IpAddress::V4(o) => {
            out.push(FAMILY_V4);
            let mut i: usize = 0;
            while i < 4
                invariant
                    0 <= i <= 4,
                    out@ == seq![FAMILY_V4] + o@.subrange(0, i as int),
                decreases 4 - i,
            {
                out.push(o[i]);
                assert(o@.subrange(0, i + 1) =~= o@.subrange(0, i as int).push(o@[i as int]));
                i = i + 1;
            }
            assert(o@.subrange(0, 4) =~= o@);
        },
        IpAddress::V6(o) => {
            out.push(FAMILY_V6);
            let mut i: usize = 0;
            while i < 16
                invariant
                    0 <= i <= 16,
                    out@ == seq![FAMILY_V6] + o@.subrange(0, i as int),
                decreases 16 - i,
            {
                out.push(o[i]);
                assert(o@.subrange(0, i + 1) =~= o@.subrange(0, i as int).push(o@[i as int]));
                i = i + 1;
            }
            assert(o@.subrange(0, 16) =~= o@);
        },
    }
    let mut port = u16_to_le_bytes(a.port);
    out.append(&mut port);
    assert(out@ =~= encode_addr(*a));
    out
}

/// Parses the stored form of a peer address; `None` when the bytes are not
/// exactly the encoding of some address.
pub fn decode_peer_address(b: &[u8]) -> (r: Option<PeerAddress>)
    ensures
        match r {
            Some(a) => encode_addr(a) == b@,
            None => !is_addr_encoding(b@),
        },
{
    proof {
        vstd::bytes::lemma_auto_spec_u16_to_from_le_bytes();
    }
    let n = b.len();
    if n == 7 && b[0] == FAMILY_V4 {
        let o: [u8; 4] = [b[1], b[2], b[3], b[4]];
        let port = u16_from_le_bytes(vstd::slice::slice_subrange(b, 5, 7));
        let a = PeerAddress { ip: IpAddress::V4(o), port };
        proof {
            assert(spec_u16_to_le_bytes(port) =~= b@.subrange(5, 7));
            assert(encode_addr(a) =~= b@);
        }
        Some(a)
    } else if n == 19 && b[0] == FAMILY_V6 {
        let o: [u8; 16] = [
            b[1], b[2], b[3], b[4], b[5], b[6], b[7], b[8],
            b[9], b[10], b[11], b[12], b[13], b[14], b[15], b[16],
        ];
        let port = u16_from_le_bytes(vstd::slice::slice_subrange(b, 17, 19));
        let a = PeerAddress { ip: IpAddress::V6(o), port };
        proof {
            assert(spec_u16_to_le_bytes(port) =~= b@.subrange(17, 19));
            assert(encode_addr(a) =~= b@);
        }
        Some(a)
    } else {
        proof {
            assert forall|a: PeerAddress| encode_addr(a) != b@ by {
                lemma_encode_shape(a);
            }
        }
        None
    }
}

/// The outcome of reading one key of the store.
#[derive(Debug)]
pub enum StoreLookup {
    Found(Vec<u8>),
    Absent,
    /// The store could not be read.
    Failed,
}

impl StoreLookup {
    /// The value read, if any.
    pub open spec fn value(&self) -> Option<Seq<u8>> {
        match self {
            StoreLookup::Found(v) => Some(v@),
            _ => None,
        }
    }
}

/// One key/value write that the runtime applies to the store.
#[derive(Debug)]
pub struct StoreWrite {
    pub key: Vec<u8>,
    pub value: Vec<u8>,
}

/// Sequence number of the first record a node ever publishes.
pub const INITIAL_SEQ: u64 = 2;

/// The key of the sequence counter: the bytes of the text "seq".
pub open spec fn seq_key_bytes() -> Seq<u8> {
    seq![115u8, 101u8, 113u8]
}

pub fn seq_key() -> (r: Vec<u8>)
    ensures
        r@ == seq_key_bytes(),
{
    let mut k: Vec<u8> = Vec::new();
    k.push(115u8);
    k.push(101u8);
    k.push(113u8);
    assert(k@ =~= seq_key_bytes());
    k
}

/// The sequence number a starting service adopts, given what the store held
/// under the counter's key (`None` when nothing could be read).
pub open spec fn next_seq_spec(stored: Option<Seq<u8>>) -> Result<u64, DiscoveryError> {
    match stored {
        None => Ok(INITIAL_SEQ),
        Some(b) => if b.len() != 8 {
            Err(DiscoveryError::StoreCorrupt)
        } else if spec_u64_from_le_bytes(b) == u64::MAX {
            Err(DiscoveryError::SequenceExhausted)
        } else {
            Ok((spec_u64_from_le_bytes(b) + 1) as u64)
        },
    }
}

/// Decides the new sequence number from the stored counter.
pub fn next_seq(stored: &StoreLookup) -> (r: Result<u64, DiscoveryError>)
    ensures
        r == next_seq_spec(stored.value()),
{
    match stored {
        StoreLookup::Found(b) => {
            if b.len() != 8 {
                Err(DiscoveryError::StoreCorrupt)
            } else {
                let v = u64_from_le_bytes(b.as_slice());
                if v == u64::MAX {
                    Err(DiscoveryError::SequenceExhausted)
                } else {
                    Ok(v + 1)
                }
            }
        },
        _ => Ok(INITIAL_SEQ),
    }
}

/// The stored form of the sequence counter.
pub fn encode_seq(v: u64) -> (r: Vec<u8>)
    ensures
        r@ == spec_u64_to_le_bytes(v),
        r@.len() == 8,
{
    u64_to_le_bytes(v)
}

/// Across restarts on the same store the sequence number strictly increases:
/// once a start has adopted `v` and persisted it, the next start adopts `v + 1`
/// or stops because the counter is exhausted.
pub proof fn lemma_seq_strictly_increases(stored: Option<Seq<u8>>, v: u64)
    requires
        next_seq_spec(stored) == Ok::<u64, DiscoveryError>(v),
    ensures
        match stored {
            Some(b) => v > spec_u64_from_le_bytes(b),
            None => v == INITIAL_SEQ,
        },
        match next_seq_spec(Some(spec_u64_to_le_bytes(v))) {
            Ok(w) => w == v + 1,
            Err(e) => e == DiscoveryError::SequenceExhausted && v == u64::MAX,
        },
{
    vstd::bytes::lemma_auto_spec_u64_to_from_le_bytes();
}

/// The request sent to a boot node: little-endian protocol version,
/// little-endian validator id, little-endian payload length, payload.
pub open spec fn boot_request_bytes(version: u32, validator_id: u64, message: Seq<u8>) -> Seq<u8> {
    spec_u32_to_le_bytes(version) + spec_u64_to_le_bytes(validator_id)
        + spec_u64_to_le_bytes(message.len() as u64) + message
}

pub fn encode_boot_request(version: u32, validator_id: u64, message: &[u8]) -> (r: Vec<u8>)
    ensures
        r@ == boot_request_bytes(version, validator_id, message@),
{
    let mut out = u32_to_le_bytes(version);
    let mut id = u64_to_le_bytes(validator_id);
    out.append(&mut id);
    let mut len = u64_to_le_bytes(message.len() as u64);
    out.append(&mut len);
    let mut i: usize = 0;
    let ghost head = out@;
    while i < message.len()
        invariant
            0 <= i <= message@.len(),
            out@ == head + message@.subrange(0, i as int),
        decreases message@.len() - i,
    {
        out.push(message[i]);
        assert(message@.subrange(0, i + 1) =~= message@.subrange(0, i as int).push(message@[i as int]));
        i = i + 1;
    }
    assert(message@.subrange(0, message@.len() as int) =~= message@);
    out
}

} // verus!
