//! STUN reflexive-address discovery and NAT classification.
//!
//! The probe sends a 20-byte STUN binding request and reads the reflexive
//! address out of the response, preferring the XOR-MAPPED-ADDRESS attribute
//! and falling back to MAPPED-ADDRESS; only the IPv4 family is accepted.
//! The NAT kind is classified by comparing the reflexive addresses that
//! different probes observed.

use vstd::prelude::*;
use crate::header::be16_value;
use crate::header::be32_value;

verus! {

/// First byte of the STUN magic cookie, also the XOR mask of the first
/// address byte.
pub const STUN_COOKIE_0: u8 = 0x21;

/// Second byte of the STUN magic cookie.
pub const STUN_COOKIE_1: u8 = 0x12;

/// Third byte of the STUN magic cookie.
pub const STUN_COOKIE_2: u8 = 0xa4;

/// Fourth byte of the STUN magic cookie.
pub const STUN_COOKIE_3: u8 = 0x42;

/// XOR mask applied to the port of an XOR-MAPPED-ADDRESS: the upper half of
/// the magic cookie.
pub const STUN_PORT_MASK: u16 = 0x2112;

/// An IPv4 endpoint: the address packed big-endian into 32 bits, and a port.
#[derive(Clone, Copy, Debug, PartialEq, Eq, Structural)]
pub struct NetAddr {
    /// IPv4 address, first octet in the highest byte.
    pub ip: u32,
    /// UDP port.
    pub port: u16,
}

impl NetAddr {
    /// Build an endpoint from the four dotted-quad octets and a port.
    pub fn from_octets(a: u8, b: u8, c: u8, d: u8, port: u16) -> (r: NetAddr)
        ensures
            r.ip == be32_value(a, b, c, d),
            r.port == port,
    {
        let ip: u32 = (a as u32) * 0x1000000 + (b as u32) * 0x10000 + (c as u32) * 0x100 + (
        d as u32);
        NetAddr { ip, port }
    }
}

/// The 20-byte STUN binding request carrying the given transaction id:
/// message type 1, length 0, the magic cookie, then the 12-byte id.
pub open spec fn binding_request_bytes(txn: Seq<u8>) -> Seq<u8> {
    seq![0u8, 1u8, 0u8, 0u8, STUN_COOKIE_0, STUN_COOKIE_1, STUN_COOKIE_2, STUN_COOKIE_3] + txn
}

/// Serialize a STUN binding request for the given 12-byte transaction id.
pub fn stun_binding_request(txn: &[u8]) -> (r: Vec<u8>)
    requires
        txn@.len() == 12,
    ensures
        r@ == binding_request_bytes(txn@),
        r@.len() == 20,
{
    let mut buf: Vec<u8> = Vec::new();
    buf.push(0);
    buf.push(1);
    buf.push(0);
    buf.push(0);
    buf.push(STUN_COOKIE_0);
    buf.push(STUN_COOKIE_1);
    buf.push(STUN_COOKIE_2);
    buf.push(STUN_COOKIE_3);
    let mut i: usize = 0;
    while i < 12
        invariant
            0 <= i <= 12,
            txn@.len() == 12,
            buf@ =~= seq![0u8, 1u8, 0u8, 0u8, STUN_COOKIE_0, STUN_COOKIE_1, STUN_COOKIE_2, STUN_COOKIE_3]
                + txn@.subrange(0, i as int),
        decreases 12 - i,
    {
        buf.push(txn[i]);
        i = i + 1;
    }
    proof {
        assert(buf@ =~= binding_request_bytes(txn@));
    }
    buf
}

/// The address carried by an XOR-MAPPED-ADDRESS value whose port and
/// address bytes start at `body + 2` and `body + 4`.
pub open spec fn xor_mapped_addr(data: Seq<u8>, body: int) -> NetAddr {
    NetAddr {
        ip: be32_value(
            (data[body + 4] ^ STUN_COOKIE_0) as u8,
            (data[body + 5] ^ STUN_COOKIE_1) as u8,
            (data[body + 6] ^ STUN_COOKIE_2) as u8,
            (data[body + 7] ^ STUN_COOKIE_3) as u8,
        ),
        port: be16_value(data[body + 2], data[body + 3]) ^ STUN_PORT_MASK,
    }
}

/// The address carried by a plain MAPPED-ADDRESS value starting at `body`.
pub open spec fn plain_mapped_addr(data: Seq<u8>, body: int) -> NetAddr {
    NetAddr {
        ip: be32_value(data[body + 4], data[body + 5], data[body + 6], data[body + 7]),
        port: be16_value(data[body + 2], data[body + 3]),
    }
}

/// Nonnegative part of an integer.
pub open spec fn max0(x: int) -> int {
    if x >= 0 {
        x
    } else {
        0
    }
}

/// Walk the attribute list starting at `offset` and return the value
/// offset of the first attribute of type `want` that is at least 8 bytes
/// long and carries the IPv4 family byte.
pub open spec fn find_attr(data: Seq<u8>, offset: int, want: u16) -> Option<int>
    decreases max0(data.len() - offset),
{
    if offset < 0 || offset + 4 > data.len() {
        None
    } else {
        let attr_type = be16_value(data[offset], data[offset + 1]);
        let attr_len = be16_value(data[offset + 2], data[offset + 3]) as int;
        let body = offset + 4;
        if body + attr_len > data.len() {
            None
        } else if attr_type == want && attr_len >= 8 && data[body + 1] == 1 {
            Some(body)
        } else {
            let pad = if attr_len % 4 != 0 {
                4 - attr_len % 4
            } else {
                0
            };
            find_attr(data, body + attr_len + pad, want)
        }
    }
}

/// The reflexive address a STUN response yields: none when the response is
/// shorter than its 20-byte header; otherwise an XOR-MAPPED-ADDRESS
/// (type 0x0020) wherever one stands, and only failing that a plain
/// MAPPED-ADDRESS (type 0x0001).
pub open spec fn stun_response_addr(data: Seq<u8>) -> Option<NetAddr> {
    if data.len() < 20 {
        None
    } else {
        match find_attr(data, 20, 0x0020) {
            Some(body) => Some(xor_mapped_addr(data, body)),
            None => match find_attr(data, 20, 0x0001) {
                Some(body) => Some(plain_mapped_addr(data, body)),
                None => None,
            },
        }
    }
}

/// Scan the attributes of a response for the wanted type, returning where
/// its value starts.
fn find_attr_from(data: &[u8], want: u16) -> (r: Option<usize>)
    requires
        20 <= data@.len() <= 1500,
    ensures
        r matches Some(body) ==> Some(body as int) == find_attr(data@, 20, want) && body + 8
            <= data@.len(),
        r is None ==> find_attr(data@, 20, want) is None,
{
    let mut offset: usize = 20;
    loop
        invariant
            20 <= offset,
            data@.len() <= 1500,
            offset <= data@.len() + 7,
            find_attr(data@, offset as int, want) == find_attr(data@, 20, want),
        decreases data@.len() + 7 - offset,
    {
        if offset + 4 > data.len() {
            return None;
        }
        let attr_type: u16 = (data[offset] as u16) * 0x100 + (data[offset + 1] as u16);
        let attr_len: usize = (data[offset + 2] as usize) * 0x100 + (data[offset + 3] as usize);
        let body: usize = offset + 4;
        if attr_len > data.len() - body {
            return None;
        }
        if attr_type == want && attr_len >= 8 && data[body + 1] == 1 {
            return Some(body);
        }
        let pad: usize = if attr_len % 4 != 0 {
            4 - attr_len % 4
        } else {
            0
        };
        offset = body + attr_len + pad;
    }
}

/// Parse a STUN binding response and extract the reflexive IPv4 address,
/// preferring the XOR-MAPPED-ADDRESS attribute over a plain MAPPED-ADDRESS.
pub fn parse_stun_response(data: &[u8]) -> (r: Option<NetAddr>)
    requires
        data@.len() <= 1500,
    ensures
        r == stun_response_addr(data@),
{
    if data.len() < 20 {
        return None;
    }
    if let Some(body) = find_attr_from(data, 0x0020) {
        let port: u16 = ((data[body + 2] as u16) * 0x100 + (data[body + 3] as u16))
            ^ STUN_PORT_MASK;
        let ip: u32 = ((data[body + 4] ^ STUN_COOKIE_0) as u32) * 0x1000000 + ((data[body + 5]
            ^ STUN_COOKIE_1) as u32) * 0x10000 + ((data[body + 6] ^ STUN_COOKIE_2) as u32) * 0x100
            + ((data[body + 7] ^ STUN_COOKIE_3) as u32);
        return Some(NetAddr { ip, port });
    }
    if let Some(body) = find_attr_from(data, 0x0001) {
        let port: u16 = (data[body + 2] as u16) * 0x100 + (data[body + 3] as u16);
        let ip: u32 = (data[body + 4] as u32) * 0x1000000 + (data[body + 5] as u32) * 0x10000 + (
        data[body + 6] as u32) * 0x100 + (data[body + 7] as u32);
        return Some(NetAddr { ip, port });
    }
    None
}

/// The 8-byte XOR-MAPPED-ADDRESS value encoding the given address: family
/// IPv4, then the port and address each masked with the magic cookie.
pub open spec fn xor_mapped_value(addr: NetAddr) -> Seq<u8> {
    seq![
        0u8,
        1u8,
        (((addr.port ^ STUN_PORT_MASK) >> 8) as u8),
        ((addr.port ^ STUN_PORT_MASK) as u8),
        (((addr.ip >> 24) as u8) ^ STUN_COOKIE_0),
        (((addr.ip >> 16) as u8) ^ STUN_COOKIE_1),
        (((addr.ip >> 8) as u8) ^ STUN_COOKIE_2),
        ((addr.ip as u8) ^ STUN_COOKIE_3),
    ]
}

/// Decoding an XOR-MAPPED-ADDRESS value recovers exactly the address that
/// was encoded: the XOR with the magic cookie prefix is its own inverse.
pub proof fn lemma_stun_xor_round_trip(addr: NetAddr, data: Seq<u8>, body: int)
    requires
        0 <= body,
        body + 8 <= data.len(),
        data.subrange(body, body + 8) == xor_mapped_value(addr),
    ensures
        xor_mapped_addr(data, body) == addr,
{
    assert(data[body + 2] == xor_mapped_value(addr)[2]);
    assert(data[body + 3] == xor_mapped_value(addr)[3]);
    assert(data[body + 4] == xor_mapped_value(addr)[4]);
    assert(data[body + 5] == xor_mapped_value(addr)[5]);
    assert(data[body + 6] == xor_mapped_value(addr)[6]);
    assert(data[body + 7] == xor_mapped_value(addr)[7]);
    let p = addr.port;
    let x = addr.ip;
    assert(be16_value((((p ^ 0x2112) >> 8) as u8), ((p ^ 0x2112) as u8)) ^ 0x2112 == p)
        by (bit_vector);
    assert(be32_value(
        (((((x >> 24) as u8) ^ 0x21) ^ 0x21) as u8),
        (((((x >> 16) as u8) ^ 0x12) ^ 0x12) as u8),
        (((((x >> 8) as u8) ^ 0xa4) ^ 0xa4) as u8),
        ((((x as u8) ^ 0x42) ^ 0x42) as u8),
    ) == x) by (bit_vector);
}

/// The kind of NAT in front of this host, as far as reflexive-address
/// comparison can tell.
#[derive(Clone, Copy, Debug, PartialEq, Eq, Structural)]
pub enum NatKind {
    /// Every probe observed the same mapping: no NAT, or a full-cone one.
    OpenOrFullCone,
    /// The mapping kept its address but changed port across destinations.
    PortRestricted,
    /// The mapping changed across probes or destinations.
    Symmetric,
}

/// The NAT kind that a set of reflexive observations shows: an unstable
/// mapping to the same destination is symmetric; a mapping that varies by
/// destination is symmetric, one that varies by port only port-restricted;
/// identical everywhere is open or full-cone.
pub open spec fn nat_kind_of(first: NetAddr, second: NetAddr, alternate: Option<NetAddr>) -> NatKind {
    if first != second {
        NatKind::Symmetric
    } else {
        match alternate {
            None => NatKind::OpenOrFullCone,
            Some(a) => if a == first {
                NatKind::OpenOrFullCone
            } else if a.ip == first.ip {
                NatKind::PortRestricted
            } else {
                NatKind::Symmetric
            },
        }
    }
}

/// Classify the NAT from reflexive addresses observed from one local port:
/// two probes of the same server, and optionally one of an alternate
/// server.
pub fn classify_nat(first: NetAddr, second: NetAddr, alternate: Option<NetAddr>) -> (r: NatKind)
    ensures
        r == nat_kind_of(first, second, alternate),
{
    if !(first.ip == second.ip && first.port == second.port) {
        return NatKind::Symmetric;
    }
    match alternate {
        None => NatKind::OpenOrFullCone,
        Some(a) => {
            if a.ip == first.ip && a.port == first.port {
                NatKind::OpenOrFullCone
            } else if a.ip == first.ip {
                NatKind::PortRestricted
            } else {
                NatKind::Symmetric
            }
        },
    }
}

} // verus!
