use crate::adapter::IpAddress;
use crate::error::{DecodeError, Error, ErrorKind};
use crate::raw::{locate, offset_of, read_u16, read_u32, read_u64, u16_at, u32_at, u64_at};
use crate::walker::{is_chain, walk_chain, lemma_chain_unique, ChainShape};
use vstd::prelude::*;

verus! {

/// Address family tag of an IPv4 socket address.
pub const AF_INET: u16 = 2;

/// Address family tag of an IPv6 socket address.
pub const AF_INET6: u16 = 23;

/// The capacity of the staging buffer a socket address is copied into.
pub const SOCKADDR_STORAGE_LEN: u32 = 128;

/// Where, in each address record, the socket address pointer and its
/// length are stored; and where a prefix record keeps its prefix length.
pub const ADDRESS_PTR_AT: usize = 16;
pub const ADDRESS_LEN_AT: usize = 24;
pub const PREFIX_LENGTH_AT: usize = 32;

/// Sizes of the four address record kinds.
pub const DNS_SERVER_RECORD_LEN: usize = 32;
pub const GATEWAY_RECORD_LEN: usize = 32;
pub const PREFIX_RECORD_LEN: usize = 40;
pub const UNICAST_RECORD_LEN: usize = 64;

/// The network-order bytes of an address: 4 for IPv4, 16 for IPv6.
pub open spec fn ip_bytes(ip: IpAddress) -> Seq<u8> {
    match ip {
        IpAddress::V4(a) => a@,
        IpAddress::V6(a) => a@,
    }
}

/// The address held by the socket address of `len` bytes at address `ptr`:
/// it must fit the staging buffer and the fetched buffer, and be an IPv4 or
/// IPv6 socket address long enough for its family.
pub open spec fn sockaddr_at(buf: Seq<u8>, base: u64, ptr: u64, len: u32) -> Option<Seq<u8>> {
    if len > SOCKADDR_STORAGE_LEN || len < 2 {
        None
    } else {
        match offset_of(base, buf.len() as int, ptr, len as int) {
            None => None,
            Some(o) => {
                let family = u16_at(buf, o);
                if family == AF_INET && len >= 16 {
                    Some(buf.subrange(o + 4, o + 8))
                } else if family == AF_INET6 && len >= 28 {
                    Some(buf.subrange(o + 8, o + 24))
                } else {
                    None
                }
            },
        }
    }
}

/// The address that the address record at offset `off` holds.
pub open spec fn record_address(buf: Seq<u8>, base: u64, off: int) -> Option<Seq<u8>> {
    sockaddr_at(buf, base, u64_at(buf, off + ADDRESS_PTR_AT), u32_at(buf, off + ADDRESS_LEN_AT))
}

/// The chain of records from `head`, if there is one.
pub open spec fn chain_of(buf: Seq<u8>, base: u64, head: u64, shape: ChainShape) -> Option<Seq<int>> {
    if exists|s: Seq<int>| is_chain(buf, base, head, shape, s) {
        Some(choose|s: Seq<int>| is_chain(buf, base, head, shape, s))
    } else {
        None
    }
}

pub open spec fn address_shape(record_len: usize) -> ChainShape {
    ChainShape { record_len, next_at: 8 }
}

/// Whether `v` holds, in chain order, the addresses of the address records
/// chained from `head`.
pub open spec fn addresses_at(
    buf: Seq<u8>,
    base: u64,
    head: u64,
    record_len: usize,
    v: Seq<IpAddress>,
) -> bool {
    match chain_of(buf, base, head, address_shape(record_len)) {
        None => false,
        Some(s) => {
            &&& v.len() == s.len()
            &&& forall|i: int|
                0 <= i < s.len() ==> record_address(buf, base, #[trigger] s[i]) == Some(
                    ip_bytes(v[i]),
                )
        },
    }
}

/// Whether the address records chained from `head` all decode.
pub open spec fn addresses_decodable(buf: Seq<u8>, base: u64, head: u64, record_len: usize) -> bool {
    match chain_of(buf, base, head, address_shape(record_len)) {
        None => false,
        Some(s) => forall|i: int| 0 <= i < s.len() ==> (#[trigger] record_address(buf, base, s[i])) is Some,
    }
}

/// Decodes the socket address of `len` bytes at address `ptr`.
pub fn decode_sockaddr(buf: &[u8], base: u64, ptr: u64, len: u32) -> (r: Result<IpAddress, Error>)
    ensures
        match r {
            Ok(ip) => sockaddr_at(buf@, base, ptr, len) == Some(ip_bytes(ip)),
            Err(e) => sockaddr_at(buf@, base, ptr, len) is None && e.kind is Decode,
        },
{
    if len > SOCKADDR_STORAGE_LEN || len < 2 {
        return Err(Error::decode(DecodeError::BadSocketAddress));
    }
    let o = match locate(base, buf.len(), ptr, len as usize) {
        None => return Err(Error::decode(DecodeError::BadLink)),
        Some(o) => o,
    };
    let family = read_u16(buf, o);
    if family == AF_INET && len >= 16 {
        let a: [u8; 4] = [buf[o + 4], buf[o + 5], buf[o + 6], buf[o + 7]];
        assert(a@ == buf@.subrange(o + 4, o + 8));
        Ok(IpAddress::V4(a))
    } else if family == AF_INET6 && len >= 28 {
        let a: [u8; 16] = [
            buf[o + 8], buf[o + 9], buf[o + 10], buf[o + 11], buf[o + 12], buf[o + 13],
            buf[o + 14], buf[o + 15], buf[o + 16], buf[o + 17], buf[o + 18], buf[o + 19],
            buf[o + 20], buf[o + 21], buf[o + 22], buf[o + 23],
        ];
        assert(a@ == buf@.subrange(o + 8, o + 24));
        Ok(IpAddress::V6(a))
    } else {
        Err(Error::decode(DecodeError::BadSocketAddress))
    }
}

/// Walks the chain of address records from `head` and decodes the address
/// of each. Fails exactly when there is no chain or an address does not
/// decode.
pub fn decode_addresses(buf: &[u8], base: u64, head: u64, record_len: usize) -> (r: Result<
    Vec<IpAddress>,
    Error,
>)
    requires
        record_len >= ADDRESS_LEN_AT + 4,
    ensures
        match r {
            Ok(v) => addresses_at(buf@, base, head, record_len, v@),
            Err(e) => !addresses_decodable(buf@, base, head, record_len),
        },
{
    let shape = ChainShape { record_len, next_at: 8 };
    let offsets = match walk_chain(buf, base, head, shape) {
        Ok(v) => v,
        Err(e) => {
            return Err(e);
        },
    };
    let ghost s = offsets@.map_values(|o: usize| o as int);
    proof {
        let c = choose|c: Seq<int>| is_chain(buf@, base, head, shape, c);
        lemma_chain_unique(buf@, base, head, shape, s, c);
        assert(chain_of(buf@, base, head, shape) == Some(s));
    }
    let n = buf.len();
    let mut out: Vec<IpAddress> = Vec::new();
    let mut i: usize = 0;
    while i < offsets.len()
        invariant
            n == buf@.len(),
            shape == address_shape(record_len),
            record_len >= ADDRESS_LEN_AT + 4,
            s == offsets@.map_values(|o: usize| o as int),
            is_chain(buf@, base, head, shape, s),
            chain_of(buf@, base, head, shape) == Some(s),
            i <= offsets@.len(),
            out@.len() == i,
            forall|j: int| 0 <= j < i ==> record_address(buf@, base, #[trigger] s[j]) == Some(ip_bytes(out@[j])),
        decreases offsets.len() - i,
    {
        let off = offsets[i];
        assert(off + record_len <= buf@.len()) by {
            if i == 0 {
                assert(s[0] == off);
            } else {
                assert(crate::walker::record_at(buf@, base, shape, crate::walker::link(buf@, shape, s[i - 1])) == Some(s[i as int]));
            }
        }
        let ptr = read_u64(buf, off + ADDRESS_PTR_AT);
        let len = read_u32(buf, off + ADDRESS_LEN_AT);
        match decode_sockaddr(buf, base, ptr, len) {
            Ok(ip) => {
                out.push(ip);
            },
            Err(e) => {
                assert(record_address(buf@, base, s[i as int]) is None);
                return Err(e);
            },
        }
        i = i + 1;
    }
    Ok(out)
}


/// Whether `v` holds, in chain order, the (address, prefix length) pairs of
/// the prefix records chained from `head`.
pub open spec fn prefixes_at(buf: Seq<u8>, base: u64, head: u64, v: Seq<(IpAddress, u32)>) -> bool {
    match chain_of(buf, base, head, address_shape(PREFIX_RECORD_LEN)) {
        None => false,
        Some(s) => {
            &&& v.len() == s.len()
            &&& forall|i: int|
                0 <= i < s.len() ==> {
                    &&& record_address(buf, base, #[trigger] s[i]) == Some(ip_bytes(v[i].0))
                    &&& v[i].1 == u32_at(buf, s[i] + PREFIX_LENGTH_AT)
                }
        },
    }
}

/// Walks the chain of prefix records from `head` and decodes each into an
/// address and a prefix length. Fails exactly when there is no chain or an
/// address does not decode.
pub fn decode_prefixes(buf: &[u8], base: u64, head: u64) -> (r: Result<Vec<(IpAddress, u32)>, Error>)
    ensures
        match r {
            Ok(v) => prefixes_at(buf@, base, head, v@),
            Err(e) => !addresses_decodable(buf@, base, head, PREFIX_RECORD_LEN),
        },
{
    let shape = ChainShape { record_len: PREFIX_RECORD_LEN, next_at: 8 };
    let offsets = match walk_chain(buf, base, head, shape) {
        Ok(v) => v,
        Err(e) => {
            return Err(e);
        },
    };
    let ghost s = offsets@.map_values(|o: usize| o as int);
    proof {
        let c = choose|c: Seq<int>| is_chain(buf@, base, head, shape, c);
        lemma_chain_unique(buf@, base, head, shape, s, c);
    }
    let n = buf.len();
    let mut out: Vec<(IpAddress, u32)> = Vec::new();
    let mut i: usize = 0;
    while i < offsets.len()
        invariant
            n == buf@.len(),
            shape == address_shape(PREFIX_RECORD_LEN),
            s == offsets@.map_values(|o: usize| o as int),
            is_chain(buf@, base, head, shape, s),
            chain_of(buf@, base, head, shape) == Some(s),
            i <= offsets@.len(),
            out@.len() == i,
            forall|j: int|
                0 <= j < i ==> {
                    &&& record_address(buf@, base, #[trigger] s[j]) == Some(ip_bytes(out@[j].0))
                    &&& out@[j].1 == u32_at(buf@, s[j] + PREFIX_LENGTH_AT)
                },
        decreases offsets.len() - i,
    {
        let off = offsets[i];
        assert(off + PREFIX_RECORD_LEN <= buf@.len()) by {
            if i == 0 {
                assert(s[0] == off);
            } else {
                assert(crate::walker::record_at(buf@, base, shape, crate::walker::link(buf@, shape, s[i - 1])) == Some(s[i as int]));
            }
        }
        let ptr = read_u64(buf, off + ADDRESS_PTR_AT);
        let len = read_u32(buf, off + ADDRESS_LEN_AT);
        let prefix_length = read_u32(buf, off + PREFIX_LENGTH_AT);
        match decode_sockaddr(buf, base, ptr, len) {
            Ok(ip) => {
                out.push((ip, prefix_length));
            },
            Err(e) => {
                assert(record_address(buf@, base, s[i as int]) is None);
                return Err(e);
            },
        }
        i = i + 1;
    }
    Ok(out)
}

} // verus!
