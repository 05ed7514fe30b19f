use crate::adapter::{if_type_of, oper_status_of, Adapter, IfType, OperStatus};
use crate::error::{DecodeError, Error};
use crate::raw::{read_u32, read_u64, u32_at, u64_at};
use crate::sockaddr::{
    addresses_at, addresses_decodable, chain_of, decode_addresses, decode_prefixes, prefixes_at,
    DNS_SERVER_RECORD_LEN, GATEWAY_RECORD_LEN, PREFIX_RECORD_LEN, UNICAST_RECORD_LEN,
};
use crate::strings::{narrow_text_at, read_narrow_text, read_wide_text, wide_text_at};
use crate::walker::{is_chain, lemma_chain_unique, link, record_at, walk_chain, ChainShape};
use vstd::prelude::*;

verus! {

/// Size of one adapter record, and where its fields lie in it.
pub const ADAPTER_RECORD_LEN: usize = 448;
pub const IF_INDEX_AT: usize = 4;
pub const NEXT_AT: usize = 8;
pub const ADAPTER_NAME_AT: usize = 16;
pub const FIRST_UNICAST_AT: usize = 24;
pub const FIRST_DNS_SERVER_AT: usize = 48;
pub const DESCRIPTION_AT: usize = 64;
pub const FRIENDLY_NAME_AT: usize = 72;
pub const PHYSICAL_ADDRESS_AT: usize = 80;
pub const PHYSICAL_ADDRESS_LEN_AT: usize = 88;
pub const IF_TYPE_AT: usize = 100;
pub const OPER_STATUS_AT: usize = 104;
pub const IPV6_IF_INDEX_AT: usize = 108;
pub const FIRST_PREFIX_AT: usize = 176;
pub const TRANSMIT_SPEED_AT: usize = 184;
pub const RECEIVE_SPEED_AT: usize = 192;
pub const FIRST_GATEWAY_AT: usize = 208;
pub const IPV4_METRIC_AT: usize = 216;
pub const IPV6_METRIC_AT: usize = 220;
pub const LUID_AT: usize = 224;
pub const NETWORK_GUID_AT: usize = 252;

/// The capacity of the physical-address field.
pub const MAX_PHYSICAL_ADDRESS_LEN: u32 = 8;

pub open spec fn adapter_shape() -> ChainShape {
    ChainShape { record_len: ADAPTER_RECORD_LEN, next_at: NEXT_AT }
}

/// The physical address of the record at `o`: none when its length is
/// zero, else that many bytes of the field (at most its capacity).
pub open spec fn physical_address_at(buf: Seq<u8>, o: int) -> Option<Option<Seq<u8>>> {
    let n = u32_at(buf, o + PHYSICAL_ADDRESS_LEN_AT);
    if n == 0 {
        Some(None)
    } else if n <= MAX_PHYSICAL_ADDRESS_LEN {
        Some(Some(buf.subrange(o + PHYSICAL_ADDRESS_AT, o + PHYSICAL_ADDRESS_AT + n)))
    } else {
        None
    }
}

pub open spec fn opt_vec_view(v: Option<Vec<u8>>) -> Option<Seq<u8>> {
    match v {
        Some(b) => Some(b@),
        None => None,
    }
}

/// Whether every part of the adapter record at offset `o` decodes.
#[verifier::opaque]
pub open spec fn adapter_decodable(buf: Seq<u8>, base: u64, o: int) -> bool {
    &&& narrow_text_at(buf, base, u64_at(buf, o + ADAPTER_NAME_AT)) is Some
    &&& wide_text_at(buf, base, u64_at(buf, o + DESCRIPTION_AT)) is Some
    &&& wide_text_at(buf, base, u64_at(buf, o + FRIENDLY_NAME_AT)) is Some
    &&& oper_status_of(u32_at(buf, o + OPER_STATUS_AT)) is Some
    &&& physical_address_at(buf, o) is Some
    &&& addresses_decodable(buf, base, u64_at(buf, o + FIRST_DNS_SERVER_AT), DNS_SERVER_RECORD_LEN)
    &&& addresses_decodable(buf, base, u64_at(buf, o + FIRST_GATEWAY_AT), GATEWAY_RECORD_LEN)
    &&& addresses_decodable(buf, base, u64_at(buf, o + FIRST_PREFIX_AT), PREFIX_RECORD_LEN)
    &&& addresses_decodable(buf, base, u64_at(buf, o + FIRST_UNICAST_AT), UNICAST_RECORD_LEN)
}

/// Whether `a` is the decoding of the adapter record at offset `o`.
pub open spec fn adapter_at(buf: Seq<u8>, base: u64, o: int, a: Adapter) -> bool {
    &&& narrow_text_at(buf, base, u64_at(buf, o + ADAPTER_NAME_AT)) == Some(a.adapter_name@)
    &&& a.network_guid@ == buf.subrange(o + NETWORK_GUID_AT, o + NETWORK_GUID_AT + 16)
    &&& a.luid == u64_at(buf, o + LUID_AT)
    &&& a.ipv4_if_index == u32_at(buf, o + IF_INDEX_AT)
    &&& addresses_at(buf, base, u64_at(buf, o + FIRST_UNICAST_AT), UNICAST_RECORD_LEN, a.ip_addresses@)
    &&& prefixes_at(buf, base, u64_at(buf, o + FIRST_PREFIX_AT), a.prefixes@)
    &&& addresses_at(buf, base, u64_at(buf, o + FIRST_GATEWAY_AT), GATEWAY_RECORD_LEN, a.gateways@)
    &&& addresses_at(buf, base, u64_at(buf, o + FIRST_DNS_SERVER_AT), DNS_SERVER_RECORD_LEN, a.dns_servers@)
    &&& wide_text_at(buf, base, u64_at(buf, o + DESCRIPTION_AT)) == Some(a.description@)
    &&& wide_text_at(buf, base, u64_at(buf, o + FRIENDLY_NAME_AT)) == Some(a.friendly_name@)
    &&& physical_address_at(buf, o) == Some(opt_vec_view(a.physical_address))
    &&& a.receive_link_speed == u64_at(buf, o + RECEIVE_SPEED_AT)
    &&& a.transmit_link_speed == u64_at(buf, o + TRANSMIT_SPEED_AT)
    &&& oper_status_of(u32_at(buf, o + OPER_STATUS_AT)) == Some(a.oper_status)
    &&& a.if_type == if_type_of(u32_at(buf, o + IF_TYPE_AT))
    &&& a.ipv6_if_index == u32_at(buf, o + IPV6_IF_INDEX_AT)
    &&& a.ipv4_metric == u32_at(buf, o + IPV4_METRIC_AT)
    &&& a.ipv6_metric == u32_at(buf, o + IPV6_METRIC_AT)
}

/// Copies the bytes `buf[from..from + n]`.
fn copy_bytes(buf: &[u8], from: usize, n: usize) -> (r: Vec<u8>)
    requires
        from + n <= buf@.len(),
    ensures
        r@ == buf@.subrange(from as int, from + n),
{
    let total = buf.len();
    let mut r: Vec<u8> = Vec::new();
    let mut i: usize = 0;
    while i < n
        invariant
            total == buf@.len(),
            from + n <= buf@.len(),
            i <= n,
            r@ == buf@.subrange(from as int, from + i),
        decreases n - i,
    {
        r.push(buf[from + i]);
        i = i + 1;
        assert(r@ =~= buf@.subrange(from as int, from + i));
    }
    r
}

/// Decodes the adapter record at offset `o` of the fetched table, together
/// with its four nested chains. Fails exactly when some part of it does not
/// decode.
pub fn decode_adapter(buf: &[u8], base: u64, o: usize) -> (r: Result<Adapter, Error>)
    requires
        o + ADAPTER_RECORD_LEN <= buf@.len(),
    ensures
        match r {
            Ok(a) => adapter_at(buf@, base, o as int, a),
            Err(e) => !adapter_decodable(buf@, base, o as int),
        },
{
    reveal(adapter_decodable);
    let _total = buf.len();
    let guid: [u8; 16] = [
        buf[o + 252], buf[o + 253], buf[o + 254], buf[o + 255], buf[o + 256], buf[o + 257],
        buf[o + 258], buf[o + 259], buf[o + 260], buf[o + 261], buf[o + 262], buf[o + 263],
        buf[o + 264], buf[o + 265], buf[o + 266], buf[o + 267],
    ];
    assert(guid@ == buf@.subrange(o + NETWORK_GUID_AT, o + NETWORK_GUID_AT + 16));
    let luid = read_u64(buf, o + LUID_AT);
    let ipv4_if_index = read_u32(buf, o + IF_INDEX_AT);
    let adapter_name = read_narrow_text(buf, base, read_u64(buf, o + ADAPTER_NAME_AT))?;
    let dns_servers = decode_addresses(
        buf,
        base,
        read_u64(buf, o + FIRST_DNS_SERVER_AT),
        DNS_SERVER_RECORD_LEN,
    )?;
    let gateways = decode_addresses(buf, base, read_u64(buf, o + FIRST_GATEWAY_AT), GATEWAY_RECORD_LEN)?;
    let prefixes = decode_prefixes(buf, base, read_u64(buf, o + FIRST_PREFIX_AT))?;
    let ip_addresses = decode_addresses(
        buf,
        base,
        read_u64(buf, o + FIRST_UNICAST_AT),
        UNICAST_RECORD_LEN,
    )?;
    let receive_link_speed = read_u64(buf, o + RECEIVE_SPEED_AT);
    let transmit_link_speed = read_u64(buf, o + TRANSMIT_SPEED_AT);
    let ipv4_metric = read_u32(buf, o + IPV4_METRIC_AT);
    let ipv6_metric = read_u32(buf, o + IPV6_METRIC_AT);
    let oper_status = OperStatus::from_code(read_u32(buf, o + OPER_STATUS_AT))?;
    let if_type = IfType::from_code(read_u32(buf, o + IF_TYPE_AT));
    let ipv6_if_index = read_u32(buf, o + IPV6_IF_INDEX_AT);
    let description = read_wide_text(buf, base, read_u64(buf, o + DESCRIPTION_AT))?;
    let friendly_name = read_wide_text(buf, base, read_u64(buf, o + FRIENDLY_NAME_AT))?;
    let physical_len = read_u32(buf, o + PHYSICAL_ADDRESS_LEN_AT);
    let physical_address = if physical_len == 0 {
        None
    } else if physical_len <= MAX_PHYSICAL_ADDRESS_LEN {
        Some(copy_bytes(buf, o + PHYSICAL_ADDRESS_AT, physical_len as usize))
    } else {
        return Err(Error::decode(DecodeError::BadLength));
    };
    Ok(
        Adapter {
            adapter_name,
            network_guid: guid,
            luid,
            ipv4_if_index,
            ip_addresses,
            prefixes,
            gateways,
            dns_servers,
            description,
            friendly_name,
            physical_address,
            receive_link_speed,
            transmit_link_speed,
            oper_status,
            if_type,
            ipv6_if_index,
            ipv4_metric,
            ipv6_metric,
        },
    )
}

/// The address of the first adapter record of a fetched table of `len`
/// bytes starting at `base`: null for an empty table.
pub open spec fn table_head(base: u64, len: int) -> u64 {
    if len == 0 {
        0
    } else {
        base
    }
}

/// Whether `v` holds the decodings of the adapter records of the table, in
/// chain order.
pub open spec fn adapters_at(buf: Seq<u8>, base: u64, v: Seq<Adapter>) -> bool {
    match chain_of(buf, base, table_head(base, buf.len() as int), adapter_shape()) {
        None => false,
        Some(s) => {
            &&& v.len() == s.len()
            &&& forall|i: int| 0 <= i < s.len() ==> adapter_at(buf, base, #[trigger] s[i], v[i])
        },
    }
}

/// Whether every adapter record of the table decodes.
pub open spec fn adapters_decodable(buf: Seq<u8>, base: u64) -> bool {
    match chain_of(buf, base, table_head(base, buf.len() as int), adapter_shape()) {
        None => false,
        Some(s) => all_decodable(buf, base, s),
    }
}

/// Whether each adapter record at the offsets `s` decodes.
pub open spec fn all_decodable(buf: Seq<u8>, base: u64, s: Seq<int>) -> bool {
    forall|i: int| 0 <= i < s.len() ==> #[trigger] adapter_decodable(buf, base, s[i])
}

proof fn lemma_one_undecodable(buf: Seq<u8>, base: u64, s: Seq<int>, i: int)
    requires
        chain_of(buf, base, table_head(base, buf.len() as int), adapter_shape()) == Some(s),
        0 <= i < s.len(),
        !adapter_decodable(buf, base, s[i]),
    ensures
        !adapters_decodable(buf, base),
{
    assert(!all_decodable(buf, base, s));
}

/// Decodes the adapter table that a successful query wrote into `buf`,
/// which starts at address `base`: the chain of adapter records from the
/// start of the buffer (none for an empty table). Fails, returning no
/// partial list, exactly when some record does not decode.
pub fn decode_adapters(buf: &[u8], base: u64) -> (r: Result<Vec<Adapter>, Error>)
    ensures
        match r {
            Ok(v) => adapters_at(buf@, base, v@),
            Err(e) => !adapters_decodable(buf@, base),
        },
{
    let shape = ChainShape { record_len: ADAPTER_RECORD_LEN, next_at: NEXT_AT };
    let head = if buf.len() == 0 {
        0
    } else {
        base
    };
    let offsets = match walk_chain(buf, base, head, shape) {
        Ok(v) => v,
        Err(e) => {
            return Err(e);
        },
    };
    let ghost s = offsets@.map_values(|o: usize| o as int);
    proof {
        let c = choose|c: Seq<int>| is_chain(buf@, base, head, shape, c);
        lemma_chain_unique(buf@, base, head, shape, s, c);
    }
    let mut out: Vec<Adapter> = Vec::new();
    let mut i: usize = 0;
    while i < offsets.len()
        invariant
            shape == adapter_shape(),
            head == table_head(base, buf@.len() as int),
            s == offsets@.map_values(|o: usize| o as int),
            is_chain(buf@, base, head, shape, s),
            chain_of(buf@, base, head, shape) == Some(s),
            i <= offsets@.len(),
            out@.len() == i,
            forall|j: int| 0 <= j < i ==> adapter_at(buf@, base, #[trigger] s[j], out@[j]),
        decreases offsets.len() - i,
    {
        let off = offsets[i];
        assert(off + ADAPTER_RECORD_LEN <= buf@.len()) by {
            if i == 0 {
                assert(s[0] == off);
            } else {
                assert(record_at(buf@, base, shape, link(buf@, shape, s[i - 1])) == Some(s[i as int]));
            }
        }
        match decode_adapter(buf, base, off) {
            Ok(a) => {
                out.push(a);
            },
            Err(e) => {
                assert(s[i as int] == off as int);
                assert(!adapter_decodable(buf@, base, s[i as int]));
                proof {
                    lemma_one_undecodable(buf@, base, s, i as int);
                }
                return Err(e);
            },
        }
        i = i + 1;
    }
    Ok(out)
}

} // verus!
