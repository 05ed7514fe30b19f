use ipconfig2::adapter::{IfType, IpAddress, OperStatus};
use ipconfig2::error::{DecodeError, ErrorKind};
use ipconfig2::fetch::{FetchStep, QueryResponse, TableFetch, STATUS_BUFFER_OVERFLOW, STATUS_SUCCESS};
use ipconfig2::sockaddr::decode_sockaddr;
use ipconfig2::table::decode_adapters;
use ipconfig2::walker::{walk_chain, ChainShape};

const BASE: u64 = 0x10000;

fn put_u16(buf: &mut [u8], at: usize, v: u16) {
    buf[at..at + 2].copy_from_slice(&v.to_le_bytes());
}

fn put_u32(buf: &mut [u8], at: usize, v: u32) {
    buf[at..at + 4].copy_from_slice(&v.to_le_bytes());
}

fn put_u64(buf: &mut [u8], at: usize, v: u64) {
    buf[at..at + 8].copy_from_slice(&v.to_le_bytes());
}

fn put_wide(buf: &mut [u8], at: usize, s: &str) {
    let mut p = at;
    for u in s.encode_utf16() {
        put_u16(buf, p, u);
        p += 2;
    }
    put_u16(buf, p, 0);
}

fn put_v4(buf: &mut [u8], at: usize, a: [u8; 4]) {
    put_u16(buf, at, 2);
    buf[at + 4..at + 8].copy_from_slice(&a);
}

fn put_v6(buf: &mut [u8], at: usize, a: [u8; 16]) {
    put_u16(buf, at, 23);
    buf[at + 8..at + 24].copy_from_slice(&a);
}

/// One adapter record with two unicast addresses, one gateway, no prefix
/// and no DNS server, at the start of a buffer of `len` bytes.
fn one_adapter_table(len: usize) -> Vec<u8> {
    let mut b = vec![0u8; len];
    put_u32(&mut b, 4, 7);
    put_u64(&mut b, 16, BASE + 600);
    b[600..606].copy_from_slice(b"{ABC}\0");
    put_u64(&mut b, 24, BASE + 700);
    put_u64(&mut b, 64, BASE + 800);
    put_wide(&mut b, 800, "Test NIC");
    put_u64(&mut b, 72, BASE + 850);
    put_wide(&mut b, 850, "eth0");
    b[80..86].copy_from_slice(&[1, 2, 3, 4, 5, 6]);
    put_u32(&mut b, 88, 6);
    put_u32(&mut b, 100, 6);
    put_u32(&mut b, 104, 1);
    put_u32(&mut b, 108, 9);
    put_u64(&mut b, 184, 1000);
    put_u64(&mut b, 192, 2000);
    put_u64(&mut b, 208, BASE + 900);
    put_u32(&mut b, 216, 25);
    put_u32(&mut b, 220, 30);
    put_u64(&mut b, 224, 0x1234);
    for i in 0..16 {
        b[252 + i] = i as u8;
    }
    // unicast records
    put_u64(&mut b, 708, BASE + 764);
    put_u64(&mut b, 716, BASE + 1000);
    put_u32(&mut b, 724, 16);
    put_u64(&mut b, 780, BASE + 1100);
    put_u32(&mut b, 788, 28);
    put_v4(&mut b, 1000, [192, 168, 1, 10]);
    let mut v6 = [0u8; 16];
    v6[0] = 0xfe;
    v6[1] = 0x80;
    v6[15] = 1;
    put_v6(&mut b, 1100, v6);
    // gateway record
    put_u64(&mut b, 916, BASE + 1200);
    put_u32(&mut b, 924, 16);
    put_v4(&mut b, 1200, [192, 168, 1, 1]);
    b
}

#[test]
fn empty_table_gives_empty_list() {
    let adapters = decode_adapters(&[], BASE).unwrap();
    assert!(adapters.is_empty());
}

#[test]
fn overflow_once_then_one_adapter() {
    let mut fetch = TableFetch::new();
    assert_eq!(fetch.buffer_len, 16384);
    let step = fetch.on_response(QueryResponse { status: STATUS_BUFFER_OVERFLOW, required_len: 20000 });
    assert_eq!(step, FetchStep::Retry);
    assert_eq!(fetch.buffer_len, 20000);
    let step = fetch.on_response(QueryResponse { status: STATUS_SUCCESS, required_len: 0 });
    assert_eq!(step, FetchStep::Done);
    assert_eq!(fetch.buffer_len, 20000);

    let buf = one_adapter_table(fetch.buffer_len as usize);
    let adapters = decode_adapters(&buf, BASE).unwrap();
    assert_eq!(adapters.len(), 1);
    let a = &adapters[0];
    assert_eq!(a.ip_addresses.len(), 2);
    assert_eq!(a.gateways.len(), 1);
    assert!(a.prefixes.is_empty());
    assert!(a.dns_servers.is_empty());
    assert_eq!(a.ip_addresses[0], IpAddress::V4([192, 168, 1, 10]));
    let mut v6 = [0u8; 16];
    v6[0] = 0xfe;
    v6[1] = 0x80;
    v6[15] = 1;
    assert_eq!(a.ip_addresses[1], IpAddress::V6(v6));
    assert_eq!(a.gateways[0], IpAddress::V4([192, 168, 1, 1]));
    assert_eq!(a.adapter_name, "{ABC}");
    assert_eq!(a.description, "Test NIC");
    assert_eq!(a.friendly_name, "eth0");
    assert_eq!(a.ipv4_if_index, 7);
    assert_eq!(a.ipv6_if_index, 9);
    assert_eq!(a.ipv4_metric, 25);
    assert_eq!(a.ipv6_metric, 30);
    assert_eq!(a.luid, 0x1234);
    assert_eq!(a.transmit_link_speed, 1000);
    assert_eq!(a.receive_link_speed, 2000);
    assert_eq!(a.physical_address, Some(vec![1, 2, 3, 4, 5, 6]));
    assert_eq!(a.oper_status, OperStatus::IfOperStatusUp);
    assert_eq!(a.if_type, IfType::EthernetCsmacd);
    let guid: Vec<u8> = (0..16).collect();
    assert_eq!(a.network_guid.to_vec(), guid);
}

#[test]
fn failure_status_is_not_retried() {
    let mut fetch = TableFetch::new();
    let step = fetch.on_response(QueryResponse { status: 87, required_len: 50000 });
    assert_eq!(step, FetchStep::Failed(87));
    assert_eq!(fetch.buffer_len, 16384);
}

#[test]
fn retries_once_per_overflow() {
    let mut fetch = TableFetch::new();
    let mut calls = 0;
    let answers = [(111, 17000), (111, 18000), (111, 19000), (0, 0)];
    let mut last = FetchStep::Retry;
    for (status, required_len) in answers {
        calls += 1;
        last = fetch.on_response(QueryResponse { status, required_len });
        if last != FetchStep::Retry {
            break;
        }
    }
    assert_eq!(calls, 4);
    assert_eq!(last, FetchStep::Done);
    assert_eq!(fetch.buffer_len, 19000);
}

#[test]
fn unknown_oper_status_fails_whole_table() {
    let mut buf = one_adapter_table(2048);
    put_u32(&mut buf, 104, 42);
    let e = decode_adapters(&buf, BASE).unwrap_err();
    assert_eq!(e.kind, ErrorKind::Decode(DecodeError::UnknownOperStatus(42)));
}

#[test]
fn oversized_physical_address_is_rejected() {
    let mut buf = one_adapter_table(2048);
    put_u32(&mut buf, 88, 9);
    let e = decode_adapters(&buf, BASE).unwrap_err();
    assert_eq!(e.kind, ErrorKind::Decode(DecodeError::BadLength));
}

#[test]
fn invalid_utf8_name_is_rejected() {
    let mut buf = one_adapter_table(2048);
    buf[600] = 0xff;
    let e = decode_adapters(&buf, BASE).unwrap_err();
    assert_eq!(e.kind, ErrorKind::Decode(DecodeError::BadText));
}

#[test]
fn unpaired_surrogate_in_friendly_name_is_rejected() {
    let mut buf = one_adapter_table(2048);
    put_u16(&mut buf, 850, 0xd800);
    let e = decode_adapters(&buf, BASE).unwrap_err();
    assert_eq!(e.kind, ErrorKind::Decode(DecodeError::BadText));
}

#[test]
fn walk_follows_links_in_order() {
    let mut buf = vec![0u8; 96];
    put_u64(&mut buf, 8, BASE + 64);
    put_u64(&mut buf, 72, BASE + 32);
    put_u64(&mut buf, 40, 0);
    let shape = ChainShape { record_len: 32, next_at: 8 };
    let offsets = walk_chain(&buf, BASE, BASE, shape).unwrap();
    assert_eq!(offsets, vec![0, 64, 32]);
}

#[test]
fn walk_of_null_head_is_empty() {
    let buf = vec![0u8; 64];
    let shape = ChainShape { record_len: 32, next_at: 8 };
    assert!(walk_chain(&buf, BASE, 0, shape).unwrap().is_empty());
}

#[test]
fn walk_detects_cycle() {
    let mut buf = vec![0u8; 64];
    put_u64(&mut buf, 8, BASE + 32);
    put_u64(&mut buf, 40, BASE);
    let shape = ChainShape { record_len: 32, next_at: 8 };
    let e = walk_chain(&buf, BASE, BASE, shape).unwrap_err();
    assert_eq!(e.kind, ErrorKind::Decode(DecodeError::Cycle));
}

#[test]
fn walk_rejects_link_outside_buffer() {
    let mut buf = vec![0u8; 64];
    put_u64(&mut buf, 8, BASE + 48);
    let shape = ChainShape { record_len: 32, next_at: 8 };
    let e = walk_chain(&buf, BASE, BASE, shape).unwrap_err();
    assert_eq!(e.kind, ErrorKind::Decode(DecodeError::BadLink));
}

#[test]
fn sockaddr_decodes_v4_and_v6() {
    let mut buf = vec![0u8; 64];
    put_v4(&mut buf, 0, [10, 0, 0, 1]);
    assert_eq!(decode_sockaddr(&buf, BASE, BASE, 16).unwrap(), IpAddress::V4([10, 0, 0, 1]));
    let mut a = [0u8; 16];
    a[15] = 1;
    put_v6(&mut buf, 32, a);
    assert_eq!(decode_sockaddr(&buf, BASE, BASE + 32, 28).unwrap(), IpAddress::V6(a));
}

#[test]
fn sockaddr_rejects_oversized_and_unknown_family() {
    let mut buf = vec![0u8; 256];
    put_v4(&mut buf, 0, [10, 0, 0, 1]);
    let e = decode_sockaddr(&buf, BASE, BASE, 129).unwrap_err();
    assert_eq!(e.kind, ErrorKind::Decode(DecodeError::BadSocketAddress));
    put_u16(&mut buf, 0, 17);
    let e = decode_sockaddr(&buf, BASE, BASE, 16).unwrap_err();
    assert_eq!(e.kind, ErrorKind::Decode(DecodeError::BadSocketAddress));
}
