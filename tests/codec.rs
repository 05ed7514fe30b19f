use ipconfig2::adapter::{IfType, OperStatus};
use ipconfig2::error::{DecodeError, ErrorKind};
use ipconfig2::{bytes_to_guid, guid_to_bytes, Guid};

#[test]
fn guid_encodes_fields_least_significant_byte_first() {
    let g = Guid { data1: 0x1234_5678, data2: 0x9abc, data3: 0xdef0, data4: [1, 2, 3, 4, 5, 6, 7, 8] };
    let b = guid_to_bytes(&g);
    assert_eq!(b, [0x78, 0x56, 0x34, 0x12, 0xbc, 0x9a, 0xf0, 0xde, 1, 2, 3, 4, 5, 6, 7, 8]);
}

#[test]
fn guid_round_trips_both_ways() {
    let b: [u8; 16] = [9, 8, 7, 6, 5, 4, 3, 2, 1, 0, 0xff, 0xee, 0xdd, 0xcc, 0xbb, 0xaa];
    let g = bytes_to_guid(b);
    assert_eq!(g.data1, 0x0607_0809);
    assert_eq!(g.data2, 0x0405);
    assert_eq!(g.data3, 0x0203);
    assert_eq!(guid_to_bytes(&g), b);
    let h = Guid { data1: u32::MAX, data2: 0, data3: 1, data4: [0; 8] };
    assert_eq!(bytes_to_guid(guid_to_bytes(&h)), h);
}

#[test]
fn curated_if_types_decode_to_their_variant() {
    assert_eq!(IfType::from_code(1), IfType::Other);
    assert_eq!(IfType::from_code(6), IfType::EthernetCsmacd);
    assert_eq!(IfType::from_code(9), IfType::Iso88025Tokenring);
    assert_eq!(IfType::from_code(23), IfType::Ppp);
    assert_eq!(IfType::from_code(24), IfType::SoftwareLoopback);
    assert_eq!(IfType::from_code(37), IfType::Atm);
    assert_eq!(IfType::from_code(71), IfType::Ieee80211);
    assert_eq!(IfType::from_code(131), IfType::Tunnel);
    assert_eq!(IfType::from_code(144), IfType::Ieee1394);
}

#[test]
fn unknown_if_types_are_unsupported_not_other() {
    for code in [0u32, 2, 5, 7, 53, 132, 243, u32::MAX] {
        assert_eq!(IfType::from_code(code), IfType::Unsupported);
        assert_ne!(IfType::from_code(code), IfType::Other);
    }
}

#[test]
fn oper_status_codes_decode() {
    assert_eq!(OperStatus::from_code(1).unwrap(), OperStatus::IfOperStatusUp);
    assert_eq!(OperStatus::from_code(2).unwrap(), OperStatus::IfOperStatusDown);
    assert_eq!(OperStatus::from_code(7).unwrap(), OperStatus::IfOperStatusLowerLayerDown);
}

#[test]
fn unknown_oper_status_is_a_decode_error() {
    let e = OperStatus::from_code(8).unwrap_err();
    assert_eq!(e.kind, ErrorKind::Decode(DecodeError::UnknownOperStatus(8)));
    assert!(OperStatus::from_code(0).is_err());
}
