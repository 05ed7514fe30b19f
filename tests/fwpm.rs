use ipconfig2::error::{DecodeError, Error, ErrorKind};
use ipconfig2::fwpm::{DisplayData, EnumSession, SessionAction, SessionState, SubLayer};
use ipconfig2::guid_to_bytes;

#[test]
fn display_data_keeps_name_and_description() {
    let d = DisplayData::new("clashrs".into(), Some("clash".into()));
    assert_eq!(d.name, "clashrs");
    assert_eq!(d.desc.as_deref(), Some("clash"));
}

#[test]
fn display_data_decodes_utf16() {
    let name: Vec<u16> = "sing-tun".encode_utf16().collect();
    let desc: Vec<u16> = "filter".encode_utf16().collect();
    let d = DisplayData::from_wire(&name, Some(&desc)).unwrap();
    assert_eq!(d.name, "sing-tun");
    assert_eq!(d.desc.as_deref(), Some("filter"));
    let d = DisplayData::from_wire(&name, None).unwrap();
    assert_eq!(d.desc, None);
    let e = DisplayData::from_wire(&[0xdc00], None).unwrap_err();
    assert_eq!(e.kind, ErrorKind::Decode(DecodeError::BadText));
}

#[test]
fn sub_layer_from_block_and_registration() {
    let mut block = vec![0u8; 72];
    for i in 0..16 {
        block[i] = (i * 3) as u8;
    }
    block[32..36].copy_from_slice(&5u32.to_le_bytes());
    let d = DisplayData::new("clashrs".into(), None);
    let l = SubLayer::from_block(&block, d).unwrap();
    assert_eq!(l.sub_layer_key.to_vec(), block[0..16].to_vec());
    assert_eq!(l.flags, 5);
    let r = l.registration();
    assert_eq!(guid_to_bytes(&r.key), l.sub_layer_key);
    assert_eq!(r.weight, u16::MAX);
    assert_eq!(r.flags, 5);
    let short = SubLayer::from_block(&block[..71], DisplayData::new("x".into(), None)).unwrap_err();
    assert_eq!(short.kind, ErrorKind::Decode(DecodeError::BadLength));
}

#[test]
fn session_releases_what_it_opened() {
    let mut s = EnumSession::new();
    assert_eq!(s.on_status(5, false), SessionAction::Finish { close_cursor: false, close_session: false, error: Some(Error::os(5)) });
    assert_eq!(s.state, SessionState::Finished);

    let mut s = EnumSession::new();
    assert_eq!(s.on_status(0, false), SessionAction::CreateCursor);
    assert_eq!(s.on_status(6, false), SessionAction::Finish { close_cursor: false, close_session: true, error: Some(Error::os(6)) });

    let mut s = EnumSession::new();
    assert_eq!(s.on_status(0, false), SessionAction::CreateCursor);
    assert_eq!(s.on_status(0, false), SessionAction::Enumerate);
    assert_eq!(s.on_status(0, true), SessionAction::Finish { close_cursor: true, close_session: true, error: None });

    let mut s = EnumSession::new();
    s.on_status(0, false);
    s.on_status(0, false);
    assert_eq!(s.on_status(0, false), SessionAction::Finish { close_cursor: true, close_session: true, error: Some(Error::os(0)) });
}
