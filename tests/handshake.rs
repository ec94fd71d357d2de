use shoes::header::{encode_header, server_header_step, HeaderError, HeaderStep};
use shoes::location::{write_location_to_vec, Address, NetLocation};
use shoes::shadowsocks::{ShadowsocksCipher, ShadowsocksTcpHandler};

fn example_org() -> NetLocation {
    NetLocation::from_hostname(b"example.org".to_vec(), 443).unwrap()
}

/// Feeds the header to the server step by step, giving it exactly the bytes it
/// asks for, and returns the step it ends on and the largest request it made.
fn serve(wire: &[u8], aead2022: bool) -> (HeaderStep, usize) {
    let mut buf: Vec<u8> = Vec::new();
    let mut largest = 0;
    loop {
        match server_header_step(&buf, aead2022) {
            HeaderStep::NeedMore(n) => {
                assert!(n > buf.len());
                largest = largest.max(n);
                if n > wire.len() {
                    return (HeaderStep::NeedMore(n), largest);
                }
                buf.extend_from_slice(&wire[buf.len()..n]);
            }
            other => return (other, largest),
        }
    }
}

#[test]
fn encodes_ipv4_location() {
    let loc = NetLocation::from_ipv4([1, 2, 3, 4], 80);
    assert_eq!(write_location_to_vec(&loc), vec![1, 1, 2, 3, 4, 0, 80]);
}

#[test]
fn encodes_hostname_location() {
    let mut expected = vec![3, 11];
    expected.extend_from_slice(b"example.org");
    expected.extend_from_slice(&[1, 187]);
    assert_eq!(write_location_to_vec(&example_org()), expected);
}

#[test]
fn encodes_ipv6_location() {
    let mut octets = [0u8; 16];
    octets[15] = 1;
    let loc = NetLocation::from_ipv6(octets, 8080);
    let bytes = write_location_to_vec(&loc);
    assert_eq!(bytes.len(), 19);
    assert_eq!(bytes[0], 4);
    assert_eq!(bytes[16], 1);
    assert_eq!(&bytes[17..], &[0x1f, 0x90]);
}

#[test]
fn hostname_longer_than_255_is_refused() {
    assert!(NetLocation::from_hostname(vec![b'a'; 256], 1).is_none());
    assert!(NetLocation::from_hostname(vec![b'a'; 255], 1).is_some());
}

#[test]
fn empty_buffer_asks_for_one_byte() {
    assert!(matches!(server_header_step(&Vec::new(), true), HeaderStep::NeedMore(1)));
}

#[test]
fn unknown_address_type_is_invalid() {
    assert!(matches!(
        server_header_step(&vec![2, 0, 0], false),
        HeaderStep::Invalid(HeaderError::UnknownAddressType(2))
    ));
}

#[test]
fn hostname_needs_its_length_byte_first() {
    assert!(matches!(server_header_step(&vec![3], false), HeaderStep::NeedMore(2)));
    assert!(matches!(server_header_step(&vec![3, 11], false), HeaderStep::NeedMore(15)));
}

#[test]
fn legacy_header_round_trip_stops_at_location() {
    let loc = example_org();
    let mut wire = encode_header(&loc, None);
    let header_len = wire.len();
    wire.extend_from_slice(b"GET / HTTP/1.1");
    let (step, largest) = serve(&wire, false);
    assert!(largest <= header_len);
    match step {
        HeaderStep::Complete { location, header_len: n } => {
            assert_eq!(n, header_len);
            assert_eq!(write_location_to_vec(&location), write_location_to_vec(&loc));
        }
        other => panic!("unexpected {:?}", other),
    }
}

#[test]
fn legacy_header_has_no_padding_block() {
    let loc = NetLocation::from_ipv4([10, 0, 0, 1], 22);
    let mut wire = write_location_to_vec(&loc);
    wire.extend_from_slice(&[0xff, 0xff, 0xff]);
    match server_header_step(&wire, false) {
        HeaderStep::Complete { header_len, .. } => assert_eq!(header_len, 7),
        other => panic!("unexpected {:?}", other),
    }
}

#[test]
fn aead2022_padding_is_consumed_exactly() {
    let loc = example_org();
    let padding = vec![7u8; 5];
    let mut wire = encode_header(&loc, Some(&padding));
    let location_len = write_location_to_vec(&loc).len();
    assert_eq!(&wire[location_len..location_len + 2], &[0, 5]);
    let header_len = wire.len();
    assert_eq!(header_len, location_len + 2 + 5);
    wire.extend_from_slice(b"data");
    let (step, largest) = serve(&wire, true);
    assert_eq!(largest, header_len);
    match step {
        HeaderStep::Complete { location, header_len: n } => {
            assert_eq!(n, header_len);
            assert_eq!(location.port(), 443);
            assert_eq!(location.hostname().unwrap(), &b"example.org".to_vec());
        }
        other => panic!("unexpected {:?}", other),
    }
}

#[test]
fn aead2022_zero_padding_is_valid() {
    let loc = NetLocation::from_ipv4([127, 0, 0, 1], 1080);
    let wire = encode_header(&loc, Some(&Vec::new()));
    assert_eq!(wire.len(), 9);
    assert_eq!(&wire[7..], &[0, 0]);
    match server_header_step(&wire, true) {
        HeaderStep::Complete { header_len, .. } => assert_eq!(header_len, 9),
        other => panic!("unexpected {:?}", other),
    }
}

#[test]
fn aead2022_largest_padding_is_valid() {
    let loc = NetLocation::from_ipv4([127, 0, 0, 1], 1080);
    let wire = encode_header(&loc, Some(&vec![1u8; 900]));
    assert_eq!(&wire[7..9], &[3, 132]);
    match server_header_step(&wire, true) {
        HeaderStep::Complete { header_len, .. } => assert_eq!(header_len, 909),
        other => panic!("unexpected {:?}", other),
    }
}

#[test]
fn padding_length_901_is_rejected_before_reading_padding() {
    let loc = NetLocation::from_ipv4([127, 0, 0, 1], 1080);
    let mut wire = write_location_to_vec(&loc);
    wire.extend_from_slice(&[3, 133]);
    assert!(matches!(
        server_header_step(&wire, true),
        HeaderStep::Invalid(HeaderError::PaddingTooLong(901))
    ));
    let mut wire = write_location_to_vec(&loc);
    wire.extend_from_slice(&[0xff, 0xff]);
    assert!(matches!(
        server_header_step(&wire, true),
        HeaderStep::Invalid(HeaderError::PaddingTooLong(65535))
    ));
}

#[test]
fn aead2022_waits_for_padding_length() {
    let loc = NetLocation::from_ipv4([127, 0, 0, 1], 1080);
    let wire = write_location_to_vec(&loc);
    assert!(matches!(server_header_step(&wire, true), HeaderStep::NeedMore(9)));
}

#[test]
fn aead2022_end_to_end_example_org() {
    let cipher = ShadowsocksCipher::from_name("aead2022-blake3-aes-256-gcm").unwrap();
    let key = vec![0x42u8; cipher.key_len()];
    let handler = ShadowsocksTcpHandler::new_aead2022("aead2022-blake3-aes-256-gcm", &key);
    let loc = example_org();
    let header = handler.client_header(&loc);
    let encoded = write_location_to_vec(&loc);
    assert_eq!(&header[..encoded.len()], &encoded[..]);
    let declared = u16::from_be_bytes([header[encoded.len()], header[encoded.len() + 1]]) as usize;
    assert!((1..=900).contains(&declared));
    assert_eq!(header.len(), encoded.len() + 2 + declared);
    let mut wire = header.clone();
    wire.extend_from_slice(b"first application byte");
    let (step, _) = serve(&wire, handler.is_aead2022());
    match step {
        HeaderStep::Complete { location, header_len } => {
            assert_eq!(header_len, header.len());
            assert_eq!(wire[header_len], b'f');
            assert!(matches!(location.address(), Address::Hostname(h) if h == b"example.org"));
            assert_eq!(location.port(), 443);
        }
        other => panic!("unexpected {:?}", other),
    }
}

#[test]
fn legacy_client_header_is_location_alone() {
    let handler = ShadowsocksTcpHandler::new("aes-256-gcm", "secret");
    let loc = example_org();
    assert_eq!(handler.client_header(&loc), write_location_to_vec(&loc));
    assert!(!handler.is_aead2022());
    assert_eq!(handler.replay_window_secs(), None);
    assert_eq!(handler.secret(), &b"secret".to_vec());
}

#[test]
fn client_padding_is_random() {
    let handler = ShadowsocksTcpHandler::new_aead2022("2022-blake3-aes-128-gcm", &[1u8; 16]);
    assert_eq!(handler.replay_window_secs(), Some(60));
    let loc = NetLocation::from_ipv4([1, 1, 1, 1], 53);
    let mut lengths = Vec::new();
    let mut nonzero_padding = false;
    for _ in 0..16 {
        let header = handler.client_header(&loc);
        let declared = u16::from_be_bytes([header[7], header[8]]) as usize;
        assert!((1..=900).contains(&declared));
        assert_eq!(header.len(), 9 + declared);
        nonzero_padding |= header[9..].iter().any(|b| *b != 0);
        lengths.push(declared);
    }
    assert!(nonzero_padding);
    assert!(lengths.iter().any(|l| *l != lengths[0]));
}

#[test]
fn cipher_table() {
    assert_eq!(ShadowsocksCipher::from_name("aes-128-gcm"), Some(ShadowsocksCipher::Aes128Gcm));
    assert_eq!(ShadowsocksCipher::from_name("aes-128-gcm").unwrap().key_len(), 16);
    assert_eq!(ShadowsocksCipher::from_name("chacha20-ietf-poly1305").unwrap().salt_len(), 32);
    assert_eq!(
        ShadowsocksCipher::from_name("2022-blake3-aes-256-gcm"),
        Some(ShadowsocksCipher::Blake3Aes256Gcm)
    );
    assert_eq!(ShadowsocksCipher::from_name("rc4-md5"), None);
}
