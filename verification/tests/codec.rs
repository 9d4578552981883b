use ndn_mobile::bridge::codec::{patch_nonce, NdnCodec, NdntsReassembler};
use ndn_mobile::bridge::types::NdnError;
use ndn_mobile::tlv::{parse_tlv_header, parse_varnumber, read_be, tlv_packet_end};

#[test]
fn ndnts_frame_reassemble_roundtrip() {
    let mut packet: Vec<u8> = vec![0x06, 253, 0x00, 0xC8];
    packet.extend((0..200).map(|i| (i % 251) as u8));
    let total_len = packet.len();

    let frags = NdnCodec::ndnts_frame(packet.clone(), 64);
    assert!(frags.len() > 1, "must fragment");
    assert!(frags.iter().all(|f| f.len() <= 64));

    let mut reassembler = NdntsReassembler::new();
    let mut got = None;
    for f in frags {
        if let Some(pkt) = reassembler.feed(f) {
            got = Some(pkt);
        }
    }
    let got = got.expect("reassembled a complete packet");
    assert_eq!(got.len(), total_len);
    assert_eq!(got, packet);
}

#[test]
fn ndnts_unfragmented_passthrough() {
    let small = vec![0x05, 0x03, 1, 2, 3];
    let frags = NdnCodec::ndnts_frame(small.clone(), 64);
    assert_eq!(frags, vec![small.clone()]);
    // No header byte on an unfragmented packet: the reassembler returns it as it is.
    let mut reassembler = NdntsReassembler::new();
    assert_eq!(reassembler.feed(small.clone()), Some(small));
}

/// An Interest for /ndn/ble/test with the nonce 00 00 00 00.
fn built_interest() -> Vec<u8> {
    let mut name: Vec<u8> = vec![0x07, 14];
    for part in ["ndn", "ble", "test"] {
        name.push(0x08);
        name.push(part.len() as u8);
        name.extend(part.bytes());
    }
    name[1] = (name.len() - 2) as u8;
    let mut wire = vec![0x05, (name.len() + 6) as u8];
    wire.extend(&name);
    wire.extend([0x0A, 0x04, 0, 0, 0, 0]);
    wire
}

#[test]
fn interest_encode_decode_via_codec() {
    let built = built_interest();
    let wire = NdnCodec::encode_interest("/ndn/ble/test", Some(built.clone()), 0x11223344).unwrap();
    assert_eq!(wire.len(), built.len());
    assert_eq!(wire[..wire.len() - 4], built[..built.len() - 4]);
    assert_eq!(wire[wire.len() - 4..], [0x11, 0x22, 0x33, 0x44]);
    assert_eq!(tlv_packet_end(&wire), Some(wire.len()));
}

#[test]
fn fragment_headers_count_up() {
    let packet: Vec<u8> = (0..10).collect();
    let frags = NdnCodec::ndnts_frame(packet, 4);
    assert_eq!(
        frags,
        vec![vec![0x80, 0, 1, 2], vec![1, 3, 4, 5], vec![2, 6, 7, 8], vec![3, 9]]
    );
}

#[test]
fn fragment_counter_wraps_at_128() {
    let packet = vec![7u8; 130];
    let frags = NdnCodec::ndnts_frame(packet, 2);
    assert_eq!(frags.len(), 130);
    assert_eq!(frags[0][0], 0x80);
    assert_eq!(frags[127][0], 127);
    assert_eq!(frags[128][0], 0);
    assert_eq!(frags[129][0], 1);
}

#[test]
fn tiny_frames_carry_one_byte_each() {
    assert_eq!(
        NdnCodec::ndnts_frame(vec![9, 8], 0),
        vec![vec![0x80, 9], vec![1, 8]]
    );
    assert_eq!(
        NdnCodec::ndnts_frame(vec![9, 8], 1),
        vec![vec![0x80, 9], vec![1, 8]]
    );
    assert_eq!(NdnCodec::ndnts_frame(Vec::new(), 0), vec![Vec::<u8>::new()]);
}

#[test]
fn reassembler_waits_resets_and_ignores_nothing() {
    let mut r = NdntsReassembler::default();
    assert_eq!(r.feed(Vec::new()), None);
    assert_eq!(r.feed(vec![0x80, 0x06, 0x03, 1]), None);
    r.reset();
    // After a reset a continuation is taken for a whole packet.
    assert_eq!(r.feed(vec![0x01, 2, 3]), Some(vec![0x01, 2, 3]));
    assert_eq!(r.feed(vec![0x80, 0x06, 0x03, 1]), None);
    assert_eq!(r.feed(vec![0x01, 2, 3]), Some(vec![0x06, 0x03, 1, 2, 3]));
    // A fresh first fragment drops what was there.
    assert_eq!(r.feed(vec![0x80, 0x06, 0x05, 1]), None);
    assert_eq!(r.feed(vec![0x80, 0x06, 0x01, 9]), Some(vec![0x06, 0x01, 9]));
}

#[test]
fn nonce_is_found_behind_a_name_that_looks_like_one() {
    // The name holds the bytes 0A 04; only the Nonce element changes.
    let mut wire = vec![
        0x05, 0x10, 0x07, 0x08, 0x08, 0x06, 0x0A, 0x04, 1, 2, 3, 4, 0x0A, 0x04, 0, 0, 0, 0,
    ];
    let before = wire.clone();
    patch_nonce(&mut wire, 0xAABBCCDD);
    assert_eq!(wire[..14], before[..14]);
    assert_eq!(wire[14..], [0xAA, 0xBB, 0xCC, 0xDD]);
    patch_nonce(&mut wire, 1);
    assert_eq!(wire[14..], [0, 0, 0, 1]);
}

#[test]
fn nonce_patch_leaves_other_packets_alone() {
    let mut data = vec![0x06, 0x06, 0x0A, 0x04, 0, 0, 0, 0];
    patch_nonce(&mut data, 7);
    assert_eq!(data, vec![0x06, 0x06, 0x0A, 0x04, 0, 0, 0, 0]);
    let mut plain = vec![0x05, 0x02, 0x07, 0x00];
    patch_nonce(&mut plain, 7);
    assert_eq!(plain, vec![0x05, 0x02, 0x07, 0x00]);
}

#[test]
fn nonce_header_is_the_two_bytes() {
    // Type or length in a longer form is no nonce.
    let long_length = vec![0x05, 0x08, 0x0A, 0xFD, 0x00, 0x04, 0, 0, 0, 0];
    let mut wire = long_length.clone();
    patch_nonce(&mut wire, 0xAABBCCDD);
    assert_eq!(wire, long_length);
    let long_type = vec![0x05, 0x08, 0xFD, 0x00, 0x0A, 0x04, 0, 0, 0, 0];
    let mut wire = long_type.clone();
    patch_nonce(&mut wire, 0xAABBCCDD);
    assert_eq!(wire, long_type);
    // One that follows is found.
    let mut wire = vec![0x05, 0x0E, 0x0A, 0xFD, 0x00, 0x04, 0, 0, 0, 0, 0x0A, 0x04, 0, 0, 0, 0];
    patch_nonce(&mut wire, 0xAABBCCDD);
    assert_eq!(wire[..12], [0x05, 0x0E, 0x0A, 0xFD, 0x00, 0x04, 0, 0, 0, 0, 0x0A, 0x04]);
    assert_eq!(wire[12..], [0xAA, 0xBB, 0xCC, 0xDD]);
}

#[test]
fn codec_errors() {
    assert_eq!(
        NdnCodec::encode_interest("no name", None, 1),
        Err(NdnError::InvalidName { name: "no name".to_string() })
    );
    assert_eq!(
        NdnCodec::decode_data(Err("bad type".to_string())),
        Err(NdnError::Engine { msg: "bad type".to_string() })
    );
    let data = NdnCodec::decode_data(Ok(("/a".to_string(), None))).unwrap();
    assert_eq!((data.name.as_str(), data.content.len()), ("/a", 0));
    assert_eq!(
        NdnCodec::unwrap_lp_packet(Ok(None)),
        Err(NdnError::Engine { msg: "LpPacket contains no fragment".to_string() })
    );
    assert_eq!(
        NdnCodec::unwrap_lp_packet(Err("short".to_string())),
        Err(NdnError::Engine { msg: "short".to_string() })
    );
    assert_eq!(NdnCodec::unwrap_lp_packet(Ok(Some(vec![6, 0]))), Ok(vec![6, 0]));
}

#[test]
fn varnumbers() {
    assert_eq!(parse_varnumber(&[]), None);
    assert_eq!(parse_varnumber(&[252]), Some((252, 1)));
    assert_eq!(parse_varnumber(&[253, 1]), None);
    assert_eq!(parse_varnumber(&[253, 1, 2]), Some((0x0102, 3)));
    assert_eq!(parse_varnumber(&[254, 1, 2, 3, 4]), Some((0x01020304, 5)));
    assert_eq!(
        parse_varnumber(&[255, 1, 2, 3, 4, 5, 6, 7, 8]),
        Some((0x0102030405060708, 9))
    );
    assert_eq!(parse_varnumber(&[255, 1, 2, 3, 4, 5, 6, 7]), None);
    assert_eq!(read_be(&[0, 1, 2, 0], 1, 3), 0x0102);
    assert_eq!(parse_tlv_header(&[6, 253, 0, 200]), Some((6, 4, 200)));
    assert_eq!(parse_tlv_header(&[6]), None);
    assert_eq!(tlv_packet_end(&[6, 2, 1]), None);
    assert_eq!(tlv_packet_end(&[6, 2, 1, 1, 9]), Some(4));
}
