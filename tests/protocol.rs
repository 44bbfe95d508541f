use ip2char::config::{
    CharPeerSection, CommonOptions, Config, InterfaceSection, MidiPeerSection, Peer,
    SockListenPeerSection, SockPeerSection, DEFAULT_BUFFER_SIZE,
};
use ip2char::frame::{encode_frame, FrameDecoder, FrameError, Step};
use ip2char::handler::{next_state, HandlerAction, HandlerEvent, HandlerState};
use ip2char::header::{
    CompressionType, EncryptionType, Header, IntoErrors, HEADER_SIZE, SYNC_MARKER, VERSION,
};
use ip2char::lifecycle::PostCommand;
use ip2char::net::{ipv4, packet_destination, should_forward, Ipv4Net};
use ip2char::transform::{compress, decompress, decrypt, encrypt};

fn ipv4_packet(dst: [u8; 4]) -> Vec<u8> {
    let mut p = vec![0x45u8, 0, 0, 20, 0, 0, 0, 0, 64, 17, 0, 0, 10, 0, 0, 1];
    p.extend_from_slice(&dst);
    p
}

fn common(path: &str, ranges: Vec<Ipv4Net>) -> CommonOptions {
    CommonOptions {
        path: path.to_string(),
        allowedips: ranges,
        compression: None,
        encryption: None,
    }
}

fn net(a: u8, b: u8, c: u8, d: u8, prefix: u8) -> Ipv4Net {
    Ipv4Net::new(ipv4(a, b, c, d), prefix).unwrap()
}

#[test]
fn header_round_trip() {
    let h = Header::new(1234, CompressionType::Gzip, EncryptionType::Off);
    let bytes = h.encode();
    assert_eq!(bytes.len(), HEADER_SIZE);
    let d = Header::from_slice(&bytes).unwrap();
    assert_eq!(d, h);
    assert_eq!(d.packet_length, 1234);
    assert_eq!(d.compression, CompressionType::Gzip);
}

#[test]
fn header_wire_layout() {
    let h = Header::new(0x0102, CompressionType::Zstd, EncryptionType::Off);
    let bytes = h.encode();
    assert_eq!(
        bytes,
        vec![0xac, 0xab, 0xc0, 0xde, 0, 0, 0x02, 0x01, 1, 0, 0, 0, 0, 0, 0, 0]
    );
    assert_eq!(&bytes[..4], &SYNC_MARKER[..]);
    assert_eq!(VERSION, 0);
}

#[test]
fn header_default_is_empty_plain() {
    let h = Header::default();
    assert_eq!(h.packet_length, 0);
    assert_eq!(h.compression, CompressionType::Off);
    assert_eq!(h.encryption, EncryptionType::Off);
    assert_eq!(h.marker, SYNC_MARKER);
}

#[test]
fn header_reserved_bytes_ignored() {
    let mut bytes = Header::new(7, CompressionType::Off, EncryptionType::Off).encode();
    bytes[12] = 0x55;
    let d = Header::from_slice(&bytes).unwrap();
    assert_eq!(d.packet_length, 7);
    assert_eq!(d.reserved, [0u8; 6]);
}

#[test]
fn header_buffer_too_small() {
    let bytes = Header::default().encode();
    assert_eq!(Header::from_slice(&bytes[..15]), Err(IntoErrors::BufferTooSmall));
    assert_eq!(Header::from_slice(&[]), Err(IntoErrors::BufferTooSmall));
}

#[test]
fn header_bad_sync_marker() {
    let mut bytes = Header::default().encode();
    bytes[3] = 0xdf;
    assert_eq!(Header::from_slice(&bytes), Err(IntoErrors::BadSyncMarker));
}

#[test]
fn header_bad_version() {
    let mut bytes = Header::default().encode();
    bytes[4] = 3;
    assert_eq!(Header::from_slice(&bytes), Err(IntoErrors::BadVersion(3)));
}

#[test]
fn header_unknown_compression_byte() {
    let mut bytes = Header::default().encode();
    bytes[8] = 9;
    assert_eq!(Header::from_slice(&bytes), Err(IntoErrors::NoSuchVariant(9)));
}

#[test]
fn header_unknown_encryption_byte() {
    let mut bytes = Header::default().encode();
    bytes[9] = 200;
    assert_eq!(Header::from_slice(&bytes), Err(IntoErrors::NoSuchVariant(200)));
}

#[test]
fn transform_codes() {
    assert_eq!(CompressionType::try_from_u8(2), Ok(CompressionType::ZstdFast));
    assert_eq!(CompressionType::try_from_u8(5), Err(IntoErrors::NoSuchVariant(5)));
    assert_eq!(CompressionType::ZstdSlow.to_u8(), 3);
    assert_eq!(EncryptionType::try_from_u8(1), Err(IntoErrors::NoSuchVariant(1)));
    assert_eq!(EncryptionType::Off.to_u8(), 0);
}

#[test]
fn transform_round_trip() {
    let p = vec![1u8, 2, 3, 250];
    let c = compress(p.clone(), CompressionType::Off).unwrap();
    assert_eq!(decompress(c, CompressionType::Off).unwrap(), p);
    let e = encrypt(p.clone(), EncryptionType::Off).unwrap();
    assert_eq!(decrypt(e, EncryptionType::Off).unwrap(), p);
    for c in [
        CompressionType::Zstd,
        CompressionType::ZstdFast,
        CompressionType::ZstdSlow,
        CompressionType::Gzip,
    ] {
        let packed = compress(p.clone(), c).unwrap();
        assert_ne!(packed, p);
        assert_eq!(decompress(packed, c).unwrap(), p);
    }
    assert_eq!(decompress(vec![1, 2, 3], CompressionType::Gzip), None);
    assert_eq!(decompress(vec![1, 2, 3], CompressionType::Zstd), None);
}

#[test]
fn compressed_frames_round_trip() {
    let packet: Vec<u8> = (0..400u32).map(|i| (i % 7) as u8).collect();
    for c in [
        CompressionType::Off,
        CompressionType::Zstd,
        CompressionType::ZstdFast,
        CompressionType::ZstdSlow,
        CompressionType::Gzip,
    ] {
        let f = encode_frame(packet.clone(), c, EncryptionType::Off).unwrap();
        let h = Header::from_slice(&f).unwrap();
        assert_eq!(h.compression, c);
        assert_eq!(h.packet_length as usize, f.len() - HEADER_SIZE);
        let mut d = FrameDecoder::new(1500);
        let mut offset = 0;
        let mut out = Vec::new();
        while offset < f.len() {
            offset += d.push(&f[offset..]);
            let (got, err) = d.drain();
            assert_eq!(err, None);
            out.extend(got);
        }
        assert_eq!(out, vec![packet.clone()]);
    }
}

#[test]
fn reserved_bytes_zero_on_encode() {
    let mut h = Header::new(5, CompressionType::Off, EncryptionType::Off);
    h.reserved = [1, 2, 3, 4, 5, 6];
    assert_eq!(&h.encode()[10..], &[0u8; 6]);
}

#[test]
fn frame_encoding() {
    let f = encode_frame(vec![9, 8, 7], CompressionType::Off, EncryptionType::Off).unwrap();
    assert_eq!(f.len(), HEADER_SIZE + 3);
    assert_eq!(&f[16..], &[9, 8, 7]);
    assert_eq!(Header::from_slice(&f).unwrap().packet_length, 3);
    assert_eq!(
        encode_frame(vec![0u8; 65536], CompressionType::Off, EncryptionType::Off),
        Err(FrameError::PayloadTooLarge)
    );
}

#[test]
fn largest_frame_round_trip() {
    let payload: Vec<u8> = (0..65535u32).map(|i| (i % 251) as u8).collect();
    let f = encode_frame(payload.clone(), CompressionType::Off, EncryptionType::Off).unwrap();
    assert_eq!(Header::from_slice(&f).unwrap().packet_length, 65535);
    let mut d = FrameDecoder::new(65535);
    assert_eq!(d.push(&f), HEADER_SIZE);
    assert_eq!(d.push(&f[HEADER_SIZE..]), 65535);
    let (out, err) = d.drain();
    assert_eq!(out, vec![payload]);
    assert_eq!(err, None);
    assert_eq!(d.room(), HEADER_SIZE);
}

#[test]
fn decoder_resyncs_past_junk() {
    let junk = vec![0x00u8, 0xac, 0xab, 0x11, 0x22, 0xc0, 0xde, 0x33];
    let packets = vec![ipv4_packet([10, 0, 0, 5]), vec![1, 2, 3], vec![]];
    let mut stream = junk.clone();
    for p in &packets {
        stream.extend(encode_frame(p.clone(), CompressionType::Off, EncryptionType::Off).unwrap());
    }
    let mut d = FrameDecoder::new(1500);
    let mut skipped = 0;
    let mut out = Vec::new();
    let mut offset = 0;
    loop {
        offset += d.push(&stream[offset..]);
        match d.step() {
            Step::Skipped => skipped += 1,
            Step::Packet(p) => out.push(p),
            Step::NeedMore => {
                if offset == stream.len() {
                    break;
                }
            }
            Step::Fatal(e) => panic!("unexpected {:?}", e),
        }
    }
    assert_eq!(skipped, junk.len());
    assert_eq!(out, packets);
}

#[test]
fn decoder_drain_in_pieces() {
    let a = encode_frame(vec![1, 2, 3, 4], CompressionType::Off, EncryptionType::Off).unwrap();
    let b = encode_frame(vec![5], CompressionType::Off, EncryptionType::Off).unwrap();
    let mut stream = vec![0xffu8, 0xee];
    stream.extend(a);
    stream.extend(b);
    let mut d = FrameDecoder::new(64);
    assert_eq!(d.push(&stream[..10]), 10);
    let (first, err) = d.drain();
    assert!(first.is_empty());
    assert_eq!(err, None);
    let mut offset = 10;
    let mut out = Vec::new();
    while offset < stream.len() {
        offset += d.push(&stream[offset..]);
        let (got, err) = d.drain();
        assert_eq!(err, None);
        out.extend(got);
    }
    assert_eq!(out, vec![vec![1, 2, 3, 4], vec![5]]);
}

#[test]
fn decoder_oversized_length_is_fatal() {
    let h = Header::new(100, CompressionType::Off, EncryptionType::Off).encode();
    let mut d = FrameDecoder::new(64);
    assert_eq!(d.push(&h), HEADER_SIZE);
    assert_eq!(d.room(), 0);
    match d.step() {
        Step::Fatal(e) => assert_eq!(e, FrameError::TooLarge(100)),
        other => panic!("unexpected {:?}", other),
    }
    let (out, err) = d.drain();
    assert!(out.is_empty());
    assert_eq!(err, Some(FrameError::TooLarge(100)));
}

#[test]
fn decoder_unknown_variant_is_fatal() {
    let mut h = Header::default().encode();
    h[8] = 7;
    let mut d = FrameDecoder::new(64);
    d.push(&h);
    let (out, err) = d.drain();
    assert!(out.is_empty());
    assert_eq!(err, Some(FrameError::Decode(IntoErrors::NoSuchVariant(7))));
}

#[test]
fn decoder_unsupported_transform_is_fatal() {
    let mut f = encode_frame(vec![1, 2], CompressionType::Off, EncryptionType::Off).unwrap();
    f[8] = 4;
    let mut d = FrameDecoder::new(64);
    assert_eq!(d.push(&f), HEADER_SIZE);
    assert_eq!(d.push(&f[HEADER_SIZE..]), 2);
    let (_, err) = d.drain();
    assert_eq!(err, Some(FrameError::TransformFailed));
}

#[test]
fn decoder_buffer_is_bounded() {
    let mut d = FrameDecoder::new(4);
    assert_eq!(d.room(), HEADER_SIZE);
    let frame = encode_frame(vec![1, 2, 3, 4], CompressionType::Off, EncryptionType::Off).unwrap();
    let mut data = frame.clone();
    data.extend_from_slice(&[9u8; 30]);
    assert_eq!(d.push(&data), HEADER_SIZE);
    assert_eq!(d.room(), 4);
    assert_eq!(d.push(&data[HEADER_SIZE..]), 4);
    assert_eq!(d.room(), 0);
    assert_eq!(d.push(&data[20..]), 0);
    match d.step() {
        Step::Packet(p) => assert_eq!(p, vec![1, 2, 3, 4]),
        other => panic!("unexpected {:?}", other),
    }
    let mut zero = FrameDecoder::new(0);
    assert_eq!(zero.push(&[0xacu8; 40]), HEADER_SIZE);
    assert_eq!(zero.room(), 0);
}

#[test]
fn address_ranges() {
    let n = net(10, 0, 0, 0, 24);
    assert!(n.contains(ipv4(10, 0, 0, 5)));
    assert!(!n.contains(ipv4(10, 0, 1, 5)));
    assert!(net(0, 0, 0, 0, 0).contains(ipv4(192, 168, 1, 5)));
    assert!(net(192, 168, 1, 5, 32).contains(ipv4(192, 168, 1, 5)));
    assert!(Ipv4Net::new(0, 33).is_none());
    assert_eq!(ipv4(10, 0, 0, 5), 0x0a00_0005);
    assert_eq!(packet_destination(&ipv4_packet([10, 0, 0, 5])), Some(0x0a00_0005));
    assert_eq!(packet_destination(&[0x60u8; 40]), None);
    assert_eq!(packet_destination(&[0x45u8; 19]), None);
}

#[test]
fn filtering_enabled_drops_outside_range() {
    let peer = Peer::Sock(SockPeerSection { common: common("10.1.1.1:1", vec![net(10, 0, 0, 0, 24)]) });
    let inside = ipv4_packet([10, 0, 0, 5]);
    let outside = ipv4_packet([192, 168, 1, 5]);
    let f = peer.prepare_outbound(true, inside.clone()).unwrap().unwrap();
    assert_eq!(&f[16..], &inside[..]);
    assert_eq!(peer.prepare_outbound(true, outside).unwrap(), None);
}

#[test]
fn filtering_disabled_forwards_everything() {
    let peer = Peer::Sock(SockPeerSection { common: common("10.1.1.1:1", vec![net(10, 0, 0, 0, 24)]) });
    let inside = ipv4_packet([10, 0, 0, 5]);
    let outside = ipv4_packet([192, 168, 1, 5]);
    assert!(peer.prepare_outbound(false, inside).unwrap().is_some());
    let f = peer.prepare_outbound(false, outside.clone()).unwrap().unwrap();
    assert_eq!(&f[16..], &outside[..]);
}

#[test]
fn filter_without_ranges_forwards() {
    assert!(should_forward(&[], true, &ipv4_packet([1, 2, 3, 4])));
    assert!(!should_forward(&[net(10, 0, 0, 0, 8)], true, &[1, 2, 3]));
}

#[test]
fn peer_accessors() {
    let mut c = common("/dev/ttyS0", vec![net(10, 0, 0, 0, 24)]);
    c.compression = Some(CompressionType::Zstd);
    let peer = Peer::Char(CharPeerSection { common: c, speed: Some(115200) });
    assert_eq!(peer.path(), "/dev/ttyS0");
    assert_eq!(peer.allowed_ips().len(), 1);
    assert_eq!(peer.compression(), CompressionType::Zstd);
    assert_eq!(peer.encryption(), EncryptionType::Off);
    assert_eq!(peer.common().path, "/dev/ttyS0");
    let packet = ipv4_packet([10, 0, 0, 1]);
    let f = peer.prepare_outbound(true, packet.clone()).unwrap().unwrap();
    assert_eq!(Header::from_slice(&f).unwrap().compression, CompressionType::Zstd);
    assert_eq!(decompress(f[HEADER_SIZE..].to_vec(), CompressionType::Zstd).unwrap(), packet);
}

#[test]
fn all_peers_in_kind_order() {
    let config = Config {
        interface: InterfaceSection {
            address: net(10, 0, 0, 1, 24),
            name: "tun0".to_string(),
            ip_filtering: None,
            buffer: None,
            post_up: None,
            post_down: None,
        },
        peer_char: vec![CharPeerSection { common: common("/dev/ttyS0", vec![]), speed: None }],
        peer_sock: vec![SockPeerSection { common: common("10.0.0.2:9000", vec![]) }],
        peer_sock_listen: vec![
            SockListenPeerSection { common: common("0.0.0.0:9000", vec![]) },
            SockListenPeerSection { common: common("0.0.0.0:9001", vec![]) },
        ],
        peer_midi: vec![MidiPeerSection { common: common("/dev/midi1", vec![]) }],
    };
    let peers = config.get_all_peers();
    let paths: Vec<&str> = peers.iter().map(|p| p.path()).collect();
    assert_eq!(
        paths,
        vec!["/dev/ttyS0", "10.0.0.2:9000", "0.0.0.0:9000", "0.0.0.0:9001", "/dev/midi1"]
    );
    assert!(matches!(peers[0], Peer::Char(_)));
    assert!(matches!(peers[1], Peer::Sock(_)));
    assert!(matches!(peers[3], Peer::SockListen(_)));
    assert!(matches!(peers[4], Peer::Midi(_)));
    assert!(config.interface.filtering_enabled());
    assert_eq!(config.interface.buffer_size(), DEFAULT_BUFFER_SIZE);
}

#[test]
fn interface_settings_overrides() {
    let s = InterfaceSection {
        address: net(10, 0, 0, 1, 24),
        name: "tun0".to_string(),
        ip_filtering: Some(false),
        buffer: Some(1500),
        post_up: None,
        post_down: None,
    };
    assert!(!s.filtering_enabled());
    assert_eq!(s.buffer_size(), 1500);
}

#[test]
fn sock_listen_peer_receives_one_packet() {
    let peer = Peer::SockListen(SockListenPeerSection {
        common: common("127.0.0.1:9000", vec![net(0, 0, 0, 0, 0)]),
    });
    let payload = ipv4_packet([10, 0, 0, 9]);
    let frame = encode_frame(payload.clone(), CompressionType::Off, EncryptionType::Off).unwrap();
    let mut d = FrameDecoder::new(1500);
    assert_eq!(d.push(&frame), HEADER_SIZE);
    assert_eq!(d.push(&frame[HEADER_SIZE..]), frame.len() - HEADER_SIZE);
    let (out, err) = d.drain();
    assert_eq!(out, vec![payload.clone()]);
    assert_eq!(err, None);
    assert_eq!(peer.compression(), CompressionType::Off);
    assert!(peer.prepare_outbound(true, payload).unwrap().is_some());
}

#[test]
fn post_commands_run_once() {
    let mut pc = PostCommand::new(Some("ip link set up".to_string()), Some("ip link set down".to_string()));
    assert_eq!(pc.take_post_up().as_deref(), Some("ip link set up"));
    assert_eq!(pc.take_post_up(), None);
    assert_eq!(pc.take_post_down().as_deref(), Some("ip link set down"));
    assert_eq!(pc.take_post_down(), None);
}

#[test]
fn handler_lag_keeps_running() {
    let (s, a) = next_state(HandlerState::Idle, HandlerEvent::Started);
    assert_eq!((s, a), (HandlerState::Running, HandlerAction::Continue));
    let (s, a) = next_state(s, HandlerEvent::Lagged(3));
    assert_eq!((s, a), (HandlerState::Running, HandlerAction::Warn(3)));
    let (s, a) = next_state(s, HandlerEvent::Corrupted(FrameError::TooLarge(9000)));
    assert_eq!((s, a), (HandlerState::Closed, HandlerAction::Stop));
    let (s, a) = next_state(s, HandlerEvent::Started);
    assert_eq!((s, a), (HandlerState::Closed, HandlerAction::Stop));
}
