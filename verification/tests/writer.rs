use ip2char::compression::CompressionError;
use ip2char::config::{CharPeerSection, IpNetwork, Peer, SockListenPeerSection};
use ip2char::packet_handling::{handle_packet_from_kernel, Ingress, Ipv4Packet};
use ip2char::streams::{
    encode_frame, frame_packet, on_bus_event, write_packet, BusEvent, StreamReader, WriterAction,
    SCRATCH_SIZE,
};
use ip2char::types::CompressionType;

fn v4_packet(destination: [u8; 4], payload_len: usize) -> Vec<u8> {
    let total = (20 + payload_len) as u16;
    let mut p = vec![0x45, 0x00];
    p.extend_from_slice(&total.to_be_bytes());
    p.extend_from_slice(&[0, 0, 0, 0, 64, 17, 0, 0]);
    p.extend_from_slice(&[10, 0, 0, 1]);
    p.extend_from_slice(&destination);
    p.extend((0..payload_len).map(|i| (i % 13) as u8));
    p
}

fn parsed(data: &[u8]) -> Ipv4Packet {
    match handle_packet_from_kernel(data) {
        Ingress::Publish(p) => p,
        other => panic!("not published: {:?}", other),
    }
}

fn listener(compression: Option<CompressionType>) -> Peer {
    Peer::SockListen(SockListenPeerSection {
        path: "0.0.0.0:4000".to_string(),
        allowedips: vec![IpNetwork::v4(0x0a000000, 24).unwrap()],
        compression,
        encryption: None,
    })
}

#[test]
fn allowed_packet_passes_through_verbatim() {
    let data = v4_packet([10, 0, 0, 5], 80);
    let action = write_packet(&parsed(&data), &listener(None));
    let mut expected = vec![0xac, 0xab, 0xc0, 0xde, 0, 0, 100, 0, 0, 0, 0, 0, 0, 0, 0, 0];
    expected.extend_from_slice(&data);
    assert_eq!(action, WriterAction::Write(expected));
}

#[test]
fn packet_for_another_block_is_discarded() {
    let data = v4_packet([192, 168, 1, 1], 80);
    assert_eq!(write_packet(&parsed(&data), &listener(None)), WriterAction::Discard);
    assert_eq!(
        on_bus_event(&BusEvent::Packet(parsed(&data)), &listener(Some(CompressionType::Zstd))),
        WriterAction::Discard
    );
}

#[test]
fn v6_packet_reaches_no_writer() {
    let mut data = vec![0x60u8];
    data.extend_from_slice(&[0; 39]);
    assert_eq!(handle_packet_from_kernel(&data), Ingress::DropV6);
}

#[test]
fn one_packet_goes_only_to_the_peers_that_allow_it() {
    let serial = Peer::Char(CharPeerSection {
        path: "/dev/ttyUSB0".to_string(),
        allowedips: vec![IpNetwork::v4(0xc0a80000, 16).unwrap()],
        speed: None,
        compression: None,
        encryption: None,
    });
    let data = v4_packet([192, 168, 1, 1], 8);
    let event = BusEvent::Packet(parsed(&data));
    assert_eq!(on_bus_event(&event, &listener(None)), WriterAction::Discard);
    assert!(matches!(on_bus_event(&event, &serial), WriterAction::Write(_)));
}

#[test]
fn lag_is_reported_and_the_writer_goes_on() {
    assert_eq!(on_bus_event(&BusEvent::Lagged(96), &listener(None)), WriterAction::ReportLag(96));
    let data = v4_packet([10, 0, 0, 5], 8);
    assert!(matches!(
        on_bus_event(&BusEvent::Packet(parsed(&data)), &listener(None)),
        WriterAction::Write(_)
    ));
}

#[test]
fn closed_bus_stops_the_writer() {
    assert_eq!(on_bus_event(&BusEvent::Closed, &listener(None)), WriterAction::Stop);
}

#[test]
fn header_announces_the_compressed_length() {
    let data = v4_packet([10, 0, 0, 5], 1380);
    for codec in [CompressionType::Zstd, CompressionType::ZstdFast, CompressionType::ZstdSlow, CompressionType::Gzip] {
        let frame = frame_packet(&data, codec).unwrap();
        assert_eq!(&frame[..4], &[0xac, 0xab, 0xc0, 0xde]);
        assert_eq!(&frame[4..6], &[0, 0]);
        let announced = u16::from_le_bytes([frame[6], frame[7]]) as usize;
        assert_eq!(announced, frame.len() - 16);
        assert!(announced < data.len());
        assert_eq!(frame[8], codec.wire_tag());
        assert_eq!(&frame[9..16], &[0; 7]);
    }
}

#[test]
fn zstd_peer_loops_back_the_packet() {
    let data = v4_packet([10, 0, 0, 5], 1380);
    assert_eq!(data.len(), 1400);
    let frame = match write_packet(&parsed(&data), &listener(Some(CompressionType::Zstd))) {
        WriterAction::Write(frame) => frame,
        other => panic!("not written: {:?}", other),
    };
    let outcome = StreamReader::new().read_stream(&frame);
    assert_eq!(outcome.packets, vec![data]);
    assert_eq!(outcome.failure, None);
    assert_eq!(outcome.unread, 0);
}

#[test]
fn what_is_written_is_read_back_in_order() {
    let peer = listener(Some(CompressionType::Gzip));
    let mut wire = Vec::new();
    let mut sent = Vec::new();
    for n in [0usize, 1, 100, 1480] {
        let data = v4_packet([10, 0, 0, 9], n);
        match write_packet(&parsed(&data), &peer) {
            WriterAction::Write(frame) => wire.extend_from_slice(&frame),
            other => panic!("not written: {:?}", other),
        }
        sent.push(data);
    }
    let outcome = StreamReader::new().read_stream(&wire);
    assert_eq!(outcome.packets, sent);
    assert_eq!(outcome.unread, 0);
}

#[test]
fn payload_beyond_the_scratch_room_fails() {
    assert_eq!(SCRATCH_SIZE, 1600);
    let fits = vec![3u8; 1600];
    assert_eq!(frame_packet(&fits, CompressionType::Uncompressed).unwrap().len(), 1616);
    let too_long = vec![3u8; 1601];
    assert_eq!(
        frame_packet(&too_long, CompressionType::Uncompressed),
        Err(CompressionError::OutputTooLarge)
    );
    let data = v4_packet([10, 0, 0, 5], 1600);
    assert_eq!(
        write_packet(&parsed(&data), &listener(None)),
        WriterAction::Fail(CompressionError::OutputTooLarge)
    );
}

#[test]
fn encode_frame_puts_a_header_before_the_payload() {
    let frame = encode_frame(&[1, 2, 3], CompressionType::Gzip).unwrap();
    assert_eq!(frame, vec![0xac, 0xab, 0xc0, 0xde, 0, 0, 3, 0, 2, 0, 0, 0, 0, 0, 0, 0, 1, 2, 3]);
    assert_eq!(encode_frame(&vec![0u8; 65536], CompressionType::Uncompressed), None);
    assert_eq!(encode_frame(&vec![0u8; 65535], CompressionType::Uncompressed).unwrap().len(), 65551);
}
