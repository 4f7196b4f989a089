use ip2char::compression::{compress_into_buf, CompressionError};
use ip2char::streams::{ReaderEvent, StreamOutcome, StreamReader};
use ip2char::types::{CompressionType, EncryptionType, Header, IntoErrors, SYNC_MARKER, VERSION};

fn header(len: u16, compression: CompressionType) -> Header {
    Header {
        marker: SYNC_MARKER,
        version: VERSION,
        packet_length: len,
        compression,
        encryption: EncryptionType::Unencrypted,
    }
}

fn frame(payload: &[u8]) -> Vec<u8> {
    let mut f = header(payload.len() as u16, CompressionType::Uncompressed).to_bytes().to_vec();
    f.extend_from_slice(payload);
    f
}

fn packet(n: usize) -> Vec<u8> {
    (0..n).map(|i| (i * 31 % 251) as u8).collect()
}

/// Hands the reader what it asks for, as a transport would, and collects
/// what it reports.
fn drive(reader: &mut StreamReader, stream: &[u8]) -> Vec<ReaderEvent> {
    let mut events = Vec::new();
    let mut at = 0;
    loop {
        let n = reader.wanted();
        if stream.len() - at < n {
            return events;
        }
        let event = reader.on_bytes(&stream[at..at + n]);
        at += n;
        let failed = matches!(event, ReaderEvent::Failed(_));
        events.push(event);
        if failed {
            return events;
        }
    }
}

#[test]
fn fresh_reader_wants_a_header() {
    assert_eq!(StreamReader::new().wanted(), 16);
}

#[test]
fn frame_is_read_header_then_payload() {
    let mut reader = StreamReader::new();
    let payload = packet(100);
    let h = header(100, CompressionType::Uncompressed);
    assert_eq!(reader.on_bytes(&h.to_bytes()), ReaderEvent::HeaderRead(h));
    assert_eq!(reader.wanted(), 100);
    assert_eq!(reader.on_bytes(&payload), ReaderEvent::Packet(payload));
    assert_eq!(reader.wanted(), 16);
}

#[test]
fn frames_are_delivered_in_order() {
    let mut stream = frame(&packet(10));
    stream.extend_from_slice(&frame(&[]));
    stream.extend_from_slice(&frame(&packet(1500)));
    let mut reader = StreamReader::new();
    let outcome = reader.read_stream(&stream);
    assert_eq!(
        outcome,
        StreamOutcome { packets: vec![packet(10), vec![], packet(1500)], failure: None, unread: 0 }
    );
    assert_eq!(reader.wanted(), 16);
}

#[test]
fn stream_that_ends_in_a_frame_leaves_it_unread() {
    let mut stream = frame(&packet(10));
    stream.extend_from_slice(&frame(&packet(40))[..30]);
    let mut reader = StreamReader::new();
    let outcome = reader.read_stream(&stream);
    assert_eq!(outcome.packets, vec![packet(10)]);
    assert_eq!(outcome.failure, None);
    assert_eq!(outcome.unread, 14);
    assert_eq!(reader.wanted(), 40);
    let rest = reader.read_stream(&frame(&packet(40))[16..]);
    assert_eq!(rest.packets, vec![packet(40)]);
    assert_eq!(rest.unread, 0);
}

#[test]
fn seven_junk_bytes_are_skipped() {
    let mut stream = vec![1u8, 2, 3, 4, 5, 6, 7];
    stream.extend_from_slice(&frame(&packet(64)));
    let mut reader = StreamReader::new();
    let events = drive(&mut reader, &stream);
    assert_eq!(events.len(), 9);
    assert_eq!(events[0], ReaderEvent::Desync(IntoErrors::BadSyncMarker));
    for e in &events[1..7] {
        assert_eq!(*e, ReaderEvent::Searching);
    }
    assert_eq!(events[7], ReaderEvent::Resynced(7));
    assert_eq!(events[8], ReaderEvent::Packet(packet(64)));
    let mut again = StreamReader::new();
    let outcome = again.read_stream(&stream);
    assert_eq!(outcome, StreamOutcome { packets: vec![packet(64)], failure: None, unread: 0 });
}

#[test]
fn long_junk_is_skipped_byte_by_byte() {
    let mut stream = vec![0x55u8; 100];
    stream.extend_from_slice(&frame(&packet(5)));
    stream.extend_from_slice(&frame(&packet(6)));
    let mut reader = StreamReader::new();
    let events = drive(&mut reader, &stream);
    assert!(events.contains(&ReaderEvent::Resynced(100)));
    let outcome = StreamReader::new().read_stream(&stream);
    assert_eq!(outcome.packets, vec![packet(5), packet(6)]);
}

#[test]
fn oversized_header_desyncs_without_reading_a_payload() {
    let mut reader = StreamReader::new();
    let h = header(1501, CompressionType::Uncompressed);
    assert_eq!(reader.on_bytes(&h.to_bytes()), ReaderEvent::HeaderRead(h));
    assert_eq!(reader.wanted(), 0);
    assert_eq!(reader.on_bytes(&[]), ReaderEvent::Rejected(h));
    assert_eq!(reader.wanted(), 1);
}

#[test]
fn largest_payload_is_read() {
    let mut reader = StreamReader::new();
    let h = header(1500, CompressionType::Uncompressed);
    reader.on_bytes(&h.to_bytes());
    assert_eq!(reader.wanted(), 1500);
}

#[test]
fn other_version_desyncs_without_reading_a_payload() {
    let mut reader = StreamReader::new();
    let mut h = header(10, CompressionType::Uncompressed);
    h.version = 1;
    assert_eq!(reader.on_bytes(&h.to_bytes()), ReaderEvent::HeaderRead(h));
    assert_eq!(reader.wanted(), 0);
    assert_eq!(reader.on_bytes(&[]), ReaderEvent::Rejected(h));
    assert_eq!(reader.wanted(), 1);
}

#[test]
fn reader_recovers_behind_an_oversized_header() {
    let mut stream = header(40000, CompressionType::Uncompressed).to_bytes().to_vec();
    stream.extend_from_slice(&frame(&packet(33)));
    let mut reader = StreamReader::new();
    let events = drive(&mut reader, &stream);
    assert!(events.contains(&ReaderEvent::Resynced(16)));
    assert_eq!(events.last(), Some(&ReaderEvent::Packet(packet(33))));
}

#[test]
fn unknown_codec_tag_desyncs() {
    let mut bytes = header(4, CompressionType::Uncompressed).to_bytes();
    bytes[8] = 9;
    let mut reader = StreamReader::new();
    assert_eq!(reader.on_bytes(&bytes), ReaderEvent::Desync(IntoErrors::NoSuchVariant(9)));
    assert_eq!(reader.wanted(), 1);
}

#[test]
fn marker_without_a_header_is_reported_and_skipped() {
    let mut bad = header(4, CompressionType::Uncompressed).to_bytes();
    bad[8] = 9;
    let mut stream = vec![0u8; 16];
    stream.extend_from_slice(&bad);
    stream.extend_from_slice(&frame(&packet(12)));
    let mut reader = StreamReader::new();
    let events = drive(&mut reader, &stream);
    assert_eq!(events[0], ReaderEvent::Desync(IntoErrors::BadSyncMarker));
    assert_eq!(events[16], ReaderEvent::FalseMarker(IntoErrors::NoSuchVariant(9)));
    assert_eq!(events[32], ReaderEvent::Resynced(32));
    assert_eq!(events[33], ReaderEvent::Packet(packet(12)));
    assert_eq!(events.len(), 34);
}

#[test]
fn payload_that_does_not_decompress_fails_the_stream() {
    let mut stream = header(8, CompressionType::Zstd).to_bytes().to_vec();
    stream.extend_from_slice(&[9, 9, 9, 9, 9, 9, 9, 9]);
    stream.extend_from_slice(&frame(&packet(3)));
    let mut reader = StreamReader::new();
    let outcome = reader.read_stream(&stream);
    assert_eq!(outcome.packets, Vec::<Vec<u8>>::new());
    assert_eq!(outcome.failure, Some(CompressionError::CodecFailed));
    assert_eq!(outcome.unread, 19);
}

#[test]
fn finish_frame_reports_what_it_is_given() {
    let mut reader = StreamReader::new();
    reader.on_bytes(&header(2, CompressionType::Gzip).to_bytes());
    assert_eq!(reader.finish_frame(Ok(vec![4, 5, 6])), ReaderEvent::Packet(vec![4, 5, 6]));
    assert_eq!(reader.wanted(), 16);
    reader.on_bytes(&header(2, CompressionType::Gzip).to_bytes());
    assert_eq!(
        reader.finish_frame(Err(CompressionError::CodecFailed)),
        ReaderEvent::Failed(CompressionError::CodecFailed)
    );
    assert_eq!(reader.wanted(), 16);
}

#[test]
fn compressed_frames_are_decompressed() {
    for codec in [CompressionType::Zstd, CompressionType::ZstdFast, CompressionType::ZstdSlow, CompressionType::Gzip] {
        let sent = vec![0x42u8; 1400];
        let mut scratch = vec![0u8; 1600];
        let n = compress_into_buf(&sent, &mut scratch, codec).unwrap();
        let mut stream = header(n as u16, codec).to_bytes().to_vec();
        stream.extend_from_slice(&scratch[..n]);
        let outcome = StreamReader::new().read_stream(&stream);
        assert_eq!(outcome, StreamOutcome { packets: vec![sent], failure: None, unread: 0 });
    }
}
