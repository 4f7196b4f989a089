use ip2char::packet_handling::{handle_packet_from_kernel, prep_packet_for_kernel, Ingress};

fn v4_packet(destination: [u8; 4], payload: &[u8]) -> Vec<u8> {
    let total = (20 + payload.len()) as u16;
    let mut p = vec![0x45, 0x00];
    p.extend_from_slice(&total.to_be_bytes());
    p.extend_from_slice(&[0, 0, 0, 0, 64, 17, 0, 0]);
    p.extend_from_slice(&[10, 0, 0, 1]);
    p.extend_from_slice(&destination);
    p.extend_from_slice(payload);
    p
}

fn published(data: &[u8]) -> (u32, Vec<u8>) {
    match handle_packet_from_kernel(data) {
        Ingress::Publish(p) => (p.destination(), p.as_bytes().to_vec()),
        other => panic!("not published: {:?}", other),
    }
}

#[test]
fn v4_packet_is_published_with_its_destination() {
    let data = v4_packet([10, 0, 0, 5], &[1, 2, 3, 4]);
    let (destination, bytes) = published(&data);
    assert_eq!(destination, 0x0a000005);
    assert_eq!(bytes, data);
}

#[test]
fn destination_is_read_most_significant_byte_first() {
    let data = v4_packet([192, 168, 1, 1], &[]);
    assert_eq!(published(&data).0, 0xc0a80101);
}

#[test]
fn bytes_behind_the_packet_are_cut_off() {
    let mut data = v4_packet([10, 0, 0, 5], &[9, 9]);
    let whole = data.clone();
    data.extend_from_slice(&[0xee; 10]);
    assert_eq!(published(&data).1, whole);
}

#[test]
fn length_field_below_the_header_counts_the_header() {
    let mut data = v4_packet([10, 0, 0, 5], &[7; 8]);
    data[2] = 0;
    data[3] = 4;
    assert_eq!(published(&data).1, data[..20].to_vec());
}

#[test]
fn duplicate_packet_is_equal() {
    let data = v4_packet([10, 0, 0, 5], &[1, 2, 3, 4]);
    match handle_packet_from_kernel(&data) {
        Ingress::Publish(p) => {
            let copy = p.duplicate();
            assert_eq!(copy, p);
            assert_eq!(copy.as_bytes(), &data[..]);
            assert_eq!(copy.destination(), 0x0a000005);
        }
        other => panic!("not published: {:?}", other),
    }
}

#[test]
fn v6_packet_is_dropped() {
    let mut data = vec![0x60u8];
    data.extend_from_slice(&[0; 39]);
    assert_eq!(handle_packet_from_kernel(&data), Ingress::DropV6);
    assert_eq!(handle_packet_from_kernel(&[0x6f]), Ingress::DropV6);
}

#[test]
fn other_versions_are_malformed() {
    assert_eq!(handle_packet_from_kernel(&[0x50; 40]), Ingress::Malformed);
    assert_eq!(handle_packet_from_kernel(&[0x00; 40]), Ingress::Malformed);
}

#[test]
fn empty_buffer_is_malformed() {
    assert_eq!(handle_packet_from_kernel(&[]), Ingress::Malformed);
}

#[test]
fn short_v4_packet_is_malformed() {
    let data = v4_packet([10, 0, 0, 5], &[]);
    assert_eq!(handle_packet_from_kernel(&data[..19]), Ingress::Malformed);
    assert_eq!(handle_packet_from_kernel(&[0x45]), Ingress::Malformed);
}

#[test]
fn v4_packet_shorter_than_its_length_field_is_malformed() {
    let data = v4_packet([10, 0, 0, 5], &[1, 2, 3, 4]);
    assert_eq!(handle_packet_from_kernel(&data[..23]), Ingress::Malformed);
}

#[test]
fn v4_packet_shorter_than_its_header_length_is_malformed() {
    let mut data = v4_packet([10, 0, 0, 5], &[]);
    data[0] = 0x46;
    assert_eq!(handle_packet_from_kernel(&data), Ingress::Malformed);
    data.extend_from_slice(&[0; 4]);
    assert_eq!(published(&data).1, data);
}

#[test]
fn empty_packet_is_not_written_to_the_kernel() {
    assert_eq!(prep_packet_for_kernel(vec![]), None);
    assert_eq!(prep_packet_for_kernel(vec![1, 2, 3]), Some(vec![1, 2, 3]));
    assert_eq!(prep_packet_for_kernel(vec![0]), Some(vec![0]));
}
