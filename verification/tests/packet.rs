use rs_ping::{calculate_checksum, decode_reply, encode_request, EchoReply, PingError};

fn datagram(len: usize, icmp_type: u8, ttl: u8, sequence: [u8; 2]) -> Vec<u8> {
    let mut bytes = vec![0u8; len];
    if len > 8 {
        bytes[8] = ttl;
    }
    if len > 20 {
        bytes[20] = icmp_type;
    }
    if len > 25 {
        bytes[24] = sequence[0];
        bytes[25] = sequence[1];
    }
    bytes
}

#[test]
fn encode_request_without_payload() {
    let frame = encode_request(1, 2, 0);
    assert_eq!(frame, vec![8, 0, 0xF7, 0xFC, 0, 2, 0, 1]);
}

#[test]
fn encode_request_lays_out_the_header() {
    let frame = encode_request(0xABCD, 0x1234, 56);
    assert_eq!(frame.len(), 64);
    assert_eq!(frame[0], 8);
    assert_eq!(frame[1], 0);
    assert_eq!(&frame[4..6], &[0x12, 0x34]);
    assert_eq!(&frame[6..8], &[0xAB, 0xCD]);
    assert!(frame[8..].iter().all(|byte| *byte == 0));
    let mut zeroed = frame.clone();
    zeroed[2] = 0;
    zeroed[3] = 0;
    let checksum = calculate_checksum(&zeroed);
    assert_eq!(&frame[2..4], &checksum.to_be_bytes());
}

#[test]
fn encode_request_is_self_verifying() {
    for payload_size in [0usize, 1, 2, 3, 56, 57, 1000] {
        for sequence in [0u16, 1, 255, 256, 65535] {
            let frame = encode_request(sequence, 0x4242, payload_size);
            assert_eq!(frame.len(), payload_size + 8);
            assert_eq!(calculate_checksum(&frame), 0);
        }
    }
}

#[test]
fn decode_rejects_short_buffers() {
    for len in 0..28 {
        let bytes = datagram(len, 0, 64, [0, 1]);
        assert!(matches!(decode_reply(&bytes), Err(PingError::InvalidResponse)));
    }
}

#[test]
fn decode_rejects_other_icmp_types() {
    for icmp_type in [3u8, 8, 11, 255, 1] {
        let bytes = datagram(28, icmp_type, 64, [0, 1]);
        assert!(matches!(decode_reply(&bytes), Err(PingError::InvalidResponse)));
        let bytes = datagram(84, icmp_type, 64, [0, 1]);
        assert!(matches!(decode_reply(&bytes), Err(PingError::InvalidResponse)));
    }
}

#[test]
fn decode_reads_ttl_and_big_endian_sequence() {
    let bytes = datagram(28, 0, 64, [0x01, 0x02]);
    let reply = decode_reply(&bytes).unwrap();
    assert_eq!(reply, EchoReply { ttl: 64, sequence: 0x0102 });
    let bytes = datagram(84, 0, 255, [0xFF, 0xFE]);
    let reply = decode_reply(&bytes).unwrap();
    assert_eq!(reply.ttl, 255);
    assert_eq!(reply.sequence, 0xFFFE);
}

#[test]
fn decode_accepts_exactly_28_bytes() {
    let bytes = datagram(28, 0, 1, [0, 0]);
    assert_eq!(decode_reply(&bytes).unwrap(), EchoReply { ttl: 1, sequence: 0 });
}
