use cmio_vsock::vsock_protocol::{
    create_reply_header, ByteSource, Packet, PacketSource, ProtocolError, ReadError, VirtioVsockHdr, HDR_SIZE,
    MAX_PAYLOAD_LEN, VSOCK_OP_REQUEST, VSOCK_OP_RESPONSE, VSOCK_OP_RW, VSOCK_TYPE_STREAM,
};

fn sample_header(len: u32) -> VirtioVsockHdr {
    VirtioVsockHdr {
        src_cid: 0x0102_0304,
        dst_cid: 3,
        src_port: 0x0a0b_0c0d,
        dst_port: 8080,
        len,
        type_: VSOCK_TYPE_STREAM,
        op: VSOCK_OP_RW,
        flags: 0x1122_3344,
        buf_alloc: 0x5566_7788,
        fwd_cnt: 0x99aa_bbcc,
    }
}

struct Chunks {
    bytes: Vec<u8>,
    at: usize,
}

impl PacketSource for Chunks {
    fn read_exact(&mut self, len: usize) -> Option<Vec<u8>> {
        if self.bytes.len() - self.at < len {
            return None;
        }
        let chunk = self.bytes[self.at..self.at + len].to_vec();
        self.at += len;
        Some(chunk)
    }
}

#[test]
fn header_size_is_36() {
    assert_eq!(HDR_SIZE, 36);
    assert_eq!(sample_header(0).to_bytes().len(), 36);
}

#[test]
fn header_layout_is_little_endian_in_field_order() {
    let bytes = sample_header(5).to_bytes();
    let expected: Vec<u8> = vec![
        0x04, 0x03, 0x02, 0x01, // src_cid
        0x03, 0x00, 0x00, 0x00, // dst_cid
        0x0d, 0x0c, 0x0b, 0x0a, // src_port
        0x90, 0x1f, 0x00, 0x00, // dst_port 8080
        0x05, 0x00, 0x00, 0x00, // len
        0x01, 0x00, // type
        0x05, 0x00, // op
        0x44, 0x33, 0x22, 0x11, // flags
        0x88, 0x77, 0x66, 0x55, // buf_alloc
        0xcc, 0xbb, 0xaa, 0x99, // fwd_cnt
    ];
    assert_eq!(bytes, expected);
}

#[test]
fn header_round_trip() {
    let hdr = sample_header(77);
    assert_eq!(VirtioVsockHdr::from_bytes(&hdr.to_bytes()), Some(hdr));
}

#[test]
fn header_from_short_slice_is_none() {
    assert_eq!(VirtioVsockHdr::from_bytes(&[0u8; 35]), None);
    assert_eq!(VirtioVsockHdr::from_bytes(&[]), None);
}

#[test]
fn header_ignores_bytes_behind_it() {
    let hdr = sample_header(0);
    let mut bytes = hdr.to_bytes();
    bytes.extend_from_slice(&[0xff; 10]);
    assert_eq!(VirtioVsockHdr::from_bytes(&bytes), Some(hdr));
}

#[test]
fn packet_round_trip() {
    let payload = b"hello vsock".to_vec();
    let packet = Packet::new(sample_header(payload.len() as u32), payload.clone());
    let bytes = packet.to_bytes();
    assert_eq!(bytes.len(), 36 + payload.len());
    assert_eq!(&bytes[36..], &payload[..]);
    let back = Packet::from_bytes(&bytes).unwrap();
    assert_eq!(back, packet);
    assert_eq!(back.hdr(), &sample_header(payload.len() as u32));
    assert_eq!(back.payload(), &payload[..]);
}

#[test]
fn packet_round_trip_empty_and_largest_payload() {
    let empty = Packet::new(sample_header(0), Vec::new());
    assert_eq!(Packet::from_bytes(&empty.to_bytes()).unwrap(), empty);
    let payload = vec![0xa5u8; 4096];
    let full = Packet::new(sample_header(4096), payload);
    assert_eq!(Packet::from_bytes(&full.to_bytes()).unwrap(), full);
}

#[test]
fn packet_into_parts_gives_header_and_payload() {
    let packet = Packet::new(sample_header(3), vec![1, 2, 3]);
    let (hdr, payload) = packet.into_parts();
    assert_eq!(hdr, sample_header(3));
    assert_eq!(payload, vec![1, 2, 3]);
}

#[test]
fn decode_rejects_short_header() {
    assert_eq!(Packet::from_bytes(&[]), Err(ProtocolError::ShortHeader));
    assert_eq!(Packet::from_bytes(&[0u8; 35]), Err(ProtocolError::ShortHeader));
}

#[test]
fn decode_rejects_oversized_payload() {
    assert_eq!(MAX_PAYLOAD_LEN, 4096);
    let mut bytes = sample_header(4097).to_bytes();
    bytes.extend_from_slice(&vec![0u8; 4097]);
    assert_eq!(Packet::from_bytes(&bytes), Err(ProtocolError::PayloadTooLarge));
    let huge = sample_header(u32::MAX).to_bytes();
    assert_eq!(Packet::from_bytes(&huge), Err(ProtocolError::PayloadTooLarge));
}

#[test]
fn decode_rejects_truncated_payload() {
    let mut bytes = sample_header(10).to_bytes();
    bytes.extend_from_slice(&[0u8; 9]);
    assert_eq!(Packet::from_bytes(&bytes), Err(ProtocolError::ShortPayload));
}

#[test]
fn decode_ignores_trailing_bytes() {
    let packet = Packet::new(sample_header(2), vec![7, 8]);
    let mut bytes = packet.to_bytes();
    bytes.extend_from_slice(&[9, 9, 9]);
    assert_eq!(Packet::from_bytes(&bytes).unwrap(), packet);
}

#[test]
fn reply_header_swaps_endpoints_and_resets_counters() {
    let request = VirtioVsockHdr {
        src_cid: 1,
        dst_cid: 3,
        src_port: 5000,
        dst_port: 8080,
        len: 12,
        type_: VSOCK_TYPE_STREAM,
        op: VSOCK_OP_REQUEST,
        flags: 9,
        buf_alloc: 65536,
        fwd_cnt: 4,
    };
    let reply = create_reply_header(&request, VSOCK_OP_RESPONSE, 0);
    assert_eq!(
        reply,
        VirtioVsockHdr {
            src_cid: 3,
            dst_cid: 1,
            src_port: 8080,
            dst_port: 5000,
            len: 0,
            type_: VSOCK_TYPE_STREAM,
            op: VSOCK_OP_RESPONSE,
            flags: 0,
            buf_alloc: 65536,
            fwd_cnt: 0,
        }
    );
}

#[test]
fn from_read_reads_header_then_payload() {
    let packet = Packet::new(sample_header(4), vec![1, 2, 3, 4]);
    let mut bytes = packet.to_bytes();
    bytes.extend_from_slice(&[0xee; 8]);
    let mut source = Chunks { bytes, at: 0 };
    assert_eq!(Packet::from_read(&mut source), Ok(packet));
    assert_eq!(source.at, 40);
}

#[test]
fn from_read_without_payload_reads_the_header_only() {
    let packet = Packet::new(sample_header(0), Vec::new());
    let mut source = Chunks { bytes: packet.to_bytes(), at: 0 };
    assert_eq!(Packet::from_read(&mut source), Ok(packet));
    assert_eq!(source.at, 36);
}

#[test]
fn from_read_refuses_oversized_payload_before_reading_it() {
    let mut bytes = sample_header(5000).to_bytes();
    bytes.extend_from_slice(&vec![0u8; 5000]);
    let mut source = Chunks { bytes, at: 0 };
    assert_eq!(
        Packet::from_read(&mut source),
        Err(ReadError::Protocol(ProtocolError::PayloadTooLarge))
    );
    assert_eq!(source.at, 36);
}

#[test]
fn from_read_fails_when_the_source_runs_dry() {
    let mut short = Chunks { bytes: vec![0u8; 20], at: 0 };
    assert_eq!(Packet::from_read(&mut short), Err(ReadError::Source));
    let mut bytes = sample_header(10).to_bytes();
    bytes.extend_from_slice(&[0u8; 3]);
    let mut truncated = Chunks { bytes, at: 0 };
    assert_eq!(Packet::from_read(&mut truncated), Err(ReadError::Source));
}

#[test]
fn byte_source_hands_out_its_bytes_in_order() {
    let mut source = ByteSource::new(vec![1, 2, 3, 4, 5]);
    assert_eq!(source.len(), 5);
    assert_eq!(source.read_exact(2), Some(vec![1, 2]));
    assert_eq!(source.read_exact(0), Some(Vec::new()));
    assert_eq!(source.read_exact(4), None);
    assert_eq!(source.len(), 3);
    assert_eq!(source.read_exact(3), Some(vec![3, 4, 5]));
    assert_eq!(source.read_exact(1), None);
    assert_eq!(source.len(), 0);
}

#[test]
fn packets_are_read_one_after_the_other() {
    let first = Packet::new(sample_header(3), vec![1, 2, 3]);
    let second = Packet::new(sample_header(0), Vec::new());
    let mut bytes = first.to_bytes();
    bytes.extend_from_slice(&second.to_bytes());
    bytes.extend_from_slice(&[0u8; 7]);
    let mut source = ByteSource::new(bytes);
    assert_eq!(Packet::from_read(&mut source), Ok(first));
    assert_eq!(Packet::from_read(&mut source), Ok(second));
    assert_eq!(source.len(), 7);
    assert_eq!(Packet::from_read(&mut source), Err(ReadError::Source));
}

#[test]
fn reading_agrees_with_decoding() {
    let packet = Packet::new(sample_header(4), vec![4, 3, 2, 1]);
    let bytes = packet.to_bytes();
    for cut in [0, 10, 35, 36, 39] {
        let mut source = ByteSource::new(bytes[..cut].to_vec());
        assert_eq!(Packet::from_read(&mut source), Err(ReadError::Source));
        assert!(Packet::from_bytes(&bytes[..cut]).is_err());
    }
    let mut source = ByteSource::new(bytes.clone());
    assert_eq!(Packet::from_read(&mut source).ok(), Packet::from_bytes(&bytes).ok());
}
