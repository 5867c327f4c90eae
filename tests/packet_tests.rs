use netstats_core::packet::{CustomPacket, DataPacket, PacketError, PacketHeader, PacketType};

#[test]
fn test_data_packet_serialization_deserialization() {
    let packet = DataPacket {
        sequence_number: 123,
        timestamp_ms: 456789,
        payload: vec![1, 2, 3, 4, 5],
    };
    let bytes = packet.to_bytes();
    let deserialized_packet = DataPacket::from_bytes(&bytes).unwrap();

    assert_eq!(packet.sequence_number, deserialized_packet.sequence_number);
    assert_eq!(packet.timestamp_ms, deserialized_packet.timestamp_ms);
    assert_eq!(packet.payload, deserialized_packet.payload);
}

#[test]
fn test_custom_packet_serialization_deserialization_bincode() {
    let packet = CustomPacket::new_data_packet(1001, 64);

    let bytes = packet.to_bytes().expect("Serialization failed");
    let deserialized_packet = CustomPacket::from_bytes(&bytes).expect("Deserialization failed");

    assert_eq!(packet.header.sequence_number, deserialized_packet.header.sequence_number);
    assert_eq!(packet.header.packet_type, deserialized_packet.header.packet_type);
    assert_eq!(packet.header.timestamp_ms, deserialized_packet.header.timestamp_ms);
    assert_eq!(packet.payload.len(), deserialized_packet.payload.len());
    assert_eq!(packet.payload, deserialized_packet.payload);

    let echo_req = CustomPacket::new_echo_request(1002, 32);
    let echo_reply = CustomPacket::new_echo_reply(&echo_req);

    let reply_bytes = echo_reply.to_bytes().unwrap();
    let deserialized_reply = CustomPacket::from_bytes(&reply_bytes).unwrap();

    assert_eq!(echo_reply.header.sequence_number, deserialized_reply.header.sequence_number);
    assert_eq!(echo_reply.header.timestamp_ms, deserialized_reply.header.timestamp_ms);
    assert_eq!(echo_reply.header.packet_type, PacketType::EchoReply);
    assert_eq!(echo_reply.payload, deserialized_reply.payload);
}

#[test]
fn test_short_packet_from_bytes() {
    let short_data = vec![1, 2, 3];
    assert!(DataPacket::from_bytes(&short_data).is_err());
}

fn fixed_packet(seq: u32, ts: u64, kind: PacketType, payload: Vec<u8>) -> CustomPacket {
    CustomPacket {
        header: PacketHeader { sequence_number: seq, timestamp_ms: ts, packet_type: kind },
        payload,
    }
}

#[test]
fn encoding_matches_bincode_layout() {
    let packet = fixed_packet(7, 1_700_000_000_123, PacketType::EchoRequest, vec![9, 8, 7]);
    let ours = packet.to_bytes().unwrap();
    let theirs = bincode::serialize(&(7u32, 1_700_000_000_123u64, 3u32, vec![9u8, 8, 7])).unwrap();
    assert_eq!(ours, theirs);
    assert_eq!(ours.len(), 24 + 3);
}

#[test]
fn encoding_exact_bytes() {
    let packet = fixed_packet(0x01020304, 5, PacketType::Ack, vec![0xAA]);
    let bytes = packet.to_bytes().unwrap();
    assert_eq!(
        bytes,
        vec![4, 3, 2, 1, 5, 0, 0, 0, 0, 0, 0, 0, 1, 0, 0, 0, 1, 0, 0, 0, 0, 0, 0, 0, 0xAA]
    );
}

#[test]
fn round_trip_every_kind() {
    let kinds = [
        PacketType::Data,
        PacketType::Ack,
        PacketType::Control,
        PacketType::EchoRequest,
        PacketType::EchoReply,
    ];
    for (i, kind) in kinds.iter().enumerate() {
        let packet = fixed_packet(u32::MAX - i as u32, u64::MAX - 1, *kind, vec![i as u8; i * 3]);
        let decoded = CustomPacket::from_bytes(&packet.to_bytes().unwrap()).unwrap();
        assert_eq!(decoded.header, packet.header);
        assert_eq!(decoded.payload, packet.payload);
    }
}

#[test]
fn decode_rejects_short_input() {
    assert_eq!(CustomPacket::from_bytes(&[0u8; 23]).unwrap_err(), PacketError::TooShort);
    assert_eq!(CustomPacket::from_bytes(&[]).unwrap_err(), PacketError::TooShort);
}

#[test]
fn decode_rejects_unknown_kind() {
    let mut bytes = fixed_packet(1, 2, PacketType::Data, vec![]).to_bytes().unwrap();
    bytes[12] = 5;
    assert_eq!(CustomPacket::from_bytes(&bytes).unwrap_err(), PacketError::UnknownPacketType(5));
}

#[test]
fn decode_rejects_truncated_payload() {
    let bytes = fixed_packet(1, 2, PacketType::Data, vec![1, 2, 3, 4]).to_bytes().unwrap();
    assert_eq!(
        CustomPacket::from_bytes(&bytes[..bytes.len() - 1]).unwrap_err(),
        PacketError::PayloadTruncated
    );
}

#[test]
fn decode_ignores_trailing_bytes() {
    let mut bytes = fixed_packet(3, 4, PacketType::Control, vec![1, 2]).to_bytes().unwrap();
    bytes.extend_from_slice(&[7, 7, 7]);
    let decoded = CustomPacket::from_bytes(&bytes).unwrap();
    assert_eq!(decoded.payload, vec![1, 2]);
    assert_eq!(decoded.header.sequence_number, 3);
}

#[test]
fn echo_reply_copies_request() {
    let request = fixed_packet(42, 123456, PacketType::EchoRequest, vec![1, 2, 3]);
    let reply = CustomPacket::new_echo_reply(&request);
    assert_eq!(reply.header.sequence_number, 42);
    assert_eq!(reply.header.timestamp_ms, 123456);
    assert_eq!(reply.header.packet_type, PacketType::EchoReply);
    assert_eq!(reply.payload, vec![1, 2, 3]);
}

#[test]
fn new_packets_have_zero_payload_and_fresh_timestamp() {
    let data = CustomPacket::new_data_packet(5, 10);
    assert_eq!(data.header.packet_type, PacketType::Data);
    assert_eq!(data.payload, vec![0u8; 10]);
    assert!(data.header.timestamp_ms > 1_600_000_000_000);
    let req = CustomPacket::new_echo_request(6, 0);
    assert_eq!(req.header.packet_type, PacketType::EchoRequest);
    assert!(req.payload.is_empty());
    let header = PacketHeader::new(9, PacketType::Control);
    assert_eq!(header.sequence_number, 9);
    assert_eq!(header.packet_type, PacketType::Control);
}

#[test]
fn data_packet_big_endian_layout() {
    let packet = DataPacket { sequence_number: 0x01020304, timestamp_ms: 0x05, payload: vec![0xFF] };
    assert_eq!(packet.to_bytes(), vec![1, 2, 3, 4, 0, 0, 0, 0, 0, 0, 0, 5, 0xFF]);
    let header_only = DataPacket::from_bytes(&[0, 0, 0, 1, 0, 0, 0, 0, 0, 0, 0, 2]).unwrap();
    assert_eq!(header_only.sequence_number, 1);
    assert_eq!(header_only.timestamp_ms, 2);
    assert!(header_only.payload.is_empty());
    assert_eq!(DataPacket::from_bytes(&[0u8; 11]).unwrap_err(), "Packet too short for header");
}
