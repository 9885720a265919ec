use lidar::packet::{OpCode, Packet, MAX_REQ_PACKET_SIZE, START_FLAG};

#[test]
fn empty_payload_is_two_bytes() {
    let p = Packet::new(OpCode::GetHealth, &[]);
    assert_eq!(p.len, 0);
    assert_eq!(p.to_bytes(), vec![START_FLAG, 0x52]);
}

#[test]
fn payload_checksum_covers_every_byte() {
    let payload = [1u8, 2, 3, 0x80];
    let p = Packet::new(OpCode::GetLidarConf, &payload);
    assert_eq!(p.len, 4);
    assert!(p.payload[4..].iter().all(|&b| b == 0));
    let bytes = p.to_bytes();
    assert_eq!(&bytes[..7], &[0xA5, 0x84, 4, 1, 2, 3, 0x80]);
    let xor = bytes.iter().fold(0u8, |a, b| a ^ b);
    assert_eq!(xor, 0);
    assert_eq!(bytes[7], 0xA5 ^ 0x84 ^ 4 ^ 1 ^ 2 ^ 3 ^ 0x80);
}

#[test]
fn longest_packet() {
    let payload = [0xFFu8; 255];
    let bytes = Packet::new(OpCode::Scan, &payload).to_bytes();
    assert_eq!(bytes.len(), MAX_REQ_PACKET_SIZE);
    assert_eq!(bytes[2], 255);
    assert_eq!(bytes.iter().fold(0u8, |a, b| a ^ b), 0);
}

#[test]
fn op_code_bytes() {
    let all = [
        (OpCode::Stop, 0x25),
        (OpCode::Reset, 0x40),
        (OpCode::Scan, 0x20),
        (OpCode::ExpressScan, 0x82),
        (OpCode::ForceScan, 0x21),
        (OpCode::GetInfo, 0x50),
        (OpCode::GetHealth, 0x52),
        (OpCode::GetSampleRate, 0x59),
        (OpCode::GetLidarConf, 0x84),
    ];
    for (op, b) in all {
        assert_eq!(op.to_u8(), b);
    }
}
