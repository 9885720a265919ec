use lidar::rplidar::ultra_capsule_parser::{HQNode, UltraCabin, UltraCapsuleParser, UltraCapsuleResponse};

#[test]
fn bytes_short_of_a_frame_give_no_nodes() {
    let mut p = UltraCapsuleParser::new();
    let mut data = vec![0xA1, 0x52];
    data.extend(std::iter::repeat(0x11).take(70));
    assert!(p.on_data(&data).is_empty());
    // Seven more bytes bring the frame to 79 bytes, still short of a frame.
    assert!(p.on_data(&[0; 7]).is_empty());
}

#[test]
fn broken_sync_restarts_the_frame() {
    let mut p = UltraCapsuleParser::default();
    // 0x12 has high nibble 1: skipped. 0xA0 starts a frame; 0x40 breaks it.
    assert!(p.on_data(&[0x12, 0xA0, 0x40, 0x00, 0xA0, 0x50]).is_empty());
    // The frame in progress has two bytes; 77 more keep it short of the end.
    assert!(p.on_data(&[0u8; 77]).is_empty());
}

#[test]
fn reset_restarts_framing() {
    let mut p = UltraCapsuleParser::new();
    assert!(p.on_data(&[0xA0, 0x50, 1, 2, 3]).is_empty());
    p.reset();
    // After a reset a whole new frame but its last byte can be fed.
    let mut data = vec![0xA0, 0x50];
    data.extend(std::iter::repeat(0).take(77));
    assert!(p.on_data(&data).is_empty());
}

#[test]
fn plain_types() {
    let cabin = UltraCabin::default();
    assert_eq!(cabin.combined_x3, 0);
    let capsule = UltraCapsuleResponse {
        start_angle_sync_q6: 0x8000,
        ultra_cabins: [cabin; 32],
        checksum_1: 1,
        checksum_2: 2,
    };
    let copy = capsule;
    assert_eq!(copy.checksum_2, 2);
    let node = HQNode { flag: 1, quality: 188, angle_z_q14: 0, dist_mm_q2: 4 };
    assert_eq!(node.quality, 0x2F << 2);
}
