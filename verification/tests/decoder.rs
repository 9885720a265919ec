use lidar::rplidar::response::ScanSample;
use lidar::rplidar::LidarDecoder;

fn record(new: bool, quality: u8, angle_q6: u16, dist_q2: u16) -> [u8; 5] {
    let a = (angle_q6 << 1) | 1;
    let s = if new { 0b01 } else { 0b10 };
    [
        (quality << 2) | s,
        (a & 0xFF) as u8,
        (a >> 8) as u8,
        (dist_q2 & 0xFF) as u8,
        (dist_q2 >> 8) as u8,
    ]
}

#[test]
fn scan_stream_is_decoded() {
    let mut d = LidarDecoder::new();
    let mut bytes = vec![0xA5, 0x5A, 0x05, 0x00, 0x00, 0x40, 0x81];
    bytes.extend_from_slice(&record(true, 15, 1000, 4000));
    bytes.extend_from_slice(&[0, 0, 0, 0, 0]);
    bytes.extend_from_slice(&record(false, 63, 23039, 65535));
    let got = d.scan(&bytes);
    assert_eq!(
        got,
        vec![
            ScanSample { new: true, quality: 15, angle_q6: 1000, dist_q2: 4000 },
            ScanSample { new: false, quality: 63, angle_q6: 23039, dist_q2: 65535 },
        ]
    );
}

#[test]
fn scan_stream_in_pieces() {
    let mut d = LidarDecoder::new();
    assert!(d.scan(&[0x00, 0xA5, 0x5A, 0x05]).is_empty());
    assert!(d.scan(&[0x00, 0x00, 0x40, 0x81]).is_empty());
    let r = record(true, 1, 2, 3);
    assert!(d.scan(&r[..2]).is_empty());
    assert_eq!(d.scan(&r[2..]), vec![ScanSample { new: true, quality: 1, angle_q6: 2, dist_q2: 3 }]);
}

#[test]
fn command_sent_whole_waits_for_a_descriptor() {
    let mut d = LidarDecoder::new();
    assert!(d.scan(&[0xA5, 0x5A, 0x05, 0x00, 0x00, 0x40, 0x81]).is_empty());
    assert!(!d.command_sent(2, 1));
    // Still serving the descriptor: a record decodes.
    assert_eq!(d.scan(&record(true, 0, 0, 0)).len(), 1);
    assert!(d.command_sent(2, 2));
    // Now a descriptor is expected first; a record's bytes are not one.
    assert!(d.scan(&record(true, 0, 0, 0)).is_empty());
}

#[test]
fn ultra_stream_gives_samples_from_the_second_capsule() {
    let mut d = LidarDecoder::new();
    // Descriptor announcing 132-byte payloads.
    let mut bytes = vec![0xA5, 0x5A, 0x84, 0x00, 0x00, 0x40, 0x84];
    for _ in 0..3 {
        let mut cap = vec![0xA0, 0x50, 0x00, 0x00];
        cap.extend(std::iter::repeat(0).take(128));
        bytes.extend(cap);
    }
    let got = d.extended_scan(&bytes, true);
    assert_eq!(got.len(), 2);
    assert!(got.iter().all(|p| p.scans.len() == 96));
}

#[test]
fn ultra_stream_without_delivery_gives_nothing() {
    let mut d = LidarDecoder::new();
    let mut bytes = vec![0xA5, 0x5A, 0x84, 0x00, 0x00, 0x40, 0x84];
    for _ in 0..3 {
        let mut cap = vec![0xA0, 0x50, 0x00, 0x00];
        cap.extend(std::iter::repeat(0).take(128));
        bytes.extend(cap);
    }
    assert!(d.extended_scan(&bytes, false).is_empty());
    // Delivery resumes with no previous capsule kept: one more capsule alone gives nothing.
    let mut cap = vec![0xA0, 0x50, 0x00, 0x00];
    cap.extend(std::iter::repeat(0).take(128));
    assert!(d.extended_scan(&cap, true).is_empty());
    assert_eq!(d.extended_scan(&cap, true).len(), 1);
}
