use lidar::rplidar::response::{ScanSample, UltraCapsuleResponse};

#[test]
fn scan_record_fields() {
    // S = 1, !S = 0, quality 0x2F; C = 1; angle (0x1234 >> 1); distance 0x0F10.
    let rec = [(0x2F << 2) | 0b01, 0x35, 0x12, 0x10, 0x0F];
    let s = ScanSample::try_from_bytes(&rec).unwrap();
    assert_eq!(
        s,
        ScanSample { new: true, quality: 0x2F, angle_q6: 0x1235 >> 1, dist_q2: 0x0F10 }
    );
    assert!((s.angle_q6 as f32 / 64.0 - 36.40625).abs() < 1e-6);
}

#[test]
fn scan_record_not_new() {
    let rec = [0b10, 0x01, 0x00, 0x00, 0x00];
    let s = ScanSample::try_from_bytes(&rec).unwrap();
    assert!(!s.new);
    assert_eq!(s.quality, 0);
    assert_eq!(s.angle_q6, 0);
}

#[test]
fn scan_record_rejected() {
    // S equal to !S
    assert_eq!(ScanSample::try_from_bytes(&[0b11, 0x01, 0, 0, 0]), None);
    assert_eq!(ScanSample::try_from_bytes(&[0b00, 0x01, 0, 0, 0]), None);
    // check bit clear
    assert_eq!(ScanSample::try_from_bytes(&[0b01, 0x00, 0, 0, 0]), None);
    // wrong length
    assert_eq!(ScanSample::try_from_bytes(&[0b01, 0x01, 0, 0]), None);
    assert_eq!(ScanSample::try_from_bytes(&[0b01, 0x01, 0, 0, 0, 0]), None);
}

fn capsule_bytes(start_l: u8, start_h: u8, cabins: &[u32; 32]) -> Vec<u8> {
    let mut v = vec![0xA3, 0x57, start_l, start_h];
    for c in cabins {
        v.extend_from_slice(&c.to_le_bytes());
    }
    v
}

#[test]
fn capsule_fields() {
    let mut cabins = [0u32; 32];
    for (i, c) in cabins.iter_mut().enumerate() {
        *c = 0x0102_0304u32.wrapping_mul(i as u32 + 1);
    }
    let bytes = capsule_bytes(0x34, 0x81, &cabins);
    let c = UltraCapsuleResponse::try_from_bytes(&bytes).unwrap();
    assert_eq!(c.ultra_cabins, cabins);
    assert_eq!(c.s, 0x81 & 1);
    assert_eq!(c.start_angle_q6, ((0x81u16 & 0x7F) << 4) | 0x34);
}

#[test]
fn capsule_rejected() {
    let cabins = [0u32; 32];
    let mut bytes = capsule_bytes(0, 0, &cabins);
    bytes[0] = 0xB3;
    assert!(UltraCapsuleResponse::try_from_bytes(&bytes).is_none());
    let mut bytes = capsule_bytes(0, 0, &cabins);
    bytes[1] = 0x67;
    assert!(UltraCapsuleResponse::try_from_bytes(&bytes).is_none());
    let bytes = capsule_bytes(0, 0, &cabins);
    assert!(UltraCapsuleResponse::try_from_bytes(&bytes[..131]).is_none());
}
