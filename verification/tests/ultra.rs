use lidar::rplidar::fixed_point::{rad_to_deg_q16_double_exec, rad_to_deg_q16_single_exec};
use lidar::rplidar::response::UltraCapsuleResponse;
use lidar::rplidar::ultra::{UltraCapsuleParser, UltraCapsuleScan};

/// A small deterministic generator for test inputs.
struct Lcg(u64);

impl Lcg {
    fn next(&mut self) -> u32 {
        self.0 = self.0.wrapping_mul(6364136223846793005).wrapping_add(1442695040888963407);
        (self.0 >> 32) as u32
    }
}

fn capsule(start: u16, cabins: [u32; 32]) -> UltraCapsuleResponse {
    UltraCapsuleResponse { s: 0, start_angle_q6: start, ultra_cabins: cabins }
}

fn model_vbs(scaled: i32) -> (i32, u32) {
    let base = [0x400, 0x200, 0x100, 0x80, 0];
    let lvl = [4u32, 3, 2, 1, 0];
    for i in 0..5 {
        let remain = scaled - base[i];
        if remain >= 0 {
            return (base[i] + (remain << lvl[i]), lvl[i]);
        }
    }
    (0, 0)
}

/// The samples between two capsules, computed in floating point.
fn model_scans(prev: &UltraCapsuleResponse, cur: &UltraCapsuleResponse) -> Vec<UltraCapsuleScan> {
    let curr_start = ((cur.start_angle_q6 & 0x7FFF) as i32) << 2;
    let prev_start = ((prev.start_angle_q6 & 0x7FFF) as i32) << 2;
    let mut diff = curr_start - prev_start;
    if prev_start > curr_start {
        diff += 360 << 8;
    }
    let inc = (diff << 3) / 3;
    let mut raw = prev_start << 8;
    let mut scans = vec![];
    for pos in 0..32 {
        let c = prev.ultra_cabins[pos];
        let major = (c & 0xFFF) as i32;
        let p1 = ((c << 10) as i32) >> 22;
        let p2 = (c as i32) >> 22;
        let major2 = if pos == 31 { (cur.ultra_cabins[0] & 0xFFF) as i32 } else { (prev.ultra_cabins[pos + 1] & 0xFFF) as i32 };
        let (b1, l1) = model_vbs(major);
        let (b2, l2) = model_vbs(major2);
        let b1 = if major == 0 && major2 != 0 { b2 } else { b1 };
        let d0 = major << 2;
        let d1 = if p1 == 0xFFFFFE00u32 as i32 || p1 == 0x1FF { 0 } else { ((p1 << l1) + b1) << 2 };
        let d2 = if p2 == 0xFFFFFE00u32 as i32 || p2 == 0x1FF { 0 } else { ((p2 << l2) + b2) << 2 };
        for d in [d0, d1, d2] {
            let sync = ((raw + inc) % (360 << 16)) < inc;
            let mut off = (7.5 * 3.1415926535 * (1 << 16) as f64 / 180.0) as i32;
            if d >= 200 {
                let k2 = 98361 / d;
                off = (8.0 * 3.1415926535 * (1 << 16) as f64 / 180.0) as i32 - (k2 << 6) - (k2 * k2 * k2) / 98304;
            }
            let angle_q6 = (raw - (off as f32 * 180.0 / 3.1415926535) as i32) >> 10;
            raw += inc;
            let mut a = angle_q6;
            if a < 0 {
                a += 360 << 6;
            }
            if a >= 360 << 6 {
                a -= 360 << 6;
            }
            scans.push(UltraCapsuleScan {
                sync,
                quality: if d != 0 { 0x2F } else { 0 },
                angle_z_q14: (a << 8) / 90,
                dist_mm_q2: d,
            });
        }
    }
    scans
}

#[test]
fn first_capsule_gives_nothing() {
    let mut p = UltraCapsuleParser::default();
    assert!(p.on_scan_node_capsule_data(capsule(0, [0; 32])).is_none());
    let out = p.on_scan_node_capsule_data(capsule(64, [0; 32])).unwrap();
    assert_eq!(out.scans.len(), 96);
}

#[test]
fn zero_cabins() {
    let mut p = UltraCapsuleParser::default();
    p.on_scan_node_capsule_data(capsule(0, [0; 32]));
    let out = p.on_scan_node_capsule_data(capsule(96, [0; 32])).unwrap();
    // 96 q6 degrees is 384 q8, so one sample step is 384 * 8 / 3 = 1024 in q16.
    // Every distance is 0: quality 0 and the near offset of 7.5 degrees.
    assert!(out.scans.iter().all(|s| s.quality == 0 && s.dist_mm_q2 == 0));
    let expected = model_scans(&capsule(0, [0; 32]), &capsule(96, [0; 32]));
    assert_eq!(out.scans, expected);
    // The first sample: the near offset 8578 (q16 radians) is 491483 in q16
    // degrees; (0 - 491483) >> 10 = -480 wraps to 22560 q6 degrees, which is
    // 22560 * 256 / 90 = 64170.
    assert_eq!(out.scans[0].angle_z_q14, 64170);
    assert!(out.scans[0].sync == false);
}

#[test]
fn matches_float_model_on_random_capsules() {
    let mut g = Lcg(7);
    let mut prev = None;
    let mut p = UltraCapsuleParser::default();
    for _ in 0..200 {
        let mut cabins = [0u32; 32];
        for c in cabins.iter_mut() {
            *c = g.next();
        }
        let start = (g.next() & 0xFFFF) as u16;
        let cur = capsule(start, cabins);
        let keep = capsule(start, cabins);
        let out = p.on_scan_node_capsule_data(cur);
        match prev {
            None => assert!(out.is_none()),
            Some(pr) => assert_eq!(out.unwrap().scans, model_scans(&pr, &keep)),
        }
        prev = Some(keep);
    }
}

#[test]
fn single_precision_degrees_match_f32() {
    let mut offsets = vec![8578];
    for k2 in 0..=491 {
        offsets.push(9150 - k2 * 64 - (k2 * k2 * k2) / 98304);
    }
    for x in -65536..=65536 {
        if x % 97 == 0 {
            offsets.push(x);
        }
    }
    for x in offsets {
        let expected = (x as f32 * 180.0 / 3.1415926535) as i32;
        assert_eq!(rad_to_deg_q16_single_exec(x), expected, "x = {}", x);
    }
}

#[test]
fn double_precision_degrees_match_f64() {
    let mut offsets = vec![8578];
    for k2 in 0..=491 {
        offsets.push(9150 - k2 * 64 - (k2 * k2 * k2) / 98304);
    }
    for x in (-16777216..=16777216).step_by(4099) {
        offsets.push(x);
    }
    for x in offsets {
        let expected = (x as f64 * 180.0 / 3.14159265) as i32;
        assert_eq!(rad_to_deg_q16_double_exec(x), expected, "x = {}", x);
    }
}

#[test]
fn rounding_crosses_an_integer() {
    // x = -23406: the quotient -1341064.93.. rounds to -1341065.0 in single
    // precision before truncation.
    assert_eq!(rad_to_deg_q16_single_exec(-23406), -1341065);
    assert_eq!((-23406f32 * 180.0 / 3.1415926535) as i32, -1341065);
}
