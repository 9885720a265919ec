use lidar::rplidar::payload_parser::PayloadParser;

#[test]
fn collects_payloads_of_the_set_length() {
    let mut p = PayloadParser::default();
    p.set_payload_len(3);
    assert_eq!(p.feed(1), None);
    assert_eq!(p.feed(2), None);
    assert_eq!(p.feed(3), Some(vec![1, 2, 3]));
    assert_eq!(p.feed(4), None);
    assert_eq!(p.feed(5), None);
    assert_eq!(p.feed(6), Some(vec![4, 5, 6]));
}

#[test]
fn setting_the_length_drops_buffered_bytes() {
    let mut p = PayloadParser::default();
    p.set_payload_len(4);
    assert_eq!(p.feed(9), None);
    assert_eq!(p.feed(9), None);
    p.set_payload_len(2);
    assert_eq!(p.feed(1), None);
    assert_eq!(p.feed(2), Some(vec![1, 2]));
}

#[test]
fn zero_length_never_completes() {
    let mut p = PayloadParser::default();
    for b in 0..20u8 {
        assert_eq!(p.feed(b), None);
    }
}

#[test]
fn every_length_th_byte_completes_a_payload() {
    let mut p = PayloadParser::default();
    p.set_payload_len(2);
    let bytes: Vec<u8> = vec![10, 11, 20, 21, 30, 31];
    let mut out = Vec::new();
    for b in bytes.iter() {
        out.push(p.feed(*b));
    }
    assert_eq!(
        out,
        vec![None, Some(vec![10, 11]), None, Some(vec![20, 21]), None, Some(vec![30, 31])]
    );
}
