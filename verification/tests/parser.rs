use lidar::parser::{ParserState, ResponseParser};

#[test]
fn descriptor_bytes_complete_no_response() {
    let mut p = ResponseParser::default();
    let got = p.feed(&[0xA5, 0x5A, 0x00, 0x00, 0x00, 0x05, 0x81, 1, 2, 3, 4, 5]);
    assert!(got.is_empty());
}

#[test]
fn single_bytes_complete_no_response() {
    let mut p = ResponseParser::default();
    for b in [0x00, 0xA5, 0x5A, 0, 0, 0, 0x14, 0x04] {
        assert!(p.feed_single(b).is_none());
    }
}

#[test]
fn state_default_is_waiting() {
    assert!(matches!(ParserState::default(), ParserState::WaitingForHeader));
}
