use lidar::rplidar::rd_parser::{FlatResponse, ResponseDescriptorParser};

#[test]
fn simple_response_descriptor() {
    let scan_resp = [0xA5, 0x5A, 0x05, 0x00, 0x00, 0x40, 0x81];

    let expected = FlatResponse {
        dtype: 0x81,
        send_mode: 0x01,
        payload_len: 5,
    };

    let mut parser = ResponseDescriptorParser::default();

    let mut rd = None;
    for byte in scan_resp {
        rd = parser.feed(byte);
        if rd.is_some() {
            break;
        }
    }

    assert_eq!(rd, Some(expected))
}

fn feed_all(parser: &mut ResponseDescriptorParser, bytes: &[u8]) -> Vec<FlatResponse> {
    bytes.iter().filter_map(|&b| parser.feed(b)).collect()
}

#[test]
fn garbage_before_header_is_skipped() {
    let mut parser = ResponseDescriptorParser::default();
    let got = feed_all(&mut parser, &[0x00, 0x13, 0xA5, 0x00, 0xA5, 0x5A, 0x84, 0x00, 0x00, 0x40, 0x82]);
    assert_eq!(got, vec![FlatResponse { payload_len: 0x84, send_mode: 1, dtype: 0x82 }]);
}

#[test]
fn wide_length_and_send_mode() {
    let mut parser = ResponseDescriptorParser::default();
    let got = feed_all(&mut parser, &[0xA5, 0x5A, 0x12, 0x34, 0x56, 0xFF, 0x01]);
    assert_eq!(
        got,
        vec![FlatResponse { payload_len: 0x3F56_3412, send_mode: 3, dtype: 0x01 }]
    );
}

#[test]
fn two_descriptors_in_a_row() {
    let mut parser = ResponseDescriptorParser::default();
    let got = feed_all(
        &mut parser,
        &[0xA5, 0x5A, 0x05, 0, 0, 0x40, 0x81, 0xA5, 0x5A, 0x14, 0, 0, 0, 0x04],
    );
    assert_eq!(
        got,
        vec![
            FlatResponse { payload_len: 5, send_mode: 1, dtype: 0x81 },
            FlatResponse { payload_len: 0x14, send_mode: 0, dtype: 0x04 },
        ]
    );
}

#[test]
fn header_byte_after_start_flag_must_be_5a() {
    let mut parser = ResponseDescriptorParser::default();
    // A5 A5 5A ... : the second A5 breaks the header and is dropped, so the
    // following 5A does not start a descriptor either.
    let got = feed_all(&mut parser, &[0xA5, 0xA5, 0x5A, 0x05, 0, 0, 0x40, 0x81]);
    assert!(got.is_empty());
}
