use tftp::packet::{
    Error, Mode, Packet, ACK_OPCODE, DATA_OPCODE, ERROR_OPCODE, READ_OPCODE, WRITE_OPCODE,
};

fn test_rwrq(rq: &[u8], exp_op_code: u16, exp_file_name: &str, exp_mode: Mode) {
    let packet = Packet::parse(rq).unwrap();

    match packet {
        Packet::Request {
            op_code,
            file_name,
            mode,
        } => {
            assert_eq!(
                op_code, exp_op_code,
                "Expected: {}\nGot: {}",
                exp_op_code, op_code
            );
            assert_eq!(
                file_name, exp_file_name,
                "Expected: {}\nGot: {}",
                exp_file_name, file_name
            );
            assert_eq!(mode, exp_mode, "Expected: {:?}\nGot: {:?}", exp_mode, mode)
        }
        _ => panic!("did not get expected packet: Request"),
    }
}

#[test]
fn test_parse_rrq() {
    // read, main.rs, netascii
    let rrq = &[
        0x00, 0x01, 0x6D, 0x61, 0x69, 0x6E, 0x2E, 0x72, 0x73, 0x00, 0x6E, 0x65, 0x74, 0x61, 0x73,
        0x63, 0x69, 0x69, 0x00, /**/ 0x00,
    ];

    test_rwrq(rrq, READ_OPCODE, "main.rs", Mode::NetAscii);
}

#[test]
fn test_parse_wrq() {
    // write, main.rs, netascii
    let wrq = &[
        0x00, 0x02, 0x6D, 0x61, 0x69, 0x6E, 0x2E, 0x72, 0x73, 0x00, 0x6E, 0x65, 0x74, 0x61, 0x73,
        0x63, 0x69, 0x69, 0x00, /**/ 0x00,
    ];

    test_rwrq(wrq, WRITE_OPCODE, "main.rs", Mode::NetAscii);
}

#[test]
fn test_parse_data() {
    let data = &[
        0x00, 0x03, 0x00, 0x00, 0x68, 0x65, 0x6C, 0x6C, 0x6F, 0x20, 0x77, 0x6F, 0x72, 0x6C, 0x64,
    ];

    let packet = Packet::parse(data).unwrap();

    match packet {
        Packet::Data {
            op_code,
            block,
            data,
            len,
        } => {
            assert_eq!(op_code, DATA_OPCODE);
            assert_eq!(block, 0);
            assert_eq!(&data[0..11], b"hello world");
            assert_eq!(len, 11);
        }
        _ => panic!("did not get expected packet: Data"),
    }
}

#[test]
fn test_parse_ack() {
    let data = &[0x00, 0x04, 0x00, 0x00];

    let packet = Packet::parse(data).unwrap();

    match packet {
        Packet::Ack { op_code, block } => {
            assert_eq!(op_code, ACK_OPCODE);
            assert_eq!(block, 0);
        }
        _ => panic!("did not get expected packet: Ack"),
    }
}

#[test]
fn test_parse_error() {
    let data = &[
        0x00, 0x05, 0x00, 0x00, 0x65, 0x72, 0x72, 0x6F, 0x72, 0x00, /**/ 0x00,
    ];

    let packet = Packet::parse(data).unwrap();

    match packet {
        Packet::Error {
            op_code,
            error_code,
            error_msg,
        } => {
            assert_eq!(op_code, ERROR_OPCODE);
            assert_eq!(error_code, 0);
            assert_eq!(error_msg, "error");
        }
        _ => panic!("did not get expected packet: Error"),
    }
}

fn request(op_code: u16, file_name: &[u8], mode: &[u8], rest: &[u8]) -> Vec<u8> {
    let mut buffer = vec![(op_code >> 8) as u8, op_code as u8];
    buffer.extend_from_slice(file_name);
    buffer.push(0);
    buffer.extend_from_slice(mode);
    buffer.push(0);
    buffer.extend_from_slice(rest);
    buffer
}

fn failure(buffer: &[u8]) -> Error {
    match Packet::parse(buffer) {
        Ok(_) => panic!("the buffer was decoded"),
        Err(error) => error,
    }
}

#[test]
fn unknown_opcode_is_refused() {
    let buffer = &[0x00, 0x09, 0x61, 0x00, 0x62, 0x00, 0x00];
    assert!(matches!(failure(buffer), Error::InvalidOpcode));
}

#[test]
fn every_opcode_outside_the_five_is_refused() {
    for op_code in [0u16, 6, 7, 255, 256, 0x0100, 0x0300, 0x0500, 0xFFFF] {
        let buffer = [(op_code >> 8) as u8, op_code as u8, 0, 0, 0x61, 0, 0x62, 0, 0];
        assert!(matches!(failure(&buffer), Error::InvalidOpcode));
    }
    let bare = &[0x12, 0x34];
    assert!(matches!(failure(bare), Error::InvalidOpcode));
}

#[test]
fn request_keeps_opcode_name_and_mode() {
    for op_code in [READ_OPCODE, WRITE_OPCODE] {
        let buffer = request(op_code, b"dir/file.txt", b"octet", &[0xAA]);
        test_rwrq(&buffer, op_code, "dir/file.txt", Mode::Octet);
        let buffer = request(op_code, b"", b"mail", &[1, 2, 3]);
        test_rwrq(&buffer, op_code, "", Mode::Mail);
    }
}

#[test]
fn mode_is_matched_without_regard_to_case() {
    test_rwrq(&request(1, b"f", b"NETASCII", &[0]), 1, "f", Mode::NetAscii);
    test_rwrq(&request(1, b"f", b"NetAscii", &[0]), 1, "f", Mode::NetAscii);
    test_rwrq(&request(2, b"f", b"OcTeT", &[0]), 2, "f", Mode::Octet);
    test_rwrq(&request(2, b"f", b"MAIL", &[0]), 2, "f", Mode::Mail);
}

#[test]
fn file_name_may_be_any_utf8_text() {
    let name = "données/été.txt";
    let buffer = request(1, name.as_bytes(), b"octet", &[0]);
    test_rwrq(&buffer, 1, name, Mode::Octet);
}

#[test]
fn terminator_on_the_last_byte_is_not_seen() {
    // the mode's terminator is the last byte of the buffer
    let buffer = request(1, b"main.rs", b"netascii", &[]);
    assert!(matches!(failure(&buffer), Error::NoZeroByte));
    // the message's terminator is the last byte of the buffer
    let buffer = &[0x00, 0x05, 0x00, 0x01, 0x65, 0x72, 0x72, 0x00];
    assert!(matches!(failure(buffer), Error::NoZeroByte));
}

#[test]
fn request_without_terminators_is_refused() {
    let no_zero = &[0x00, 0x01, 0x61, 0x62, 0x63, 0x64];
    assert!(matches!(failure(no_zero), Error::NoZeroByte));
    let one_zero = &[0x00, 0x02, 0x61, 0x00, 0x6D, 0x61, 0x69, 0x6C, 0x6C];
    assert!(matches!(failure(one_zero), Error::NoZeroByte));
    let bare = &[0x00, 0x01];
    assert!(matches!(failure(bare), Error::NoZeroByte));
    let one_byte = &[0x00, 0x01, 0x00];
    assert!(matches!(failure(one_byte), Error::NoZeroByte));
}

#[test]
fn error_without_terminator_is_refused() {
    let buffer = &[0x00, 0x05, 0x00, 0x01, 0x65, 0x72, 0x72, 0x6F, 0x72];
    assert!(matches!(failure(buffer), Error::NoZeroByte));
    let bare = &[0x00, 0x05, 0x00, 0x01];
    assert!(matches!(failure(bare), Error::NoZeroByte));
}

#[test]
fn missing_terminator_comes_before_bad_text() {
    // the file name is not UTF-8, and the mode has no terminator before the last byte
    let buffer = &[0x00, 0x01, 0xFF, 0x00, 0x6D, 0x61, 0x69, 0x6C];
    assert!(matches!(failure(buffer), Error::NoZeroByte));
}

#[test]
fn short_buffers_are_truncated() {
    assert!(matches!(failure(&[]), Error::Truncated));
    assert!(matches!(failure(&[0x00]), Error::Truncated));
    for op_code in [DATA_OPCODE, ACK_OPCODE, ERROR_OPCODE] {
        assert!(matches!(failure(&[0x00, op_code as u8]), Error::Truncated));
        assert!(matches!(failure(&[0x00, op_code as u8, 0x00]), Error::Truncated));
    }
}

#[test]
fn text_that_is_not_utf8_is_refused() {
    let buffer = request(1, &[0x66, 0xFF, 0x66], b"octet", &[0]);
    assert!(matches!(failure(&buffer), Error::InvalidText));
    let buffer = request(1, b"f", &[0xC3, 0x28], &[0]);
    assert!(matches!(failure(&buffer), Error::InvalidText));
    // an overlong encoding, a surrogate, and a sequence that is cut short
    for name in [&[0xC0u8, 0x80][..], &[0xED, 0xA0, 0x80][..], &[0xE2, 0x82][..]] {
        let buffer = request(2, name, b"octet", &[0]);
        assert!(matches!(failure(&buffer), Error::InvalidText));
    }
    let buffer = &[0x00, 0x05, 0x00, 0x02, 0x80, 0x00, 0x00];
    assert!(matches!(failure(buffer), Error::InvalidText));
}

#[test]
fn unknown_mode_is_refused() {
    for mode in [&b"binary"[..], &b""[..], &b"octe"[..], &b"octets"[..], &b"net ascii"[..]] {
        let buffer = request(1, b"f", mode, &[0]);
        assert!(matches!(failure(&buffer), Error::UnsupportedMode));
    }
    // letters that are no ASCII letters
    let buffer = request(1, b"f", "maıl".as_bytes(), &[0]);
    assert!(matches!(failure(&buffer), Error::UnsupportedMode));
    // a byte 32 below a small letter that is no capital
    let buffer = request(1, b"f", b"m!il", &[0]);
    assert!(matches!(failure(&buffer), Error::UnsupportedMode));
}

#[test]
fn bytes_after_the_mode_are_ignored() {
    let buffer = request(1, b"a", b"octet", b"blksize\x001024\x00");
    test_rwrq(&buffer, 1, "a", Mode::Octet);
}

#[test]
fn data_block_number_is_big_endian() {
    let buffer = &[0x00, 0x03, 0x12, 0x34, 0xAB];
    match Packet::parse(buffer).unwrap() {
        Packet::Data { op_code, block, data, len } => {
            assert_eq!(op_code, 3);
            assert_eq!(block, 0x1234);
            assert_eq!(block, 4660);
            assert_eq!(len, 1);
            assert_eq!(data[0], 0xAB);
        }
        _ => panic!("did not get expected packet: Data"),
    }
}

#[test]
fn data_payload_is_copied_and_padded_with_zeros() {
    let mut buffer = vec![0x00, 0x03, 0x00, 0x01];
    let payload: Vec<u8> = (0..300u32).map(|i| (i % 251 + 1) as u8).collect();
    buffer.extend_from_slice(&payload);
    match Packet::parse(&buffer).unwrap() {
        Packet::Data { op_code, block, data, len } => {
            assert_eq!(op_code, DATA_OPCODE);
            assert_eq!(block, 1);
            assert_eq!(len, 300);
            assert_eq!(&data[..300], &payload[..]);
            assert!(data[300..].iter().all(|&byte| byte == 0));
        }
        _ => panic!("did not get expected packet: Data"),
    }
}

#[test]
fn data_without_payload_is_empty() {
    let buffer = &[0x00, 0x03, 0xFF, 0xFF];
    match Packet::parse(buffer).unwrap() {
        Packet::Data { block, data, len, .. } => {
            assert_eq!(block, 65535);
            assert_eq!(len, 0);
            assert!(data.iter().all(|&byte| byte == 0));
        }
        _ => panic!("did not get expected packet: Data"),
    }
}

#[test]
fn data_payload_is_cut_at_the_block_size() {
    for extra in [0usize, 1, 100] {
        let mut buffer = vec![0x00, 0x03, 0x00, 0x02];
        let payload: Vec<u8> = (0..512 + extra).map(|i| (i % 256) as u8).collect();
        buffer.extend_from_slice(&payload);
        match Packet::parse(&buffer).unwrap() {
            Packet::Data { block, data, len, .. } => {
                assert_eq!(block, 2);
                assert_eq!(len, 512);
                assert_eq!(&data[..], &payload[..512]);
            }
            _ => panic!("did not get expected packet: Data"),
        }
    }
    let mut buffer = vec![0x00, 0x03, 0x00, 0x02];
    buffer.extend_from_slice(&[7u8; 511]);
    match Packet::parse(&buffer).unwrap() {
        Packet::Data { data, len, .. } => {
            assert_eq!(len, 511);
            assert_eq!(data[510], 7);
            assert_eq!(data[511], 0);
        }
        _ => panic!("did not get expected packet: Data"),
    }
}

#[test]
fn ack_block_number_is_big_endian() {
    for (hi, lo, block) in [(0x00u8, 0x01u8, 1u16), (0x01, 0x00, 256), (0xAB, 0xCD, 43981), (0xFF, 0xFF, 65535)] {
        match Packet::parse(&[0x00, 0x04, hi, lo]).unwrap() {
            Packet::Ack { op_code, block: got } => {
                assert_eq!(op_code, ACK_OPCODE);
                assert_eq!(got, block);
            }
            _ => panic!("did not get expected packet: Ack"),
        }
    }
}

#[test]
fn ack_ignores_what_follows_the_block_number() {
    match Packet::parse(&[0x00, 0x04, 0x00, 0x05, 0xDE, 0xAD]).unwrap() {
        Packet::Ack { op_code, block } => {
            assert_eq!(op_code, 4);
            assert_eq!(block, 5);
        }
        _ => panic!("did not get expected packet: Ack"),
    }
}

#[test]
fn error_keeps_code_and_message() {
    let mut buffer = vec![0x00, 0x05, 0x01, 0x02];
    buffer.extend_from_slice("File not found: café".as_bytes());
    buffer.extend_from_slice(&[0x00, 0x99]);
    match Packet::parse(&buffer).unwrap() {
        Packet::Error { op_code, error_code, error_msg } => {
            assert_eq!(op_code, ERROR_OPCODE);
            assert_eq!(error_code, 258);
            assert_eq!(error_msg, "File not found: café");
        }
        _ => panic!("did not get expected packet: Error"),
    }
}

#[test]
fn error_message_may_be_empty() {
    match Packet::parse(&[0x00, 0x05, 0x00, 0x07, 0x00, 0x00]).unwrap() {
        Packet::Error { error_code, error_msg, .. } => {
            assert_eq!(error_code, 7);
            assert_eq!(error_msg, "");
        }
        _ => panic!("did not get expected packet: Error"),
    }
}

#[test]
fn error_message_ends_at_the_first_zero() {
    match Packet::parse(&[0x00, 0x05, 0x00, 0x03, 0x61, 0x00, 0x62, 0x00, 0x00]).unwrap() {
        Packet::Error { error_msg, .. } => assert_eq!(error_msg, "a"),
        _ => panic!("did not get expected packet: Error"),
    }
}

#[test]
fn every_leading_value_is_sorted_by_its_opcode() {
    for op_code in 0..=u16::MAX {
        let buffer = [(op_code >> 8) as u8, op_code as u8, 0x12, 0x34, 0x00, 0x4D, 0x61, 0x69, 0x6C, 0x00, 0x00];
        match (op_code, Packet::parse(&buffer)) {
            (1 | 2, Ok(Packet::Request { op_code: got, .. })) => assert_eq!(got, op_code),
            (3, Ok(Packet::Data { op_code: got, .. })) => assert_eq!(got, 3),
            (4, Ok(Packet::Ack { op_code: got, .. })) => assert_eq!(got, 4),
            (5, Ok(Packet::Error { op_code: got, .. })) => assert_eq!(got, 5),
            (0 | 6..=u16::MAX, Err(Error::InvalidOpcode)) => {}
            _ => panic!("opcode {} was not sorted as its kind", op_code),
        }
    }
}

#[test]
fn every_block_number_is_read_back() {
    for block in 0..=u16::MAX {
        let [hi, lo] = block.to_be_bytes();
        match Packet::parse(&[0x00, 0x04, hi, lo]).unwrap() {
            Packet::Ack { block: got, .. } => assert_eq!(got, block),
            _ => panic!("did not get expected packet: Ack"),
        }
        match Packet::parse(&[0x00, 0x03, hi, lo]).unwrap() {
            Packet::Data { block: got, len, .. } => {
                assert_eq!(got, block);
                assert_eq!(len, 0);
            }
            _ => panic!("did not get expected packet: Data"),
        }
    }
}
