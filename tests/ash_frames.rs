use ezsp_spi_bridge::checksum::frame_checksum;
use ezsp_spi_bridge::escaping::{escape_reserved_bytes, unescape_reserved_bytes};
use ezsp_spi_bridge::frame::{frame_data_and_flag, Error, Frame, ParseError};
use ezsp_spi_bridge::frame_number::FrameNumber;
use ezsp_spi_bridge::frames::{AckFrame, DataFrame, ErrorFrame, NakFrame, RstAckFrame, RstFrame};
use ezsp_spi_bridge::randomizer::{rand_seq, randomize_data, xor_with_rand_seq};

#[test]
fn it_computes_checksum_for_rst_frame() {
    let rst_frame = [0xC0];
    assert_eq!(frame_checksum(&rst_frame), 0x38BC);
}

#[test]
fn it_computes_checksum_for_rstack_frame() {
    let rstack_frame = [0xC1, 0x02, 0x02];
    assert_eq!(frame_checksum(&rstack_frame), 0x9B7B);
}

#[test]
fn it_computes_checksum_for_error_frame() {
    let error_frame = [0xC2, 0x01, 0x52];
    assert_eq!(frame_checksum(&error_frame), 0xCD8D);
}

#[test]
fn it_computes_checksum_for_data_frames() {
    let data_frame_1 = [0x25, 0x00, 0x00, 0x00, 0x02];
    assert_eq!(frame_checksum(&data_frame_1), 0x1AAD);

    let data_frame_2 = [0x53, 0x00, 0x80, 0x00, 0x02, 0x02, 0x11, 0x30];
    assert_eq!(frame_checksum(&data_frame_2), 0x6316);

    let data_frame_3 = [0x25, 0x42, 0x21, 0xA8, 0x56];
    assert_eq!(frame_checksum(&data_frame_3), 0xA609);

    let data_frame_4 = [0x53, 0x42, 0xA1, 0xA8, 0x56, 0x28, 0x04, 0x82];
    assert_eq!(frame_checksum(&data_frame_4), 0x032A);
}

#[test]
fn it_computes_checksum_for_ack_frames() {
    let ack_frame_1 = [0x81];
    assert_eq!(frame_checksum(&ack_frame_1), 0x6059);

    let ack_frame_2 = [0x8E];
    assert_eq!(frame_checksum(&ack_frame_2), 0x91B6);
}

#[test]
fn it_computes_checksum_for_nack_frames() {
    let nack_frame_1 = [0xA6];
    assert_eq!(frame_checksum(&nack_frame_1), 0x34DC);

    let nack_frame_2 = [0xAD];
    assert_eq!(frame_checksum(&nack_frame_2), 0x85B7);
}

#[test]
fn escaping_it_escapes_reserved_bytes() {
    let frame = [0x00, 0x7E, 0x7D, 0x11, 0x13, 0x18, 0x1A];
    let mut buf = Vec::with_capacity(frame.len() * 2);
    let res = [
        0x00, 0x7D, 0x5E, 0x7D, 0x5D, 0x7D, 0x31, 0x7D, 0x33, 0x7D, 0x38, 0x7D, 0x3A,
    ];

    escape_reserved_bytes(&frame, &mut buf);
    assert_eq!(buf.as_slice(), res);
}

#[test]
fn it_unescapes_reserved_bytes() {
    let mut buf = vec![
        0x00, 0x7D, 0x5E, 0x7D, 0x5D, 0x7D, 0x31, 0x7D, 0x33, 0x7D, 0x38, 0x7D, 0x3A,
    ];

    unescape_reserved_bytes(&mut buf);
    assert_eq!(
        buf,
        [0x00, 0x7D, 0x7E, 0x7D, 0x7D, 0x7D, 0x11, 0x7D, 0x13, 0x7D, 0x18, 0x7D, 0x1A]
    );
}

#[test]
fn it_computes_the_correct_sequence() {
    let mut buf = vec![0u8; 5];
    randomize_data(&mut buf);
    assert_eq!(buf, [0x42, 0x21, 0xA8, 0x54, 0x2A])
}

#[test]
fn rand_seq_and_xor_agree_with_the_register_loop() {
    assert_eq!(rand_seq(5), vec![0x42, 0x21, 0xA8, 0x54, 0x2A]);
    let mut a = vec![0x00, 0x00, 0x00, 0x02];
    xor_with_rand_seq(&mut a);
    assert_eq!(a, [0x42, 0x21, 0xA8, 0x56]);
}

#[test]
fn randomizing_twice_gives_the_body_back() {
    let mut buf = vec![0x00, 0x00, 0x00, 0x02];
    randomize_data(&mut buf);
    assert_eq!(buf, [0x42, 0x21, 0xA8, 0x56]);
    randomize_data(&mut buf);
    assert_eq!(buf, [0x00, 0x00, 0x00, 0x02]);
}

#[test]
fn it_accepts_a_valid_frame_number() {
    let res = FrameNumber::try_from(7);
    assert!(res.is_ok());
}

#[test]
fn it_rejects_invalid_frame_number() {
    let res = FrameNumber::try_from(42);
    assert!(res.is_err())
}

#[test]
fn it_truncates_invalid_frame_number() {
    let res = FrameNumber::new_truncate(0xBE);
    assert_eq!(res.value(), 6);
}

#[test]
fn frame_number_addition_wraps_modulo_eight() {
    for a in 0u8..8 {
        for b in 0u8..8 {
            let n = FrameNumber::new(a).unwrap();
            assert_eq!(n.add(b).value(), (a + b) % 8);
            let mut m = n;
            m.add_assign(b);
            assert_eq!(m.value(), (a + b) % 8);
        }
    }
    assert_eq!(FrameNumber::new(7).unwrap().add(255).value(), 6);
    assert!(FrameNumber::new(8).is_none());
    assert_eq!(FrameNumber::zero().value(), 0);
}

#[test]
fn ack_it_parses_valid_frames_correctly() {
    let buf = [0x81, 0x60, 0x59, 0x7E];
    let (_rest, frame) = AckFrame::parse(&buf).unwrap();

    assert!(frame.is_ready());
    assert_eq!(frame.acknowledgement_number().value(), 1);

    let buf = [0x8E, 0x91, 0xB6, 0x7E];
    let (_rest, frame) = AckFrame::parse(&buf).unwrap();

    assert!(!frame.is_ready());
    assert_eq!(frame.acknowledgement_number().value(), 6);
}

#[test]
fn it_rejects_an_early_flag_byte() {
    let buf = [0x8E, 0x7E];
    let res = AckFrame::parse(&buf);

    assert!(res.is_none());
}

#[test]
fn it_rejects_a_non_ack_frame() {
    let buf = [0x25, 0x42, 0x21, 0xA8, 0x56];
    let res = AckFrame::parse(&buf);

    assert!(res.is_none());
}

#[test]
fn ack_it_serializes_the_control_byte_correctly() {
    let frame = AckFrame::new(false, true, FrameNumber::new_truncate(6));

    assert_eq!(frame.flag(), 0x8E)
}

#[test]
fn ack_it_returns_the_correct_data_field_len() {
    let frame = AckFrame::new(false, true, FrameNumber::new_truncate(6));

    assert_eq!(frame.data_len(), 0);
}

#[test]
fn ack_it_serializes_the_data_field_correctly() {
    let frame = AckFrame::new(false, true, FrameNumber::new_truncate(6));
    let mut buf = vec![0u8; 2];

    frame.serialize_data(&mut buf);
    assert_eq!(buf, [0; 2])
}

#[test]
fn data_it_parses_a_valid_frame_correctly() {
    let buf = [0x25, 0x42, 0x21, 0xA8, 0x56, 0xA6, 0x09, 0x7E];
    let (_rest, frame) = DataFrame::parse(&buf).unwrap();

    assert_eq!(frame.frame_number().value(), 2);
    assert!(!frame.is_retransmitted());
    assert_eq!(frame.acknowledgement_number().value(), 5);
    assert_eq!(frame.data().as_slice(), [0x00, 0x00, 0x00, 0x02])
}

#[test]
fn data_it_fails_to_parse_invalid_frame() {
    let buf = [0xA6];
    let res = DataFrame::parse(&buf);
    assert!(res.is_none());
}

#[test]
fn data_it_serializes_the_control_byte_correctly() {
    let frame = DataFrame::new(
        FrameNumber::new_truncate(2),
        false,
        FrameNumber::new_truncate(5),
        Vec::new(),
    );
    assert_eq!(frame.flag(), 0x25);
}

#[test]
fn data_it_returns_correct_data_field_len() {
    let frame = DataFrame::new(
        FrameNumber::new_truncate(2),
        false,
        FrameNumber::new_truncate(5),
        vec![0x00, 0x00, 0x00, 0x02],
    );
    assert_eq!(frame.data_len(), 4);
}

#[test]
fn data_it_serializes_data_field_correctly() {
    let frame = DataFrame::new(
        FrameNumber::new_truncate(2),
        false,
        FrameNumber::new_truncate(5),
        vec![0x00, 0x00, 0x00, 0x02],
    );
    let mut buf = Vec::with_capacity(4);
    frame.serialize_data(&mut buf);
    assert_eq!(buf, [0x42, 0x21, 0xA8, 0x56]);
}

#[test]
fn error_it_parses_a_valid_frame_correctly() {
    let buf = [0xC2, 0x02, 0x51, 0xA8, 0xBD, 0x7E];
    let (_rest, frame) = ErrorFrame::parse(&buf).unwrap();

    assert_eq!(frame.version(), 0x02);
    assert_eq!(frame.code(), 0x51);
}

#[test]
fn it_rejects_an_invalid_frame() {
    let buf = [0xC2];
    let res = ErrorFrame::parse(&buf);

    assert!(res.is_none());
}

#[test]
fn error_it_rejects_a_early_terminated_frame() {
    let buf = [0xC2, 0x02, 0x51, 0x7E];
    let res = ErrorFrame::parse(&buf);

    assert!(res.is_none());
}

#[test]
fn error_it_serializes_the_control_byte_correctly() {
    let frame = ErrorFrame::new(0x02, 0x52);

    assert_eq!(frame.flag(), 0xC2);
}

#[test]
fn error_it_returns_correct_data_field_len() {
    let frame = ErrorFrame::new(0x02, 0x52);

    assert_eq!(frame.data_len(), 2);
}

#[test]
fn error_it_serializes_data_field_correctly() {
    let frame = ErrorFrame::new(0x02, 0x52);
    let mut buf = Vec::with_capacity(2);

    frame.serialize_data(&mut buf);
    assert_eq!(buf, [0x02, 0x52]);
}

#[test]
fn nak_it_parses_valid_frames_correctly() {
    let buf = [0xA6, 0x34, 0xDC, 0x7E];
    let (_rest, frame) = NakFrame::parse(&buf).unwrap();

    assert!(frame.is_ready());
    assert_eq!(frame.acknowledgement_number().value(), 6);

    let buf = [0xAD, 0x85, 0xB7, 0x7E];
    let (_rest, frame) = NakFrame::parse(&buf).unwrap();

    assert!(!frame.is_ready());
    assert_eq!(frame.acknowledgement_number().value(), 5);
}

#[test]
fn it_fails_to_parse_an_invalid_frame() {
    let buf = [0x25, 0x42, 0x21, 0xA8, 0x56];
    let res = NakFrame::parse(&buf);

    assert!(res.is_none());
}

#[test]
fn nak_it_serializes_the_control_byte_correctly() {
    let frame = NakFrame::new(false, true, FrameNumber::new_truncate(5));

    assert_eq!(frame.flag(), 0xAD)
}

#[test]
fn nak_it_returns_the_correct_data_field_len() {
    let frame = NakFrame::new(false, true, FrameNumber::new_truncate(6));

    assert_eq!(frame.data_len(), 0);
}

#[test]
fn nak_it_serializes_the_data_field_correctly() {
    let frame = NakFrame::new(false, true, FrameNumber::new_truncate(6));
    let mut buf = vec![0u8; 2];

    frame.serialize_data(&mut buf);
    assert_eq!(buf, [0; 2])
}

#[test]
fn parsers_it_escapes_reserved_bytes() {
    let buf = [
        0x7D, 0x5E, 0x7D, 0x5D, 0x7D, 0x31, 0x7D, 0x33, 0x7D, 0x38, 0x7D, 0x3A, 0x7E,
    ];
    let (consumed, res) = frame_data_and_flag(&buf).unwrap();

    assert_eq!(buf.len() - consumed, 0);
    assert_eq!(&res[..], [0x7E, 0x7D, 0x11, 0x13, 0x18, 0x1A]);
}

#[test]
fn parsers_it_requests_more_data_when_frame_body_is_empty() {
    let buf: [u8; 0] = [];
    let res = frame_data_and_flag(&buf);

    assert!(res.is_none());
}

#[test]
fn parsers_it_requests_more_data_when_escape_byte_is_last_byte() {
    let buf = [0x7D];
    let res = frame_data_and_flag(&buf);

    assert!(res.is_none());
}

#[test]
fn parsers_it_removes_the_flag_byte_from_the_end_of_a_buffer() {
    let buf = [0x01, 0x02, 0x03, 0x7E, 0x04];
    let (consumed, res) = frame_data_and_flag(&buf).unwrap();

    assert_eq!(&buf[consumed..], [0x04]);
    assert_eq!(&res[..], [0x01, 0x02, 0x03]);
}

#[test]
fn utils_it_escapes_reserved_bytes() {
    let buf = [
        0x7D, 0x5E, 0x7D, 0x5D, 0x7D, 0x31, 0x7D, 0x33, 0x7D, 0x38, 0x7D, 0x3A, 0x7E,
    ];
    let (consumed, res) = frame_data_and_flag(&buf).unwrap();

    assert_eq!(buf.len() - consumed, 0);
    assert_eq!(&res[..], [0x7E, 0x7D, 0x11, 0x13, 0x18, 0x1A]);
}

#[test]
fn utils_it_requests_more_data_when_frame_body_is_empty() {
    let buf: [u8; 0] = [];
    assert!(frame_data_and_flag(&buf).is_none())
}

#[test]
fn utils_it_requests_more_data_when_escape_byte_is_last_byte() {
    let buf = [0x7D];
    assert!(frame_data_and_flag(&buf).is_none())
}

#[test]
fn utils_it_removes_the_flag_byte_from_the_end_of_a_buffer() {
    let buf = [0x01, 0x02, 0x03, 0x7E, 0x04];
    let (consumed, res) = frame_data_and_flag(&buf).unwrap();

    assert_eq!(&buf[consumed..], [0x04]);
    assert_eq!(&res[..], [0x01, 0x02, 0x03]);
}

#[test]
fn rst_it_parses_a_valid_frame_correctly() {
    let buf = [0xC0, 0x38, 0xBC, 0x7E];
    let (consumed, _frame) = RstFrame::parse(&buf).unwrap();

    assert_eq!(buf.len() - consumed, 0);
}

#[test]
fn rst_it_rejects_a_early_terminated_frame() {
    let buf = [0xC0, 0x7E];
    let res = RstFrame::parse(&buf);

    assert!(res.is_none())
}

#[test]
fn it_rejects_a_corrupted_frame() {
    let buf = [0xC0, 0x00, 0x00, 0x7E];
    let res = RstFrame::parse(&buf);

    assert!(res.is_none())
}

#[test]
fn rst_it_serializes_the_control_byte_correctly() {
    let frame = RstFrame;

    assert_eq!(frame.flag(), 0xC0)
}

#[test]
fn rst_it_returns_correct_data_field_len() {
    let frame = RstFrame;

    assert_eq!(frame.data_len(), 0);
}

#[test]
fn rst_it_serializes_data_field_correctly() {
    let frame = RstFrame;
    let mut buf = vec![0u8; 2];

    frame.serialize_data(&mut buf);
    assert_eq!(buf, [0; 2])
}

#[test]
fn it_parse_a_valid_frame_correctly() {
    let buf = [0xC1, 0x02, 0x02, 0x9B, 0x7B, 0x7E];
    let (_rest, frame) = RstAckFrame::parse(&buf).unwrap();

    assert_eq!(frame.version(), 0x02);
    assert_eq!(frame.code(), 0x02);
}

#[test]
fn rst_ack_it_fails_to_parse_invalid_frame() {
    let buf = [0xC1];
    let res = RstAckFrame::parse(&buf);

    assert!(res.is_none());
}

#[test]
fn rst_ack_it_serializes_the_control_byte_correctly() {
    let frame = RstAckFrame::new(0x02, 0x02);

    assert_eq!(frame.flag(), 0xC1);
}

#[test]
fn rst_ack_it_returns_correct_data_field_len() {
    let frame = RstAckFrame::new(0x02, 0x02);

    assert_eq!(frame.data_len(), 2);
}

#[test]
fn rst_ack_it_serializes_data_field_correctly() {
    let frame = RstAckFrame::new(0x02, 0x02);
    let mut buf = Vec::with_capacity(2);

    frame.serialize_data(&mut buf);
    assert_eq!(buf, [0x02, 0x02]);
}

#[test]
fn it_rejects_an_unknown_frame_type() {
    let buf = [0xFF];
    let res = Frame::parse(&buf);

    assert!(matches!(res, Some(Err(ParseError { consumed: 1, error: Error::UnknownFrame }))));
}

#[test]
fn tests_it_rejects_a_early_terminated_frame() {
    let buf = [0xC2, 0x02, 0x51, 0x7E];
    let res = Frame::parse(&buf);

    assert!(matches!(res, Some(Err(ParseError { consumed: 4, error: Error::InvalidDataField(_) }))));
}

// The body on the wire is masked; unmasked, these four bytes read 42 21 A8 56.
#[test]
fn it_parses_a_valid_data_frame() {
    let buf = [0x25, 0x00, 0x00, 0x00, 0x02, 0x1A, 0xAD, 0x7E];
    let (consumed, frame) = Frame::parse(&buf).unwrap().unwrap();

    assert_eq!(buf.len() - consumed, 0);
    assert!(
        matches!(frame, Frame::Data { frm_num, re_tx, ack_num, body } if frm_num.value() == 2 && !re_tx && ack_num.value() == 5 && body.as_slice() == [0x42, 0x21, 0xA8, 0x56])
    );
}

#[test]
fn it_parses_valid_ack_frames() {
    let buf = [0x81, 0x60, 0x59, 0x7E];
    let (consumed, frame) = Frame::parse(&buf).unwrap().unwrap();

    assert_eq!(buf.len() - consumed, 0);
    assert!(matches!(frame, Frame::Ack { res, n_rdy, ack_num } if !res && !n_rdy && ack_num.value() == 1));

    let buf = [0x8E, 0x91, 0xB6, 0x7E];
    let (consumed, frame) = Frame::parse(&buf).unwrap().unwrap();
    assert_eq!(buf.len() - consumed, 0);
    assert!(matches!(frame, Frame::Ack { res, n_rdy, ack_num } if !res && n_rdy && ack_num.value() == 6));
}

#[test]
fn it_parses_a_valid_nak_frame() {
    let buf = [0xA6, 0x34, 0xDC, 0x7E];
    let (consumed, frame) = Frame::parse(&buf).unwrap().unwrap();

    assert_eq!(buf.len() - consumed, 0);
    assert!(matches!(frame, Frame::Nak { res, n_rdy, ack_num } if !res && !n_rdy && ack_num.value() == 6));

    let buf = [0xAD, 0x85, 0xB7, 0x7E];
    let (consumed, frame) = Frame::parse(&buf).unwrap().unwrap();

    assert_eq!(buf.len() - consumed, 0);
    assert!(matches!(frame, Frame::Nak { res, n_rdy, ack_num } if !res && n_rdy && ack_num.value() == 5));
}

#[test]
fn it_parses_a_valid_rst_frame() {
    let buf = [0xC0, 0x38, 0xBC, 0x7E];
    let (consumed, frame) = Frame::parse(&buf).unwrap().unwrap();

    assert_eq!(buf.len() - consumed, 0);
    assert!(matches!(frame, Frame::Rst));
}

#[test]
fn it_parses_a_valid_rst_ack_frame() {
    let buf = [0xC1, 0x02, 0x02, 0x9B, 0x7B, 0x7E];
    let (consumed, frame) = Frame::parse(&buf).unwrap().unwrap();

    assert_eq!(buf.len() - consumed, 0);
    assert!(matches!(frame, Frame::RstAck { version, code } if version == 0x02 && code == 0x02));
}

// The frame's second payload byte is the code: 0x51 here.
#[test]
fn it_parses_a_valid_error_frame() {
    let buf = [0xC2, 0x02, 0x51, 0xA8, 0xBD, 0x7E];
    let (consumed, frame) = Frame::parse(&buf).unwrap().unwrap();

    assert_eq!(buf.len() - consumed, 0);
    assert!(matches!(frame, Frame::Error { version, code } if version == 0x02 && code == 0x51));
}

#[test]
fn it_serializes_control_bytes_correctly() {
    let data_frame = Frame::data(
        FrameNumber::new_truncate(2),
        false,
        FrameNumber::new_truncate(5),
        Vec::new(),
    );
    assert_eq!(data_frame.flag(), 0x25);

    // n_rdy clear: 100 0 0 110.
    let ack_frame = Frame::ack(false, FrameNumber::new_truncate(6));
    assert_eq!(ack_frame.flag(), 0x86);

    let nak_frame = Frame::nak(true, FrameNumber::new_truncate(5));
    assert_eq!(nak_frame.flag(), 0xAD);

    let rst_frame = Frame::Rst;
    assert_eq!(rst_frame.flag(), 0xC0);

    let rst_ack_frame = Frame::rst_ack(0x02, 0x02);
    assert_eq!(rst_ack_frame.flag(), 0xC1);

    let error_frame = Frame::error(0x02, 0x52);
    assert_eq!(error_frame.flag(), 0xC2);
}

#[test]
fn it_returns_correct_data_field_lens() {
    let data_frame = Frame::data(
        FrameNumber::new_truncate(2),
        false,
        FrameNumber::new_truncate(5),
        Vec::new(),
    );
    assert!(data_frame.data_len().is_none());

    let ack_frame = Frame::ack(true, FrameNumber::new_truncate(6));
    assert_eq!(ack_frame.data_len(), Some(2));

    let nak_frame = Frame::nak(true, FrameNumber::new_truncate(6));
    assert_eq!(nak_frame.data_len(), Some(2));

    let rst_frame = Frame::Rst;
    assert_eq!(rst_frame.data_len(), Some(2));

    let rst_ack_frame = Frame::rst_ack(0x02, 0x02);
    assert_eq!(rst_ack_frame.data_len(), Some(4));

    let error_frame = Frame::error(0x02, 0x52);
    assert_eq!(error_frame.data_len(), Some(4));
}

#[test]
fn tests_it_serializes_the_data_field_correctly() {
    let data_frame = Frame::data(
        FrameNumber::new_truncate(2),
        false,
        FrameNumber::new_truncate(5),
        vec![0x00, 0x00, 0x00, 0x02],
    );
    let mut buf = Vec::new();
    data_frame.serialize_data(&mut buf);
    assert_eq!(buf, [0x42, 0x21, 0xA8, 0x56]);

    let ack_frame = Frame::ack(true, FrameNumber::new_truncate(6));
    buf = Vec::new();
    ack_frame.serialize_data(&mut buf);
    assert_eq!(buf.len(), 0);

    let nak_frame = Frame::nak(true, FrameNumber::new_truncate(6));
    buf = Vec::new();
    nak_frame.serialize_data(&mut buf);
    assert_eq!(buf.len(), 0);

    let rst_frame = Frame::Rst;
    buf = Vec::new();
    rst_frame.serialize_data(&mut buf);
    assert_eq!(buf.len(), 0);

    let rst_ack_frame = Frame::rst_ack(0x02, 0x02);
    buf = Vec::with_capacity(2);
    rst_ack_frame.serialize_data(&mut buf);
    assert_eq!(buf, [0x02, 0x02]);

    let error_frame = Frame::error(0x02, 0x52);
    buf = Vec::with_capacity(2);
    error_frame.serialize_data(&mut buf);
    assert_eq!(buf, [0x02, 0x52]);
}

#[test]
fn serialize_writes_the_reference_wire_forms() {
    let mut buf = Vec::new();
    Frame::Rst.serialize(&mut buf);
    assert_eq!(buf, [0xC0, 0x38, 0xBC, 0x7E]);

    let mut buf = Vec::new();
    Frame::data(
        FrameNumber::new_truncate(2),
        false,
        FrameNumber::new_truncate(5),
        vec![0x00, 0x00, 0x00, 0x02],
    )
    .serialize(&mut buf);
    assert_eq!(buf, [0x25, 0x42, 0x21, 0xA8, 0x56, 0xA6, 0x09, 0x7E]);

    let mut buf = Vec::new();
    Frame::rst_ack(0x02, 0x02).serialize(&mut buf);
    assert_eq!(buf, [0xC1, 0x02, 0x02, 0x9B, 0x7B, 0x7E]);
}

#[test]
fn serialize_stuffs_reserved_bytes_in_control_byte_and_checksum() {
    // DATA(frm 1, ack 1) has control byte 0x11, a reserved byte.
    let frame = Frame::data(
        FrameNumber::new_truncate(1),
        false,
        FrameNumber::new_truncate(1),
        vec![0x42, 0x21, 0xA8],
    );
    let mut buf = Vec::new();
    frame.serialize(&mut buf);
    assert_eq!(&buf[..2], [0x7D, 0x31]);
    assert_eq!(buf.last(), Some(&0x7E));
    let (consumed, parsed) = Frame::parse(&buf).unwrap().unwrap();
    assert_eq!(consumed, buf.len());
    assert!(
        matches!(parsed, Frame::Data { frm_num, ack_num, body, .. } if frm_num.value() == 1 && ack_num.value() == 1 && body == vec![0x42, 0x21, 0xA8])
    );
}

#[test]
fn data_body_length_outside_range_is_an_invalid_data_field() {
    for len in [0usize, 1, 2, 129, 130] {
        let mut raw = vec![0x25];
        let mut body = vec![0x55u8; len];
        randomize_data(&mut body);
        raw.extend_from_slice(&body);
        let crc = frame_checksum(&raw);
        raw.push((crc >> 8) as u8);
        raw.push((crc & 0xFF) as u8);
        let mut wire = Vec::new();
        escape_reserved_bytes(&raw, &mut wire);
        wire.push(0x7E);
        let res = Frame::parse(&wire);
        assert!(matches!(res, Some(Err(ParseError { consumed, error: Error::InvalidDataField(Frame::Data { .. }) })) if consumed == wire.len()));
    }
    for len in [3usize, 128] {
        let frame = Frame::data(FrameNumber::zero(), false, FrameNumber::zero(), vec![0x10; len]);
        let mut wire = Vec::new();
        frame.serialize(&mut wire);
        let res = Frame::parse(&wire);
        assert!(matches!(res, Some(Ok((_, Frame::Data { body, .. }))) if body.len() == len));
    }
}

#[test]
fn parse_error_keeps_its_parts() {
    let e = ParseError::new(3, Error::UnknownFrame);
    assert!(matches!(e.into_inner(), (3, Error::UnknownFrame)));
}
