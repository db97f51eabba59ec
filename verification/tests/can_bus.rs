use motodiag::can::{pair, CanError, CanFrame, CanTransport};
use motodiag::elm327::{decode_response_hex, encode_at_command, encode_frame_hex, response_line_splits};
use motodiag::iso_tp::{receive, send, IsoTpError};
use motodiag::slcan::{decode_frame, encode_frame};
use motodiag::uds_session::{UdsError, UdsSession};

const TESTER_ID: u32 = 0x7E0;
const ECU_ID: u32 = 0x7E8;

#[test]
fn encodes_at_command() {
    assert_eq!(encode_at_command("ATZ"), "ATZ\r");
}

#[test]
fn encodes_frame_hex() {
    assert_eq!(encode_frame_hex(&[0x02, 0x10, 0x01]), "021001\r");
}

#[test]
fn decodes_response_hex() {
    assert_eq!(
        decode_response_hex("62F10C1A"),
        Some(vec![0x62, 0xF1, 0x0C, 0x1A])
    );
    assert_eq!(
        decode_response_hex("62 F1 0C 1A\r>"),
        Some(vec![0x62, 0xF1, 0x0C, 0x1A])
    );
}

#[test]
fn rejects_status_lines() {
    assert_eq!(decode_response_hex("NO DATA"), None);
    assert_eq!(decode_response_hex("ERROR"), None);
    assert_eq!(decode_response_hex("OK"), None);
    assert_eq!(decode_response_hex(""), None);
}

#[test]
fn rejects_odd_length_hex() {
    assert_eq!(decode_response_hex("ABC"), None);
}

#[test]
fn elm_status_words_ignore_case_and_spacing() {
    assert_eq!(decode_response_hex("no data\r>"), None);
    assert_eq!(decode_response_hex(" ok "), None);
    assert_eq!(decode_response_hex("zz"), None);
}

#[test]
fn elm_hex_roundtrips_through_the_encoder() {
    let data = vec![0x03, 0x22, 0xF1, 0x90];
    let line = encode_frame_hex(&data);
    assert_eq!(decode_response_hex(&line), Some(data));
}

#[test]
fn single_frame_roundtrip() {
    let (mut tester, mut ecu) = pair();
    let payload = vec![0x22, 0xF1, 0x0C];
    send(&mut tester, TESTER_ID, ECU_ID, &payload, 50).unwrap();
    let received = receive(&mut ecu, ECU_ID, TESTER_ID, 50).unwrap();
    assert_eq!(received, payload);
}

#[test]
fn multi_frame_transfer_follows_flow_control() {
    let (mut tester, mut ecu) = pair();
    // The receiver's "continue to send" answer is already waiting when the
    // first frame goes out.
    ecu.send(&CanFrame::new(ECU_ID, vec![0x30, 0x00, 0x00])).unwrap();
    let payload: Vec<u8> = (0..20).collect(); // > 7 bytes: forces FF+CF
    send(&mut tester, TESTER_ID, ECU_ID, &payload, 500).unwrap();
    let first = ecu.recv(50).unwrap();
    assert_eq!(first.data[..2], [0x10, 20]);
    assert_eq!(first.data[2..], payload[..6]);
    let second = ecu.recv(50).unwrap();
    assert_eq!(second.data, [&[0x21][..], &payload[6..13]].concat());
    let third = ecu.recv(50).unwrap();
    assert_eq!(third.data, [&[0x22][..], &payload[13..20]].concat());
}

#[test]
fn multi_frame_transfer_reassembles_on_the_far_end() {
    let (mut tester, mut ecu) = pair();
    ecu.send(&CanFrame::new(ECU_ID, vec![0x30, 0x00, 0x00])).unwrap();
    let payload: Vec<u8> = (100..130).collect();
    send(&mut tester, TESTER_ID, ECU_ID, &payload, 500).unwrap();
    let received = receive(&mut ecu, ECU_ID, TESTER_ID, 500).unwrap();
    assert_eq!(received, payload);
}

#[test]
fn iso_tp_single_frame_is_pci_then_data() {
    let (mut tester, mut ecu) = pair();
    send(&mut tester, TESTER_ID, ECU_ID, &[0x3E, 0x00], 50).unwrap();
    let frame = ecu.recv(50).unwrap();
    assert_eq!(frame.id, TESTER_ID);
    assert_eq!(frame.data, vec![0x02, 0x3E, 0x00]);
}

#[test]
fn encodes_standard_frame() {
    let frame = CanFrame::new(0x7E0, vec![0x02, 0x10, 0x01]);
    assert_eq!(encode_frame(&frame), "t7E03021001\r");
}

#[test]
fn encodes_extended_frame() {
    let frame = CanFrame::new(0x1FFFFFFF, vec![0xAA]);
    assert_eq!(encode_frame(&frame), "T1FFFFFFF1AA\r");
}

#[test]
fn decode_roundtrips_with_encode() {
    let frame = CanFrame::new(0x7E8, vec![0x04, 0x62, 0xF1, 0x0C, 0x1A]);
    let line = encode_frame(&frame);
    assert_eq!(decode_frame(&line), Some(frame));
}

#[test]
fn decode_rejects_non_frame_lines() {
    assert_eq!(decode_frame("z"), None);
    assert_eq!(decode_frame(""), None);
    assert_eq!(decode_frame("\r"), None);
}

#[test]
fn decode_rejects_truncated_data() {
    // Claims dlc=8 but only provides 2 data bytes.
    assert_eq!(decode_frame("t7E081234"), None);
}

#[test]
fn frames_flow_both_ways() {
    let (mut tester, mut ecu) = pair();
    tester
        .send(&CanFrame::new(0x7E0, vec![0x02, 0x10, 0x01]))
        .unwrap();
    let received = ecu.recv(50).unwrap();
    assert_eq!(received.id, 0x7E0);

    ecu.send(&CanFrame::new(0x7E8, vec![0x02, 0x50, 0x01]))
        .unwrap();
    let received = tester.recv(50).unwrap();
    assert_eq!(received.id, 0x7E8);
}

#[test]
fn recv_times_out_when_idle() {
    let (mut tester, _ecu) = pair();
    assert!(matches!(tester.recv(5), Err(CanError::Timeout)));
}

#[test]
fn times_out_when_ecu_is_gone() {
    // A session with no responder on the other end should time out rather
    // than hang forever.
    let (tester, _ecu_end_dropped_immediately) = pair();
    let mut session = UdsSession::new(tester, 0x7E0, 0x7E8);
    let result = session.request(&[0x22, 0xF1, 0x90]);
    assert!(result.is_err());
}

#[test]
fn uds_negative_response_is_an_error() {
    let (tester, mut ecu) = pair();
    send(&mut ecu, ECU_ID, TESTER_ID, &[0x7F, 0x27, 0x11], 50).unwrap();
    let mut session = UdsSession::new(tester, TESTER_ID, ECU_ID);
    let err = session.request(&[0x27, 0x01]).unwrap_err();
    assert!(matches!(err, UdsError::NegativeResponse { .. }));
    assert_eq!(receive(&mut ecu, ECU_ID, TESTER_ID, 50).unwrap(), vec![0x27, 0x01]);
}

#[test]
fn uds_positive_response_is_returned() {
    let (tester, mut ecu) = pair();
    send(&mut ecu, ECU_ID, TESTER_ID, &[0x62, 0xF1, 0x90, b'M', b'C', b'3'], 50).unwrap();
    let mut session = UdsSession::new(tester, TESTER_ID, ECU_ID);
    let resp = session.request(&[0x22, 0xF1, 0x90]).unwrap();
    assert_eq!(resp, vec![0x62, 0xF1, 0x90, b'M', b'C', b'3']);
    assert!(!session.keepalive_due());
    assert_eq!(receive(&mut ecu, ECU_ID, TESTER_ID, 50).unwrap(), vec![0x22, 0xF1, 0x90]);
}

#[test]
fn respects_small_block_size() {
    let (mut tester, mut ecu) = pair();
    // First flow control: block size 2; a second one lets the sender finish.
    ecu.send(&CanFrame::new(ECU_ID, vec![0x30, 0x02, 0x00])).unwrap();
    ecu.send(&CanFrame::new(ECU_ID, vec![0x30, 0x00, 0x00])).unwrap();

    // 25 bytes = FF(6) + CF(7) + CF(7) + CF(5): with block size 2, the
    // first two CFs don't finish the message, so a second flow control
    // round is genuinely required.
    let payload: Vec<u8> = (0..25).collect();
    send(&mut tester, TESTER_ID, ECU_ID, &payload, 500).unwrap();
    // Both flow controls were read.
    assert!(matches!(tester.recv(5), Err(CanError::Timeout)));

    let frame = ecu.recv(500).unwrap(); // FF
    assert_eq!(frame.id, TESTER_ID);
    let total_len = (((frame.data[0] & 0x0F) as usize) << 8) | frame.data[1] as usize;
    let mut data = frame.data[2..].to_vec();
    for _ in 0..2 {
        let cf = ecu.recv(500).unwrap();
        data.extend_from_slice(&cf.data[1..]);
    }
    assert!(data.len() < total_len, "more consecutive frames should remain");
    while data.len() < total_len {
        let cf = ecu.recv(500).unwrap();
        let remaining = total_len - data.len();
        let take = remaining.min(cf.data.len() - 1);
        data.extend_from_slice(&cf.data[1..1 + take]);
    }
    data.truncate(total_len);
    assert_eq!(data, payload);
}

#[test]
fn overflow_flow_control_is_an_error() {
    let (mut tester, mut ecu) = pair();
    // PCI 0x32: flow control, flow status 2 (overflow).
    ecu.send(&CanFrame::new(ECU_ID, vec![0x32, 0x00, 0x00])).unwrap();
    let payload: Vec<u8> = (0..20).collect();
    let err = send(&mut tester, TESTER_ID, ECU_ID, &payload, 200).unwrap_err();
    assert!(matches!(err, IsoTpError::Overflow));
}

#[test]
fn empty_uds_request_sends_nothing() {
    let (tester, mut ecu) = pair();
    let mut session = UdsSession::new(tester, TESTER_ID, ECU_ID);
    assert!(matches!(session.request(&[]), Err(UdsError::EmptyResponse)));
    assert!(matches!(ecu.recv(5), Err(CanError::Timeout)));
}

#[test]
fn elm_line_split_check_matches_the_decoder() {
    assert!(!response_line_splits("41 0C 1A F8"));
    assert!(!response_line_splits("NO DATA"));
    // "é" is two bytes: in "1é0" the first pair ends inside it.
    assert!(response_line_splits("1é0"));
    // In "é00" the first pair is the whole character: not hex, but no split.
    assert!(!response_line_splits("é00"));
    // Three bytes in all: an odd length never reaches the pairs.
    assert!(!response_line_splits("1é"));
}
