//! The request frame, and what a reply is taken for.

use tg_check::frame::{
    build_req_pq_multi, frame_packet, reply_is_res_pq, reply_transport_error, req_pq_multi_at,
    request_message_id, request_second, FRAME_HEADER_LEN,
};
use tg_check::le::{push_le, read_le_u32};

/// The frame a peer reads: a 4-byte length prefix, 8 zero bytes where a session
/// would carry `auth_key_id`, the message id, the body length, and the body
/// padded to a multiple of 4.
#[test]
fn req_pq_multi_is_a_padded_intermediate_frame() {
    let frame = build_req_pq_multi();

    assert_eq!(frame.len() % 4, 0, "padded to a multiple of 4");

    let declared = u32::from_le_bytes(frame[..4].try_into().unwrap()) as usize;
    assert_eq!(
        declared + 4,
        frame.len(),
        "the length prefix covers the frame"
    );

    assert_eq!(
        &frame[4..12],
        &[0u8; 8],
        "no session yet: auth_key_id is zero"
    );

    let body_len = u32::from_le_bytes(frame[20..24].try_into().unwrap()) as usize;
    assert_eq!(
        body_len,
        4 + 16,
        "the body is the constructor and its nonce"
    );
    assert_eq!(&frame[24..28], &0xbe7e_8ef1u32.to_le_bytes());
    assert!(
        frame[28..44].iter().any(|byte| *byte != 0),
        "the nonce is random, not zeroed"
    );
}

/// `resPQ` with a zero `auth_key_id` is the answer we want; another
/// constructor, a session key or a short read is not.
#[test]
fn only_a_zero_key_res_pq_reply_passes() {
    let mut reply = vec![0u8; FRAME_HEADER_LEN];
    reply[24..28].copy_from_slice(&0x0516_2463u32.to_le_bytes());
    assert!(reply_is_res_pq(&reply));

    reply[24..28].copy_from_slice(&0xbe7e_8ef1u32.to_le_bytes());
    assert!(!reply_is_res_pq(&reply), "another constructor is not resPQ");

    let mut reply = vec![0u8; FRAME_HEADER_LEN];
    reply[24..28].copy_from_slice(&0x0516_2463u32.to_le_bytes());
    reply[4] = 1;
    assert!(
        !reply_is_res_pq(&reply),
        "a session key means it is not a resPQ"
    );

    assert!(
        !reply_is_res_pq(&reply[..FRAME_HEADER_LEN - 1]),
        "short read"
    );
    assert!(!reply_is_res_pq(&[]));
}

#[test]
fn every_byte_of_the_session_key_counts() {
    for at in 4..12 {
        let mut reply = vec![0u8; FRAME_HEADER_LEN];
        reply[24..28].copy_from_slice(&0x0516_2463u32.to_le_bytes());
        reply[at] = 0x80;
        assert!(!reply_is_res_pq(&reply), "byte {}", at);
    }
}

#[test]
fn the_clock_is_in_the_message_id() {
    let before = std::time::SystemTime::now()
        .duration_since(std::time::UNIX_EPOCH)
        .unwrap()
        .as_secs();
    let frame = build_req_pq_multi();
    let after = std::time::SystemTime::now()
        .duration_since(std::time::UNIX_EPOCH)
        .unwrap()
        .as_secs();
    let id = u64::from_le_bytes(frame[12..20].try_into().unwrap());
    assert_eq!(id % (1 << 32), 0);
    assert!(before <= id >> 32 && id >> 32 <= after);
}

#[test]
fn nonces_differ_from_request_to_request() {
    let first = build_req_pq_multi();
    let second = build_req_pq_multi();
    assert_ne!(&first[28..44], &second[28..44]);
}

#[test]
fn a_request_has_a_fixed_layout() {
    let nonce: [u8; 16] = [1, 2, 3, 4, 5, 6, 7, 8, 9, 10, 11, 12, 13, 14, 15, 16];
    let frame = req_pq_multi_at(0x6543_2100, &nonce);
    let expected: Vec<u8> = vec![
        40, 0, 0, 0, // length
        0, 0, 0, 0, 0, 0, 0, 0, // auth_key_id
        0, 0, 0, 0, 0x00, 0x21, 0x43, 0x65, // message id
        20, 0, 0, 0, // body length
        0xf1, 0x8e, 0x7e, 0xbe, // constructor
        1, 2, 3, 4, 5, 6, 7, 8, 9, 10, 11, 12, 13, 14, 15, 16, // nonce
    ];
    assert_eq!(frame, expected);
}

#[test]
fn a_clock_before_the_epoch_counts_as_the_epoch() {
    assert_eq!(request_second(None), 0);
    assert_eq!(request_second(Some(0)), 0);
    assert_eq!(request_second(Some(1_700_000_000)), 1_700_000_000);
    let frame = req_pq_multi_at(request_second(None), &[9; 16]);
    assert_eq!(&frame[12..20], &[0u8; 8]);
}

#[test]
fn message_ids_move_forward_and_drop_what_does_not_fit() {
    assert_eq!(request_message_id(1), 1 << 32);
    assert!(request_message_id(1_700_000_000) < request_message_id(1_700_000_001));
    assert_eq!(request_message_id(0xffff_ffff), 0xffff_ffff_0000_0000);
    assert_eq!(request_message_id(0x1_0000_0007), 7 << 32);
}

#[test]
fn packets_are_padded_to_whole_words() {
    assert_eq!(frame_packet(&vec![]), vec![0, 0, 0, 0]);
    assert_eq!(frame_packet(&vec![9]), vec![4, 0, 0, 0, 9, 0, 0, 0]);
    assert_eq!(frame_packet(&vec![9, 8]), vec![4, 0, 0, 0, 9, 8, 0, 0]);
    assert_eq!(frame_packet(&vec![9, 8, 7]), vec![4, 0, 0, 0, 9, 8, 7, 0]);
    assert_eq!(frame_packet(&vec![9, 8, 7, 6]), vec![4, 0, 0, 0, 9, 8, 7, 6]);
    assert_eq!(
        frame_packet(&vec![9, 8, 7, 6, 5]),
        vec![8, 0, 0, 0, 9, 8, 7, 6, 5, 0, 0, 0]
    );
}

#[test]
fn an_echoed_request_is_no_answer() {
    let frame = build_req_pq_multi();
    assert!(!reply_is_res_pq(&frame));
    assert_eq!(reply_transport_error(&frame), None);
}

#[test]
fn transport_errors_are_negative_codes_in_a_packet_of_four() {
    for code in [-404i32, -1, -429, i32::MIN] {
        let mut reply = 4u32.to_le_bytes().to_vec();
        reply.extend_from_slice(&code.to_le_bytes());
        assert_eq!(reply_transport_error(&reply), Some(code));
        assert_eq!(reply_transport_error(&reply[..7]), None);
        reply.extend_from_slice(&[0; 32]);
        reply[24..28].copy_from_slice(&0x0516_2463u32.to_le_bytes());
        assert_eq!(reply_transport_error(&reply), Some(code));
        assert!(!reply_is_res_pq(&reply));
    }
    let mut positive = 4u32.to_le_bytes().to_vec();
    positive.extend_from_slice(&404i32.to_le_bytes());
    assert_eq!(reply_transport_error(&positive), None);
    let mut longer = 8u32.to_le_bytes().to_vec();
    longer.extend_from_slice(&(-404i32).to_le_bytes());
    assert_eq!(reply_transport_error(&longer), None);
}

#[test]
fn numbers_are_little_endian() {
    let mut out = vec![7u8];
    push_le(&mut out, 0x0102_0304_0506_0708, 8);
    assert_eq!(out, vec![7, 8, 7, 6, 5, 4, 3, 2, 1]);
    assert_eq!(read_le_u32(&out, 1), 0x0506_0708);
    assert_eq!(read_le_u32(&[0xff, 0xff, 0xff, 0xff], 0), u32::MAX);
}
