use ctmp_relay::checksum::{calculate_checksum, check_checksum};
use ctmp_relay::decoder::{Decoder, FrameResult, InvalidReason};
use ctmp_relay::frame::{encode_frame, Frame};

fn sensitive_frame_bytes() -> Vec<u8> {
    // Header [0xCC, 0x40, len, checksum, reserved] + payload [0x01, 0x02, 0x03].
    vec![0xCC, 0x40, 0x00, 0x03, 0x62, 0xED, 0x00, 0x00, 0x01, 0x02, 0x03]
}

#[test]
fn checksum_known_value() {
    let data: Vec<u8> = vec![0xCC, 0x40, 0x00, 0x03, 0x00, 0x00, 0x00, 0x00, 0x01, 0x02, 0x03];
    assert_eq!(calculate_checksum(&data, data.len()), 0x62ED);
}

#[test]
fn checksum_ignores_stored_field() {
    let zeroed: Vec<u8> = vec![0xCC, 0x40, 0x00, 0x03, 0x00, 0x00, 0x00, 0x00, 0x01, 0x02, 0x03];
    let stored: Vec<u8> = vec![0xCC, 0x40, 0x00, 0x03, 0xAB, 0xCD, 0x00, 0x00, 0x01, 0x02, 0x03];
    let sealed = sensitive_frame_bytes();
    let c = calculate_checksum(&zeroed, zeroed.len());
    assert_eq!(calculate_checksum(&stored, stored.len()), c);
    assert_eq!(calculate_checksum(&sealed, sealed.len()), c);
}

#[test]
fn checksum_pads_trailing_odd_byte() {
    let data: Vec<u8> = vec![0xCC, 0x00, 0x00, 0x01, 0x00, 0x00, 0x00, 0x00, 0xAA];
    assert_eq!(calculate_checksum(&data, data.len()), 0xBD30);
}

#[test]
fn check_checksum_accepts_correct_field() {
    let data = sensitive_frame_bytes();
    assert!(check_checksum(&data, data.len()));
}

#[test]
fn check_checksum_rejects_wrong_field() {
    let mut data = sensitive_frame_bytes();
    data[4] = 0x62;
    data[5] = 0xEE;
    assert!(!check_checksum(&data, data.len()));
}

#[test]
fn any_single_bit_flip_outside_checksum_field_fails_verification() {
    let data = sensitive_frame_bytes();
    assert!(check_checksum(&data, data.len()));
    for j in 0..data.len() {
        if j == 4 || j == 5 {
            continue;
        }
        for bit in 0..8 {
            let mut corrupted = data.clone();
            corrupted[j] ^= 1u8 << bit;
            assert!(
                !check_checksum(&corrupted, corrupted.len()),
                "flip of bit {} in byte {} went undetected",
                bit,
                j
            );
        }
    }
}

#[test]
fn fewer_than_header_bytes_is_incomplete() {
    for k in 0..8 {
        let mut decoder = Decoder::new();
        let bytes = vec![0xCCu8; k];
        assert!(matches!(
            decoder.try_decode(&bytes, false),
            FrameResult::Incomplete
        ));
    }
}

#[test]
fn bad_magic_is_invalid_once_header_is_full() {
    let mut decoder = Decoder::new();
    let bytes: Vec<u8> = vec![0xAB, 0x00, 0x00, 0x03, 0x00, 0x00, 0x00, 0x00];
    match decoder.try_decode(&bytes, false) {
        FrameResult::Invalid(reason) => assert_eq!(reason, InvalidReason::BadMagic),
        _ => panic!("expected an invalid frame"),
    }
}

#[test]
fn bad_magic_is_invalid_even_at_end_of_stream() {
    let mut decoder = Decoder::new();
    let bytes: Vec<u8> = vec![0xAB, 0x00, 0x00, 0x03, 0x00, 0x00, 0x00, 0x00];
    match decoder.try_decode(&bytes, true) {
        FrameResult::Invalid(reason) => assert_eq!(reason, InvalidReason::BadMagic),
        _ => panic!("expected an invalid frame"),
    }
}

#[test]
fn incomplete_until_exactly_declared_length() {
    // length = 3, so the frame is complete at exactly 8 + 3 bytes.
    let bytes: Vec<u8> = vec![0xCC, 0x00, 0x00, 0x03, 0x00, 0x00, 0x00, 0x00, 0x01, 0x02, 0x03];
    let mut decoder = Decoder::new();
    for k in 0..bytes.len() - 1 {
        assert!(matches!(
            decoder.try_decode(&bytes[k..k + 1], false),
            FrameResult::Incomplete
        ));
    }
    match decoder.try_decode(&bytes[bytes.len() - 1..], false) {
        FrameResult::Complete(frame, total) => {
            assert_eq!(frame, bytes);
            assert_eq!(total, 11);
        }
        _ => panic!("expected a complete frame at exactly 8 + 3 bytes"),
    }
    // The decoder is reset and ready for the next frame.
    assert_eq!(decoder.buffered_len(), 0);
}

#[test]
fn end_of_stream_with_partial_frame_is_invalid() {
    let mut decoder = Decoder::new();
    let bytes: Vec<u8> = vec![0xCC, 0x00, 0x00, 0x03, 0x00];
    assert!(matches!(
        decoder.try_decode(&bytes, false),
        FrameResult::Incomplete
    ));
    match decoder.try_decode(&[], true) {
        FrameResult::Invalid(reason) => assert_eq!(reason, InvalidReason::IncompleteAtEof),
        _ => panic!("expected an invalid frame at end of stream"),
    }
}

#[test]
fn empty_stream_at_eof_is_invalid() {
    let mut decoder = Decoder::new();
    match decoder.try_decode(&[], true) {
        FrameResult::Invalid(reason) => assert_eq!(reason, InvalidReason::IncompleteAtEof),
        _ => panic!("expected an invalid frame at end of stream"),
    }
}

#[test]
fn overshot_frame_boundary_never_completes() {
    // A chunk that runs past the declared frame boundary leaves the stream
    // misaligned: the decoder keeps waiting (there is no resynchronization
    // scan) and the frame dies with the stream.
    let mut bytes: Vec<u8> = vec![0xCC, 0x00, 0x00, 0x03, 0x00, 0x00, 0x00, 0x00, 0x01, 0x02, 0x03];
    bytes.push(0xEE);
    let mut decoder = Decoder::new();
    assert!(matches!(
        decoder.try_decode(&bytes, false),
        FrameResult::Incomplete
    ));
    match decoder.try_decode(&[], true) {
        FrameResult::Invalid(reason) => assert_eq!(reason, InvalidReason::IncompleteAtEof),
        _ => panic!("expected the misaligned stream to die at end of stream"),
    }
}

#[test]
fn frames_decode_back_to_back() {
    let first: Vec<u8> = vec![0xCC, 0x00, 0x00, 0x01, 0x00, 0x00, 0x00, 0x00, 0xAA];
    let second: Vec<u8> = vec![0xCC, 0x00, 0x00, 0x02, 0x00, 0x00, 0x00, 0x00, 0xBB, 0xCC];
    let mut decoder = Decoder::new();
    match decoder.try_decode(&first, false) {
        FrameResult::Complete(frame, _) => assert_eq!(frame, first),
        _ => panic!("expected the first frame to decode completely"),
    }
    match decoder.try_decode(&second, false) {
        FrameResult::Complete(frame, _) => assert_eq!(frame, second),
        _ => panic!("expected the second frame to decode completely"),
    }
}

#[test]
fn round_trip_non_sensitive_frame() {
    let frame = Frame { flags: 0x00, checksum: 0xBEEF, payload: vec![0x05, 0x06, 0x07, 0x08] };
    let encoded = frame.encode();
    let mut decoder = Decoder::new();
    match decoder.try_decode(&encoded, false) {
        FrameResult::Complete(bytes, total) => {
            assert_eq!(total, encoded.len());
            assert_eq!(bytes[8..], [0x05, 0x06, 0x07, 0x08]);
            assert_eq!(bytes, encoded);
        }
        _ => panic!("expected the encoded frame to decode completely"),
    }
}

#[test]
fn round_trip_sealed_sensitive_frame() {
    let frame = Frame { flags: 0x40, checksum: 0x0000, payload: vec![0x01, 0x02, 0x03] };
    let sealed = frame.encode_sealed();
    assert_eq!(sealed, sensitive_frame_bytes());
    let mut decoder = Decoder::new();
    match decoder.try_decode(&sealed, false) {
        FrameResult::Complete(bytes, _) => assert_eq!(bytes, sealed),
        _ => panic!("expected the sealed frame to decode completely"),
    }
}

#[test]
fn corrupted_sensitive_frame_is_invalid() {
    let frame = Frame { flags: 0x40, checksum: 0x0000, payload: vec![0x01, 0x02, 0x03] };
    let mut sealed = frame.encode_sealed();
    sealed[8] ^= 0x10;
    let mut decoder = Decoder::new();
    match decoder.try_decode(&sealed, false) {
        FrameResult::Invalid(reason) => assert_eq!(reason, InvalidReason::BadChecksum),
        _ => panic!("expected the corrupted frame to be rejected"),
    }
}

#[test]
fn non_sensitive_frame_skips_checksum_verification() {
    // Same bytes as the sealed sensitive frame, but with the sensitive bit
    // clear and a checksum field that would not verify.
    let bytes: Vec<u8> = vec![0xCC, 0x00, 0x00, 0x03, 0xAB, 0xCD, 0x00, 0x00, 0x01, 0x02, 0x03];
    let mut decoder = Decoder::new();
    match decoder.try_decode(&bytes, false) {
        FrameResult::Complete(frame, _) => assert_eq!(frame, bytes),
        _ => panic!("expected the non-sensitive frame to decode completely"),
    }
}

#[test]
fn zero_length_frame_completes_at_header() {
    let bytes: Vec<u8> = vec![0xCC, 0x00, 0x00, 0x00, 0x00, 0x00, 0x00, 0x00];
    let mut decoder = Decoder::new();
    match decoder.try_decode(&bytes, false) {
        FrameResult::Complete(frame, total) => {
            assert_eq!(frame, bytes);
            assert_eq!(total, 8);
        }
        _ => panic!("expected the header-only frame to decode completely"),
    }
}

#[test]
fn largest_declared_frame_completes() {
    let payload: Vec<u8> = vec![0x5A; 65535];
    let encoded = encode_frame(0x00, 0x0000, &payload);
    assert_eq!(encoded.len(), 65543);
    let mut decoder = Decoder::new();
    assert_eq!(decoder.capacity_left(), 65543);
    match decoder.try_decode(&encoded, false) {
        FrameResult::Complete(frame, total) => {
            assert_eq!(total, 65543);
            assert_eq!(frame[2], 0xFF);
            assert_eq!(frame[3], 0xFF);
            assert_eq!(&frame[8..], &payload[..]);
        }
        _ => panic!("expected the largest frame to decode completely"),
    }
}

#[test]
fn sealed_largest_sensitive_frame_round_trips() {
    let frame = Frame { flags: 0x40, checksum: 0x1234, payload: vec![0xA7; 65535] };
    let sealed = frame.encode_sealed();
    assert!(check_checksum(&sealed, sealed.len()));
    let mut decoder = Decoder::new();
    assert!(matches!(
        decoder.try_decode(&sealed, false),
        FrameResult::Complete(_, 65543)
    ));
}
