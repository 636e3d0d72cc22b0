use streamchat::hex::{hex_bytes, hex_digit_of, hex_u64};
use streamchat::keystream::Keystream;
use streamchat::wire::{decode_frame, decode_u32, decode_u64, encode_frame, encode_u32, encode_u64};

#[test]
fn seed_folds_halves() {
    assert_eq!(Keystream::from_secret(0x0000_0001_0000_0002).state, 3);
    assert_eq!(Keystream::from_secret(0xFFFF_FFFF_FFFF_FFFF).state, 0);
    assert_eq!(Keystream::from_secret(0x1234_5678_0000_0000).state, 0x1234_5678);
}

#[test]
fn lcg_steps() {
    let mut ks = Keystream { state: 0 };
    assert_eq!(ks.next_u32(), 12345);
    assert_eq!(ks.state, 12345);
    let expected = 12345u32.wrapping_mul(1103515245).wrapping_add(12345);
    assert_eq!(ks.next_u32(), expected);
    let mut k2 = Keystream { state: 0 };
    assert_eq!(k2.next_byte(), (12345u32 >> 24) as u8);
    assert_eq!(k2.next_byte(), (expected >> 24) as u8);
}

#[test]
fn keystream_determinism() {
    let mut a = Keystream::from_secret(0xDEAD_BEEF_0BAD_F00D);
    let mut b = Keystream::from_secret(0xDEAD_BEEF_0BAD_F00D);
    let pa = a.preview_bytes(100);
    let pb = b.preview_bytes(100);
    assert_eq!(pa.len(), 100);
    assert_eq!(pa, pb);
    assert_eq!(a.state, b.state);
}

#[test]
fn keystream_split_matches_single_draw() {
    let mut a = Keystream::from_secret(42);
    let mut b = Keystream::from_secret(42);
    let whole = a.preview_bytes(13);
    let mut parts = b.preview_bytes(8);
    parts.extend(b.preview_bytes(5));
    assert_eq!(whole, parts);
}

#[test]
fn xor_round_trip() {
    let msg = b"attack at dawn".to_vec();
    let mut enc = Keystream::from_secret(0x0123_4567_89AB_CDEF);
    let cipher = enc.xor_bytes(&msg);
    assert_ne!(cipher, msg);
    let mut dec = Keystream::from_secret(0x0123_4567_89AB_CDEF);
    assert_eq!(dec.xor_bytes(&cipher), msg);
    let mut e = Keystream::from_secret(9);
    assert!(e.xor_bytes(&[]).is_empty());
    assert_eq!(e.state, Keystream::from_secret(9).state);
}

#[test]
fn xor_uses_keystream_bytes() {
    let mut ks = Keystream { state: 0 };
    let zeros = vec![0u8; 4];
    let out = ks.xor_bytes(&zeros);
    let mut fresh = Keystream { state: 0 };
    assert_eq!(out, fresh.preview_bytes(4));
}

#[test]
fn u64_wire_round_trip() {
    let bytes = encode_u64(0x0102_0304_0506_0708);
    assert_eq!(bytes, vec![1, 2, 3, 4, 5, 6, 7, 8]);
    assert_eq!(decode_u64(&bytes), Some(0x0102_0304_0506_0708));
    assert_eq!(decode_u64(&encode_u64(u64::MAX)), Some(u64::MAX));
    assert_eq!(decode_u64(&[1, 2, 3]), None);
    assert_eq!(decode_u64(&[0; 9]), None);
}

#[test]
fn u32_wire_round_trip() {
    assert_eq!(encode_u32(5), vec![0, 0, 0, 5]);
    assert_eq!(encode_u32(0xA1B2_C3D4), vec![0xA1, 0xB2, 0xC3, 0xD4]);
    assert_eq!(decode_u32(&[0xA1, 0xB2, 0xC3, 0xD4]), Some(0xA1B2_C3D4));
    assert_eq!(decode_u32(&[0, 0, 5]), None);
}

#[test]
fn frame_round_trip() {
    let frame = encode_frame(b"hello").unwrap();
    assert_eq!(frame, vec![0, 0, 0, 5, b'h', b'e', b'l', b'l', b'o']);
    assert_eq!(decode_frame(&frame), Some(b"hello".to_vec()));
    let empty = encode_frame(&[]).unwrap();
    assert_eq!(empty, vec![0, 0, 0, 0]);
    assert_eq!(decode_frame(&empty), Some(vec![]));
}

#[test]
fn malformed_frames_are_refused() {
    assert_eq!(decode_frame(&[0, 0, 0]), None);
    assert_eq!(decode_frame(&[0, 0, 0, 2, 1]), None);
    assert_eq!(decode_frame(&[0, 0, 0, 1, 1, 2]), None);
}

#[test]
fn hex_rendering() {
    assert_eq!(hex_u64(0xAB), "00000000000000AB");
    assert_eq!(hex_u64(0xD87FA3E291B4C7F3), "D87FA3E291B4C7F3");
    assert_eq!(hex_u64(0), "0000000000000000");
    assert_eq!(hex_bytes(&[0xDE, 0xAD, 0x01]), "DE AD 01");
    assert_eq!(hex_bytes(&[0x0F]), "0F");
    assert_eq!(hex_bytes(&[]), "");
    assert_eq!(hex_digit_of(9), '9');
    assert_eq!(hex_digit_of(10), 'A');
    assert_eq!(hex_digit_of(15), 'F');
}
