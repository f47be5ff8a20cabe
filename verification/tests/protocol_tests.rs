use smart_home::protocol::OutletRequest;
use smart_home::protocol::decode_be_u32;
use smart_home::protocol::decode_state;
use smart_home::protocol::encode_be_u32;
use smart_home::protocol::encode_state;

#[test]
fn test_request_lines() {
    assert_eq!(OutletRequest::Switch.line(), "switch\n");
    assert_eq!(OutletRequest::GetState.line(), "getState\n");
    assert_eq!(OutletRequest::GetValue.line(), "getValue\n");
}

#[test]
fn test_answer_lengths() {
    assert_eq!(OutletRequest::Switch.answer_len(), 1);
    assert_eq!(OutletRequest::GetState.answer_len(), 1);
    assert_eq!(OutletRequest::GetValue.answer_len(), 4);
}

#[test]
fn test_state_byte_codec() {
    assert!(decode_state(&[1]));
    assert!(!decode_state(&[0]));
    assert!(!decode_state(&[2]));
    assert_eq!(encode_state(true), 1);
    assert_eq!(encode_state(false), 0);
}

// A switch answer carries the toggled state: decoding it comes out negated
// relative to the state decoded before the switch.
#[test]
fn test_switch_toggles_decoded_state() {
    for prior in [false, true] {
        let before = decode_state(&[encode_state(prior)]);
        let switch_answer = [encode_state(!prior)];
        let after = decode_state(&switch_answer);
        assert_eq!(after, !before);
    }
}

#[test]
fn test_be_u32_exact() {
    assert_eq!(decode_be_u32(&[0, 0, 1, 2]), 258);
    assert_eq!(decode_be_u32(&[0x41, 0xBC, 0x00, 0x00]), 0x41BC0000);
    assert_eq!(encode_be_u32(258), vec![0, 0, 1, 2]);
    assert_eq!(encode_be_u32(0xDEADBEEF), vec![0xDE, 0xAD, 0xBE, 0xEF]);
}

#[test]
fn test_be_u32_round_trip() {
    for v in [0u32, 1, 255, 256, 65535, 0x41BC0000, u32::MAX] {
        assert_eq!(decode_be_u32(&encode_be_u32(v)), v);
    }
}

// The four-byte payload for a power or temperature reading matches the
// machine's own big-endian float encoding.
#[test]
fn test_value_payload_matches_float_bits() {
    let bits = 23.5f32.to_bits();
    assert_eq!(encode_be_u32(bits), 23.5f32.to_be_bytes().to_vec());
    assert_eq!(f32::from_bits(decode_be_u32(&23.5f32.to_be_bytes())), 23.5);
}
