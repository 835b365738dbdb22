use flashswap::codec::{decode_payload, encode_payload, SwapCallData};

#[test]
fn payload_round_trip() {
    let data = SwapCallData { path: vec![1, 2, 1], amounts_out: vec![100, 99, 118] };
    let bytes = encode_payload(&data);
    assert_eq!(bytes.len(), 32 + 16 * 6);
    let back = decode_payload(&bytes).unwrap();
    assert_eq!(back.path, vec![1, 2, 1]);
    assert_eq!(back.amounts_out, vec![100, 99, 118]);
}

#[test]
fn payload_round_trip_empty() {
    let data = SwapCallData { path: vec![], amounts_out: vec![] };
    let bytes = encode_payload(&data);
    assert_eq!(bytes.len(), 32);
    let back = decode_payload(&bytes).unwrap();
    assert_eq!(back.path, Vec::<u128>::new());
    assert_eq!(back.amounts_out, Vec::<u128>::new());
}

#[test]
fn payload_round_trip_extreme_values() {
    let data = SwapCallData { path: vec![u128::MAX, 0, 1 << 127], amounts_out: vec![u128::MAX] };
    let bytes = encode_payload(&data);
    let back = decode_payload(&bytes).unwrap();
    assert_eq!(back.path, vec![u128::MAX, 0, 1 << 127]);
    assert_eq!(back.amounts_out, vec![u128::MAX]);
}

#[test]
fn decode_rejects_short_input() {
    assert!(decode_payload(&vec![]).is_none());
    assert!(decode_payload(&vec![0u8; 31]).is_none());
}

#[test]
fn decode_rejects_truncated_body() {
    let data = SwapCallData { path: vec![1, 2, 1], amounts_out: vec![100, 99, 118] };
    let mut bytes = encode_payload(&data);
    bytes.pop();
    assert!(decode_payload(&bytes).is_none());
}

#[test]
fn decode_rejects_padded_body() {
    let data = SwapCallData { path: vec![1, 2, 1], amounts_out: vec![100, 99, 118] };
    let mut bytes = encode_payload(&data);
    bytes.push(0);
    assert!(decode_payload(&bytes).is_none());
}

#[test]
fn decode_rejects_oversized_lengths() {
    // A header that promises more cells than any buffer could hold.
    let mut bytes = vec![0xFFu8; 16];
    bytes.extend_from_slice(&[0u8; 16]);
    bytes.extend_from_slice(&[0u8; 64]);
    assert!(decode_payload(&bytes).is_none());
}
