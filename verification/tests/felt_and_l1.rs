use beerus_core::core_contract::{call_data, decode_block_number, decode_felt, fits_block_number, CoreContractCall};
use beerus_core::error::{CoreError, L1ValueError};
use beerus_core::felt::{Felt, FeltError};

fn felt(bytes: &[u8]) -> Felt {
    Felt::from_byte_slice_be(bytes).unwrap()
}

/// The field order, big-endian.
fn stark_prime_bytes() -> [u8; 32] {
    let mut p = [0u8; 32];
    p[0] = 0x08;
    p[7] = 0x11;
    p[31] = 0x01;
    p
}

#[test]
fn felt_from_short_slice_is_left_padded() {
    let f = felt(&[0x01, 0xab]);
    let mut expected = [0u8; 32];
    expected[30] = 0x01;
    expected[31] = 0xab;
    assert_eq!(f.to_bytes_be(), expected);
}

#[test]
fn felt_from_empty_slice_is_zero() {
    assert_eq!(felt(&[]), Felt::zero());
    assert_eq!(Felt::zero().to_bytes_be(), [0u8; 32]);
}

#[test]
fn felt_longer_than_32_bytes_is_invalid_length() {
    assert_eq!(Felt::from_byte_slice_be(&[0u8; 33]).unwrap_err(), FeltError::InvalidLength);
}

#[test]
fn felt_at_field_order_is_out_of_range() {
    let p = stark_prime_bytes();
    assert_eq!(Felt::from_byte_slice_be(&p).unwrap_err(), FeltError::OutOfRange);
    assert_eq!(Felt::from_byte_slice_be(&[0xff; 32]).unwrap_err(), FeltError::OutOfRange);
}

#[test]
fn felt_just_below_field_order_is_accepted() {
    let mut p = stark_prime_bytes();
    p[31] = 0x00;
    assert_eq!(felt(&p).to_bytes_be(), p);
}

#[test]
fn felt_lower_hex_drops_leading_zeros() {
    assert_eq!(felt(&[0x01, 0xab]).to_lower_hex(), "0x1ab");
    assert_eq!(felt(&[0x00, 0x0f]).to_lower_hex(), "0xf");
    assert_eq!(felt(&[0x10]).to_lower_hex(), "0x10");
    assert_eq!(Felt::zero().to_lower_hex(), "0x0");
    let mut p = stark_prime_bytes();
    p[31] = 0x00;
    assert_eq!(felt(&p).to_lower_hex(), "0x800000000000011000000000000000000000000000000000000000000000000");
}

#[test]
fn felt_equality_is_equality_of_numbers() {
    assert_eq!(felt(&[0, 0, 7]), felt(&[7]));
    assert_ne!(felt(&[7]), felt(&[8]));
    assert_ne!(felt(&[1, 0]), felt(&[1]));
}

#[test]
fn call_data_is_the_selector_of_each_getter() {
    assert_eq!(call_data(CoreContractCall::StateRoot), [0x95, 0x88, 0xec, 0xa2]);
    assert_eq!(call_data(CoreContractCall::StateBlockNumber), [0x35, 0xbe, 0xfa, 0x5d]);
    assert_eq!(call_data(CoreContractCall::StateBlockHash), [0x38, 0x2d, 0x83, 0xe3]);
}

#[test]
fn block_number_is_read_from_a_32_byte_word() {
    let mut word = [0u8; 32];
    word[30] = 0x04;
    word[31] = 0xd2;
    assert!(fits_block_number(&word));
    assert_eq!(decode_block_number(&word), 1234);
    let mut max = [0u8; 32];
    for b in max[24..].iter_mut() {
        *b = 0xff;
    }
    assert!(fits_block_number(&max));
    assert_eq!(decode_block_number(&max), u64::MAX);
    assert_eq!(decode_block_number(&[]), 0);
}

#[test]
fn block_number_above_u64_or_too_long_does_not_fit() {
    let mut word = [0u8; 32];
    word[23] = 0x01;
    assert!(!fits_block_number(&word));
    assert!(!fits_block_number(&[0u8; 33]));
    assert!(fits_block_number(&[0xff; 8]));
    assert!(!fits_block_number(&[0x01, 0, 0, 0, 0, 0, 0, 0, 0]));
}

#[test]
fn decode_felt_reports_decoding_errors_as_l1_fetch_errors() {
    let mut word = [0u8; 32];
    word[31] = 9;
    assert_eq!(decode_felt(&word).unwrap(), felt(&[9]));
    assert!(matches!(
        decode_felt(&[0u8; 40]),
        Err(CoreError::FetchL1Val(L1ValueError::Decode(FeltError::InvalidLength)))
    ));
    assert!(matches!(
        decode_felt(&[0xff; 32]),
        Err(CoreError::FetchL1Val(L1ValueError::Decode(FeltError::OutOfRange)))
    ));
}
