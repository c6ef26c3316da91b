use cfx_evm::executed::revert_reason_decode;
use rustc_hex::FromHex;

#[test]
fn test_decode_result() {
    let input_hex = "08c379a0\
                     0000000000000000000000000000000000000000000000000000000000000020\
                     0000000000000000000000000000000000000000000000000000000000000018\
                     e699bae59586e4b88de8b6b3efbc8ce8afb7e58585e580bc0000000000000000";
    let input: Vec<u8> = input_hex.from_hex().unwrap();
    assert_eq!("智商不足，请充值".to_string(), revert_reason_decode(&input));
}

#[test]
fn short_output_is_shown_in_hex() {
    assert_eq!("0x08c3".to_string(), revert_reason_decode(&[0x08, 0xc3]));
    assert_eq!("0x".to_string(), revert_reason_decode(&[]));
}
