use tpv_store::fingerprint::{fingerprint_from_getmac, fingerprint_from_ifconfig};
use tpv_store::pinned_ids::{decode_pinned_product_ids, encode_pinned_product_ids};
use tpv_store::screenshot::{decode_screenshot_data, ScreenshotError};

#[test]
fn getmac_fingerprint_takes_the_first_line() {
    let out = b"AA-BB-CC-DD-EE-FF\r\n\r\nsecond line\r\n";
    assert_eq!(fingerprint_from_getmac(out), b"AA-BB-CC-DD-EE-FF".to_vec());
}

#[test]
fn getmac_fingerprint_without_newline_is_the_whole_output() {
    assert_eq!(fingerprint_from_getmac(b"AA-BB"), b"AA-BB".to_vec());
}

#[test]
fn getmac_fingerprint_of_empty_output_is_unknown() {
    assert_eq!(fingerprint_from_getmac(b""), b"unknown".to_vec());
}

#[test]
fn ifconfig_fingerprint_takes_the_second_token() {
    let out = b"\tether 00:11:22:33:44:55 \n";
    assert_eq!(fingerprint_from_ifconfig(out), b"00:11:22:33:44:55".to_vec());
}

#[test]
fn ifconfig_fingerprint_without_second_token_is_unknown() {
    assert_eq!(fingerprint_from_ifconfig(b"ether"), b"unknown".to_vec());
    assert_eq!(fingerprint_from_ifconfig(b"   \n"), b"unknown".to_vec());
    assert_eq!(fingerprint_from_ifconfig(b""), b"unknown".to_vec());
}

#[test]
fn screenshot_payload_decodes() {
    let data = b"data:image/png;base64,AQID";
    assert_eq!(decode_screenshot_data(data), Ok(vec![1u8, 2, 3]));
}

#[test]
fn screenshot_with_wrong_prefix_is_rejected_without_decoding() {
    assert_eq!(
        decode_screenshot_data(b"data:image/jpeg;base64,AQID"),
        Err(ScreenshotError::InvalidFormat)
    );
    assert_eq!(decode_screenshot_data(b""), Err(ScreenshotError::InvalidFormat));
}

#[test]
fn screenshot_with_bad_payload_is_a_decode_failure() {
    assert_eq!(
        decode_screenshot_data(b"data:image/png;base64,!!!"),
        Err(ScreenshotError::DecodeFailed)
    );
}

#[test]
fn pinned_ids_encode_to_a_json_list() {
    assert_eq!(
        encode_pinned_product_ids(&Some(vec![1, 2, 3])),
        Some("[1,2,3]".to_string())
    );
    assert_eq!(encode_pinned_product_ids(&None), None);
}

#[test]
fn pinned_ids_decode_from_a_json_list() {
    assert_eq!(decode_pinned_product_ids(Some("[1,2,3]")), Some(vec![1, 2, 3]));
    assert_eq!(decode_pinned_product_ids(Some("[]")), Some(vec![]));
    assert_eq!(decode_pinned_product_ids(None), None);
}

#[test]
fn malformed_pinned_ids_read_as_none() {
    assert_eq!(decode_pinned_product_ids(Some("not json")), None);
    assert_eq!(decode_pinned_product_ids(Some("{\"a\":1}")), None);
}

#[test]
fn pinned_ids_round_trip() {
    let ids = vec![42, -7, 0];
    let text = encode_pinned_product_ids(&Some(ids.clone())).unwrap();
    assert_eq!(decode_pinned_product_ids(Some(&text)), Some(ids));
}
