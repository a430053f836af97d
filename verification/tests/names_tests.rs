use base64::Engine;
use media_vault_core::names::{can_encode, encode_name, try_decode_name};

#[test]
fn test_try_decode_encoded_name() {
    assert_eq!(try_decode_name(".dat_VGVzdA=="), Some("Test".to_string()));
}

#[test]
fn test_try_decode_plain_name() {
    assert_eq!(try_decode_name("regular_folder"), None);
}

#[test]
fn test_try_decode_not_base64_after_prefix() {
    assert_eq!(try_decode_name(".dat_!!!invalid!!!"), None);
}

#[test]
fn test_try_decode_invalid_utf8_payload() {
    // A marker followed by a payload that decodes to bytes which are not
    // text is reported as "not encoded".
    let payload = base64::engine::general_purpose::STANDARD.encode([0xFFu8, 0xFEu8]);
    let physical = format!(".dat_{}", payload);
    assert_eq!(try_decode_name(&physical), None);
}

#[test]
fn test_encode_name_known_value() {
    assert_eq!(encode_name("Test"), ".dat_VGVzdA==");
}

#[test]
fn test_encode_name_special_chars() {
    let encoded = encode_name("éàè!+ç%&/^¨w ");
    assert_eq!(encoded, ".dat_w6nDoMOoISvDpyUmL17CqHcg");
}

#[test]
fn test_encode_decode_name_roundtrip() {
    let original = "my_folder";
    let encoded = encode_name(original);
    let decoded = try_decode_name(&encoded);
    assert_eq!(decoded, Some(original.to_string()));
}

#[test]
fn test_encode_decode_name_roundtrip_unicode() {
    let original = "日本語フォルダ";
    let encoded = encode_name(original);
    let decoded = try_decode_name(&encoded);
    assert_eq!(decoded, Some(original.to_string()));
}

#[test]
fn test_can_encode_short_path() {
    assert!(can_encode("/tmp/short_name.txt"));
}

#[test]
fn test_can_encode_long_path() {
    // A path that would exceed 256 bytes once its final component is encoded
    let long_name = "a".repeat(200);
    let path = format!("/tmp/{}", long_name);
    assert!(!can_encode(&path));
}

#[test]
fn test_can_encode_boundary() {
    // "/tmp/" + ".dat_" + payload: 183 name bytes encode to a 244-byte
    // payload, total 254 < 256; one more name byte tips the payload to 248.
    let name_ok = "a".repeat(183);
    assert!(can_encode(&format!("/tmp/{}", name_ok)));
    let name_long = "a".repeat(184);
    assert!(!can_encode(&format!("/tmp/{}", name_long)));
}
