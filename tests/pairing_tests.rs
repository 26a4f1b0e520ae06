use aventuras_sync::pairing::{
    generate_qr_code, new_session_token, server_info, token_to_connect_code, validate_token,
};
use base64::Engine;

#[test]
fn connect_code_reads_leading_hex_of_uuid() {
    assert_eq!(token_to_connect_code("12345678-1234-4abc-8def-0123456789ab"), "419896");
}

#[test]
fn connect_code_of_all_f_prefix() {
    assert_eq!(token_to_connect_code("ffffffff-0000-4000-8000-000000000000"), "967295");
}

#[test]
fn connect_code_is_zero_padded() {
    assert_eq!(token_to_connect_code("00000001-aaaa-4aaa-8aaa-aaaaaaaaaaaa"), "000001");
}

#[test]
fn connect_code_ignores_dashes_before_taking_eight_chars() {
    assert_eq!(token_to_connect_code("1-2-3-4-5-6-7-8-9"), "419896");
}

#[test]
fn connect_code_of_short_token_uses_all_of_it() {
    assert_eq!(token_to_connect_code("abc"), "002748");
}

#[test]
fn connect_code_accepts_uppercase_hex() {
    assert_eq!(token_to_connect_code("ABCDEF01"), token_to_connect_code("abcdef01"));
    assert_eq!(token_to_connect_code("ABCDEF01"), "400001");
}

#[test]
fn connect_code_of_non_hex_or_empty_is_zero() {
    assert_eq!(token_to_connect_code("zzzzzzzz-zzzz"), "000000");
    assert_eq!(token_to_connect_code(""), "000000");
    assert_eq!(token_to_connect_code("----"), "000000");
    assert_eq!(token_to_connect_code("é1234567"), "000000");
}

#[test]
fn connect_code_takes_a_leading_plus_as_a_sign() {
    assert_eq!(token_to_connect_code("+1234567"), "088743");
    assert_eq!(token_to_connect_code("+"), "000000");
}

#[test]
fn connect_code_is_six_digits_and_deterministic_for_random_tokens() {
    for _ in 0..50 {
        let token = new_session_token().unwrap();
        let code = token_to_connect_code(&token);
        assert_eq!(code.len(), 6);
        assert!(code.chars().all(|c| c.is_ascii_digit()));
        assert_eq!(code, token_to_connect_code(&token));
        let expected = u32::from_str_radix(&token[..8], 16).unwrap() % 1_000_000;
        assert_eq!(code, format!("{:06}", expected));
    }
}

#[test]
fn token_and_its_code_both_validate() {
    let token = "12345678-1234-4abc-8def-0123456789ab";
    assert!(validate_token(token, token));
    assert!(validate_token("419896", token));
}

#[test]
fn other_credentials_do_not_validate() {
    let token = "12345678-1234-4abc-8def-0123456789ab";
    assert!(!validate_token("419897", token));
    assert!(!validate_token("", token));
    assert!(!validate_token("12345678-1234-4abc-8def-0123456789AB", token));
    assert!(!validate_token(" 419896", token));
    assert!(!validate_token("12345678", token));
}

#[test]
fn session_token_is_hyphenated_lowercase_uuid() {
    let token = new_session_token().unwrap();
    assert_eq!(token.len(), 36);
    for (i, c) in token.chars().enumerate() {
        if i == 8 || i == 13 || i == 18 || i == 23 {
            assert_eq!(c, '-');
        } else {
            assert!(c.is_ascii_hexdigit() && !c.is_ascii_uppercase());
        }
    }
    assert_eq!(&token[14..15], "4");
    assert!(matches!(&token[19..20], "8" | "9" | "a" | "b"));
    assert_ne!(token, new_session_token().unwrap());
}

#[test]
fn qr_code_is_base64_png_of_scannable_size() {
    let payload = r#"{"ip":"192.168.1.42","port":55555,"token":"12345678-1234-4abc-8def-0123456789ab","version":"1.0.0"}"#;
    let encoded = generate_qr_code(payload).unwrap();
    let png = base64::engine::general_purpose::STANDARD.decode(encoded.as_bytes()).unwrap();
    assert_eq!(&png[..8], &[0x89, b'P', b'N', b'G', 0x0d, 0x0a, 0x1a, 0x0a]);
    let width = u32::from_be_bytes([png[16], png[17], png[18], png[19]]);
    let height = u32::from_be_bytes([png[20], png[21], png[22], png[23]]);
    assert!(width >= 256 && height >= 256);
}

#[test]
fn qr_code_rejects_data_too_long() {
    let payload = "x".repeat(8000);
    let err = generate_qr_code(&payload).unwrap_err();
    assert!(err.starts_with("Failed to create QR code: "));
}

#[test]
fn server_info_carries_the_connect_code() {
    let info = server_info(
        "192.168.1.42".to_string(),
        55555,
        "ffffffff-0000-4000-8000-000000000000".to_string(),
        "qr".to_string(),
    );
    assert_eq!(info.connect_code, "967295");
    assert_eq!(info.ip, "192.168.1.42");
    assert_eq!(info.port, 55555);
    assert_eq!(info.qr_code_base64, "qr");
}

#[test]
fn qr_code_is_deterministic_and_differs_by_data() {
    let a = generate_qr_code("hello").unwrap();
    assert_eq!(a, generate_qr_code("hello").unwrap());
    assert_ne!(a, generate_qr_code("hellp").unwrap());
}
