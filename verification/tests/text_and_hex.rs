use central_manage::config_command::listen_address;
use central_manage::hexcode::{from_hex, to_hex, HexError};
use central_manage::text::{push_bytes, push_decimal, push_utf8, str_eq};

#[test]
fn str_eq_compares_characters() {
    assert!(str_eq("delivery", "delivery"));
    assert!(!str_eq("delivery", "deliver"));
    assert!(!str_eq("withdraw", "Withdraw"));
    assert!(str_eq("", ""));
    assert!(str_eq("額度", "額度"));
}

#[test]
fn push_utf8_appends_utf8_bytes() {
    let mut out = vec![1u8];
    push_utf8(&mut out, "aé");
    assert_eq!(out, vec![1u8, b'a', 0xc3, 0xa9]);
}

#[test]
fn push_bytes_appends() {
    let mut out = vec![7u8];
    push_bytes(&mut out, &[1, 2, 3]);
    assert_eq!(out, vec![7u8, 1, 2, 3]);
}

#[test]
fn push_decimal_matches_to_string() {
    for v in [0i64, 7, 10, 1234567, -1, -42, i64::MAX, i64::MIN] {
        let mut out = Vec::new();
        push_decimal(&mut out, v);
        assert_eq!(out, v.to_string().into_bytes());
    }
}

#[test]
fn to_hex_writes_lower_case_pairs() {
    assert_eq!(to_hex(&[0xde, 0xad, 0x01, 0x0f]), "dead010f");
    assert_eq!(to_hex(&[]), "");
}

#[test]
fn from_hex_accepts_mixed_case() {
    assert_eq!(from_hex("DEad01"), Ok(vec![0xde, 0xad, 0x01]));
    assert_eq!(from_hex(""), Ok(vec![]));
}

#[test]
fn from_hex_refuses_odd_length() {
    assert_eq!(from_hex("abc"), Err(HexError::OddLength));
}

#[test]
fn from_hex_reports_first_bad_character() {
    assert_eq!(
        from_hex("zz"),
        Err(HexError::InvalidHexCharacter { c: 'z', index: 0 })
    );
    assert_eq!(
        from_hex("0g1h"),
        Err(HexError::InvalidHexCharacter { c: 'g', index: 1 })
    );
}

#[test]
fn hex_round_trip_gives_back_the_bytes() {
    let data: Vec<u8> = (0u8..=255).collect();
    let text = to_hex(&data);
    assert_eq!(text.len(), 2 * data.len());
    assert!(text.chars().all(|c| c.is_ascii_digit() || ('a'..='f').contains(&c)));
    assert_eq!(from_hex(&text), Ok(data));
}

#[test]
fn listen_address_defaults() {
    assert_eq!(listen_address(None), "127.0.0.1:9001");
    assert_eq!(listen_address(Some("0.0.0.0:80".to_string())), "0.0.0.0:80");
}
