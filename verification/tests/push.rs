use base64::Engine;
use sms_forwarder::classify::is_emergency;
use sms_forwarder::config::Config;
use sms_forwarder::crypto::decrypt_data;
use sms_forwarder::push::{build_payload, build_push_request, serialize_payload, PushError};

fn test_config(key: &str, iv: &str) -> Config {
    Config {
        bark_key: "testkey123".to_string(),
        aes_key: key.to_string(),
        aes_iv: iv.to_string(),
        emergency_keywords: vec!["fire".to_string(), "alarm".to_string()],
        modem_device: "/dev/ttyUSB2".to_string(),
        baud_rate: 115200,
    }
}

#[test]
fn payload_json_plain() {
    let p = build_payload("", "hi", false);
    assert_eq!(serialize_payload(&p), br#"{"body":"hi","sound":"birdsong"}"#);
}

#[test]
fn payload_json_with_title() {
    let p = build_payload("SMS from +1", "hi", false);
    assert_eq!(
        serialize_payload(&p),
        br#"{"body":"hi","title":"SMS from +1","sound":"birdsong"}"#
    );
}

#[test]
fn emergency_payload_has_level_volume_call() {
    let p = build_payload("t", "fire!", true);
    assert!(p.level.is_some());
    assert!(p.volume.is_some());
    assert!(p.call.is_some());
    assert_eq!(
        serialize_payload(&p),
        br#"{"body":"fire!","title":"t","sound":"birdsong","level":"critical","volume":5,"call":1}"#
    );
}

#[test]
fn non_emergency_payload_omits_severity_fields() {
    let p = build_payload("t", "calm", false);
    assert!(p.level.is_none());
    assert!(p.volume.is_none());
    assert!(p.call.is_none());
    let json = String::from_utf8(serialize_payload(&p)).unwrap();
    assert!(!json.contains("level"));
    assert!(!json.contains("volume"));
    assert!(!json.contains("call"));
}

#[test]
fn payload_json_escapes_quotes_and_backslash() {
    let p = build_payload("", "a\"b\\c", false);
    assert_eq!(serialize_payload(&p), br#"{"body":"a\"b\\c","sound":"birdsong"}"#);
}

#[test]
fn payload_json_escapes_control_and_non_ascii() {
    let p = build_payload("", "a\nb", false);
    assert_eq!(serialize_payload(&p), br#"{"body":"a\u000Ab","sound":"birdsong"}"#);
    let p = build_payload("", "\u{4F60}", false);
    assert_eq!(serialize_payload(&p), br#"{"body":"\u4F60","sound":"birdsong"}"#);
    let p = build_payload("", "\u{1F600}", false);
    assert_eq!(serialize_payload(&p), br#"{"body":"\uD83D\uDE00","sound":"birdsong"}"#);
}

#[test]
fn short_key_fails_before_any_network_use() {
    let cfg = test_config("short", "0123456789abcdef");
    assert!(matches!(build_push_request(&cfg, "t", "b", false), Err(PushError::InvalidKeyIv)));
}

#[test]
fn short_iv_fails_before_any_network_use() {
    let cfg = test_config("0123456789abcdef", "badiv");
    assert!(matches!(build_push_request(&cfg, "t", "b", false), Err(PushError::InvalidKeyIv)));
    let cfg = test_config("0123456789abcdef", "0123456789abcdef0");
    assert!(matches!(build_push_request(&cfg, "t", "b", false), Err(PushError::InvalidKeyIv)));
}

#[test]
fn valid_key_iv_builds_request() {
    let cfg = test_config("0123456789abcdef", "fedcba9876543210");
    let req = build_push_request(&cfg, "SMS from +1", "hello", false).unwrap();
    assert_eq!(req.url, "https://api.day.app/testkey123");
    assert!(req.form_body.starts_with("ciphertext="));
    assert!(req.form_body.contains("&iv="));
    assert!(req.form_body.ends_with("fedcba9876543210"));
}

#[test]
fn request_ciphertext_decrypts_to_payload_json() {
    let cfg = test_config("0123456789abcdef", "fedcba9876543210");
    let req = build_push_request(&cfg, "t", "hello", true).unwrap();
    let body = &req.form_body;
    let ct_part = &body["ciphertext=".len()..body.find("&iv=").unwrap()];
    // The Base64 alphabet's '+', '/' and '=' arrive percent-encoded.
    let b64: String = ct_part
        .replace("%2B", "+")
        .replace("%2F", "/")
        .replace("%3D", "=");
    let ct = base64_decode(&b64);
    let pt = decrypt_data(b"0123456789abcdef", b"fedcba9876543210", &ct).unwrap();
    let p = build_payload("t", "hello", true);
    assert_eq!(pt, serialize_payload(&p));
}

fn base64_decode(s: &str) -> Vec<u8> {
    base64::engine::general_purpose::STANDARD.decode(s).unwrap()
}

#[test]
fn classifier_matches_substring_case_sensitively() {
    let kws = vec!["fire".to_string(), "alarm".to_string()];
    assert!(is_emergency(&kws, "there is a fire downtown"));
    assert!(is_emergency(&kws, "alarm"));
    assert!(!is_emergency(&kws, "FIRE"));
    assert!(!is_emergency(&kws, "all quiet"));
}

#[test]
fn empty_keyword_list_never_matches() {
    let kws: Vec<String> = vec![];
    assert!(!is_emergency(&kws, "fire fire fire"));
}
