use sms_forwarder::config::{default_baud_rate, default_modem_device, Config};
use sms_forwarder::poll::{decode_body, plan_cycle, sms_title};

fn test_config(keywords: Vec<String>) -> Config {
    Config {
        bark_key: "k".to_string(),
        aes_key: "0123456789abcdef".to_string(),
        aes_iv: "fedcba9876543210".to_string(),
        emergency_keywords: keywords,
        modem_device: default_modem_device(),
        baud_rate: default_baud_rate(),
    }
}

#[test]
fn defaults_match_documented_values() {
    assert_eq!(default_modem_device(), "/dev/ttyUSB2");
    assert_eq!(default_baud_rate(), 115200);
}

#[test]
fn title_names_the_sender() {
    assert_eq!(sms_title("+1234"), "SMS from +1234");
}

#[test]
fn plan_cycle_produces_one_task_per_entry() {
    let cfg = test_config(vec!["fire".to_string()]);
    let listing = "+CMGL: 1,\"REC UNREAD\",\"+111\",,\"\"\r\nfire in the hall\r\n\
                   +CMGL: 2,\"REC UNREAD\",\"+222\",,\"\"\r\n0041\r\nOK\r\n";
    let tasks = plan_cycle(&cfg, listing);
    assert_eq!(tasks.len(), 2);

    assert_eq!(tasks[0].index, 1);
    assert_eq!(tasks[0].number, "+111");
    assert_eq!(tasks[0].body, "fire in the hall");
    assert!(tasks[0].emergency);
    assert_eq!(tasks[0].delete, b"AT+CMGD=1\r\n");
    let req = tasks[0].push.as_ref().unwrap();
    assert_eq!(req.url, "https://api.day.app/k");

    assert_eq!(tasks[1].index, 2);
    assert_eq!(tasks[1].body, "A");
    assert!(!tasks[1].emergency);
    assert_eq!(tasks[1].delete, b"AT+CMGD=2\r\n");
    assert!(tasks[1].push.is_ok());
}

#[test]
fn plan_cycle_with_bad_config_still_plans_deletion() {
    let mut cfg = test_config(vec![]);
    cfg.aes_key = "tooshort".to_string();
    let listing = "+CMGL: 9,\"REC UNREAD\",\"+1\",,\"\"\r\nhello\r\nOK\r\n";
    let tasks = plan_cycle(&cfg, listing);
    assert_eq!(tasks.len(), 1);
    assert!(tasks[0].push.is_err());
    assert_eq!(tasks[0].delete, b"AT+CMGD=9\r\n");
}

#[test]
fn plan_cycle_decodes_hex_bodies_before_classifying() {
    // "fire" in UCS2-hex.
    let cfg = test_config(vec!["fire".to_string()]);
    let listing = "+CMGL: 3,\"REC UNREAD\",\"+1\",,\"\"\r\n0066006900720065\r\nOK\r\n";
    let tasks = plan_cycle(&cfg, listing);
    assert_eq!(tasks.len(), 1);
    assert_eq!(tasks[0].body, "fire");
    assert!(tasks[0].emergency);
}

#[test]
fn decode_body_round_trips_plain_text() {
    assert_eq!(decode_body("just a message"), "just a message");
}

#[test]
fn plan_cycle_of_empty_listing_is_empty() {
    let cfg = test_config(vec![]);
    assert_eq!(plan_cycle(&cfg, "OK\r\n").len(), 0);
}
