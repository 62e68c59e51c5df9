use sms_forwarder::listing::parse_cmgl_response;

#[test]
fn two_entries_with_trailing_ok() {
    let response = "+CMGL: 1,\"REC UNREAD\",\"+1234567890\",,\"24/01/01,12:00:00+00\"\r\n\
                    Hello\r\n\
                    +CMGL: 2,\"REC READ\",\"+0987654321\",,\"24/01/01,12:01:00+00\"\r\n\
                    World\r\n\
                    OK\r\n";
    let entries = parse_cmgl_response(response);
    assert_eq!(entries.len(), 2);
    assert_eq!(entries[0].index, 1);
    assert_eq!(entries[0].number, "+1234567890");
    assert_eq!(entries[0].body, "Hello");
    assert_eq!(entries[1].index, 2);
    assert_eq!(entries[1].number, "+0987654321");
    assert_eq!(entries[1].body, "World");
}

#[test]
fn ok_line_is_not_body_content() {
    let response = "+CMGL: 3,\"REC UNREAD\",\"+111\",,\"\"\r\nping\r\nOK\r\n";
    let entries = parse_cmgl_response(response);
    assert_eq!(entries.len(), 1);
    assert_eq!(entries[0].body, "ping");
}

#[test]
fn multi_line_body_joined_by_newline() {
    let response = "+CMGL: 5,\"REC UNREAD\",\"+111\",,\"\"\r\nline one\r\nline two\r\nOK\r\n";
    let entries = parse_cmgl_response(response);
    assert_eq!(entries.len(), 1);
    assert_eq!(entries[0].body, "line one\nline two");
}

#[test]
fn blank_lines_are_skipped() {
    let response = "+CMGL: 5,\"REC UNREAD\",\"+111\",,\"\"\r\n\r\nbody\r\n\r\nOK\r\n";
    let entries = parse_cmgl_response(response);
    assert_eq!(entries.len(), 1);
    assert_eq!(entries[0].body, "body");
}

#[test]
fn unparsable_index_skips_entry() {
    let response = "+CMGL: x9,\"REC UNREAD\",\"+111\",,\"\"\r\nlost\r\n\
                    +CMGL: 4,\"REC UNREAD\",\"+222\",,\"\"\r\nkept\r\nOK\r\n";
    let entries = parse_cmgl_response(response);
    assert_eq!(entries.len(), 1);
    assert_eq!(entries[0].index, 4);
    assert_eq!(entries[0].number, "+222");
    assert_eq!(entries[0].body, "kept");
}

#[test]
fn entry_without_body_is_emitted_empty() {
    let response = "+CMGL: 7,\"REC UNREAD\",\"+333\",,\"\"\r\nOK\r\n";
    let entries = parse_cmgl_response(response);
    assert_eq!(entries.len(), 1);
    assert_eq!(entries[0].index, 7);
    assert_eq!(entries[0].body, "");
}

#[test]
fn missing_number_field_gives_empty_number() {
    let response = "+CMGL: 8\r\nbody\r\nOK\r\n";
    let entries = parse_cmgl_response(response);
    assert_eq!(entries.len(), 1);
    assert_eq!(entries[0].index, 8);
    assert_eq!(entries[0].number, "");
}

#[test]
fn empty_response_gives_no_entries() {
    assert_eq!(parse_cmgl_response("").len(), 0);
    assert_eq!(parse_cmgl_response("OK\r\n").len(), 0);
}

#[test]
fn index_too_large_for_u32_skips_entry() {
    let response = "+CMGL: 99999999999,\"REC UNREAD\",\"+111\",,\"\"\r\nbody\r\nOK\r\n";
    let entries = parse_cmgl_response(response);
    assert_eq!(entries.len(), 0);
}
