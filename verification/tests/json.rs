use icpad::error::ServiceError;
use icpad::json::{decode_session, json_quote, session_from_members, Member, SessionResponse};

#[test]
fn decode_session_reads_both_members() {
    let session = decode_session(br#"{"container_id":"c1","editor_url":"https://e/c1"}"#).unwrap();
    assert_eq!(
        session,
        SessionResponse { container_id: "c1".to_string(), editor_url: "https://e/c1".to_string() }
    );
}

#[test]
fn decode_session_reads_escapes_and_spaces() {
    let session =
        decode_session(b" { \"editor_url\" : \"a\\u0041\\n\" , \"container_id\" : \"\" } ").unwrap();
    assert_eq!(session.container_id, "");
    assert_eq!(session.editor_url, "aA\n");
}

#[test]
fn decode_session_names_the_first_missing_member() {
    let none = decode_session(b"{}").unwrap_err();
    assert_eq!(
        none,
        ServiceError::MalformedResponse { detail: "missing field `container_id`".to_string() }
    );
    let one = decode_session(br#"{"container_id":"c"}"#).unwrap_err();
    assert_eq!(
        one,
        ServiceError::MalformedResponse { detail: "missing field `editor_url`".to_string() }
    );
}

#[test]
fn decode_session_refuses_what_is_no_object() {
    assert!(decode_session(b"\"text\"").is_err());
    assert!(decode_session(b"null").is_err());
    assert!(decode_session(b"").is_err());
    assert!(decode_session(br#"{"container_id":"c","editor_url":"u"} x"#).is_err());
}

#[test]
fn decode_session_refuses_members_of_another_kind() {
    assert!(decode_session(br#"{"container_id":null,"editor_url":"u"}"#).is_err());
    assert!(decode_session(br#"{"container_id":"c","editor_url":["u"]}"#).is_err());
}

#[test]
fn session_from_members_needs_both_as_strings() {
    let text = |t: &str| Member::Text(t.to_string());
    let malformed = |detail: &str| Err(ServiceError::MalformedResponse { detail: detail.to_string() });
    assert_eq!(
        session_from_members(text("c"), text("u")),
        Ok(SessionResponse { container_id: "c".to_string(), editor_url: "u".to_string() })
    );
    assert_eq!(
        session_from_members(Member::Missing, Member::Missing),
        malformed("missing field `container_id`")
    );
    assert_eq!(
        session_from_members(Member::Missing, text("u")),
        malformed("missing field `container_id`")
    );
    assert_eq!(
        session_from_members(text("c"), Member::Missing),
        malformed("missing field `editor_url`")
    );
    assert_eq!(
        session_from_members(Member::Other, Member::Missing),
        malformed("invalid type for field `container_id`, expected a string")
    );
    assert_eq!(
        session_from_members(text("c"), Member::Other),
        malformed("invalid type for field `editor_url`, expected a string")
    );
    assert_eq!(
        session_from_members(Member::Missing, Member::Other),
        malformed("missing field `container_id`")
    );
}

#[test]
fn decode_session_tells_a_wrong_kind_from_a_missing_member() {
    let detail = |body: &[u8]| match decode_session(body) {
        Err(ServiceError::MalformedResponse { detail }) => detail,
        other => panic!("{:?}", other),
    };
    assert_eq!(
        detail(br#"{"container_id":17,"editor_url":"u"}"#),
        "invalid type for field `container_id`, expected a string"
    );
    assert_eq!(
        detail(br#"{"container_id":"c","editor_url":null}"#),
        "invalid type for field `editor_url`, expected a string"
    );
    assert_eq!(detail(br#"{"container_id":"c","url":"u"}"#), "missing field `editor_url`");
    assert_eq!(detail(br#"[{"container_id":"c","editor_url":"u"}]"#), "missing field `container_id`");
}

#[test]
fn json_quote_puts_a_text_between_quotes() {
    assert_eq!(json_quote(""), "\"\"");
    assert_eq!(json_quote("alice"), "\"alice\"");
    assert_eq!(json_quote("zoë ✓"), "\"zoë ✓\"");
}

#[test]
fn json_quote_escapes_quote_and_backslash() {
    assert_eq!(json_quote("a\"b"), r#""a\"b""#);
    assert_eq!(json_quote("a\\b"), r#""a\\b""#);
    assert_eq!(json_quote("\"\""), r#""\"\"""#);
    assert_eq!(json_quote("\\\""), r#""\\\"""#);
}

#[test]
fn json_quote_escapes_control_characters() {
    assert_eq!(json_quote("\u{8}\t\n\u{c}\r"), r#""\b\t\n\f\r""#);
    assert_eq!(json_quote("\u{0}"), r#""\u0000""#);
    assert_eq!(json_quote("\u{b}"), r#""\u000b""#);
    assert_eq!(json_quote("\u{1f}"), r#""\u001f""#);
    assert_eq!(json_quote("\u{1a}x"), r#""\u001ax""#);
    assert_eq!(json_quote(" \u{7f}/"), "\" \u{7f}/\"");
}

#[test]
fn json_quote_writes_what_serde_json_writes() {
    let mut texts: Vec<String> = (0u32..0x80).filter_map(char::from_u32).map(|c| c.to_string()).collect();
    texts.push("mixed \" \\ \n \u{1} é \u{10348} end".to_string());
    texts.push("\u{2028}\u{2029}\u{85}\u{a0}".to_string());
    for text in texts {
        assert_eq!(json_quote(&text), serde_json::to_string(&text).unwrap(), "{:?}", text);
    }
}

#[test]
fn json_quote_is_read_back_as_the_same_text() {
    for text in ["", "a\"b", "\\", "\u{0}\u{1f}", "tab\there", "{\"x\":1}", "é\u{10348}"] {
        let read: String = serde_json::from_str(&json_quote(text)).unwrap();
        assert_eq!(read, text);
    }
}
