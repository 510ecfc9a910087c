use kutter::chat::{ChatMessage, OutgoingMessage};
use kutter::frame::{
    parse_frame, render_delete, render_error, render_history, render_new_message, render_outgoing,
    InboundAction,
};
use kutter::validator::RegexValidator;

fn msg(body: &str) -> Option<String> {
    match parse_frame(body) {
        Some(InboundAction::NewMessage(nm)) => Some(nm.message),
        _ => None,
    }
}

fn del(body: &str) -> Option<i32> {
    match parse_frame(body) {
        Some(InboundAction::DeleteMessage(d)) => Some(d.id),
        _ => None,
    }
}

#[test]
fn parses_canonical_frames() {
    assert_eq!(
        msg("{\"action\":\"new_message\",\"payload\":{\"body\":\"hello\"}}"),
        Some("hello".to_string())
    );
    assert_eq!(del("{\"action\":\"delete_message\",\"payload\":{\"id\":42}}"), Some(42));
}

#[test]
fn parses_members_in_either_order() {
    assert_eq!(
        msg("{\"payload\":{\"body\":\"x\"},\"action\":\"new_message\"}"),
        Some("x".to_string())
    );
    assert_eq!(del("{ \"payload\" : { \"id\" : 9 } , \"action\" : \"delete_message\" }"), Some(9));
}

#[test]
fn parses_whitespace_and_escapes() {
    assert_eq!(
        msg(" { \"action\" : \"new_message\" , \"payload\" : { \"body\" : \"a b\" } } "),
        Some("a b".to_string())
    );
    assert_eq!(
        msg("{\"action\":\"new_message\",\"payload\":{\"body\":\"q\\\"\\\\\\n\\t/\\/e\"}}"),
        Some("q\"\\\n\t//e".to_string())
    );
    assert_eq!(
        msg("{\"action\":\"new_message\",\"payload\":{\"body\":\"héllo ☺\"}}"),
        Some("héllo ☺".to_string())
    );
    assert_eq!(del("{\"action\":\"delete_message\",\"payload\":{\"id\":-3}}"), Some(-3));
    assert_eq!(del("{\"action\":\"delete_message\",\"payload\":{\"id\":0}}"), Some(0));
    assert_eq!(
        del("{\"action\":\"delete_message\",\"payload\":{\"id\":2147483647}}"),
        Some(2147483647)
    );
    assert_eq!(
        del("{\"action\":\"delete_message\",\"payload\":{\"id\":-2147483648}}"),
        Some(-2147483648)
    );
}

#[test]
fn rejects_malformed_frames() {
    for bad in [
        "not json",
        "",
        "{}",
        "{\"action\":\"new_message\"}",
        "{\"action\":\"new_message\",\"payload\":{}}",
        "{\"action\":\"new_message\",\"payload\":{\"body\":42}}",
        "{\"action\":\"delete_message\",\"payload\":{\"id\":\"7\"}}",
        "{\"action\":\"delete_message\",\"payload\":{\"id\":01}}",
        "{\"action\":\"delete_message\",\"payload\":{\"id\":2147483648}}",
        "{\"action\":\"delete_message\",\"payload\":{\"id\":-2147483649}}",
        "{\"action\":\"new_message\",\"payload\":{\"body\":\"unterminated}}",
        "{\"action\":\"new_message\",\"payload\":{\"body\":\"bad\\escape\"}}",
        "{\"action\":\"new_message\",\"payload\":{\"body\":\"x\"}} trailing",
        "{\"action\":\"unknown\",\"payload\":{\"body\":\"x\"}}",
        "{\"action\":\"new_message\",\"payload\":{\"id\":3}}",
        "{\"action\":\"delete_message\",\"payload\":{\"body\":\"x\"}}",
    ] {
        assert_eq!(parse_frame(bad), None, "should reject: {}", bad);
    }
}

#[test]
fn renders_new_message_frame_exactly() {
    let m = ChatMessage {
        id: 1,
        email: "u1".to_string(),
        username: "u1name".to_string(),
        message: "hello".to_string(),
        time: 0,
    };
    assert_eq!(
        render_new_message(&m),
        "{\"action\":\"new_message\",\"id\":1,\"authorId\":\"u1\",\"authorName\":\"u1name\",\
         \"body\":\"hello\",\"timestamp\":\"1970-01-01T00:00:00+00:00\"}"
    );
}

#[test]
fn renders_escapes_and_real_timestamps() {
    let m = ChatMessage {
        id: 120,
        email: "a@b.c".to_string(),
        username: "n\"q\\".to_string(),
        message: "line\nbreak\tand \u{0001}ctl".to_string(),
        time: 1_700_000_000_000_000,
    };
    assert_eq!(
        render_new_message(&m),
        "{\"action\":\"new_message\",\"id\":120,\"authorId\":\"a@b.c\",\
         \"authorName\":\"n\\\"q\\\\\",\"body\":\"line\\nbreak\\tand \\u0001ctl\",\
         \"timestamp\":\"2023-11-14T22:13:20+00:00\"}"
    );
}

#[test]
fn renders_delete_and_error_frames() {
    assert_eq!(render_delete(17), "{\"action\":\"delete\",\"message_id\":17}");
    assert_eq!(
        render_outgoing(&OutgoingMessage::Delete { message_id: 8 }),
        "{\"action\":\"delete\",\"message_id\":8}"
    );
    assert_eq!(
        render_error("Message not found"),
        "{\"status\":\"error\",\"message\":\"Message not found\"}"
    );
}

#[test]
fn round_trip_body_through_render_and_parse() {
    // A body with every kind of escape survives rendering and is what a
    // client would read back from the broadcast frame's body member.
    let tricky = "a\"b\\c\nd\te\u{0008}\u{000C}\rf é";
    let frame = format!(
        "{{\"action\":\"new_message\",\"payload\":{{\"body\":{}}}}}",
        json_string(tricky)
    );
    assert_eq!(msg(&frame), Some(tricky.to_string()));
}

fn json_string(s: &str) -> String {
    let mut out = String::from("\"");
    for c in s.chars() {
        match c {
            '"' => out.push_str("\\\""),
            '\\' => out.push_str("\\\\"),
            '\n' => out.push_str("\\n"),
            '\t' => out.push_str("\\t"),
            '\r' => out.push_str("\\r"),
            '\u{0008}' => out.push_str("\\b"),
            '\u{000C}' => out.push_str("\\f"),
            c => out.push(c),
        }
    }
    out.push('"');
    out
}

#[test]
fn renders_history_array() {
    assert_eq!(render_history(&vec![]), "[]");
    let mk = |id: i32, body: &str| ChatMessage {
        id,
        email: "e".to_string(),
        username: "u".to_string(),
        message: body.to_string(),
        time: 0,
    };
    assert_eq!(
        render_history(&vec![mk(2, "b"), mk(1, "a")]),
        "[{\"id\":2,\"authorId\":\"e\",\"authorName\":\"u\",\"body\":\"b\",\
         \"timestamp\":\"1970-01-01T00:00:00+00:00\"},\
         {\"id\":1,\"authorId\":\"e\",\"authorName\":\"u\",\"body\":\"a\",\
         \"timestamp\":\"1970-01-01T00:00:00+00:00\"}]"
    );
}

#[test]
fn validates_passwords() {
    let v = RegexValidator::new();
    assert!(v.validate_password("Abc$12"));
    assert!(v.validate_password("Str0ng!pass"));
    // Too short.
    assert!(!v.validate_password("Ab$1x"));
    // No uppercase.
    assert!(!v.validate_password("abc$123"));
    // No special character.
    assert!(!v.validate_password("Abc1234"));
    // A line feed defeats the length pattern.
    assert!(!v.validate_password("Abc$12\n34"));
    // Non-ASCII counts as special, uppercase must be ASCII.
    assert!(v.validate_password("Abcdéf"));
}
