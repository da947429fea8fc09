use microblog::decode::{
    parse_create_tweet_payload, parse_create_user_payload, parse_login_payload,
};
use microblog::errors::ApiError;
use microblog::json::json_string;

#[test]
fn decoding_two_field_payloads_inverts_rendering() {
    let cases = vec![("alice", "secret"), ("", ""), ("a\"b", "p\\q"), ("héllo", "line\nbreak")];
    for (username, password) in cases {
        let body = format!(
            "{{\"username\":{},\"password\":{}}}",
            json_string(username),
            json_string(password)
        );
        let payload = parse_create_user_payload(&body).unwrap();
        assert_eq!(payload.username, username);
        assert_eq!(payload.password, password);
    }
}

#[test]
fn decoding_two_field_payloads_rejects_everything_else() {
    let bad = vec![
        "",
        "{}",
        "{\"username\":\"a\"}",
        "{\"password\":\"p\",\"username\":\"a\"}",
        "{\"username\":\"a\",\"password\":\"p\"} ",
        "{\"username\":\"a\";\"password\":\"p\"}",
        "{\"username\":\"a\",\"password\":\"p}",
        "{\"username\":\"a\",\"password\":p\"}",
    ];
    for body in bad {
        assert_eq!(parse_create_user_payload(body).err(), Some(ApiError::MalformedRequest));
    }
}

#[test]
fn decoding_inverts_rendering() {
    let texts = vec![
        "Hello, World!",
        "",
        "with \"quotes\" and \\backslashes\\",
        "line\nbreak\ttab\rreturn",
        "unicode: héllo ✓",
    ];
    for text in texts {
        let body = format!("{{\"text\":{}}}", json_string(text));
        let payload = parse_create_tweet_payload(&body).unwrap();
        assert_eq!(payload.text, text);
    }
}

#[test]
fn decoding_accepts_the_canonical_wire_form() {
    let payload = parse_create_tweet_payload("{\"text\":\"a\\\"b\\\\c\\nd\"}").unwrap();
    assert_eq!(payload.text, "a\"b\\c\nd");

    let login = parse_login_payload("{\"password\":\"secret\"}").unwrap();
    assert_eq!(login.password, "secret");
}

#[test]
fn decoding_rejects_everything_else() {
    let bad = vec![
        "",
        "{}",
        "{\"text\":}",
        "{\"text\":\"open",
        "{\"text\":\"open\"",
        "{\"txt\":\"x\"}",
        "{\"text\":\"x\"} ",
        " {\"text\":\"x\"}",
        "{\"text\":\"a\"b\"}",
        "{\"text\":\"a\\qb\"}",
        "{\"text\":\"a\\\"}",
        "{\"text\":\"line\nbreak\"}",
        "[\"text\"]",
    ];
    for body in bad {
        assert_eq!(parse_create_tweet_payload(body).err(), Some(ApiError::MalformedRequest));
    }
}
