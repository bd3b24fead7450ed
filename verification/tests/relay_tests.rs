use organ_shell::relay::RelayEndpoint;
use organ_shell::relay::batch_request;
use organ_shell::relay::content_type;
use organ_shell::relay::endpoint_path;
use organ_shell::relay::escape_json;
use organ_shell::relay::message_request;
use organ_shell::relay::relay_url;
use organ_shell::relay::status_body;
use organ_shell::relay::status_request;

const BASE: &str = "http://127.0.0.1:8000";

#[test]
fn endpoint_paths_are_exact() {
    assert_eq!(endpoint_path(RelayEndpoint::Batch), "/whatsapp/batch");
    assert_eq!(endpoint_path(RelayEndpoint::Message), "/whatsapp/message");
    assert_eq!(endpoint_path(RelayEndpoint::Status), "/whatsapp/status");
}

#[test]
fn relay_url_joins_base_and_path() {
    assert_eq!(
        relay_url(BASE, RelayEndpoint::Message),
        "http://127.0.0.1:8000/whatsapp/message"
    );
    assert_eq!(
        relay_url(BASE, RelayEndpoint::Status),
        "http://127.0.0.1:8000/whatsapp/status"
    );
}

#[test]
fn relay_content_type_is_json() {
    assert_eq!(content_type(), "application/json");
}

#[test]
fn status_body_is_exact_json() {
    assert_eq!(
        status_body("online", "2026-01-01T00:00:00+00:00"),
        r#"{"status":"online","timestamp":"2026-01-01T00:00:00+00:00"}"#
    );
}

#[test]
fn escape_json_leaves_plain_text_unchanged() {
    assert_eq!(escape_json("online"), "online");
    assert_eq!(
        escape_json("2026-01-01T00:00:00+00:00"),
        "2026-01-01T00:00:00+00:00"
    );
}

#[test]
fn status_body_escapes_quotes_and_backslashes() {
    assert_eq!(
        status_body(r#"say "hi""#, "t"),
        r#"{"status":"say \"hi\"","timestamp":"t"}"#
    );
    assert_eq!(
        status_body(r"a\b", "t"),
        r#"{"status":"a\\b","timestamp":"t"}"#
    );
}

#[test]
fn status_body_escapes_control_characters() {
    assert_eq!(
        status_body("line\nbreak", "t"),
        r#"{"status":"line\u000abreak","timestamp":"t"}"#
    );
    assert_eq!(
        status_body("\u{1}", "t"),
        r#"{"status":"\u0001","timestamp":"t"}"#
    );
}

#[test]
fn message_request_passes_payload_through() {
    let payload = String::from(r#"{"from":"a","text":"hi"}"#);
    let request = message_request(BASE, payload.clone());
    assert_eq!(request.url, "http://127.0.0.1:8000/whatsapp/message");
    assert_eq!(request.body, payload);
}

#[test]
fn batch_request_passes_payload_through() {
    let payload = String::from(r#"[{"n":1},{"n":2}]"#);
    let request = batch_request(BASE, payload.clone());
    assert_eq!(request.url, "http://127.0.0.1:8000/whatsapp/batch");
    assert_eq!(request.body, payload);
}

#[test]
fn status_request_carries_valid_timestamp() {
    let request = status_request(BASE, "online");
    assert_eq!(request.url, "http://127.0.0.1:8000/whatsapp/status");

    let prefix = r#"{"status":"online","timestamp":""#;
    let suffix = r#""}"#;
    assert!(request.body.starts_with(prefix));
    assert!(request.body.ends_with(suffix));
    let timestamp = &request.body[prefix.len()..request.body.len() - suffix.len()];
    assert!(
        chrono::DateTime::parse_from_rfc3339(timestamp).is_ok(),
        "timestamp not RFC 3339: {timestamp}"
    );
}
