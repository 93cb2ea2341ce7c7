use base64::Engine;
use v2up::errors::ErrorKind;
use v2up::feed::{servers_from_feed, servers_from_text, should_retry};
use v2up::server::ServerType;

fn b64(bytes: &[u8]) -> String {
    base64::engine::general_purpose::STANDARD.encode(bytes)
}

fn vmess_entry(name: &str) -> String {
    let json = format!(
        r#"{{"v":"2","ps":"{}","add":"a.example","port":"443","id":"u","aid":"1","net":"tcp","type":"none","host":"","path":"","tls":""}}"#,
        name
    );
    format!("vmess://{}", b64(json.as_bytes()))
}

#[test]
fn feed_keeps_good_entries_and_reports_bad() {
    let text = format!("{}\r\nxx://bogus", vmess_entry("one"));
    let feed = servers_from_feed(&b64(text.as_bytes())).unwrap();
    assert_eq!(feed.servers.len(), 1);
    match &feed.servers[0] {
        ServerType::Vmess(v) => assert_eq!(v.name, "one"),
        other => panic!("unexpected {:?}", other),
    }
    assert_eq!(feed.rejected.len(), 1);
    assert_eq!(feed.rejected[0].entry, "xx://bogus");
    assert_eq!(feed.rejected[0].error.kind, ErrorKind::UnsupportedScheme);
}

#[test]
fn feed_skips_blank_records() {
    let text = format!("\r\n{}\r\n  \t\u{3000}\r\n{}\r\n", vmess_entry("a"), vmess_entry("b"));
    let feed = servers_from_text(&text);
    assert_eq!(feed.servers.len(), 2);
    assert!(feed.rejected.is_empty());
}

#[test]
fn feed_of_nothing_is_empty() {
    let feed = servers_from_feed("").unwrap();
    assert!(feed.servers.is_empty() && feed.rejected.is_empty());
}

#[test]
fn feed_not_base64_is_decoding_error() {
    assert_eq!(servers_from_feed("%%%").unwrap_err().kind, ErrorKind::DecodingError);
}

#[test]
fn feed_not_utf8_is_invalid_encoding() {
    let body = b64(&[0x76, 0x6d, 0xff, 0xfe]);
    assert_eq!(servers_from_feed(&body).unwrap_err().kind, ErrorKind::InvalidEncoding);
}

#[test]
fn retries_stop_after_three() {
    assert!(should_retry(0, true));
    assert!(should_retry(2, true));
    assert!(!should_retry(3, true));
    assert!(!should_retry(0, false));
}
