use base64::Engine;
use v2up::errors::ErrorKind;
use v2up::server::{from_str, ServerType, TrojanServer, VmessServer};

fn b64(text: &str) -> String {
    base64::engine::general_purpose::STANDARD.encode(text.as_bytes())
}

fn b64_unpadded(text: &str) -> String {
    base64::engine::general_purpose::STANDARD_NO_PAD.encode(text.as_bytes())
}

const VMESS_JSON: &str = r#"{"v":"2","ps":"hk-01","add":"hk.example.org","port":"443","id":"0b6b0c9e-8a3c-4d16-9c1a-8f7f5e3a2b10","aid":"64","net":"ws","type":"none","host":"","path":"/ray","tls":"tls"}"#;

fn kind_of(entry: &str) -> ErrorKind {
    from_str(entry).unwrap_err().kind
}

#[test]
fn vmess_fields_come_from_json() {
    let entry = format!("vmess://{}", b64(VMESS_JSON));
    let server = from_str(&entry).unwrap();
    assert_eq!(
        server,
        ServerType::Vmess(VmessServer {
            name: "hk-01".to_string(),
            network: "ws".to_string(),
            user_id: "0b6b0c9e-8a3c-4d16-9c1a-8f7f5e3a2b10".to_string(),
            alter_id: 64,
            address: "hk.example.org".to_string(),
            port: 443,
        })
    );
}

#[test]
fn vmess_accepts_unpadded_base64() {
    let json = r#"{"v":"2","ps":"a","add":"b.example","port":"8080","id":"u","aid":"0","net":"tcp","type":"none","host":"","path":"","tls":""}"#;
    let padded = b64(json);
    assert!(padded.ends_with('='));
    let entry = format!("vmess://{}", b64_unpadded(json));
    match from_str(&entry).unwrap() {
        ServerType::Vmess(s) => {
            assert_eq!(s.port, 8080);
            assert_eq!(s.alter_id, 0);
            assert_eq!(s.address, "b.example");
        }
        other => panic!("unexpected {:?}", other),
    }
}

#[test]
fn vmess_missing_field_is_invalid_payload() {
    let json = r#"{"v":"2","ps":"a","add":"b","port":"1","id":"u","aid":"0","net":"tcp","type":"none","host":"","path":""}"#;
    assert_eq!(kind_of(&format!("vmess://{}", b64(json))), ErrorKind::InvalidPayload);
}

#[test]
fn vmess_numeric_port_is_invalid_payload() {
    let json = r#"{"v":"2","ps":"a","add":"b","port":443,"id":"u","aid":"0","net":"tcp","type":"none","host":"","path":"","tls":""}"#;
    assert_eq!(kind_of(&format!("vmess://{}", b64(json))), ErrorKind::InvalidPayload);
}

#[test]
fn vmess_bad_port_text_is_invalid_payload() {
    for port in ["0", "65536", "12a", "", "-1"] {
        let json = VMESS_JSON.replace(r#""port":"443""#, &format!(r#""port":"{}""#, port));
        assert_eq!(kind_of(&format!("vmess://{}", b64(&json))), ErrorKind::InvalidPayload, "{}", port);
    }
}

#[test]
fn vmess_empty_address_is_invalid_payload() {
    let json = VMESS_JSON.replace(r#""add":"hk.example.org""#, r#""add":"""#);
    assert_eq!(kind_of(&format!("vmess://{}", b64(&json))), ErrorKind::InvalidPayload);
}

#[test]
fn vmess_not_base64_is_invalid_payload() {
    assert_eq!(kind_of("vmess://@@not base64@@"), ErrorKind::InvalidPayload);
}

#[test]
fn vmess_not_json_is_invalid_payload() {
    assert_eq!(kind_of(&format!("vmess://{}", b64("[1, 2]"))), ErrorKind::InvalidPayload);
}

#[test]
fn vmess_invalid_utf8_is_invalid_encoding() {
    let payload = base64::engine::general_purpose::STANDARD.encode([0xffu8, 0xfe, 0x7b]);
    assert_eq!(kind_of(&format!("vmess://{}", payload)), ErrorKind::InvalidEncoding);
}

#[test]
fn trojan_full_entry() {
    let entry = "trojan://31b98cae-da2d-4456-b351-f91838313f0a@jp1.lxjc.app:443?allowInsecure=0&peer=16-163-218-240.nhost.00cdn.com&sni=16-163-218-240.nhost.00cdn.com#%E5%89%A9%E4%BD%99%E6%B5%81%E9%87%8F%EF%BC%9A99.89%20GB";
    let server = from_str(entry).unwrap();
    assert_eq!(
        server,
        ServerType::Trojan(TrojanServer {
            name: "剩余流量：99.89 GB".to_string(),
            address: "jp1.lxjc.app".to_string(),
            port: 443,
            password: "31b98cae-da2d-4456-b351-f91838313f0a".to_string(),
            sni: "16-163-218-240.nhost.00cdn.com".to_string(),
            allow_insecure: false,
            network: String::new(),
            path: String::new(),
        })
    );
}

#[test]
fn trojan_sni_preferred_over_peer() {
    let entry = "trojan://pw@h.example:8443?sni=a.example&peer=b.example#n";
    match from_str(entry).unwrap() {
        ServerType::Trojan(t) => assert_eq!(t.sni, "a.example"),
        other => panic!("unexpected {:?}", other),
    }
}

#[test]
fn trojan_peer_when_no_sni() {
    let entry = "trojan://pw@h.example:8443?peer=b.example";
    match from_str(entry).unwrap() {
        ServerType::Trojan(t) => {
            assert_eq!(t.sni, "b.example");
            assert_eq!(t.name, "");
        }
        other => panic!("unexpected {:?}", other),
    }
}

#[test]
fn trojan_insecure_websocket() {
    let entry = "trojan://pw@[2001:db8::1]:443?allowInsecure=1&type=ws&path=/socket&sni=s.example#ws%20node";
    match from_str(entry).unwrap() {
        ServerType::Trojan(t) => {
            assert!(t.allow_insecure);
            assert_eq!(t.network, "ws");
            assert_eq!(t.path, "/socket");
            assert_eq!(t.address, "[2001:db8::1]");
            assert_eq!(t.port, 443);
            assert_eq!(t.name, "ws node");
        }
        other => panic!("unexpected {:?}", other),
    }
}

#[test]
fn trojan_insecure_true_word() {
    let entry = "trojan://pw@h:1?allowInsecure=true";
    match from_str(entry).unwrap() {
        ServerType::Trojan(t) => assert!(t.allow_insecure),
        other => panic!("unexpected {:?}", other),
    }
}

#[test]
fn trojan_malformed_payloads() {
    for entry in [
        "trojan://h.example:443",
        "trojan://@h.example:443",
        "trojan://pw@h.example",
        "trojan://pw@:443",
        "trojan://pw@h.example:0",
        "trojan://pw@h.example:http",
        "trojan://pw@h.example:443#%FF",
    ] {
        assert_eq!(kind_of(entry), ErrorKind::InvalidPayload, "{}", entry);
    }
}

#[test]
fn unknown_scheme_is_unsupported() {
    let err = from_str("xx://bogus").unwrap_err();
    assert_eq!(err.kind, ErrorKind::UnsupportedScheme);
    assert_eq!(err.to_text(), "unsupported scheme: xx");
}

#[test]
fn entry_without_separator_is_unsupported() {
    assert_eq!(kind_of("just text"), ErrorKind::UnsupportedScheme);
    assert_eq!(kind_of("vmess:/abc"), ErrorKind::UnsupportedScheme);
    assert_eq!(kind_of(""), ErrorKind::UnsupportedScheme);
}

#[test]
fn trojan_new_is_empty() {
    let t = TrojanServer::new();
    assert_eq!(t.port, 0);
    assert!(t.name.is_empty() && t.address.is_empty() && t.password.is_empty());
    assert!(!t.allow_insecure);
}
