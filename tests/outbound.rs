use v2up::config::{
    Config, OutboundBody, OutboundEntry,
};
use v2up::errors::ErrorKind;
use v2up::server::{ServerType, TrojanServer, VmessServer};

fn trojan(network: &str) -> ServerType {
    ServerType::Trojan(TrojanServer {
        name: "t".to_string(),
        address: "t.example".to_string(),
        port: 443,
        password: "secret".to_string(),
        sni: "sni.example".to_string(),
        allow_insecure: true,
        network: network.to_string(),
        path: "/ws".to_string(),
    })
}

fn vmess() -> ServerType {
    ServerType::Vmess(VmessServer {
        name: "v".to_string(),
        network: "tcp".to_string(),
        user_id: "uid".to_string(),
        alter_id: 2,
        address: "v.example".to_string(),
        port: 10086,
    })
}

#[test]
fn vmess_outbound() {
    let o = vmess().to_outbound();
    assert_eq!(o.protocol, "vmess");
    assert_eq!(o.tag, "proxy");
    assert!(o.mux.is_none());
    assert!(o.settings.servers.is_none());
    let vnext = o.settings.vnext.unwrap();
    assert_eq!(vnext.len(), 1);
    assert_eq!(vnext[0].address, "v.example");
    assert_eq!(vnext[0].port, 10086);
    assert_eq!(vnext[0].users.len(), 1);
    assert_eq!(vnext[0].users[0].id, "uid");
    assert_eq!(vnext[0].users[0].alter_id, 2);
    assert_eq!(vnext[0].users[0].security, "aes-128-gcm");
    let ss = o.stream_settings.unwrap();
    assert_eq!(ss.network, "tcp");
    assert_eq!(ss.security, "none");
    assert!(ss.tls_settings.is_none() && ss.ws_settings.is_none());
}

#[test]
fn trojan_websocket_outbound() {
    let o = trojan("ws").to_outbound();
    assert_eq!(o.protocol, "trojan");
    let servers = o.settings.servers.unwrap();
    assert_eq!(servers.len(), 1);
    assert_eq!(servers[0].address, "t.example");
    assert_eq!(servers[0].port, 443);
    assert_eq!(servers[0].password, "secret");
    let ss = o.stream_settings.unwrap();
    assert_eq!(ss.network, "ws");
    assert_eq!(ss.security, "tls");
    let tls = ss.tls_settings.unwrap();
    assert_eq!(tls.server_name, "sni.example");
    assert!(tls.allow_insecure && tls.allow_insecure_ciphers);
    let ws = ss.ws_settings.unwrap();
    assert_eq!(ws.path, "/ws");
    assert_eq!(ws.headers.host, "sni.example");
}

#[test]
fn trojan_plain_outbound() {
    let o = trojan("").to_outbound();
    let ss = o.stream_settings.unwrap();
    assert_eq!(ss.network, "tcp");
    assert!(ss.ws_settings.is_none());
    assert_eq!(ss.security, "tls");
}

fn text(t: &str) -> String {
    t.to_string()
}

fn config() -> Config {
    Config {
        filepath: "/tmp/v2ray.json".to_string(),
        log: Some(text(r#"{ "error": "", "loglevel": "info", "access": "" }"#)),
        inbounds: Some(text(r#"[{"listen":"127.0.0.1","protocol":"socks","port":"6153"}]"#)),
        outbounds: vec![
            OutboundEntry {
                tag: "proxy".to_string(),
                body: OutboundBody::Document(text(r#"{"tag":"proxy","protocol":"vmess"}"#)),
            },
            OutboundEntry {
                tag: "direct".to_string(),
                body: OutboundBody::Document(text(
                    r#"{"tag": "direct", "protocol": "freedom", "settings": {"domainStrategy": "UseIP"}}"#,
                )),
            },
        ],
        dns: Some(text("{}")),
        routing: Some(text(r#"{"settings":{"domainStrategy":"AsIs","rules":[]}}"#)),
        transport: None,
        others: vec![(text("policy"), text(r#"{"levels": {}}"#))],
    }
}

#[test]
fn use_server_touches_only_proxy() {
    let before = config();
    let mut c = config();
    c.use_server(&trojan("ws")).unwrap();
    assert_eq!(c.log, before.log);
    assert_eq!(c.inbounds, before.inbounds);
    assert_eq!(c.dns, before.dns);
    assert_eq!(c.routing, before.routing);
    assert_eq!(c.transport, before.transport);
    assert_eq!(c.others, before.others);
    assert_eq!(c.outbounds.len(), 2);
    match (&c.outbounds[1].body, &before.outbounds[1].body) {
        (OutboundBody::Document(a), OutboundBody::Document(b)) => assert_eq!(a, b),
        _ => panic!("direct outbound changed"),
    }
    assert_eq!(c.outbounds[1].tag, "direct");
    assert_eq!(c.outbounds[0].tag, "proxy");
    match &c.outbounds[0].body {
        OutboundBody::Synthesized(o) => {
            assert_eq!(o.protocol, "trojan");
            assert!(o.stream_settings.as_ref().unwrap().ws_settings.is_some());
        }
        OutboundBody::Document(_) => panic!("proxy outbound not replaced"),
    }
}

#[test]
fn use_server_without_proxy_fails() {
    let mut c = config();
    c.outbounds.remove(0);
    let err = c.use_server(&vmess()).unwrap_err();
    assert_eq!(err.kind, ErrorKind::ProxyOutboundNotFound);
    assert_eq!(c.outbounds.len(), 1);
    assert_eq!(c.outbounds[0].tag, "direct");
}

#[test]
fn outbound_address() {
    assert_eq!(vmess().to_outbound().settings.address(), "v.example");
    assert_eq!(trojan("").to_outbound().settings.address(), "t.example");
    let empty = v2up::config::OutboundSettings { vnext: Some(vec![]), servers: None };
    assert_eq!(empty.address(), "none");
}
