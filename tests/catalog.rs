use v2up::catalog::{Server, Servers};
use v2up::server::{ServerType, VmessServer};

fn server(name: &str) -> ServerType {
    ServerType::Vmess(VmessServer {
        name: name.to_string(),
        network: "tcp".to_string(),
        user_id: "id".to_string(),
        alter_id: 0,
        address: format!("{}.example", name),
        port: 443,
    })
}

fn entry(group: &str, name: &str) -> Server {
    Server { group: group.to_string(), server: server(name) }
}

fn listing(s: &Servers) -> Vec<(String, ServerType)> {
    s.iter().map(|e| (e.group.clone(), e.server.clone())).collect()
}

fn catalog() -> Servers {
    Servers::new(
        "/tmp/servers.yaml".to_string(),
        vec![entry("feedA", "a1"), entry("feedB", "b1"), entry("feedA", "a2"), entry("feedC", "c1")],
    )
}

#[test]
fn reconcile_replaces_group_entries() {
    let mut s = catalog();
    let fresh = vec![server("n1"), server("n2"), server("n3")];
    assert!(s.update_by_group_name("feedA", &fresh).unwrap());
    let expected = vec![
        ("feedB".to_string(), server("b1")),
        ("feedC".to_string(), server("c1")),
        ("feedA".to_string(), server("n1")),
        ("feedA".to_string(), server("n2")),
        ("feedA".to_string(), server("n3")),
    ];
    assert_eq!(listing(&s), expected);
    assert_eq!(s.filepath, "/tmp/servers.yaml");
}

#[test]
fn reconcile_empty_fetch_changes_nothing() {
    let mut s = catalog();
    let before = listing(&s);
    assert!(!s.update_by_group_name("feedA", &vec![]).unwrap());
    assert_eq!(listing(&s), before);
}

#[test]
fn reconcile_twice_is_reconcile_once() {
    let fresh = vec![server("n1"), server("n2")];
    let mut once = catalog();
    once.update_by_group_name("feedB", &fresh).unwrap();
    let mut twice = catalog();
    twice.update_by_group_name("feedB", &fresh).unwrap();
    assert!(twice.update_by_group_name("feedB", &fresh).unwrap());
    assert_eq!(listing(&once), listing(&twice));
}

#[test]
fn reconcile_new_group_appends() {
    let mut s = catalog();
    s.update_by_group_name("feedD", &vec![server("d1")]).unwrap();
    assert_eq!(s.len(), 5);
    assert_eq!(s.get(4).unwrap().group, "feedD");
    assert!(s.get(5).is_none());
    assert_eq!(s.get(0).unwrap().server, server("a1"));
}
