use v2up::errors::ErrorKind;
use v2up::settings::{Log, Settings, Subscription, V2Ray, DEFAULT_V2RAY_BIN};
use v2up::workdir::Dir;

fn settings(bin: &str) -> Settings {
    Settings {
        filepath: "/tmp/settings.yaml".to_string(),
        v2ray: V2Ray { bin: bin.to_string() },
        log: Log { location: "/tmp/v2up.log".to_string() },
        subscriptions: vec![],
    }
}

fn sub(name: &str) -> Subscription {
    Subscription { name: name.to_string(), url: format!("https://{}.example/feed", name), added_at: 100, last_updated_at: 0 }
}

#[test]
fn subscription_names_are_unique() {
    let mut s = settings("");
    s.add_subscription(sub("a")).unwrap();
    s.add_subscription(sub("b")).unwrap();
    assert_eq!(s.add_subscription(sub("a")).unwrap_err().kind, ErrorKind::DuplicateSubscription);
    assert_eq!(s.subscriptions.len(), 2);
}

#[test]
fn update_time_moves_only_on_change() {
    let mut s = settings("");
    s.add_subscription(sub("a")).unwrap();
    s.add_subscription(sub("b")).unwrap();
    s.record_update("b", false, 500).unwrap();
    assert_eq!(s.subscriptions[1].last_updated_at, 0);
    s.record_update("b", true, 600).unwrap();
    assert_eq!(s.subscriptions[1].last_updated_at, 600);
    assert_eq!(s.subscriptions[0].last_updated_at, 0);
    assert_eq!(s.record_update("z", true, 1).unwrap_err().kind, ErrorKind::SubscriptionNotFound);
}

#[test]
fn remove_subscription_by_name() {
    let mut s = settings("");
    s.add_subscription(sub("a")).unwrap();
    s.add_subscription(sub("b")).unwrap();
    s.remove_subscription("a").unwrap();
    assert_eq!(s.subscriptions.len(), 1);
    assert_eq!(s.subscriptions[0].name, "b");
    assert_eq!(s.remove_subscription("a").unwrap_err().kind, ErrorKind::SubscriptionNotFound);
}

#[test]
fn binary_defaults_when_unset() {
    assert_eq!(settings("").v2ray_binary(), DEFAULT_V2RAY_BIN);
    assert_eq!(settings("/opt/v2ray").v2ray_binary(), "/opt/v2ray");
}

#[test]
fn home_paths_resolve_below_home() {
    let d = Dir::new("~/.v2up", Some("/home/u")).unwrap();
    assert_eq!(d.path(), "/home/u/.v2up");
    let d = Dir::new("~/.v2up", Some("/home/u/")).unwrap();
    assert_eq!(d.path(), "/home/u/.v2up");
    assert_eq!(Dir::new("~/.v2up", None).unwrap_err().kind, ErrorKind::InvalidPath);
    assert_eq!(Dir::new("/srv/v2up", None).unwrap().path(), "/srv/v2up");
}

#[test]
fn files_live_in_the_dir() {
    let d = Dir::new("/srv/v2up", None).unwrap();
    assert_eq!(d.filepath("v2ray.pid"), "/srv/v2up/v2ray.pid");
    let d = Dir::new("/srv/v2up/", None).unwrap();
    assert_eq!(d.filepath("servers.yaml"), "/srv/v2up/servers.yaml");
}

#[test]
fn dir_availability() {
    let d = Dir::new("/srv/v2up", None).unwrap();
    assert!(d.available(true, true).is_ok());
    assert_eq!(d.available(false, false).unwrap_err().kind, ErrorKind::WorkdirUninitialized);
    assert_eq!(d.available(true, false).unwrap_err().kind, ErrorKind::WorkdirUninitialized);
}
