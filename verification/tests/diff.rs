use npm_docker_sync::docker::spec::{ContainerSpec, Scheme};
use npm_docker_sync::keymap::KeyMap;
use npm_docker_sync::npm::meta::Meta;
use npm_docker_sync::npm::types::{PatchValue, ProxyHost};
use npm_docker_sync::writer::diff::{diff_spec, DesiredProxyHost};

fn spec() -> ContainerSpec {
    ContainerSpec {
        id: "abc".into(),
        name: "myapp".into(),
        url: "app.example.com".into(),
        port: 3000,
        scheme: Scheme::Http,
        ssl: true,
        websockets: true,
        block_exploits: true,
        network_aliases: KeyMap::new(),
    }
}

fn existing(port: u16) -> ProxyHost {
    ProxyHost {
        id: 1,
        domain_names: vec!["app.example.com".into()],
        forward_scheme: "http".into(),
        forward_host: "myapp".into(),
        forward_port: port,
        certificate_id: None,
        ssl_forced: false,
        caching_enabled: false,
        allow_websocket_upgrade: true,
        block_exploits: true,
        meta: Meta::Object(KeyMap::new()),
    }
}

#[test]
fn no_diff_when_equal() {
    let s = spec();
    let e = existing(3000);
    assert!(diff_spec(&e, &DesiredProxyHost { spec: &s, forward_host: "myapp" }).is_none());
}

#[test]
fn diff_on_port_change() {
    let s = spec();
    let e = existing(9999);
    let patch = diff_spec(&e, &DesiredProxyHost { spec: &s, forward_host: "myapp" }).unwrap();
    assert_eq!(patch.get("forward_port"), Some(&PatchValue::Number(3000)));
}

#[test]
fn diff_on_scheme_change() {
    let mut s = spec();
    s.scheme = Scheme::Https;
    let e = existing(3000);
    let patch = diff_spec(&e, &DesiredProxyHost { spec: &s, forward_host: "myapp" }).unwrap();
    assert_eq!(patch.get("forward_scheme"), Some(&PatchValue::Text("https".into())));
}

#[test]
fn diff_on_forward_host_change() {
    let s = spec();
    let e = existing(3000);
    let patch = diff_spec(&e, &DesiredProxyHost { spec: &s, forward_host: "newname" }).unwrap();
    assert_eq!(patch.get("forward_host"), Some(&PatchValue::Text("newname".into())));
}

#[test]
fn diff_on_flag_change() {
    let mut s = spec();
    s.websockets = false;
    let e = existing(3000);
    let patch = diff_spec(&e, &DesiredProxyHost { spec: &s, forward_host: "myapp" }).unwrap();
    assert_eq!(patch.get("allow_websocket_upgrade"), Some(&PatchValue::Flag(false)));
}

#[test]
fn diff_patch_holds_only_changed_fields() {
    let mut s = spec();
    s.block_exploits = false;
    s.url = "new.example.com".into();
    let e = existing(3000);
    let patch = diff_spec(&e, &DesiredProxyHost { spec: &s, forward_host: "myapp" }).unwrap();
    assert_eq!(patch.len(), 2);
    assert_eq!(patch.get("block_exploits"), Some(&PatchValue::Flag(false)));
    assert_eq!(
        patch.get("domain_names"),
        Some(&PatchValue::Texts(vec!["new.example.com".to_string()]))
    );
    assert_eq!(patch.get("forward_port"), None);
}

#[test]
fn extra_domain_names_are_a_difference() {
    let s = spec();
    let mut e = existing(3000);
    e.domain_names.push("alias.example.com".into());
    let patch = diff_spec(&e, &DesiredProxyHost { spec: &s, forward_host: "myapp" }).unwrap();
    assert_eq!(patch.len(), 1);
    assert!(patch.get("domain_names").is_some());
}
