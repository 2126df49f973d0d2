use npm_docker_sync::docker::spec::ContainerSpec;
use npm_docker_sync::intent::Intent;
use npm_docker_sync::keymap::KeyMap;
use npm_docker_sync::npm::meta::{encode, Meta, OwnershipMarker};
use npm_docker_sync::npm::types::ProxyHost;
use npm_docker_sync::reconciler::plan::plan;
use time::OffsetDateTime;

fn marker(container_id: &str) -> OwnershipMarker {
    OwnershipMarker {
        version: 1,
        container_id: container_id.into(),
        container_name: "x".into(),
        managed_at: OffsetDateTime::from_unix_timestamp(1776729600).unwrap(),
    }
}

fn host(id: u64, domain: &str, meta: Meta) -> ProxyHost {
    ProxyHost {
        id,
        domain_names: vec![domain.into()],
        forward_scheme: "http".into(),
        forward_host: "x".into(),
        forward_port: 80,
        certificate_id: None,
        ssl_forced: false,
        caching_enabled: false,
        allow_websocket_upgrade: true,
        block_exploits: true,
        meta,
    }
}

fn host_with_marker(id: u64, domain: &str, container_id: &str) -> ProxyHost {
    host(id, domain, encode(&marker(container_id), None))
}

fn host_user_managed(id: u64, domain: &str) -> ProxyHost {
    host(id, domain, Meta::Object(KeyMap::new()))
}

#[test]
fn every_container_gets_upsert() {
    let cs = vec![ContainerSpec::stub("a", "a.example.com")];
    let out = plan(&cs, &[]);
    assert!(out
        .iter()
        .any(|i| matches!(i, Intent::Upsert { container_id, .. } if container_id == "a")));
}

#[test]
fn owned_host_without_container_gets_remove() {
    let hosts = vec![host_with_marker(1, "x.example.com", "gone")];
    let out = plan(&[], &hosts);
    assert!(out
        .iter()
        .any(|i| matches!(i, Intent::Remove { container_id } if container_id == "gone")));
}

#[test]
fn user_managed_hosts_ignored() {
    let hosts = vec![host_user_managed(1, "u.example.com")];
    let out = plan(&[], &hosts);
    assert!(out.is_empty());
}

#[test]
fn existing_owned_host_with_live_container_no_remove() {
    let cs = vec![ContainerSpec::stub("a", "a.example.com")];
    let hosts = vec![host_with_marker(1, "a.example.com", "a")];
    let out = plan(&cs, &hosts);
    assert!(!out
        .iter()
        .any(|i| matches!(i, Intent::Remove { container_id } if container_id == "a")));
}

#[test]
fn plan_orders_upserts_then_removals() {
    let cs = vec![ContainerSpec::stub("a", "a.example.com"), ContainerSpec::stub("b", "b.example.com")];
    let hosts = vec![
        host_with_marker(1, "a.example.com", "a"),
        host_with_marker(2, "old.example.com", "old"),
        host_user_managed(3, "u.example.com"),
        host(4, "n.example.com", Meta::Other("null".into())),
        host_with_marker(5, "z.example.com", "zz"),
    ];
    let out = plan(&cs, &hosts);
    assert_eq!(
        out,
        vec![
            Intent::Upsert { container_id: "a".into(), spec: ContainerSpec::stub("a", "a.example.com") },
            Intent::Upsert { container_id: "b".into(), spec: ContainerSpec::stub("b", "b.example.com") },
            Intent::Remove { container_id: "old".into() },
            Intent::Remove { container_id: "zz".into() },
        ]
    );
}
