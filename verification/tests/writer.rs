use npm_docker_sync::cloudflare::TokenError;
use npm_docker_sync::config::ForwardStrategy;
use npm_docker_sync::docker::spec::{ContainerSpec, Scheme};
use npm_docker_sync::intent::Intent;
use npm_docker_sync::keymap::KeyMap;
use npm_docker_sync::npm::meta::{decode, encode, Meta, OwnershipMarker};
use npm_docker_sync::npm::proxy_hosts::ProxyHostError;
use npm_docker_sync::npm::types::{PatchValue, ProxyHost};
use npm_docker_sync::npm::NpmError;
use npm_docker_sync::writer::{
    forward_host_for, plan_removal, plan_upsert, RemovalPlan, UpsertPlan, Writer, WriterAction, WriterConfig,
    WriterEvent, WriterOutcome,
};
use time::OffsetDateTime;

fn sample_spec() -> ContainerSpec {
    ContainerSpec {
        id: "abc".into(),
        name: "myapp".into(),
        url: "app.example.com".into(),
        port: 3000,
        scheme: Scheme::Http,
        ssl: true,
        websockets: true,
        block_exploits: true,
        network_aliases: KeyMap::new(),
    }
}

fn writer_config() -> WriterConfig {
    WriterConfig {
        forward_strategy: ForwardStrategy::ContainerName,
        host_address: None,
        network: None,
        letsencrypt_email: "ops@example.com".into(),
        cleanup_on_remove: true,
        cf_global: Some("tk".into()),
        cf_per_domain: KeyMap::new(),
    }
}

fn marker(container_id: &str) -> OwnershipMarker {
    OwnershipMarker {
        version: 1,
        container_id: container_id.into(),
        container_name: "myapp".into(),
        managed_at: OffsetDateTime::from_unix_timestamp(1776729600).unwrap(),
    }
}

fn host(id: u64, port: u16, meta: Meta) -> ProxyHost {
    ProxyHost {
        id,
        domain_names: vec!["app.example.com".into()],
        forward_scheme: "http".into(),
        forward_host: "myapp".into(),
        forward_port: port,
        certificate_id: None,
        ssl_forced: false,
        caching_enabled: false,
        allow_websocket_upgrade: true,
        block_exploits: true,
        meta,
    }
}

#[test]
fn upsert_creates_host_and_requests_certificate() {
    let mut w = Writer::new(writer_config());
    w.seed_cache(&[]);
    let a = w.handle(Intent::Upsert { container_id: "abc".into(), spec: sample_spec() });
    assert!(matches!(a, WriterAction::ListHosts));
    let body = match w.step(WriterEvent::HostsListed(vec![])) {
        WriterAction::CreateHost(body) => body,
        other => panic!("expected create, got {:?}", other),
    };
    assert_eq!(body.domain_names, vec!["app.example.com".to_string()]);
    assert_eq!(body.forward_host, "myapp");
    assert_eq!(body.forward_port, 3000);
    assert_eq!(decode(&body.meta).unwrap().container_id, "abc");
    let created = host(1, 3000, body.meta.clone());
    let req = match w.step(WriterEvent::HostCreated(created)) {
        WriterAction::RequestCertificate(req) => req,
        other => panic!("expected certificate request, got {:?}", other),
    };
    assert_eq!(req.domain, "app.example.com");
    assert_eq!(req.letsencrypt_email, "ops@example.com");
    assert_eq!(req.dns_provider_credentials, "dns_cloudflare_api_token = tk\n");
    match w.step(WriterEvent::CertificateIssued(9)) {
        WriterAction::UpdateHost { host_id, patch } => {
            assert_eq!(host_id, 1);
            assert_eq!(patch.get("certificate_id"), Some(&PatchValue::Number(9)));
            assert_eq!(patch.get("ssl_forced"), Some(&PatchValue::Flag(true)));
        }
        other => panic!("expected update, got {:?}", other),
    }
    assert!(matches!(w.step(WriterEvent::HostUpdated), WriterAction::Finished(WriterOutcome::Done)));
    assert_eq!(w.cache.get("abc"), Some(&1));
}

#[test]
fn remove_respects_ownership_marker() {
    let mut w = Writer::new(writer_config());
    let hosts = vec![host(1, 3000, encode(&marker("abc"), None))];
    w.seed_cache(&hosts);
    assert_eq!(w.cache.get("abc"), Some(&1));
    assert!(matches!(w.handle(Intent::Remove { container_id: "abc".into() }), WriterAction::ListHosts));
    assert!(matches!(w.step(WriterEvent::HostsListed(hosts)), WriterAction::DeleteHost { host_id: 1 }));
    assert!(matches!(w.step(WriterEvent::HostDeleted), WriterAction::Finished(WriterOutcome::Done)));
    assert_eq!(w.cache.get("abc"), None);
}

#[test]
fn remove_refuses_unmarked_or_foreign_hosts() {
    let mut w = Writer::new(writer_config());
    w.cache.insert("abc".into(), 1);
    w.handle(Intent::Remove { container_id: "abc".into() });
    let a = w.step(WriterEvent::HostsListed(vec![host(1, 3000, Meta::Object(KeyMap::new()))]));
    assert!(matches!(a, WriterAction::Finished(WriterOutcome::NotOwned { host_id: 1 })));
    w.handle(Intent::Remove { container_id: "abc".into() });
    let a = w.step(WriterEvent::HostsListed(vec![host(1, 3000, encode(&marker("other"), None))]));
    assert!(matches!(a, WriterAction::Finished(WriterOutcome::OwnerMismatch { host_id: 1 })));
    w.handle(Intent::Remove { container_id: "abc".into() });
    let a = w.step(WriterEvent::HostsListed(vec![]));
    assert!(matches!(a, WriterAction::Finished(WriterOutcome::HostGone)));
    assert_eq!(w.cache.get("abc"), None);
    assert!(matches!(
        w.handle(Intent::Remove { container_id: "abc".into() }),
        WriterAction::Finished(WriterOutcome::NotTracked)
    ));
}

#[test]
fn cleanup_disabled_never_deletes() {
    let mut cfg = writer_config();
    cfg.cleanup_on_remove = false;
    let mut w = Writer::new(cfg);
    w.cache.insert("abc".into(), 1);
    assert!(matches!(
        w.handle(Intent::Remove { container_id: "abc".into() }),
        WriterAction::Finished(WriterOutcome::CleanupDisabled)
    ));
}

#[test]
fn upsert_conflict_update_and_unchanged() {
    let mut w = Writer::new(writer_config());
    w.handle(Intent::Upsert { container_id: "abc".into(), spec: sample_spec() });
    let a = w.step(WriterEvent::HostsListed(vec![host(5, 3000, encode(&marker("someone"), None))]));
    assert!(matches!(a, WriterAction::Finished(WriterOutcome::Conflict { host_id: 5 })));

    w.handle(Intent::Upsert { container_id: "abc".into(), spec: sample_spec() });
    match w.step(WriterEvent::HostsListed(vec![host(5, 80, encode(&marker("abc"), None))])) {
        WriterAction::UpdateHost { host_id, patch } => {
            assert_eq!(host_id, 5);
            assert_eq!(patch.get("forward_port"), Some(&PatchValue::Number(3000)));
        }
        other => panic!("expected update, got {:?}", other),
    }
    assert!(matches!(w.step(WriterEvent::HostUpdated), WriterAction::Finished(WriterOutcome::Done)));
    assert_eq!(w.cache.get("abc"), Some(&5));

    let mut w = Writer::new(writer_config());
    w.handle(Intent::Upsert { container_id: "abc".into(), spec: sample_spec() });
    let a = w.step(WriterEvent::HostsListed(vec![host(6, 3000, encode(&marker("abc"), None))]));
    assert!(matches!(a, WriterAction::Finished(WriterOutcome::Done)));
    assert_eq!(w.cache.get("abc"), Some(&6));
}

#[test]
fn no_certificate_without_token_and_failures_end_the_intent() {
    let mut cfg = writer_config();
    cfg.cf_global = None;
    let mut w = Writer::new(cfg);
    w.handle(Intent::Upsert { container_id: "abc".into(), spec: sample_spec() });
    let body = match w.step(WriterEvent::HostsListed(vec![])) {
        WriterAction::CreateHost(body) => body,
        other => panic!("expected create, got {:?}", other),
    };
    let a = w.step(WriterEvent::HostCreated(host(2, 3000, body.meta)));
    assert!(matches!(
        a,
        WriterAction::Finished(WriterOutcome::NoCertificateToken(TokenError::NotFound(d))) if d == "app.example.com"
    ));
    assert_eq!(w.cache.get("abc"), Some(&2));

    w.handle(Intent::Upsert { container_id: "abc".into(), spec: sample_spec() });
    let a = w.step(WriterEvent::CallFailed(NpmError::ProxyHost(ProxyHostError::Status(500))));
    assert!(matches!(a, WriterAction::Finished(WriterOutcome::Failed(_))));
    assert!(matches!(w.step(WriterEvent::HostDeleted), WriterAction::Finished(WriterOutcome::Unexpected)));
}

#[test]
fn forward_host_strategies() {
    let mut spec = sample_spec();
    spec.network_aliases.insert("proxy:ip".into(), "10.0.0.7".into());
    let mut cfg = writer_config();
    assert_eq!(forward_host_for(&cfg, &spec), "myapp");
    cfg.forward_strategy = ForwardStrategy::ContainerIp;
    cfg.network = Some("proxy".into());
    assert_eq!(forward_host_for(&cfg, &spec), "10.0.0.7");
    cfg.network = Some("other".into());
    assert_eq!(forward_host_for(&cfg, &spec), "myapp");
    cfg.forward_strategy = ForwardStrategy::HostPort;
    assert_eq!(forward_host_for(&cfg, &spec), "host.docker.internal");
    cfg.host_address = Some("192.168.1.2".into());
    assert_eq!(forward_host_for(&cfg, &spec), "192.168.1.2");
}

#[test]
fn plans_pick_the_first_matching_host() {
    let spec = sample_spec();
    let hosts = vec![host(3, 3000, encode(&marker("abc"), None)), host(4, 3000, encode(&marker("x"), None))];
    assert_eq!(plan_upsert(&hosts, "abc", &spec, "myapp"), UpsertPlan::Unchanged { host_id: 3 });
    assert_eq!(plan_upsert(&hosts, "x", &spec, "myapp"), UpsertPlan::Conflict { host_id: 3 });
    assert_eq!(plan_removal(&hosts, "x", 4), RemovalPlan::Delete);
    assert_eq!(plan_removal(&hosts, "abc", 4), RemovalPlan::OtherOwner);
    assert_eq!(plan_removal(&hosts, "abc", 9), RemovalPlan::HostGone);
}
