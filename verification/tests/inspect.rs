use npm_docker_sync::docker::events::{classify_event, next_reconnect_secs, ContainerEvent, INITIAL_RECONNECT_SECS};
use npm_docker_sync::docker::inspect::{
    exposed_port_numbers, network_aliases, spec_from_inspection, specs_from_inspections,
    InspectedConfig, InspectedContainer, InspectedItem, NetworkEndpoint,
};
use npm_docker_sync::docker::labels::{Defaults, LabelError};
use npm_docker_sync::keymap::KeyMap;

fn labels(pairs: &[(&str, &str)]) -> KeyMap<String> {
    let mut m = KeyMap::new();
    for (k, v) in pairs {
        m.insert(k.to_string(), v.to_string());
    }
    m
}

#[test]
fn exposed_ports_are_parsed_sorted_and_deduplicated() {
    let ports = vec!["8080/tcp".to_string(), "80/tcp".into(), "80/udp".into(), "x/tcp".into(), "443".into()];
    assert_eq!(exposed_port_numbers(&ports), vec![80, 443, 8080]);
    assert_eq!(exposed_port_numbers(&vec![]), Vec::<u16>::new());
}

#[test]
fn network_aliases_use_ip_and_last_alias() {
    let nets = vec![
        NetworkEndpoint { network: "proxy".into(), ip_address: Some("10.0.0.2".into()), aliases: Some(vec!["a".into(), "b".into()]) },
        NetworkEndpoint { network: "bridge".into(), ip_address: Some("".into()), aliases: None },
    ];
    let m = network_aliases(&nets);
    assert_eq!(m.get("proxy:ip"), Some(&"10.0.0.2".to_string()));
    assert_eq!(m.get("proxy:alias"), Some(&"b".to_string()));
    assert_eq!(m.get("bridge:ip"), None);
    assert_eq!(m.len(), 2);
}

#[test]
fn inspection_becomes_a_spec() {
    let insp = InspectedContainer {
        name: Some("/myapp".into()),
        config: Some(InspectedConfig {
            labels: labels(&[("nginx_proxy_url", "app.example.com")]),
            exposed_ports: vec!["3000/tcp".into(), "80/tcp".into()],
        }),
        networks: vec![],
    };
    let spec = spec_from_inspection("abc", &insp, &Defaults::default()).unwrap().unwrap();
    assert_eq!(spec.name, "myapp");
    assert_eq!(spec.port, 80);
    assert_eq!(spec.id, "abc");

    let unnamed = InspectedContainer { name: None, ..insp.clone() };
    let spec = spec_from_inspection("abc", &unnamed, &Defaults::default()).unwrap().unwrap();
    assert_eq!(spec.name, "abc");

    let no_config = InspectedContainer { config: None, ..insp.clone() };
    assert!(spec_from_inspection("abc", &no_config, &Defaults::default()).is_none());

    let unlabelled = InspectedContainer {
        config: Some(InspectedConfig { labels: KeyMap::new(), exposed_ports: vec![] }),
        ..insp
    };
    assert_eq!(
        spec_from_inspection("abc", &unlabelled, &Defaults::default()),
        Some(Err(LabelError::NotLabeled))
    );
}

#[test]
fn sweep_keeps_only_labelled_containers() {
    let labelled = InspectedContainer {
        name: Some("/web".into()),
        config: Some(InspectedConfig {
            labels: labels(&[("nginx_proxy_url", "web.example.com")]),
            exposed_ports: vec!["80/tcp".into()],
        }),
        networks: vec![],
    };
    let items = vec![
        InspectedItem { id: "1".into(), container: labelled.clone() },
        InspectedItem { id: "2".into(), container: InspectedContainer { config: None, ..labelled.clone() } },
        InspectedItem {
            id: "3".into(),
            container: InspectedContainer {
                config: Some(InspectedConfig { labels: labels(&[("nginx_proxy_url", "x")]), exposed_ports: vec![] }),
                ..labelled
            },
        },
    ];
    let specs = specs_from_inspections(&items, &Defaults::default());
    assert_eq!(specs.len(), 1);
    assert_eq!(specs[0].id, "1");
    assert_eq!(specs[0].url, "web.example.com");
}

#[test]
fn events_are_classified() {
    assert_eq!(classify_event(Some("abc".into()), Some("start")), ContainerEvent::Started { id: "abc".into() });
    assert_eq!(classify_event(Some("abc".into()), Some("die")), ContainerEvent::Stopped { id: "abc".into() });
    assert_eq!(classify_event(Some("abc".into()), Some("destroy")), ContainerEvent::Stopped { id: "abc".into() });
    assert_eq!(classify_event(Some("abc".into()), Some("pause")), ContainerEvent::Ignored);
    assert_eq!(classify_event(Some("".into()), Some("start")), ContainerEvent::Ignored);
    assert_eq!(classify_event(None, Some("start")), ContainerEvent::Ignored);
    assert_eq!(classify_event(Some("abc".into()), None), ContainerEvent::Ignored);
}

#[test]
fn reconnect_waits_grow_to_a_minute() {
    let mut w = INITIAL_RECONNECT_SECS;
    let mut seen = vec![w];
    for _ in 0..4 {
        w = next_reconnect_secs(w);
        seen.push(w);
    }
    assert_eq!(seen, vec![1, 4, 16, 60, 60]);
}
