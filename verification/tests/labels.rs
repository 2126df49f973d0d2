use npm_docker_sync::docker::labels::{parse, select_port, ContainerFacts, Defaults, LabelError};
use npm_docker_sync::docker::spec::{ContainerSpec, Scheme};
use npm_docker_sync::keymap::KeyMap;

fn labels(pairs: &[(&str, &str)]) -> KeyMap<String> {
    let mut m = KeyMap::new();
    for (k, v) in pairs {
        m.insert(k.to_string(), v.to_string());
    }
    m
}

#[test]
fn select_port_prefers_label() {
    assert_eq!(select_port(&[80, 3000], Some("3000")).unwrap(), 3000);
}

#[test]
fn select_port_uses_sole_exposed_port() {
    assert_eq!(select_port(&[8080], None).unwrap(), 8080);
}

#[test]
fn select_port_picks_lowest_with_multiple() {
    assert_eq!(select_port(&[3000, 80, 8080], None).unwrap(), 80);
}

#[test]
fn select_port_rejects_non_numeric_label() {
    assert_eq!(select_port(&[80], Some("abc")), Err(LabelError::BadPort("abc".into())));
}

#[test]
fn select_port_errors_when_nothing_exposed() {
    assert_eq!(select_port(&[], None), Err(LabelError::NoPort));
}

#[test]
fn select_port_label_edge_cases() {
    assert_eq!(select_port(&[], Some("+8080")).unwrap(), 8080);
    assert_eq!(select_port(&[], Some("065535")).unwrap(), 65535);
    assert_eq!(select_port(&[], Some("65536")), Err(LabelError::BadPort("65536".into())));
    assert_eq!(select_port(&[], Some("")), Err(LabelError::BadPort("".into())));
    assert_eq!(select_port(&[], Some("+")), Err(LabelError::BadPort("+".into())));
    assert_eq!(select_port(&[], Some("-1")), Err(LabelError::BadPort("-1".into())));
    assert_eq!(select_port(&[], Some(" 80")), Err(LabelError::BadPort(" 80".into())));
}

#[test]
fn parse_minimal_labels() {
    let labels = labels(&[("nginx_proxy_url", "app.example.com")]);
    let facts = ContainerFacts {
        id: "abc",
        name: "myapp",
        labels: &labels,
        exposed_ports: &[3000],
        network_aliases: KeyMap::new(),
    };
    let spec = parse(
        facts,
        &Defaults {
            scheme: Scheme::Http,
            ssl: true,
            websockets: true,
            block_exploits: true,
        },
    )
    .unwrap();
    assert_eq!(spec.url, "app.example.com");
    assert_eq!(spec.port, 3000);
    assert_eq!(spec.scheme, Scheme::Http);
    assert!(spec.ssl);
}

#[test]
fn parse_honors_all_label_overrides() {
    let labels = labels(&[
        ("nginx_proxy_url", "app.example.com"),
        ("nginx_proxy_port", "8080"),
        ("nginx_proxy_scheme", "https"),
        ("nginx_proxy_ssl", "false"),
        ("nginx_proxy_websockets", "false"),
        ("nginx_proxy_block_exploits", "false"),
    ]);
    let facts = ContainerFacts {
        id: "abc",
        name: "myapp",
        labels: &labels,
        exposed_ports: &[80],
        network_aliases: KeyMap::new(),
    };
    let spec = parse(facts, &Defaults::default()).unwrap();
    assert_eq!(spec.port, 8080);
    assert_eq!(spec.scheme, Scheme::Https);
    assert!(!spec.ssl);
    assert!(!spec.websockets);
    assert!(!spec.block_exploits);
}

#[test]
fn parse_errors_without_url_label() {
    let labels = labels(&[("other", "x")]);
    let facts = ContainerFacts {
        id: "abc",
        name: "myapp",
        labels: &labels,
        exposed_ports: &[80],
        network_aliases: KeyMap::new(),
    };
    assert_eq!(parse(facts, &Defaults::default()).unwrap_err(), LabelError::NotLabeled);
}

#[test]
fn parse_rejects_bad_bool() {
    let labels = labels(&[("nginx_proxy_url", "app.example.com"), ("nginx_proxy_ssl", "yes")]);
    let facts = ContainerFacts {
        id: "abc",
        name: "myapp",
        labels: &labels,
        exposed_ports: &[80],
        network_aliases: KeyMap::new(),
    };
    assert!(matches!(
        parse(facts, &Defaults::default()).unwrap_err(),
        LabelError::BadBool { .. }
    ));
}

#[test]
fn parse_bool_and_scheme_ignore_ascii_case() {
    let labels = labels(&[
        ("nginx_proxy_url", "app.example.com"),
        ("nginx_proxy_scheme", "HTTPS"),
        ("nginx_proxy_ssl", "TRUE"),
        ("nginx_proxy_websockets", "0"),
        ("nginx_proxy_block_exploits", "1"),
    ]);
    let facts = ContainerFacts {
        id: "abc",
        name: "myapp",
        labels: &labels,
        exposed_ports: &[80],
        network_aliases: KeyMap::new(),
    };
    let spec = parse(facts, &Defaults::default()).unwrap();
    assert_eq!(spec.scheme, Scheme::Https);
    assert!(spec.ssl);
    assert!(!spec.websockets);
    assert!(spec.block_exploits);
}

#[test]
fn parse_reports_each_error_kind() {
    let bad_scheme = labels(&[("nginx_proxy_url", "a"), ("nginx_proxy_scheme", "ftp")]);
    let facts = ContainerFacts {
        id: "abc",
        name: "myapp",
        labels: &bad_scheme,
        exposed_ports: &[80],
        network_aliases: KeyMap::new(),
    };
    assert_eq!(parse(facts, &Defaults::default()).unwrap_err(), LabelError::BadScheme("ftp".into()));

    let no_port = labels(&[("nginx_proxy_url", "a")]);
    let facts = ContainerFacts {
        id: "abc",
        name: "myapp",
        labels: &no_port,
        exposed_ports: &[],
        network_aliases: KeyMap::new(),
    };
    assert_eq!(parse(facts, &Defaults::default()).unwrap_err(), LabelError::NoPort);

    let bad_bool = labels(&[("nginx_proxy_url", "a"), ("nginx_proxy_websockets", "on")]);
    let facts = ContainerFacts {
        id: "abc",
        name: "myapp",
        labels: &bad_bool,
        exposed_ports: &[80],
        network_aliases: KeyMap::new(),
    };
    assert_eq!(
        parse(facts, &Defaults::default()).unwrap_err(),
        LabelError::BadBool { key: "nginx_proxy_websockets", value: "on".into() }
    );
}

#[test]
fn scheme_from_str_and_default() {
    assert_eq!("Https".parse::<Scheme>(), Ok(Scheme::Https));
    assert_eq!("http".parse::<Scheme>(), Ok(Scheme::Http));
    assert_eq!("ftp".parse::<Scheme>(), Err(()));
    assert_eq!(Scheme::default(), Scheme::Http);
}

#[test]
fn stub_spec_fields() {
    let s = ContainerSpec::stub("abc", "app.example.com");
    assert_eq!(s.id, "abc");
    assert_eq!(s.name, "stub");
    assert_eq!(s.port, 80);
    assert!(s.ssl && s.websockets && s.block_exploits);
}
