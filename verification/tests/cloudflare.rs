use npm_docker_sync::cloudflare::{TokenError, TokenResolver};
use npm_docker_sync::keymap::KeyMap;

fn tokens(pairs: &[(&str, &str)]) -> KeyMap<String> {
    let mut m = KeyMap::new();
    for (k, v) in pairs {
        m.insert(k.to_string(), v.to_string());
    }
    m
}

#[test]
fn falls_back_to_global() {
    let r = TokenResolver::new(Some("global".into()), KeyMap::new());
    assert_eq!(r.for_domain("any.example.com").unwrap(), "global");
}

#[test]
fn prefers_exact_domain_match() {
    let map = tokens(&[("example.com", "scoped")]);
    let r = TokenResolver::new(Some("global".into()), map);
    assert_eq!(r.for_domain("example.com").unwrap(), "scoped");
}

#[test]
fn matches_parent_domain_suffix() {
    let map = tokens(&[("example.com", "scoped")]);
    let r = TokenResolver::new(None, map);
    assert_eq!(r.for_domain("app.example.com").unwrap(), "scoped");
}

#[test]
fn errors_without_any_match() {
    let r = TokenResolver::new(None, KeyMap::new());
    assert!(matches!(r.for_domain("x.com"), Err(TokenError::NotFound(_))));
}

#[test]
fn most_specific_parent_domain_wins() {
    let map = tokens(&[("example.com", "outer"), ("app.example.com", "inner"), ("other.com", "x")]);
    let r = TokenResolver::new(Some("global".into()), map);
    assert_eq!(r.for_domain("api.app.example.com").unwrap(), "inner");
    assert_eq!(r.for_domain("www.example.com").unwrap(), "outer");
}

#[test]
fn suffix_must_start_at_a_dot() {
    let map = tokens(&[("example.com", "scoped")]);
    let r = TokenResolver::new(Some("global".into()), map);
    assert_eq!(r.for_domain("badexample.com").unwrap(), "global");
    let r2 = TokenResolver::new(None, tokens(&[("example.com", "scoped")]));
    assert_eq!(
        r2.for_domain("notexample.com"),
        Err(TokenError::NotFound("notexample.com".to_string()))
    );
}

#[test]
fn not_found_names_the_domain() {
    let r = TokenResolver::new(None, KeyMap::new());
    assert_eq!(r.for_domain("x.com"), Err(TokenError::NotFound("x.com".to_string())));
}
