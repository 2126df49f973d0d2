use npm_docker_sync::config::secrets::{optional, require, SecretError};
use npm_docker_sync::config::{
    resolve_secrets, CleanupConfig, CloudflareConfig, Config, ConfigError, Defaults, DockerConfig, DomainToken,
    ForwardHostConfig, ForwardStrategy, LogFormat, LoggingConfig, MetricsConfig, NpmConfig, NpmCredential,
    ReconcilerConfig,
};
use npm_docker_sync::docker::spec::Scheme;
use npm_docker_sync::keymap::KeyMap;

fn env(pairs: &[(&str, &str)]) -> KeyMap<String> {
    let mut m = KeyMap::new();
    for (k, v) in pairs {
        m.insert(k.to_string(), v.to_string());
    }
    m
}

fn base_config() -> Config {
    let mut cloudflare = CloudflareConfig::default();
    cloudflare.api_token_env = Some("CF_API_TOKEN".into());
    Config {
        npm: NpmConfig {
            url: "http://npm".into(),
            email: Some("a@b".into()),
            password: None,
            password_env: Some("NPM_PASSWORD".into()),
            token: None,
            token_env: None,
            letsencrypt_email: Some("a@b".into()),
        },
        docker: DockerConfig::default(),
        forward_host: ForwardHostConfig::default(),
        reconciler: ReconcilerConfig::default(),
        cleanup: CleanupConfig::default(),
        cloudflare,
        defaults: Defaults::default(),
        logging: LoggingConfig::default(),
        metrics: MetricsConfig::default(),
    }
}

#[test]
fn email_password_requires_npm_password() {
    let mut cfg = base_config();
    cfg.npm.password_env = None;
    let r = resolve_secrets(cfg.clone(), &env(&[]));
    assert!(matches!(r, Err(ConfigError::Secret(SecretError::Missing(_)))));
}

#[test]
fn email_password_happy_path() {
    let cfg = base_config();
    let r = resolve_secrets(cfg.clone(), &env(&[("NPM_PASSWORD", "hunter2"), ("CF_API_TOKEN", "tk")])).unwrap();
    assert!(matches!(r.npm_credential, NpmCredential::EmailPassword { .. }));
    assert_eq!(r.cloudflare_global.as_deref(), Some("tk"));
}

#[test]
fn per_domain_cf_env_vars_resolved() {
    let mut cfg = base_config();
    cfg.cloudflare.domains.insert(
        "example.com".into(),
        DomainToken::Env {
            env: "CF_TOKEN_EX".into(),
        },
    );
    let r = resolve_secrets(
        cfg.clone(),
        &env(&[("NPM_PASSWORD", "x"), ("CF_API_TOKEN", "global"), ("CF_TOKEN_EX", "scoped")]),
    )
    .unwrap();
    assert_eq!(r.cloudflare_per_domain.get("example.com").unwrap(), "scoped");
}

#[test]
fn token_credential_happy_path() {
    let mut cfg = base_config();
    cfg.npm.email = None;
    cfg.npm.password_env = None;
    cfg.npm.token_env = Some("NPM_TOKEN".into());
    let r = resolve_secrets(cfg.clone(), &env(&[("NPM_TOKEN", "jwt"), ("CF_API_TOKEN", "x")])).unwrap();
    assert!(matches!(r.npm_credential, NpmCredential::Token(_)));
}

#[test]
fn ssl_default_with_no_cf_token_fails_validation() {
    let mut cfg = base_config();
    cfg.cloudflare.api_token_env = None;
    assert!(matches!(
        resolve_secrets(cfg.clone(), &env(&[("NPM_PASSWORD", "x")])),
        Err(ConfigError::Validation(_))
    ));
}

#[test]
fn ssl_default_with_no_letsencrypt_email_fails_validation() {
    let mut cfg = base_config();
    cfg.npm.letsencrypt_email = None;
    assert!(matches!(
        resolve_secrets(cfg.clone(), &env(&[("NPM_PASSWORD", "x"), ("CF_API_TOKEN", "tk")])),
        Err(ConfigError::Validation(_))
    ));
}

#[test]
fn metrics_defaults_to_disabled() {
    let cfg = base_config();
    let r = resolve_secrets(cfg.clone(), &env(&[("NPM_PASSWORD", "x"), ("CF_API_TOKEN", "tk")])).unwrap();
    assert!(!r.config.metrics.enabled);
}

#[test]
fn password_literal_path() {
    let mut cfg = base_config();
    cfg.npm.password = Some("lit".into());
    cfg.npm.password_env = None;
    let r = resolve_secrets(cfg.clone(), &env(&[("CF_API_TOKEN", "tk")])).unwrap();
    assert!(matches!(
        r.npm_credential,
        NpmCredential::EmailPassword { password, .. } if password == "lit"
    ));
}

#[test]
fn password_env_path() {
    let mut cfg = base_config();
    cfg.npm.password_env = Some("SOMETHING_ELSE".into());
    let r = resolve_secrets(cfg.clone(), &env(&[("SOMETHING_ELSE", "env-val"), ("CF_API_TOKEN", "tk")])).unwrap();
    assert!(matches!(
        r.npm_credential,
        NpmCredential::EmailPassword { password, .. } if password == "env-val"
    ));
}

#[test]
fn password_defaults_to_npm_password_env() {
    let mut cfg = base_config();
    cfg.npm.password = None;
    cfg.npm.password_env = None;
    let r = resolve_secrets(cfg.clone(), &env(&[("NPM_PASSWORD", "default-env"), ("CF_API_TOKEN", "tk")])).unwrap();
    assert!(matches!(
        r.npm_credential,
        NpmCredential::EmailPassword { password, .. } if password == "default-env"
    ));
}

#[test]
fn password_and_password_env_both_set_fails() {
    let mut cfg = base_config();
    cfg.npm.password = Some("lit".into());
    cfg.npm.password_env = Some("NPM_PASSWORD".into());
    assert!(matches!(
        resolve_secrets(cfg.clone(), &env(&[("NPM_PASSWORD", "env"), ("CF_API_TOKEN", "tk")])),
        Err(ConfigError::Validation(_))
    ));
}

#[test]
fn token_and_email_both_set_fails() {
    let mut cfg = base_config();
    cfg.npm.token_env = Some("NPM_TOKEN".into());
    assert!(matches!(
        resolve_secrets(
            cfg.clone(),
            &env(&[("NPM_TOKEN", "jwt"), ("CF_API_TOKEN", "tk"), ("NPM_PASSWORD", "pw")])
        ),
        Err(ConfigError::Validation(_))
    ));
}

#[test]
fn token_literal_path() {
    let mut cfg = base_config();
    cfg.npm.email = None;
    cfg.npm.password_env = None;
    cfg.npm.token = Some("literal-jwt".into());
    let r = resolve_secrets(cfg.clone(), &env(&[("CF_API_TOKEN", "tk")])).unwrap();
    assert!(matches!(r.npm_credential, NpmCredential::Token(t) if t == "literal-jwt"));
}

#[test]
fn api_token_literal_path() {
    let mut cfg = base_config();
    cfg.cloudflare.api_token = Some("cf-literal".into());
    cfg.cloudflare.api_token_env = None;
    let r = resolve_secrets(cfg.clone(), &env(&[("NPM_PASSWORD", "x")])).unwrap();
    assert_eq!(r.cloudflare_global.as_deref(), Some("cf-literal"));
}

#[test]
fn api_token_and_env_both_set_fails() {
    let mut cfg = base_config();
    cfg.cloudflare.api_token = Some("lit".into());
    cfg.cloudflare.api_token_env = Some("CF_API_TOKEN".into());
    assert!(matches!(
        resolve_secrets(cfg.clone(), &env(&[("NPM_PASSWORD", "x"), ("CF_API_TOKEN", "tk")])),
        Err(ConfigError::Validation(_))
    ));
}

#[test]
fn domain_env_form_resolves() {
    let mut cfg = base_config();
    cfg.cloudflare.domains.insert(
        "ex.com".into(),
        DomainToken::Env {
            env: "CF_TOKEN_EX".into(),
        },
    );
    let r = resolve_secrets(
        cfg.clone(),
        &env(&[("NPM_PASSWORD", "x"), ("CF_API_TOKEN", "g"), ("CF_TOKEN_EX", "scoped")]),
    )
    .unwrap();
    assert_eq!(r.cloudflare_per_domain.get("ex.com").unwrap(), "scoped");
}

#[test]
fn domain_token_form_resolves() {
    let mut cfg = base_config();
    cfg.cloudflare.domains.insert(
        "ex.com".into(),
        DomainToken::Token {
            token: "literal".into(),
        },
    );
    let r = resolve_secrets(cfg.clone(), &env(&[("NPM_PASSWORD", "x"), ("CF_API_TOKEN", "g")])).unwrap();
    assert_eq!(r.cloudflare_per_domain.get("ex.com").unwrap(), "literal");
}

#[test]
fn validation_messages_are_exact() {
    let mut cfg = base_config();
    cfg.npm.password = Some("lit".into());
    assert_eq!(
        resolve_secrets(cfg, &env(&[("CF_API_TOKEN", "tk")])).unwrap_err(),
        ConfigError::Validation("npm.password: set either npm.password or npm.password_env, not both".into())
    );
    let mut cfg = base_config();
    cfg.npm.email = None;
    cfg.npm.password_env = None;
    assert_eq!(
        resolve_secrets(cfg, &env(&[("CF_API_TOKEN", "tk")])).unwrap_err(),
        ConfigError::Validation("npm.email (with password) or npm.token required".into())
    );
    let mut cfg = base_config();
    cfg.npm.letsencrypt_email = Some(" \t ".into());
    assert_eq!(
        resolve_secrets(cfg, &env(&[("NPM_PASSWORD", "x"), ("CF_API_TOKEN", "tk")])).unwrap_err(),
        ConfigError::Validation("defaults.ssl=true requires npm.letsencrypt_email to be set and non-empty".into())
    );
}

#[test]
fn missing_domain_env_and_named_global_env_are_reported() {
    let mut cfg = base_config();
    cfg.cloudflare.domains.insert("a.com".into(), DomainToken::Env { env: "CF_A".into() });
    assert_eq!(
        resolve_secrets(cfg, &env(&[("NPM_PASSWORD", "x"), ("CF_API_TOKEN", "tk")])).unwrap_err(),
        ConfigError::Secret(SecretError::Missing("CF_A".into()))
    );
    // `api_token_env` names a variable that is unset: a missing secret.
    let mut cfg = base_config();
    cfg.defaults.ssl = false;
    assert_eq!(
        resolve_secrets(cfg, &env(&[("NPM_PASSWORD", "x")])).unwrap_err(),
        ConfigError::Secret(SecretError::Missing("CF_API_TOKEN".into()))
    );
    let mut cfg = base_config();
    cfg.cloudflare.api_token_env = Some("CF_OTHER".into());
    assert_eq!(
        resolve_secrets(cfg, &env(&[("NPM_PASSWORD", "x"), ("CF_API_TOKEN", "tk")])).unwrap_err(),
        ConfigError::Secret(SecretError::Missing("CF_OTHER".into()))
    );
}

#[test]
fn unset_default_global_env_leaves_token_unset() {
    let mut cfg = base_config();
    cfg.cloudflare.api_token_env = None;
    cfg.defaults.ssl = false;
    let r = resolve_secrets(cfg, &env(&[("NPM_PASSWORD", "x")])).unwrap();
    assert_eq!(r.cloudflare_global, None);
}

#[test]
fn config_defaults() {
    assert_eq!(DockerConfig::default().socket, "/var/run/docker.sock");
    assert_eq!(ForwardHostConfig::default().strategy, ForwardStrategy::ContainerName);
    assert_eq!(ReconcilerConfig::default().interval_seconds, 300);
    assert!(CleanupConfig::default().on_remove);
    assert_eq!(MetricsConfig::default().bind, "0.0.0.0:9090");
    let d = Defaults::default();
    assert_eq!(d.scheme, Scheme::Http);
    assert!(d.ssl && d.websockets && d.block_exploits);
    let l = LoggingConfig::default();
    assert_eq!(l.level, "info");
    assert_eq!(l.format, LogFormat::Json);
}

#[test]
fn require_and_optional_read_the_environment() {
    let e = env(&[("A", "1"), ("EMPTY", "")]);
    assert_eq!(require(&e, "A"), Ok("1".to_string()));
    assert_eq!(require(&e, "B"), Err(SecretError::Missing("B".to_string())));
    assert_eq!(optional(&e, "A"), Some("1".to_string()));
    assert_eq!(optional(&e, "EMPTY"), None);
    assert_eq!(optional(&e, "B"), None);
}
