//! Service configuration and the validation and secret resolution that turn
//! it into a [`ResolvedConfig`].
//!
//! Secrets are either written in the configuration or named by an
//! environment variable; the environment is handed in as a map from
//! variable names to values.
use vstd::prelude::*;

pub mod secrets;

use crate::docker::spec::{Scheme, text_map};
use crate::keymap::KeyMap;
use crate::text::{is_blank, trims_to_empty};
use crate::writer::opt_text;
use self::secrets::{SecretError, require};

verus! {

/// Why the configuration cannot be used.
#[derive(Debug, PartialEq, Eq)]
pub enum ConfigError {
    /// The file could not be read (the I/O error's message).
    Io(String),
    /// The file is not valid TOML for this schema (the parser's message).
    Parse(String),
    /// A named environment variable is not set.
    Secret(SecretError),
    /// The settings contradict each other or miss something.
    Validation(String),
}

/// The content of a [`ConfigError`]; a missing secret is given by its name.
pub enum ConfigErrorView {
    Io(Seq<char>),
    Parse(Seq<char>),
    Secret(Seq<char>),
    Validation(Seq<char>),
}

impl View for ConfigError {
    type V = ConfigErrorView;

    open spec fn view(&self) -> ConfigErrorView {
        match self {
            ConfigError::Io(s) => ConfigErrorView::Io(s@),
            ConfigError::Parse(s) => ConfigErrorView::Parse(s@),
            ConfigError::Secret(SecretError::Missing(n)) => ConfigErrorView::Secret(n@),
            ConfigError::Validation(s) => ConfigErrorView::Validation(s@),
        }
    }
}

/// The whole configuration file.
#[derive(Debug, Clone)]
pub struct Config {
    pub npm: NpmConfig,
    pub docker: DockerConfig,
    pub forward_host: ForwardHostConfig,
    pub reconciler: ReconcilerConfig,
    pub cleanup: CleanupConfig,
    pub cloudflare: CloudflareConfig,
    pub defaults: Defaults,
    pub logging: LoggingConfig,
    pub metrics: MetricsConfig,
}

/// `[npm]`: where NPM is and how to log in.
#[derive(Debug, Clone)]
pub struct NpmConfig {
    pub url: String,
    pub email: Option<String>,
    pub password: Option<String>,
    pub password_env: Option<String>,
    pub token: Option<String>,
    pub token_env: Option<String>,
    pub letsencrypt_email: Option<String>,
}

/// `[docker]`: the daemon's socket.
#[derive(Debug, Clone)]
pub struct DockerConfig {
    pub socket: String,
}

impl Default for DockerConfig {
    fn default() -> (r: Self)
        ensures
            r.socket@ == "/var/run/docker.sock"@,
    {
        DockerConfig { socket: String::from_str("/var/run/docker.sock") }
    }
}

/// `[forward_host]`: how NPM reaches containers.
#[derive(Debug, Clone)]
pub struct ForwardHostConfig {
    pub strategy: ForwardStrategy,
    pub host_address: Option<String>,
    pub network: Option<String>,
}

impl Default for ForwardHostConfig {
    fn default() -> (r: Self)
        ensures
            r.strategy == ForwardStrategy::ContainerName,
            r.host_address is None,
            r.network is None,
    {
        ForwardHostConfig { strategy: ForwardStrategy::ContainerName, host_address: None, network: None }
    }
}

/// How NPM reaches a container.
#[derive(Debug, Clone, Copy, PartialEq, Eq, Structural)]
pub enum ForwardStrategy {
    /// By container name, on a shared Docker network.
    ContainerName,
    /// By the container's IP on the configured network.
    ContainerIp,
    /// Through a host address and the published port.
    HostPort,
}

/// `[reconciler]`: the sweep period.
#[derive(Debug, Clone)]
pub struct ReconcilerConfig {
    pub interval_seconds: u64,
}

impl Default for ReconcilerConfig {
    fn default() -> (r: Self)
        ensures
            r.interval_seconds == 300,
    {
        ReconcilerConfig { interval_seconds: 300 }
    }
}

/// `[cleanup]`: whether hosts are deleted when their container goes.
#[derive(Debug, Clone)]
pub struct CleanupConfig {
    pub on_remove: bool,
}

impl Default for CleanupConfig {
    fn default() -> (r: Self)
        ensures
            r.on_remove,
    {
        CleanupConfig { on_remove: true }
    }
}

/// `[cloudflare]`: the global token and per-domain tokens.
#[derive(Debug, Clone)]
pub struct CloudflareConfig {
    pub api_token: Option<String>,
    pub api_token_env: Option<String>,
    pub domains: KeyMap<DomainToken>,
}

impl Default for CloudflareConfig {
    fn default() -> (r: Self)
        ensures
            r.api_token is None,
            r.api_token_env is None,
            r.domains@ == Map::<Seq<char>, DomainToken>::empty(),
    {
        CloudflareConfig { api_token: None, api_token_env: None, domains: KeyMap::new() }
    }
}

/// A per-domain token: named by an environment variable, or written out.
#[derive(Debug, Clone, PartialEq, Eq)]
pub enum DomainToken {
    Env { env: String },
    Token { token: String },
}

/// `[metrics]`: the optional metrics listener.
#[derive(Debug, Clone)]
pub struct MetricsConfig {
    pub enabled: bool,
    /// The socket address to listen on, as written in the file.
    pub bind: String,
}

/// The default metrics listen address.
pub fn default_metrics_bind() -> (r: String)
    ensures
        r@ == "0.0.0.0:9090"@,
{
    String::from_str("0.0.0.0:9090")
}

impl Default for MetricsConfig {
    fn default() -> (r: Self)
        ensures
            !r.enabled,
            r.bind@ == "0.0.0.0:9090"@,
    {
        MetricsConfig { enabled: false, bind: default_metrics_bind() }
    }
}

/// `[defaults]`: values for labels a container does not set.
#[derive(Debug, Clone)]
pub struct Defaults {
    pub scheme: Scheme,
    pub ssl: bool,
    pub websockets: bool,
    pub block_exploits: bool,
}

impl Default for Defaults {
    fn default() -> (r: Self)
        ensures
            r.scheme == Scheme::Http,
            r.ssl && r.websockets && r.block_exploits,
    {
        Defaults { scheme: Scheme::Http, ssl: true, websockets: true, block_exploits: true }
    }
}

/// `[logging]`: level filter and output format.
#[derive(Debug, Clone)]
pub struct LoggingConfig {
    pub level: String,
    pub format: LogFormat,
}

impl Default for LoggingConfig {
    fn default() -> (r: Self)
        ensures
            r.level@ == "info"@,
            r.format == LogFormat::Json,
    {
        LoggingConfig { level: String::from_str("info"), format: LogFormat::Json }
    }
}

/// Log output format.
#[derive(Debug, Clone, Copy, PartialEq, Eq, Structural)]
pub enum LogFormat {
    Json,
    Pretty,
}

/// The configuration with every secret resolved.
#[derive(Debug, Clone)]
pub struct ResolvedConfig {
    pub config: Config,
    pub npm_credential: NpmCredential,
    pub cloudflare_global: Option<String>,
    pub cloudflare_per_domain: KeyMap<String>,
}

/// How to log in to NPM.
#[derive(Debug, Clone, PartialEq, Eq)]
pub enum NpmCredential {
    EmailPassword { email: String, password: String },
    Token(String),
}

/// The content of an [`NpmCredential`].
pub enum NpmCredentialView {
    EmailPassword { email: Seq<char>, password: Seq<char> },
    Token(Seq<char>),
}

impl View for NpmCredential {
    type V = NpmCredentialView;

    open spec fn view(&self) -> NpmCredentialView {
        match self {
            NpmCredential::EmailPassword { email, password } => NpmCredentialView::EmailPassword {
                email: email@,
                password: password@,
            },
            NpmCredential::Token(t) => NpmCredentialView::Token(t@),
        }
    }
}

/// Where one secret comes from.
enum SecretSource {
    Literal(String),
    EnvName(String),
}

/// The content of a secret source.
pub enum SourceView {
    Literal(Seq<char>),
    EnvName(Seq<char>),
}

/// The message for a secret given both inline and by variable.
pub open spec fn both_set_message(field: Seq<char>) -> Seq<char> {
    field + ": set either "@ + field + " or "@ + field + "_env, not both"@
}

/// The source of a secret: the inline value, or the named variable, or the
/// default variable when neither is given; both given is an error.
pub open spec fn source_for(
    field: Seq<char>,
    inline: Option<Seq<char>>,
    env_name: Option<Seq<char>>,
    default_env: Option<Seq<char>>,
) -> Result<Option<SourceView>, ConfigErrorView> {
    if inline is Some && env_name is Some {
        Err(ConfigErrorView::Validation(both_set_message(field)))
    } else if inline is Some {
        Ok(Some(SourceView::Literal(inline->0)))
    } else if env_name is Some {
        Ok(Some(SourceView::EnvName(env_name->0)))
    } else {
        match default_env {
            Some(n) => Ok(Some(SourceView::EnvName(n))),
            None => Ok(None),
        }
    }
}

/// The value of a source, or the name of the missing variable.
pub open spec fn secret_value(src: SourceView, env: Map<Seq<char>, Seq<char>>) -> Result<Seq<char>, Seq<char>> {
    match src {
        SourceView::Literal(v) => Ok(v),
        SourceView::EnvName(n) => if env.contains_key(n) {
            Ok(env[n])
        } else {
            Err(n)
        },
    }
}

impl SecretSource {
    spec fn view_of(&self) -> SourceView {
        match self {
            SecretSource::Literal(s) => SourceView::Literal(s@),
            SecretSource::EnvName(n) => SourceView::EnvName(n@),
        }
    }

    fn resolve(self, env: &KeyMap<String>) -> (r: Result<String, SecretError>)
        ensures
            match r {
                Ok(v) => secret_value(self.view_of(), text_map(env@)) == Ok::<Seq<char>, Seq<char>>(v@),
                Err(SecretError::Missing(n)) => secret_value(self.view_of(), text_map(env@)) == Err::<Seq<char>, Seq<char>>(n@),
            },
    {
        match self {
            SecretSource::Literal(s) => Ok(s),
            SecretSource::EnvName(name) => require(env, name.as_str()),
        }
    }

    fn from_pair(
        field: &str,
        inline: Option<String>,
        env_name: Option<String>,
        default_env: Option<&str>,
    ) -> (r: Result<Option<Self>, ConfigError>)
        ensures
            match r {
                Ok(Some(s)) => source_for(field@, opt_text(inline), opt_text(env_name), match default_env {
                    Some(d) => Some(d@),
                    None => None::<Seq<char>>,
                }) == Ok::<Option<SourceView>, ConfigErrorView>(Some(s.view_of())),
                Ok(None) => source_for(field@, opt_text(inline), opt_text(env_name), match default_env {
                    Some(d) => Some(d@),
                    None => None::<Seq<char>>,
                }) == Ok::<Option<SourceView>, ConfigErrorView>(None),
                Err(e) => source_for(field@, opt_text(inline), opt_text(env_name), match default_env {
                    Some(d) => Some(d@),
                    None => None::<Seq<char>>,
                }) == Err::<Option<SourceView>, ConfigErrorView>(e@),
            },
    {
        match inline {
            Some(v) => match env_name {
                Some(_) => {
                    let msg = String::from_str(field).concat(": set either ").concat(field).concat(" or ").concat(
                        field,
                    ).concat("_env, not both");
                    Err(ConfigError::Validation(msg))
                },
                None => Ok(Some(SecretSource::Literal(v))),
            },
            None => match env_name {
                Some(n) => Ok(Some(SecretSource::EnvName(n))),
                None => match default_env {
                    Some(d) => Ok(Some(SecretSource::EnvName(String::from_str(d)))),
                    None => Ok(None),
                },
            },
        }
    }
}

/// The NPM credential: a token (inline or by variable) or an e-mail with a
/// password (inline, by variable, or from `NPM_PASSWORD`); never both kinds.
pub open spec fn credential_resolution(npm: NpmConfig, env: Map<Seq<char>, Seq<char>>) -> Result<
    NpmCredentialView,
    ConfigErrorView,
> {
    let has_token = npm.token is Some || npm.token_env is Some;
    let has_email = npm.email is Some;
    if has_token && has_email {
        Err(ConfigErrorView::Validation("npm: set either email/password or token, not both"@))
    } else if has_token {
        match source_for("npm.token"@, opt_text(npm.token), opt_text(npm.token_env), None) {
            Err(e) => Err(e),
            Ok(None) => Err(ConfigErrorView::Validation("npm.token or npm.token_env required"@)),
            Ok(Some(src)) => match secret_value(src, env) {
                Ok(v) => Ok(NpmCredentialView::Token(v)),
                Err(n) => Err(ConfigErrorView::Secret(n)),
            },
        }
    } else if has_email {
        match source_for("npm.password"@, opt_text(npm.password), opt_text(npm.password_env), Some("NPM_PASSWORD"@)) {
            Err(e) => Err(e),
            Ok(None) => Err(ConfigErrorView::Validation("npm.password or npm.password_env required"@)),
            Ok(Some(src)) => match secret_value(src, env) {
                Ok(v) => Ok(NpmCredentialView::EmailPassword { email: npm.email->0@, password: v }),
                Err(n) => Err(ConfigErrorView::Secret(n)),
            },
        }
    } else {
        Err(ConfigErrorView::Validation("npm.email (with password) or npm.token required"@))
    }
}

/// The global Cloudflare token (inline, by variable, or from `CF_API_TOKEN`).
/// A variable named by `api_token_env` must be set; the default
/// `CF_API_TOKEN`, when unset, leaves the token unset.
pub open spec fn global_token_resolution(cf: CloudflareConfig, env: Map<Seq<char>, Seq<char>>) -> Result<
    Option<Seq<char>>,
    ConfigErrorView,
> {
    match source_for("cloudflare.api_token"@, opt_text(cf.api_token), opt_text(cf.api_token_env), Some("CF_API_TOKEN"@)) {
        Err(e) => Err(e),
        Ok(None) => Ok(None),
        Ok(Some(src)) => match secret_value(src, env) {
            Ok(v) => Ok(Some(v)),
            Err(n) => if cf.api_token_env is Some {
                Err(ConfigErrorView::Secret(n))
            } else {
                Ok(None)
            },
        },
    }
}

/// The per-domain tokens, taking the domains in `keys` order; the first
/// missing variable is the error.
pub open spec fn domain_tokens(
    keys: Seq<Seq<char>>,
    domains: Map<Seq<char>, DomainToken>,
    env: Map<Seq<char>, Seq<char>>,
) -> Result<Map<Seq<char>, Seq<char>>, Seq<char>>
    decreases keys.len(),
{
    if keys.len() == 0 {
        Ok(Map::empty())
    } else {
        match domain_tokens(keys.drop_last(), domains, env) {
            Err(n) => Err(n),
            Ok(m) => match domains[keys.last()] {
                DomainToken::Env { env: name } => if env.contains_key(name@) {
                    Ok(m.insert(keys.last(), env[name@]))
                } else {
                    Err(name@)
                },
                DomainToken::Token { token } => Ok(m.insert(keys.last(), token@)),
            },
        }
    }
}

/// The secrets a configuration resolves to.
pub struct ResolvedSecrets {
    pub npm_credential: NpmCredentialView,
    pub cloudflare_global: Option<Seq<char>>,
    pub cloudflare_per_domain: Map<Seq<char>, Seq<char>>,
}

/// The whole resolution, with its checks in order: the NPM credential, the
/// global token, the per-domain tokens, then that SSL by default has some
/// Cloudflare token and a non-blank Let's Encrypt e-mail.
pub open spec fn resolution(config: Config, env: Map<Seq<char>, Seq<char>>) -> Result<ResolvedSecrets, ConfigErrorView> {
    match credential_resolution(config.npm, env) {
        Err(e) => Err(e),
        Ok(cred) => match global_token_resolution(config.cloudflare, env) {
            Err(e) => Err(e),
            Ok(g) => match domain_tokens(config.cloudflare.domains.keys(), config.cloudflare.domains@, env) {
                Err(n) => Err(ConfigErrorView::Secret(n)),
                Ok(pd) => if config.defaults.ssl && g is None && pd.dom() == Set::<Seq<char>>::empty() {
                    Err(
                        ConfigErrorView::Validation(
                            "defaults.ssl=true requires cloudflare.api_token(_env) or per-domain overrides"@,
                        ),
                    )
                } else if config.defaults.ssl && (config.npm.letsencrypt_email is None || is_blank(
                    config.npm.letsencrypt_email->0@,
                )) {
                    Err(
                        ConfigErrorView::Validation(
                            "defaults.ssl=true requires npm.letsencrypt_email to be set and non-empty"@,
                        ),
                    )
                } else {
                    Ok(ResolvedSecrets { npm_credential: cred, cloudflare_global: g, cloudflare_per_domain: pd })
                },
            },
        },
    }
}

fn resolve_credential(npm: &NpmConfig, env: &KeyMap<String>) -> (r: Result<NpmCredential, ConfigError>)
    ensures
        match r {
            Ok(c) => credential_resolution(*npm, text_map(env@)) == Ok::<NpmCredentialView, ConfigErrorView>(c@),
            Err(e) => credential_resolution(*npm, text_map(env@)) == Err::<NpmCredentialView, ConfigErrorView>(e@),
        },
{
    let has_token = npm.token.is_some() || npm.token_env.is_some();
    let has_email = npm.email.is_some();
    if has_token && has_email {
        return Err(ConfigError::Validation(String::from_str("npm: set either email/password or token, not both")));
    }
    if has_token {
        let source = match SecretSource::from_pair("npm.token", npm.token.clone(), npm.token_env.clone(), None) {
            Ok(Some(s)) => s,
            Ok(None) => return Err(ConfigError::Validation(String::from_str("npm.token or npm.token_env required"))),
            Err(e) => return Err(e),
        };
        match source.resolve(env) {
            Ok(t) => Ok(NpmCredential::Token(t)),
            Err(e) => Err(ConfigError::Secret(e)),
        }
    } else if let Some(email) = &npm.email {
        let source = match SecretSource::from_pair(
            "npm.password",
            npm.password.clone(),
            npm.password_env.clone(),
            Some("NPM_PASSWORD"),
        ) {
            Ok(Some(s)) => s,
            Ok(None) => return Err(ConfigError::Validation(String::from_str("npm.password or npm.password_env required"))),
            Err(e) => return Err(e),
        };
        match source.resolve(env) {
            Ok(password) => Ok(NpmCredential::EmailPassword { email: email.clone(), password }),
            Err(e) => Err(ConfigError::Secret(e)),
        }
    } else {
        Err(ConfigError::Validation(String::from_str("npm.email (with password) or npm.token required")))
    }
}

fn resolve_global(cf: &CloudflareConfig, env: &KeyMap<String>) -> (r: Result<Option<String>, ConfigError>)
    ensures
        match r {
            Ok(g) => global_token_resolution(*cf, text_map(env@)) == Ok::<Option<Seq<char>>, ConfigErrorView>(opt_text(g)),
            Err(e) => global_token_resolution(*cf, text_map(env@)) == Err::<Option<Seq<char>>, ConfigErrorView>(e@),
        },
{
    match SecretSource::from_pair("cloudflare.api_token", cf.api_token.clone(), cf.api_token_env.clone(), Some("CF_API_TOKEN")) {
        Err(e) => Err(e),
        Ok(None) => Ok(None),
        Ok(Some(s)) => match s.resolve(env) {
            Ok(v) => Ok(Some(v)),
            Err(e) => if cf.api_token_env.is_some() {
                Err(ConfigError::Secret(e))
            } else {
                Ok(None)
            },
        },
    }
}

proof fn lemma_domain_error_persists(
    keys: Seq<Seq<char>>,
    domains: Map<Seq<char>, DomainToken>,
    env: Map<Seq<char>, Seq<char>>,
    j: int,
    k: int,
)
    requires
        0 <= j <= k <= keys.len(),
        domain_tokens(keys.take(j), domains, env) is Err,
    ensures
        domain_tokens(keys.take(k), domains, env) == domain_tokens(keys.take(j), domains, env),
    decreases k - j,
{
    if j < k {
        lemma_domain_error_persists(keys, domains, env, j, k - 1);
        assert(keys.take(k).drop_last() =~= keys.take(k - 1));
    }
}

fn resolve_domains(domains: &KeyMap<DomainToken>, env: &KeyMap<String>) -> (r: Result<KeyMap<String>, SecretError>)
    ensures
        match r {
            Ok(m) => domain_tokens(domains.keys(), domains@, text_map(env@)) == Ok::<Map<Seq<char>, Seq<char>>, Seq<char>>(
                text_map(m@),
            ),
            Err(SecretError::Missing(n)) => domain_tokens(domains.keys(), domains@, text_map(env@)) == Err::<
                Map<Seq<char>, Seq<char>>,
                Seq<char>,
            >(n@),
        },
{
    let n = domains.len();
    let mut out: KeyMap<String> = KeyMap::new();
    let mut i: usize = 0;
    proof {
        assert(domains.keys().take(0) =~= Seq::<Seq<char>>::empty());
        assert(text_map(out@) =~= Map::<Seq<char>, Seq<char>>::empty());
    }
    while i < n
        invariant
            n == domains.keys().len(),
            domains.keys().len() == domains.vals().len(),
            forall|j: int| 0 <= j < domains.keys().len() ==> #[trigger] domains@[domains.keys()[j]] == domains.vals()[j],
            i <= n,
            domain_tokens(domains.keys().take(i as int), domains@, text_map(env@)) == Ok::<
                Map<Seq<char>, Seq<char>>,
                Seq<char>,
            >(text_map(out@)),
        decreases n - i,
    {
        let key = domains.key_at(i);
        let entry = domains.value_at(i);
        let ghost before = out@;
        proof {
            assert(domains.keys().take(i + 1).drop_last() =~= domains.keys().take(i as int));
            assert(domains.keys().take(i + 1).last() == key@);
        }
        let token = match entry {
            DomainToken::Env { env: name } => match require(env, name.as_str()) {
                Ok(t) => t,
                Err(e) => {
                    proof {
                        lemma_domain_error_persists(domains.keys(), domains@, text_map(env@), i + 1, n as int);
                        assert(domains.keys().take(n as int) =~= domains.keys());
                    }
                    return Err(e);
                },
            },
            DomainToken::Token { token } => token.clone(),
        };
        out.insert(key.clone(), token);
        proof {
            assert(text_map(out@) =~= text_map(before).insert(key@, token@));
        }
        i = i + 1;
    }
    proof {
        assert(domains.keys().take(n as int) =~= domains.keys());
    }
    Ok(out)
}

/// The outcome of [`resolve_secrets`] seen through views.
pub open spec fn resolved_view(r: ResolvedConfig) -> ResolvedSecrets {
    ResolvedSecrets {
        npm_credential: r.npm_credential@,
        cloudflare_global: opt_text(r.cloudflare_global),
        cloudflare_per_domain: text_map(r.cloudflare_per_domain@),
    }
}

/// Validates the configuration and resolves its secrets against `env`.
pub fn resolve_secrets(config: Config, env: &KeyMap<String>) -> (r: Result<ResolvedConfig, ConfigError>)
    ensures
        match r {
            Ok(rc) => rc.config == config && resolution(config, text_map(env@)) == Ok::<ResolvedSecrets, ConfigErrorView>(
                resolved_view(rc),
            ),
            Err(e) => resolution(config, text_map(env@)) == Err::<ResolvedSecrets, ConfigErrorView>(e@),
        },
{
    let npm_credential = match resolve_credential(&config.npm, env) {
        Ok(c) => c,
        Err(e) => return Err(e),
    };
    let cloudflare_global = match resolve_global(&config.cloudflare, env) {
        Ok(g) => g,
        Err(e) => return Err(e),
    };
    let cloudflare_per_domain = match resolve_domains(&config.cloudflare.domains, env) {
        Ok(m) => m,
        Err(e) => return Err(ConfigError::Secret(e)),
    };
    let no_domains = cloudflare_per_domain.len() == 0;
    proof {
        if no_domains {
            assert(text_map(cloudflare_per_domain@).dom() =~= Set::<Seq<char>>::empty());
        } else {
            assert(text_map(cloudflare_per_domain@).dom() =~= cloudflare_per_domain@.dom());
            assert(text_map(cloudflare_per_domain@).dom().len() > 0);
        }
    }
    if config.defaults.ssl && cloudflare_global.is_none() && no_domains {
        return Err(
            ConfigError::Validation(
                String::from_str("defaults.ssl=true requires cloudflare.api_token(_env) or per-domain overrides"),
            ),
        );
    }
    let email_missing = match &config.npm.letsencrypt_email {
        Some(e) => trims_to_empty(e.as_str()),
        None => true,
    };
    if config.defaults.ssl && email_missing {
        return Err(
            ConfigError::Validation(
                String::from_str("defaults.ssl=true requires npm.letsencrypt_email to be set and non-empty"),
            ),
        );
    }
    Ok(ResolvedConfig { config, npm_credential, cloudflare_global, cloudflare_per_domain })
}

/// Giving a secret both inline and by variable is always refused.
pub proof fn lemma_inline_and_env_conflict(
    field: Seq<char>,
    inline: Seq<char>,
    env_name: Seq<char>,
    default_env: Option<Seq<char>>,
)
    ensures
        source_for(field, Some(inline), Some(env_name), default_env) == Err::<Option<SourceView>, ConfigErrorView>(
            ConfigErrorView::Validation(both_set_message(field)),
        ),
{
}

/// An inline secret is used as written: the environment is not consulted.
pub proof fn lemma_inline_ignores_env(
    field: Seq<char>,
    inline: Seq<char>,
    default_env: Option<Seq<char>>,
    env: Map<Seq<char>, Seq<char>>,
)
    ensures
        source_for(field, Some(inline), None, default_env) == Ok::<Option<SourceView>, ConfigErrorView>(
            Some(SourceView::Literal(inline)),
        ),
        secret_value(SourceView::Literal(inline), env) == Ok::<Seq<char>, Seq<char>>(inline),
{
}

/// The token a per-domain entry gives: the literal, or the value of the
/// variable it names when that is set.
pub open spec fn domain_token_value(t: DomainToken, env: Map<Seq<char>, Seq<char>>) -> Option<Seq<char>> {
    match t {
        DomainToken::Env { env: name } => if env.contains_key(name@) {
            Some(env[name@])
        } else {
            None
        },
        DomainToken::Token { token } => Some(token@),
    }
}

/// The entry names the variable `n`.
pub open spec fn names_variable(t: DomainToken, n: Seq<char>) -> bool {
    t matches DomainToken::Env { env: name } && name@ == n
}

proof fn lemma_domain_tokens_seq(keys: Seq<Seq<char>>, domains: Map<Seq<char>, DomainToken>, env: Map<Seq<char>, Seq<char>>)
    requires
        keys.no_duplicates(),
    ensures
        domain_tokens(keys, domains, env) is Ok <==> forall|i: int|
            0 <= i < keys.len() ==> (#[trigger] domain_token_value(domains[keys[i]], env)) is Some,
        domain_tokens(keys, domains, env) matches Ok(m) ==> m.dom() == keys.to_set() && forall|i: int|
            0 <= i < keys.len() ==> Some(m[keys[i]]) == #[trigger] domain_token_value(domains[keys[i]], env),
        domain_tokens(keys, domains, env) matches Err(n) ==> exists|i: int|
            0 <= i < keys.len() && names_variable(#[trigger] domains[keys[i]], n)
                && !env.contains_key(n),
    decreases keys.len(),
{
    if keys.len() == 0 {
        assert(keys.to_set() =~= Set::<Seq<char>>::empty());
    } else {
        let d = keys.drop_last();
        let last = keys.last();
        assert(d.no_duplicates()) by {
            assert forall|a: int, b: int| 0 <= a < d.len() && 0 <= b < d.len() && a != b implies d[a] != d[b] by {
                assert(keys[a] != keys[b]);
            }
        }
        lemma_domain_tokens_seq(d, domains, env);
        assert forall|i: int| 0 <= i < d.len() implies d[i] == keys[i] && keys[i] != last by {
            assert(keys[keys.len() - 1] == last);
        }
        assert(keys[keys.len() - 1] == last);
        assert(keys.to_set() =~= d.to_set().insert(last)) by {
            assert forall|x: Seq<char>| keys.to_set().contains(x) implies d.to_set().insert(last).contains(x) by {
                let i = choose|i: int| 0 <= i < keys.len() && keys[i] == x;
                if i < keys.len() - 1 {
                    assert(d[i] == x);
                }
            }
            assert forall|x: Seq<char>| d.to_set().contains(x) implies keys.to_set().contains(x) by {
                let i = choose|i: int| 0 <= i < d.len() && d[i] == x;
                assert(keys[i] == x);
            }
        }
        match domain_tokens(d, domains, env) {
            Err(n) => {
                let i = choose|i: int|
                    0 <= i < d.len() && names_variable(#[trigger] domains[d[i]], n)
                        && !env.contains_key(n);
                assert(domains[keys[i]] == domains[d[i]]);
                let j = choose|j: int| 0 <= j < d.len() && (#[trigger] domain_token_value(domains[d[j]], env)) is None;
                assert(domain_token_value(domains[keys[j]], env) is None);
            },
            Ok(m) => {
                if domain_token_value(domains[last], env) is None {
                    assert(domain_token_value(domains[keys[keys.len() - 1]], env) is None);
                } else {
                    assert forall|i: int| 0 <= i < keys.len() implies (#[trigger] domain_token_value(domains[keys[i]], env)) is Some by {
                        if i < keys.len() - 1 {
                            assert(keys[i] == d[i]);
                            assert(domain_token_value(domains[d[i]], env) is Some);
                        }
                    }
                    let m2 = domain_tokens(keys, domains, env)->Ok_0;
                    assert(m2.dom() =~= keys.to_set());
                    assert forall|i: int| 0 <= i < keys.len() implies Some(m2[keys[i]]) == #[trigger] domain_token_value(domains[keys[i]], env) by {
                        if i < keys.len() - 1 {
                            assert(keys[i] == d[i]);
                            assert(Some(m[d[i]]) == domain_token_value(domains[d[i]], env));
                        }
                    }
                }
            },
        }
    }
}

/// The per-domain tokens: when the configuration resolves, every configured
/// domain, and no other, maps to its token (the literal, or the value of the
/// variable it names); a domain naming an unset variable makes the
/// resolution fail with `Secret`, once the NPM credential and the global
/// token have resolved, naming an unset variable of such a domain.
pub proof fn lemma_per_domain_tokens(config: Config, env: Map<Seq<char>, Seq<char>>)
    requires
        config.cloudflare.domains.keys().no_duplicates(),
        forall|k: Seq<char>| #[trigger]
            config.cloudflare.domains@.contains_key(k) <==> config.cloudflare.domains.keys().contains(k),
    ensures
        resolution(config, env) matches Ok(r) ==> r.cloudflare_per_domain.dom() == config.cloudflare.domains@.dom()
            && forall|d: Seq<char>| #[trigger]
            config.cloudflare.domains@.contains_key(d) ==> Some(r.cloudflare_per_domain[d]) == domain_token_value(
                config.cloudflare.domains@[d],
                env,
            ),
        (credential_resolution(config.npm, env) is Ok && global_token_resolution(config.cloudflare, env) is Ok
            && exists|d: Seq<char>| #[trigger]
            config.cloudflare.domains@.contains_key(d) && domain_token_value(config.cloudflare.domains@[d], env) is None)
            ==> (resolution(config, env) matches Err(ConfigErrorView::Secret(n)) && exists|d: Seq<char>| #[trigger]
            config.cloudflare.domains@.contains_key(d) && names_variable(config.cloudflare.domains@[d], n)
                && !env.contains_key(n)),
{
    let keys = config.cloudflare.domains.keys();
    let domains = config.cloudflare.domains@;
    lemma_domain_tokens_seq(keys, domains, env);
    assert(keys.to_set() =~= domains.dom());
    if let Ok(r) = resolution(config, env) {
        let m = domain_tokens(keys, domains, env)->Ok_0;
        assert forall|d: Seq<char>| #[trigger] domains.contains_key(d) implies Some(r.cloudflare_per_domain[d])
            == domain_token_value(domains[d], env) by {
            let i = choose|i: int| 0 <= i < keys.len() && keys[i] == d;
            assert(Some(m[keys[i]]) == domain_token_value(domains[keys[i]], env));
        }
    }
    if exists|d: Seq<char>| #[trigger] domains.contains_key(d) && domain_token_value(domains[d], env) is None {
        let d = choose|d: Seq<char>| #[trigger] domains.contains_key(d) && domain_token_value(domains[d], env) is None;
        let i = choose|i: int| 0 <= i < keys.len() && keys[i] == d;
        assert(domain_token_value(domains[keys[i]], env) is None);
        assert(domain_tokens(keys, domains, env) is Err);
        if let Err(n) = domain_tokens(keys, domains, env) {
            let j = choose|j: int|
                0 <= j < keys.len() && names_variable(#[trigger] domains[keys[j]], n)
                    && !env.contains_key(n);
            assert(domains.contains_key(keys[j]));
        }
    }
}

/// The Cloudflare check under `defaults.ssl`: once the NPM credential, the
/// global token and every per-domain token resolve, resolution fails with
/// the Cloudflare validation error exactly when SSL is on by default and
/// there is neither a global token nor any per-domain token; when SSL is off,
/// or some token is there and the Let's Encrypt e-mail is non-blank, it
/// succeeds.
pub proof fn lemma_cloudflare_token_required(config: Config, env: Map<Seq<char>, Seq<char>>)
    requires
        config.cloudflare.domains.keys().no_duplicates(),
        forall|k: Seq<char>| #[trigger]
            config.cloudflare.domains@.contains_key(k) <==> config.cloudflare.domains.keys().contains(k),
        credential_resolution(config.npm, env) is Ok,
        global_token_resolution(config.cloudflare, env) is Ok,
        forall|d: Seq<char>| #[trigger]
            config.cloudflare.domains@.contains_key(d) ==> domain_token_value(config.cloudflare.domains@[d], env) is Some,
    ensures
        resolution(config, env) == Err::<ResolvedSecrets, ConfigErrorView>(
            ConfigErrorView::Validation("defaults.ssl=true requires cloudflare.api_token(_env) or per-domain overrides"@),
        ) <==> (config.defaults.ssl && global_token_resolution(config.cloudflare, env) == Ok::<
            Option<Seq<char>>,
            ConfigErrorView,
        >(None) && config.cloudflare.domains@.dom() == Set::<Seq<char>>::empty()),
        (!config.defaults.ssl || ((global_token_resolution(config.cloudflare, env)->Ok_0 is Some || exists|d: Seq<char>|
            #[trigger] config.cloudflare.domains@.contains_key(d)) && config.npm.letsencrypt_email is Some && !is_blank(
            config.npm.letsencrypt_email->0@,
        ))) ==> resolution(config, env) is Ok,
{
    let keys = config.cloudflare.domains.keys();
    let domains = config.cloudflare.domains@;
    lemma_domain_tokens_seq(keys, domains, env);
    assert forall|i: int| 0 <= i < keys.len() implies (#[trigger] domain_token_value(domains[keys[i]], env)) is Some by {
        assert(keys.contains(keys[i]));
        assert(domains.contains_key(keys[i]));
        assert(domain_token_value(domains[keys[i]], env) is Some);
    }
    assert(keys.to_set() =~= domains.dom());
    let pd = domain_tokens(keys, domains, env)->Ok_0;
    assert(pd.dom() == domains.dom());
    if exists|d: Seq<char>| #[trigger] domains.contains_key(d) {
        let d = choose|d: Seq<char>| #[trigger] domains.contains_key(d);
        assert(pd.dom().contains(d));
        assert(pd.dom() != Set::<Seq<char>>::empty());
    }
    if domains.dom() == Set::<Seq<char>>::empty() {
        assert(pd.dom() =~= Set::<Seq<char>>::empty());
    }
    reveal_strlit("defaults.ssl=true requires cloudflare.api_token(_env) or per-domain overrides");
    reveal_strlit("defaults.ssl=true requires npm.letsencrypt_email to be set and non-empty");
    assert("defaults.ssl=true requires cloudflare.api_token(_env) or per-domain overrides"@[27]
        != "defaults.ssl=true requires npm.letsencrypt_email to be set and non-empty"@[27]);
}

} // verus!
