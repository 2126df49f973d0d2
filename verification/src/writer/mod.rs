//! The NPM writer: the only component that changes NPM. Its decisions are a
//! state machine: the caller hands it an intent, performs each action it
//! returns against NPM, and hands back what NPM answered.
use vstd::prelude::*;
use crate::cloudflare::{TokenError, TokenResolver, token_for};
use crate::config::ForwardStrategy;
use crate::docker::spec::{ContainerSpec, ContainerSpecView, clone_text_map, scheme_text, text_map};
use crate::intent::Intent;
use crate::keymap::KeyMap;
use crate::npm::NpmError;
use crate::npm::certificates::LetsEncryptRequest;
use crate::npm::meta::{OwnershipMarker, OwnershipMarkerView, decode, decoded, encode, encoded, now_utc, owned_by, owner_is};
use crate::npm::types::{
    CreateProxyHost, PatchValue, PatchValueView, ProxyHost, ProxyHostView, UpdateProxyHost, texts,
};
use crate::text::str_eq;
use crate::writer::diff::{DesiredProxyHost, diff_outcome, diff_spec};
use time::OffsetDateTime;

pub mod diff;
pub mod retry;
pub mod retry_npm;

verus! {

/// What the writer needs from the configuration.
pub struct WriterConfig {
    pub forward_strategy: ForwardStrategy,
    pub host_address: Option<String>,
    pub network: Option<String>,
    pub letsencrypt_email: String,
    pub cleanup_on_remove: bool,
    pub cf_global: Option<String>,
    pub cf_per_domain: KeyMap<String>,
}

/// An optional string seen through its characters.
pub open spec fn opt_text(o: Option<String>) -> Option<Seq<char>> {
    match o {
        Some(s) => Some(s@),
        None => None,
    }
}

/// The address NPM forwards to: the container name; or its IP on the
/// configured network (falling back to the name); or the host address
/// (`host.docker.internal` when none is configured).
pub open spec fn forward_host_of(
    strategy: ForwardStrategy,
    host_address: Option<Seq<char>>,
    network: Option<Seq<char>>,
    spec: ContainerSpecView,
) -> Seq<char> {
    match strategy {
        ForwardStrategy::ContainerName => spec.name,
        ForwardStrategy::ContainerIp => match network {
            Some(n) => if spec.network_aliases.contains_key(n + ":ip"@) {
                spec.network_aliases[n + ":ip"@]
            } else {
                spec.name
            },
            None => spec.name,
        },
        ForwardStrategy::HostPort => match host_address {
            Some(h) => h,
            None => "host.docker.internal"@,
        },
    }
}

/// The address NPM should forward to for `spec` under `cfg`.
pub fn forward_host_for(cfg: &WriterConfig, spec: &ContainerSpec) -> (r: String)
    ensures
        r@ == forward_host_of(cfg.forward_strategy, opt_text(cfg.host_address), opt_text(cfg.network), spec@),
{
    match cfg.forward_strategy {
        ForwardStrategy::ContainerName => spec.name.clone(),
        ForwardStrategy::ContainerIp => match &cfg.network {
            Some(n) => {
                let key = n.clone().concat(":ip");
                match spec.network_aliases.get(key.as_str()) {
                    Some(ip) => ip.clone(),
                    None => spec.name.clone(),
                }
            },
            None => spec.name.clone(),
        },
        ForwardStrategy::HostPort => match &cfg.host_address {
            Some(h) => h.clone(),
            None => String::from_str("host.docker.internal"),
        },
    }
}

/// `h` lists `url` among its domain names.
pub open spec fn serves(h: ProxyHostView, url: Seq<char>) -> bool {
    h.domain_names.contains(url)
}

/// The position of the first host that serves `url`.
pub open spec fn first_serving(hs: Seq<ProxyHostView>, url: Seq<char>) -> Option<int>
    decreases hs.len(),
{
    if hs.len() == 0 {
        None
    } else {
        match first_serving(hs.drop_last(), url) {
            Some(i) => Some(i),
            None => if serves(hs.last(), url) {
                Some(hs.len() - 1)
            } else {
                None
            },
        }
    }
}

/// The position of the first host with id `id`.
pub open spec fn first_with_id(hs: Seq<ProxyHostView>, id: u64) -> Option<int>
    decreases hs.len(),
{
    if hs.len() == 0 {
        None
    } else {
        match first_with_id(hs.drop_last(), id) {
            Some(i) => Some(i),
            None => if hs.last().id == id {
                Some(hs.len() - 1)
            } else {
                None
            },
        }
    }
}

proof fn lemma_first_serving(hs: Seq<ProxyHostView>, url: Seq<char>)
    ensures
        match first_serving(hs, url) {
            Some(i) => 0 <= i < hs.len() && serves(hs[i], url) && forall|j: int| 0 <= j < i ==> !#[trigger] serves(hs[j], url),
            None => forall|j: int| 0 <= j < hs.len() ==> !#[trigger] serves(hs[j], url),
        },
    decreases hs.len(),
{
    if hs.len() > 0 {
        let d = hs.drop_last();
        lemma_first_serving(d, url);
        assert forall|j: int| 0 <= j < hs.len() - 1 implies hs[j] == #[trigger] d[j] by {}
        match first_serving(d, url) {
            Some(i) => {
                assert(hs[i] == d[i]);
                assert forall|j: int| 0 <= j < i implies !#[trigger] serves(hs[j], url) by {
                    assert(hs[j] == d[j]);
                }
            },
            None => {
                assert(hs[hs.len() - 1] == hs.last());
                assert forall|j: int| 0 <= j < hs.len() - 1 implies !#[trigger] serves(hs[j], url) by {
                    assert(hs[j] == d[j]);
                }
            },
        }
    }
}

proof fn lemma_first_with_id(hs: Seq<ProxyHostView>, id: u64)
    ensures
        match first_with_id(hs, id) {
            Some(i) => 0 <= i < hs.len() && hs[i].id == id && forall|j: int| 0 <= j < i ==> (#[trigger] hs[j]).id != id,
            None => forall|j: int| 0 <= j < hs.len() ==> (#[trigger] hs[j]).id != id,
        },
    decreases hs.len(),
{
    if hs.len() > 0 {
        let d = hs.drop_last();
        lemma_first_with_id(d, id);
        assert forall|j: int| 0 <= j < hs.len() - 1 implies hs[j] == #[trigger] d[j] by {}
        match first_with_id(d, id) {
            Some(i) => {
                assert(hs[i] == d[i]);
                assert forall|j: int| 0 <= j < i implies (#[trigger] hs[j]).id != id by {
                    assert(hs[j] == d[j]);
                }
            },
            None => {
                assert(hs[hs.len() - 1] == hs.last());
                assert forall|j: int| 0 <= j < hs.len() - 1 implies (#[trigger] hs[j]).id != id by {
                    assert(hs[j] == d[j]);
                }
            },
        }
    }
}

/// What to do with the hosts NPM lists for an upsert.
#[derive(Debug, PartialEq, Eq)]
pub enum UpsertPlan {
    /// A host serves the url but is not this container's: leave it.
    Conflict { host_id: u64 },
    /// This container's host differs from its spec: patch it.
    Update { host_id: u64, patch: UpdateProxyHost },
    /// This container's host already matches its spec.
    Unchanged { host_id: u64 },
    /// No host serves the url: create one.
    Create,
}

/// The content of an [`UpsertPlan`].
pub enum UpsertPlanView {
    Conflict { host_id: u64 },
    Update { host_id: u64, patch: Map<Seq<char>, PatchValueView> },
    Unchanged { host_id: u64 },
    Create,
}

impl View for UpsertPlan {
    type V = UpsertPlanView;

    open spec fn view(&self) -> UpsertPlanView {
        match self {
            UpsertPlan::Conflict { host_id } => UpsertPlanView::Conflict { host_id: *host_id },
            UpsertPlan::Update { host_id, patch } => UpsertPlanView::Update { host_id: *host_id, patch: patch@ },
            UpsertPlan::Unchanged { host_id } => UpsertPlanView::Unchanged { host_id: *host_id },
            UpsertPlan::Create => UpsertPlanView::Create,
        }
    }
}

/// The upsert decision: the first host serving the url decides; a host whose
/// marker names another container (or none) is never touched.
pub open spec fn upsert_plan(
    hs: Seq<ProxyHostView>,
    container_id: Seq<char>,
    spec: ContainerSpecView,
    fh: Seq<char>,
) -> UpsertPlanView {
    match first_serving(hs, spec.url) {
        None => UpsertPlanView::Create,
        Some(i) => if !owner_is(hs[i].meta, container_id) {
            UpsertPlanView::Conflict { host_id: hs[i].id }
        } else {
            match diff_outcome(hs[i], spec, fh) {
                Some(p) => UpsertPlanView::Update { host_id: hs[i].id, patch: p },
                None => UpsertPlanView::Unchanged { host_id: hs[i].id },
            }
        },
    }
}

/// The views of a list of hosts.
pub open spec fn hosts_view(hs: Seq<ProxyHost>) -> Seq<ProxyHostView> {
    hs.map_values(|h: ProxyHost| h@)
}

fn serves_url(h: &ProxyHost, url: &str) -> (b: bool)
    ensures
        b == serves(h@, url@),
{
    let n = h.domain_names.len();
    let mut i: usize = 0;
    while i < n
        invariant
            n == h.domain_names@.len(),
            i <= n,
            forall|j: int| 0 <= j < i ==> h.domain_names@[j]@ != url@,
        decreases n - i,
    {
        if str_eq(h.domain_names[i].as_str(), url) {
            proof {
                assert(h@.domain_names[i as int] == url@);
            }
            return true;
        }
        i = i + 1;
    }
    proof {
        if serves(h@, url@) {
            let j = choose|j: int| 0 <= j < h@.domain_names.len() && h@.domain_names[j] == url@;
            assert(h.domain_names@[j]@ == url@);
        }
    }
    false
}

/// Decides what an upsert does with the hosts NPM listed.
pub fn plan_upsert(hosts: &[ProxyHost], container_id: &str, spec: &ContainerSpec, forward_host: &str) -> (r: UpsertPlan)
    ensures
        r@ == upsert_plan(hosts_view(hosts@), container_id@, spec@, forward_host@),
{
    let ghost hs = hosts_view(hosts@);
    proof {
        lemma_first_serving(hs, spec@.url);
    }
    let n = hosts.len();
    let mut i: usize = 0;
    while i < n
        invariant
            n == hosts@.len(),
            hs == hosts_view(hosts@),
            i <= n,
            forall|j: int| 0 <= j < i ==> !#[trigger] serves(hs[j], spec@.url),
        decreases n - i,
    {
        if serves_url(&hosts[i], spec.url.as_str()) {
            let h = &hosts[i];
            proof {
                assert(hs[i as int] == h@);
                lemma_first_serving(hs, spec@.url);
                match first_serving(hs, spec@.url) {
                    Some(k) => {
                        if k < i {
                            assert(!serves(hs[k], spec@.url));
                        }
                        if k > i {
                            assert(!serves(hs[i as int], spec@.url));
                        }
                    },
                    None => {
                        assert(!serves(hs[i as int], spec@.url));
                    },
                }
                assert(first_serving(hs, spec@.url) == Some(i as int));
            }
            if !owned_by(&h.meta, container_id) {
                return UpsertPlan::Conflict { host_id: h.id };
            }
            let desired = DesiredProxyHost { spec, forward_host };
            return match diff_spec(h, &desired) {
                Some(patch) => UpsertPlan::Update { host_id: h.id, patch },
                None => UpsertPlan::Unchanged { host_id: h.id },
            };
        }
        i = i + 1;
    }
    proof {
        lemma_first_serving(hs, spec@.url);
        if let Some(k) = first_serving(hs, spec@.url) {
            assert(!serves(hs[k], spec@.url));
        }
    }
    UpsertPlan::Create
}

/// What to do with the hosts NPM lists for a removal.
#[derive(Debug, Clone, Copy, PartialEq, Eq, Structural)]
pub enum RemovalPlan {
    /// The cached host no longer exists: forget it.
    HostGone,
    /// The host carries no marker: refuse to delete it.
    NoMarker,
    /// The host's marker names another container: refuse to delete it.
    OtherOwner,
    /// The host is this container's: delete it.
    Delete,
}

/// The removal decision for cached host `host_id` of container `container_id`.
pub open spec fn removal_plan(hs: Seq<ProxyHostView>, container_id: Seq<char>, host_id: u64) -> RemovalPlan {
    match first_with_id(hs, host_id) {
        None => RemovalPlan::HostGone,
        Some(i) => match decoded(hs[i].meta) {
            None => RemovalPlan::NoMarker,
            Some(m) => if m.container_id != container_id {
                RemovalPlan::OtherOwner
            } else {
                RemovalPlan::Delete
            },
        },
    }
}

/// Decides what a removal does with the hosts NPM listed.
pub fn plan_removal(hosts: &[ProxyHost], container_id: &str, host_id: u64) -> (r: RemovalPlan)
    ensures
        r == removal_plan(hosts_view(hosts@), container_id@, host_id),
{
    let ghost hs = hosts_view(hosts@);
    proof {
        lemma_first_with_id(hs, host_id);
    }
    let n = hosts.len();
    let mut i: usize = 0;
    while i < n
        invariant
            n == hosts@.len(),
            hs == hosts_view(hosts@),
            i <= n,
            forall|j: int| 0 <= j < i ==> (#[trigger] hs[j]).id != host_id,
        decreases n - i,
    {
        if hosts[i].id == host_id {
            let h = &hosts[i];
            proof {
                assert(hs[i as int] == h@);
                lemma_first_with_id(hs, host_id);
                match first_with_id(hs, host_id) {
                    Some(k) => {
                        if k > i {
                            assert(hs[i as int].id != host_id);
                        }
                    },
                    None => {
                        assert(hs[i as int].id != host_id);
                    },
                }
            }
            return match decode(&h.meta) {
                None => RemovalPlan::NoMarker,
                Some(m) => if !str_eq(m.container_id.as_str(), container_id) {
                    RemovalPlan::OtherOwner
                } else {
                    RemovalPlan::Delete
                },
            };
        }
        i = i + 1;
    }
    proof {
        lemma_first_with_id(hs, host_id);
        if let Some(k) = first_with_id(hs, host_id) {
            assert(hs[k].id != host_id);
        }
    }
    RemovalPlan::HostGone
}

/// The marker stamped into a newly created host.
pub open spec fn new_marker(container_id: Seq<char>, container_name: Seq<char>, t: OffsetDateTime) -> OwnershipMarkerView {
    OwnershipMarkerView { version: 1, container_id, container_name, managed_at: t }
}

/// The host that is created for a container: it forwards as the spec asks,
/// has no certificate yet, and carries a fresh marker (stamped at `t`).
pub open spec fn created_host(
    container_id: Seq<char>,
    spec: ContainerSpecView,
    fh: Seq<char>,
    t: OffsetDateTime,
    body: crate::npm::types::CreateProxyHostView,
) -> bool {
    &&& body.domain_names == seq![spec.url]
    &&& body.forward_scheme == scheme_text(spec.scheme)
    &&& body.forward_host == fh
    &&& body.forward_port == spec.port
    &&& body.allow_websocket_upgrade == spec.websockets
    &&& body.block_exploits == spec.block_exploits
    &&& !body.caching_enabled
    &&& body.meta == encoded(new_marker(container_id, spec.name, t), None)
    &&& body.certificate_id == 0
    &&& !body.ssl_forced
    &&& body.access_list_id == 0
}

/// The creation request for a container's host, stamped with the current time.
pub fn create_request(container_id: &str, spec: &ContainerSpec, forward_host: String) -> (r: CreateProxyHost)
    ensures
        exists|t: OffsetDateTime| created_host(container_id@, spec@, forward_host@, t, r@),
        r@.domain_names == seq![spec@.url],
        r@.forward_scheme == scheme_text(spec@.scheme),
        r@.forward_host == forward_host@,
        r@.forward_port == spec@.port,
        r@.allow_websocket_upgrade == spec@.websockets,
        r@.block_exploits == spec@.block_exploits,
        owner_is(r@.meta, container_id@),
        decoded(r@.meta) matches Some(m) && m.container_name == spec@.name,
{
    let marker = OwnershipMarker {
        version: 1,
        container_id: String::from_str(container_id),
        container_name: spec.name.clone(),
        managed_at: now_utc(),
    };
    let meta = encode(&marker, None);
    let mut names: Vec<String> = Vec::new();
    names.push(spec.url.clone());
    proof {
        assert(texts(names@) =~= seq![spec@.url]);
    }
    let r = CreateProxyHost {
        domain_names: names,
        forward_scheme: spec.scheme.as_forward_scheme(),
        forward_host,
        forward_port: spec.port,
        allow_websocket_upgrade: spec.websockets,
        block_exploits: spec.block_exploits,
        caching_enabled: false,
        meta,
        certificate_id: 0,
        ssl_forced: false,
        access_list_id: 0,
    };
    proof {
        assert(created_host(container_id@, spec@, forward_host@, marker.managed_at, r@));
        crate::npm::meta::lemma_decode_encode(marker@, None);
    }
    r
}

/// Where the writer is in handling one intent.
#[derive(Debug)]
pub enum Pending {
    /// No intent in progress.
    Idle,
    /// Upsert: waiting for the list of hosts.
    Listing { container_id: String, spec: ContainerSpec, forward_host: String },
    /// Upsert: waiting for the patch of this container's host.
    Updating { container_id: String, host_id: u64 },
    /// Upsert: waiting for the new host.
    Creating { container_id: String, url: String, ssl: bool },
    /// Upsert: waiting for the certificate of the new host.
    Certifying { host_id: u64 },
    /// Upsert: waiting for the certificate to be attached.
    Attaching,
    /// Remove: waiting for the list of hosts.
    RemoveListing { container_id: String, host_id: u64 },
    /// Remove: waiting for the deletion.
    Deleting { container_id: String, host_id: u64 },
}

/// What NPM answered to the last action.
#[derive(Debug)]
pub enum WriterEvent {
    HostsListed(Vec<ProxyHost>),
    HostCreated(ProxyHost),
    HostUpdated,
    CertificateIssued(u64),
    HostDeleted,
    /// The call failed for good (after its retries).
    CallFailed(NpmError),
}

/// How an intent ended.
#[derive(Debug, PartialEq, Eq)]
pub enum WriterOutcome {
    /// The intent was carried out.
    Done,
    /// The url is served by a host this container does not own; left alone.
    Conflict { host_id: u64 },
    /// The host was created but no Cloudflare token covers its domain, so no
    /// certificate was ordered.
    NoCertificateToken(TokenError),
    /// Removal is switched off.
    CleanupDisabled,
    /// The container has no known host.
    NotTracked,
    /// The cached host no longer exists; it was forgotten.
    HostGone,
    /// The host carries no marker; refused to delete it.
    NotOwned { host_id: u64 },
    /// The host's marker names another container; refused to delete it.
    OwnerMismatch { host_id: u64 },
    /// An NPM call failed.
    Failed(NpmError),
    /// An answer came that the writer was not waiting for.
    Unexpected,
}

/// The next thing the caller does.
#[derive(Debug)]
pub enum WriterAction {
    ListHosts,
    CreateHost(CreateProxyHost),
    UpdateHost { host_id: u64, patch: UpdateProxyHost },
    RequestCertificate(LetsEncryptRequest),
    DeleteHost { host_id: u64 },
    /// The intent is over.
    Finished(WriterOutcome),
}

/// The writer's state: its configuration, the hosts it knows it owns
/// (container id to host id), its Cloudflare tokens, and the intent in
/// progress.
pub struct Writer {
    pub cfg: WriterConfig,
    pub cache: KeyMap<u64>,
    pub cf: TokenResolver,
    pub pending: Pending,
}

/// The cache built from the hosts NPM lists at start: every host carrying a
/// marker is recorded under the marker's container (a later host wins).
pub open spec fn seeded(cache: Map<Seq<char>, u64>, hs: Seq<ProxyHostView>) -> Map<Seq<char>, u64>
    decreases hs.len(),
{
    if hs.len() == 0 {
        cache
    } else {
        let before = seeded(cache, hs.drop_last());
        match decoded(hs.last().meta) {
            Some(m) => before.insert(m.container_id, hs.last().id),
            None => before,
        }
    }
}

/// The patch that attaches certificate `cert_id` and forces SSL.
pub open spec fn certificate_patch(cert_id: u64) -> Map<Seq<char>, PatchValueView> {
    Map::empty().insert("certificate_id"@, PatchValueView::Number(cert_id)).insert(
        "ssl_forced"@,
        PatchValueView::Flag(true),
    )
}

/// The certbot credentials that carry Cloudflare token `t`.
pub open spec fn cloudflare_credentials(t: Seq<char>) -> Seq<char> {
    "dns_cloudflare_api_token = "@ + t + "\n"@
}

impl Writer {
    /// A writer with an empty cache and no intent in progress.
    pub fn new(cfg: WriterConfig) -> (w: Self)
        ensures
            w.cfg == cfg,
            w.cache@ == Map::<Seq<char>, u64>::empty(),
            w.pending is Idle,
            w.cf.tokens() == text_map(cfg.cf_per_domain@),
            w.cf.fallback() == opt_text(cfg.cf_global),
    {
        let cf = TokenResolver::new(cfg.cf_global.clone(), clone_text_map(&cfg.cf_per_domain));
        Writer { cfg, cache: KeyMap::new(), cf, pending: Pending::Idle }
    }

    /// Records the owner of every marked host NPM listed.
    pub fn seed_cache(&mut self, hosts: &[ProxyHost])
        ensures
            final(self).cache@ == seeded(old(self).cache@, hosts_view(hosts@)),
            final(self).cfg == old(self).cfg,
            final(self).cf == old(self).cf,
            final(self).pending == old(self).pending,
    {
        let ghost start = self.cache@;
        let ghost hs = hosts_view(hosts@);
        let n = hosts.len();
        let mut i: usize = 0;
        while i < n
            invariant
                n == hosts@.len(),
                hs == hosts_view(hosts@),
                i <= n,
                self.cache@ == seeded(start, hs.take(i as int)),
                self.cfg == old(self).cfg,
                self.cf == old(self).cf,
                self.pending == old(self).pending,
            decreases n - i,
        {
            proof {
                assert(hs.take(i + 1).drop_last() =~= hs.take(i as int));
                assert(hs.take(i + 1).last() == hosts@[i as int]@);
            }
            if let Some(m) = decode(&hosts[i].meta) {
                self.cache.insert(m.container_id, hosts[i].id);
            }
            i = i + 1;
        }
        proof {
            assert(hs.take(n as int) =~= hs);
        }
    }

    /// Starts handling an intent.
    pub fn handle(&mut self, intent: Intent) -> (a: WriterAction)
        ensures
            final(self).cfg == old(self).cfg,
            final(self).cf == old(self).cf,
            final(self).cache@ == old(self).cache@,
            match intent {
                Intent::Upsert { container_id, spec } => {
                    &&& a is ListHosts
                    &&& final(self).pending matches Pending::Listing { container_id: c, spec: s, forward_host: fh }
                    &&& c@ == container_id@
                    &&& s@ == spec@
                    &&& fh@ == forward_host_of(
                        old(self).cfg.forward_strategy,
                        opt_text(old(self).cfg.host_address),
                        opt_text(old(self).cfg.network),
                        spec@,
                    )
                },
                Intent::Remove { container_id } => if !old(self).cfg.cleanup_on_remove {
                    a == WriterAction::Finished(WriterOutcome::CleanupDisabled) && final(self).pending is Idle
                } else if !old(self).cache@.contains_key(container_id@) {
                    a == WriterAction::Finished(WriterOutcome::NotTracked) && final(self).pending is Idle
                } else {
                    &&& a is ListHosts
                    &&& final(self).pending matches Pending::RemoveListing { container_id: c, host_id }
                    &&& c@ == container_id@
                    &&& host_id == old(self).cache@[container_id@]
                },
            },
    {
        match intent {
            Intent::Upsert { container_id, spec } => {
                let forward_host = forward_host_for(&self.cfg, &spec);
                self.pending = Pending::Listing { container_id, spec, forward_host };
                WriterAction::ListHosts
            },
            Intent::Remove { container_id } => {
                if !self.cfg.cleanup_on_remove {
                    self.pending = Pending::Idle;
                    return WriterAction::Finished(WriterOutcome::CleanupDisabled);
                }
                match self.cache.get(container_id.as_str()) {
                    Some(id) => {
                        let host_id = *id;
                        self.pending = Pending::RemoveListing { container_id, host_id };
                        WriterAction::ListHosts
                    },
                    None => {
                        self.pending = Pending::Idle;
                        WriterAction::Finished(WriterOutcome::NotTracked)
                    },
                }
            },
        }
    }
}

/// An answer the writer was not waiting for ends the intent.
pub open spec fn unexpected(w: Writer, w2: Writer, a: WriterAction) -> bool {
    &&& a == WriterAction::Finished(WriterOutcome::Unexpected)
    &&& w2.pending is Idle
    &&& w2.cache@ == w.cache@
}

/// The intent ended with `outcome`, leaving the cache as `cache`.
pub open spec fn finished(w2: Writer, a: WriterAction, outcome: WriterOutcome, cache: Map<Seq<char>, u64>) -> bool {
    &&& a == WriterAction::Finished(outcome)
    &&& w2.pending is Idle
    &&& w2.cache@ == cache
}

/// The step from `w` to `w2` on `event`, returning `a`.
pub open spec fn stepped(w: Writer, event: WriterEvent, w2: Writer, a: WriterAction) -> bool {
    &&& w2.cfg == w.cfg
    &&& w2.cf == w.cf
    &&& match event {
        WriterEvent::CallFailed(e) => finished(w2, a, WriterOutcome::Failed(e), w.cache@),
        _ => match w.pending {
            Pending::Listing { container_id, spec, forward_host } => match event {
                WriterEvent::HostsListed(hosts) => match upsert_plan(hosts_view(hosts@), container_id@, spec@, forward_host@) {
                    UpsertPlanView::Conflict { host_id } => finished(w2, a, WriterOutcome::Conflict { host_id }, w.cache@),
                    UpsertPlanView::Update { host_id, patch } => {
                        &&& a matches WriterAction::UpdateHost { host_id: h, patch: p }
                        &&& h == host_id
                        &&& p@ == patch
                        &&& w2.pending matches Pending::Updating { container_id: c, host_id: h2 }
                        &&& c@ == container_id@
                        &&& h2 == host_id
                        &&& w2.cache@ == w.cache@
                    },
                    UpsertPlanView::Unchanged { host_id } => finished(
                        w2,
                        a,
                        WriterOutcome::Done,
                        w.cache@.insert(container_id@, host_id),
                    ),
                    UpsertPlanView::Create => {
                        &&& a matches WriterAction::CreateHost(body)
                        &&& exists|t: OffsetDateTime| created_host(container_id@, spec@, forward_host@, t, body@)
                        &&& w2.pending matches Pending::Creating { container_id: c, url, ssl }
                        &&& c@ == container_id@
                        &&& url@ == spec@.url
                        &&& ssl == spec@.ssl
                        &&& w2.cache@ == w.cache@
                    },
                },
                _ => unexpected(w, w2, a),
            },
            Pending::Updating { container_id, host_id } => match event {
                WriterEvent::HostUpdated => finished(w2, a, WriterOutcome::Done, w.cache@.insert(container_id@, host_id)),
                _ => unexpected(w, w2, a),
            },
            Pending::Creating { container_id, url, ssl } => match event {
                WriterEvent::HostCreated(h) => if !ssl {
                    finished(w2, a, WriterOutcome::Done, w.cache@.insert(container_id@, h.id))
                } else {
                    match token_for(w.cf.tokens(), w.cf.fallback(), url@) {
                        None => {
                            &&& a matches WriterAction::Finished(WriterOutcome::NoCertificateToken(TokenError::NotFound(d)))
                            &&& d@ == url@
                            &&& w2.pending is Idle
                            &&& w2.cache@ == w.cache@.insert(container_id@, h.id)
                        },
                        Some(t) => {
                            &&& a matches WriterAction::RequestCertificate(req)
                            &&& req.domain@ == url@
                            &&& req.letsencrypt_email@ == w.cfg.letsencrypt_email@
                            &&& req.dns_provider_credentials@ == cloudflare_credentials(t)
                            &&& w2.pending == Pending::Certifying { host_id: h.id }
                            &&& w2.cache@ == w.cache@.insert(container_id@, h.id)
                        },
                    }
                },
                _ => unexpected(w, w2, a),
            },
            Pending::Certifying { host_id } => match event {
                WriterEvent::CertificateIssued(cert_id) => {
                    &&& a matches WriterAction::UpdateHost { host_id: h, patch }
                    &&& h == host_id
                    &&& patch@ == certificate_patch(cert_id)
                    &&& w2.pending is Attaching
                    &&& w2.cache@ == w.cache@
                },
                _ => unexpected(w, w2, a),
            },
            Pending::Attaching => match event {
                WriterEvent::HostUpdated => finished(w2, a, WriterOutcome::Done, w.cache@),
                _ => unexpected(w, w2, a),
            },
            Pending::RemoveListing { container_id, host_id } => match event {
                WriterEvent::HostsListed(hosts) => match removal_plan(hosts_view(hosts@), container_id@, host_id) {
                    RemovalPlan::HostGone => finished(w2, a, WriterOutcome::HostGone, w.cache@.remove(container_id@)),
                    RemovalPlan::NoMarker => finished(w2, a, WriterOutcome::NotOwned { host_id }, w.cache@),
                    RemovalPlan::OtherOwner => finished(w2, a, WriterOutcome::OwnerMismatch { host_id }, w.cache@),
                    RemovalPlan::Delete => {
                        &&& a == WriterAction::DeleteHost { host_id }
                        &&& w2.pending matches Pending::Deleting { container_id: c, host_id: h }
                        &&& c@ == container_id@
                        &&& h == host_id
                        &&& w2.cache@ == w.cache@
                    },
                },
                _ => unexpected(w, w2, a),
            },
            Pending::Deleting { container_id, host_id } => match event {
                WriterEvent::HostDeleted => finished(w2, a, WriterOutcome::Done, w.cache@.remove(container_id@)),
                _ => unexpected(w, w2, a),
            },
            Pending::Idle => unexpected(w, w2, a),
        },
    }
}

impl Writer {
    /// The credentials snippet certbot reads for Cloudflare.
    fn credentials(token: &str) -> (r: String)
        ensures
            r@ == cloudflare_credentials(token@),
    {
        String::from_str("dns_cloudflare_api_token = ").concat(token).concat("\n")
    }

    fn certificate_update(cert_id: u64) -> (p: UpdateProxyHost)
        ensures
            p@ == certificate_patch(cert_id),
    {
        let mut m: KeyMap<PatchValue> = KeyMap::new();
        m.insert(String::from_str("certificate_id"), PatchValue::Number(cert_id));
        m.insert(String::from_str("ssl_forced"), PatchValue::Flag(true));
        let p = UpdateProxyHost(m);
        proof {
            assert(p@ =~= certificate_patch(cert_id));
        }
        p
    }

    fn finish(&mut self, outcome: WriterOutcome) -> (a: WriterAction)
        ensures
            a == WriterAction::Finished(outcome),
            final(self).pending is Idle,
            final(self).cache == old(self).cache,
            final(self).cfg == old(self).cfg,
            final(self).cf == old(self).cf,
    {
        self.pending = Pending::Idle;
        WriterAction::Finished(outcome)
    }

    /// Takes NPM's answer to the last action and returns the next action.
    pub fn step(&mut self, event: WriterEvent) -> (a: WriterAction)
        ensures
            stepped(*old(self), event, *final(self), a),
    {
        let mut pending = Pending::Idle;
        std::mem::swap(&mut pending, &mut self.pending);
        let ghost w = *old(self);
        let event = match event {
            WriterEvent::CallFailed(e) => return self.finish(WriterOutcome::Failed(e)),
            other => other,
        };
        match pending {
            Pending::Listing { container_id, spec, forward_host } => match event {
                WriterEvent::HostsListed(hosts) => match plan_upsert(hosts.as_slice(), container_id.as_str(), &spec, forward_host.as_str()) {
                    UpsertPlan::Conflict { host_id } => self.finish(WriterOutcome::Conflict { host_id }),
                    UpsertPlan::Update { host_id, patch } => {
                        self.pending = Pending::Updating { container_id, host_id };
                        WriterAction::UpdateHost { host_id, patch }
                    },
                    UpsertPlan::Unchanged { host_id } => {
                        self.cache.insert(container_id, host_id);
                        self.finish(WriterOutcome::Done)
                    },
                    UpsertPlan::Create => {
                        let body = create_request(container_id.as_str(), &spec, forward_host);
                        self.pending = Pending::Creating { container_id, url: spec.url, ssl: spec.ssl };
                        WriterAction::CreateHost(body)
                    },
                },
                _ => self.finish(WriterOutcome::Unexpected),
            },
            Pending::Updating { container_id, host_id } => match event {
                WriterEvent::HostUpdated => {
                    self.cache.insert(container_id, host_id);
                    self.finish(WriterOutcome::Done)
                },
                _ => self.finish(WriterOutcome::Unexpected),
            },
            Pending::Creating { container_id, url, ssl } => match event {
                WriterEvent::HostCreated(created) => {
                    self.cache.insert(container_id, created.id);
                    if !ssl {
                        return self.finish(WriterOutcome::Done);
                    }
                    match self.cf.for_domain(url.as_str()) {
                        Ok(token) => {
                            let req = LetsEncryptRequest {
                                domain: url,
                                letsencrypt_email: self.cfg.letsencrypt_email.clone(),
                                dns_provider_credentials: Writer::credentials(token),
                            };
                            self.pending = Pending::Certifying { host_id: created.id };
                            WriterAction::RequestCertificate(req)
                        },
                        Err(e) => self.finish(WriterOutcome::NoCertificateToken(e)),
                    }
                },
                _ => self.finish(WriterOutcome::Unexpected),
            },
            Pending::Certifying { host_id } => match event {
                WriterEvent::CertificateIssued(cert_id) => {
                    self.pending = Pending::Attaching;
                    WriterAction::UpdateHost { host_id, patch: Writer::certificate_update(cert_id) }
                },
                _ => self.finish(WriterOutcome::Unexpected),
            },
            Pending::Attaching => match event {
                WriterEvent::HostUpdated => self.finish(WriterOutcome::Done),
                _ => self.finish(WriterOutcome::Unexpected),
            },
            Pending::RemoveListing { container_id, host_id } => match event {
                WriterEvent::HostsListed(hosts) => match plan_removal(hosts.as_slice(), container_id.as_str(), host_id) {
                    RemovalPlan::HostGone => {
                        self.cache.remove(container_id.as_str());
                        self.finish(WriterOutcome::HostGone)
                    },
                    RemovalPlan::NoMarker => self.finish(WriterOutcome::NotOwned { host_id }),
                    RemovalPlan::OtherOwner => self.finish(WriterOutcome::OwnerMismatch { host_id }),
                    RemovalPlan::Delete => {
                        self.pending = Pending::Deleting { container_id, host_id };
                        WriterAction::DeleteHost { host_id }
                    },
                },
                _ => self.finish(WriterOutcome::Unexpected),
            },
            Pending::Deleting { container_id, host_id } => match event {
                WriterEvent::HostDeleted => {
                    self.cache.remove(container_id.as_str());
                    self.finish(WriterOutcome::Done)
                },
                _ => self.finish(WriterOutcome::Unexpected),
            },
            Pending::Idle => self.finish(WriterOutcome::Unexpected),
        }
    }
}

/// A deletion is only ever planned for the host with the cached id, and only
/// when that host's marker names the container being removed.
pub proof fn lemma_delete_only_owned_host(hs: Seq<ProxyHostView>, container_id: Seq<char>, host_id: u64)
    requires
        removal_plan(hs, container_id, host_id) == RemovalPlan::Delete,
    ensures
        exists|i: int| 0 <= i < hs.len() && hs[i].id == host_id && #[trigger] owner_is(hs[i].meta, container_id),
{
    lemma_first_with_id(hs, host_id);
    let i = first_with_id(hs, host_id)->0;
    assert(owner_is(hs[i].meta, container_id));
}

/// An upsert only patches or records a host whose marker names the
/// container; a host serving the url for anyone else is a conflict and is
/// left alone.
pub proof fn lemma_upsert_only_touches_owned_host(
    hs: Seq<ProxyHostView>,
    container_id: Seq<char>,
    spec: ContainerSpecView,
    fh: Seq<char>,
)
    ensures
        match upsert_plan(hs, container_id, spec, fh) {
            UpsertPlanView::Update { host_id, .. } | UpsertPlanView::Unchanged { host_id } => exists|i: int|
                0 <= i < hs.len() && hs[i].id == host_id && serves(hs[i], spec.url) && #[trigger] owner_is(
                    hs[i].meta,
                    container_id,
                ),
            UpsertPlanView::Conflict { host_id } => exists|i: int|
                0 <= i < hs.len() && hs[i].id == host_id && serves(hs[i], spec.url) && !#[trigger] owner_is(
                    hs[i].meta,
                    container_id,
                ),
            UpsertPlanView::Create => forall|i: int| 0 <= i < hs.len() ==> !#[trigger] serves(hs[i], spec.url),
        },
{
    lemma_first_serving(hs, spec.url);
}

/// An owned host that already forwards as asked is left unchanged.
pub proof fn lemma_matching_host_unchanged(
    hs: Seq<ProxyHostView>,
    container_id: Seq<char>,
    spec: ContainerSpecView,
    fh: Seq<char>,
    i: int,
)
    requires
        first_serving(hs, spec.url) == Some(i),
        owner_is(hs[i].meta, container_id),
        crate::writer::diff::host_matches(hs[i], spec, fh),
    ensures
        upsert_plan(hs, container_id, spec, fh) == (UpsertPlanView::Unchanged { host_id: hs[i].id }),
{
    crate::writer::diff::lemma_no_patch_iff_matching(hs[i], spec, fh);
}

/// Every host the writer creates carries a marker naming its container.
pub proof fn lemma_created_host_is_marked(
    container_id: Seq<char>,
    spec: ContainerSpecView,
    fh: Seq<char>,
    t: OffsetDateTime,
    body: crate::npm::types::CreateProxyHostView,
)
    requires
        created_host(container_id, spec, fh, t, body),
    ensures
        decoded(body.meta) == Some(new_marker(container_id, spec.name, t)),
        owner_is(body.meta, container_id),
{
    crate::npm::meta::lemma_decode_encode(new_marker(container_id, spec.name, t), None);
}

/// Seeding records every marked host under its marker's container, and
/// records nothing else: the cache can always be rebuilt from NPM alone.
pub proof fn lemma_seeded_cache(hs: Seq<ProxyHostView>)
    ensures
        forall|i: int| 0 <= i < hs.len() && (#[trigger] decoded(hs[i].meta)) is Some ==> seeded(
            Map::empty(),
            hs,
        ).contains_key(decoded(hs[i].meta)->0.container_id),
        forall|k: Seq<char>| #[trigger] seeded(Map::empty(), hs).contains_key(k) ==> exists|i: int|
            0 <= i < hs.len() && hs[i].id == seeded(Map::empty(), hs)[k] && #[trigger] owner_is(hs[i].meta, k),
    decreases hs.len(),
{
    if hs.len() > 0 {
        let d = hs.drop_last();
        lemma_seeded_cache(d);
        let before = seeded(Map::empty(), d);
        let after = seeded(Map::empty(), hs);
        assert forall|i: int| 0 <= i < hs.len() && (#[trigger] decoded(hs[i].meta)) is Some implies after.contains_key(
            decoded(hs[i].meta)->0.container_id,
        ) by {
            if i < hs.len() - 1 {
                assert(hs[i] == d[i]);
                assert(decoded(d[i].meta) is Some);
            } else {
                assert(hs[i] == hs.last());
            }
        }
        assert forall|k: Seq<char>| #[trigger] after.contains_key(k) implies exists|i: int|
            0 <= i < hs.len() && hs[i].id == after[k] && #[trigger] owner_is(hs[i].meta, k) by {
            let last = hs.len() - 1;
            assert(hs[last] == hs.last());
            match decoded(hs.last().meta) {
                Some(m) => {
                    if k == m.container_id {
                        assert(owner_is(hs[last].meta, k));
                    } else {
                        assert(before.contains_key(k));
                        let i = choose|i: int| 0 <= i < d.len() && d[i].id == before[k] && #[trigger] owner_is(d[i].meta, k);
                        assert(hs[i] == d[i]);
                        assert(owner_is(hs[i].meta, k));
                    }
                },
                None => {
                    let i = choose|i: int| 0 <= i < d.len() && d[i].id == before[k] && #[trigger] owner_is(d[i].meta, k);
                    assert(hs[i] == d[i]);
                    assert(owner_is(hs[i].meta, k));
                },
            }
        }
    }
}

/// When NPM lists no host serving the url of an upsert, the writer creates
/// one that forwards exactly as the spec asks (scheme, address, port,
/// websockets, block-exploits, the url as its only domain) and carries a
/// marker naming the container; the intent goes on to wait for the new host.
pub proof fn lemma_writer_creates_host_as_asked(w: Writer, hosts: Vec<ProxyHost>, w2: Writer, a: WriterAction)
    requires
        w.pending is Listing,
        stepped(w, WriterEvent::HostsListed(hosts), w2, a),
        forall|j: int| 0 <= j < hosts@.len() ==> !(#[trigger] hosts@[j]@.domain_names.contains(w.pending->spec@.url)),
    ensures
        a matches WriterAction::CreateHost(body) && {
            let spec = w.pending->spec@;
            &&& body@.domain_names == seq![spec.url]
            &&& body@.forward_scheme == scheme_text(spec.scheme)
            &&& body@.forward_host == w.pending->forward_host@
            &&& body@.forward_port == spec.port
            &&& body@.allow_websocket_upgrade == spec.websockets
            &&& body@.block_exploits == spec.block_exploits
            &&& owner_is(body@.meta, w.pending->Listing_container_id@)
        },
        w2.pending is Creating,
{
    let hs = hosts_view(hosts@);
    let spec = w.pending->spec@;
    lemma_first_serving(hs, spec.url);
    if let Some(i) = first_serving(hs, spec.url) {
        assert(hs[i] == hosts@[i]@);
        assert(!hosts@[i]@.domain_names.contains(spec.url));
    }
    assert(upsert_plan(hs, w.pending->Listing_container_id@, spec, w.pending->forward_host@) == UpsertPlanView::Create);
    if let WriterAction::CreateHost(body) = a {
        let t = choose|t: OffsetDateTime| created_host(w.pending->Listing_container_id@, spec, w.pending->forward_host@, t, body@);
        lemma_created_host_is_marked(w.pending->Listing_container_id@, spec, w.pending->forward_host@, t, body@);
    }
}

/// Where NPM forwards: by container name, the container's name; by container
/// IP, its IP on the configured network when known, else its name; by host
/// port, the configured host address, else `host.docker.internal`.
pub proof fn lemma_forward_host_rules(
    host_address: Option<Seq<char>>,
    network: Option<Seq<char>>,
    spec: ContainerSpecView,
)
    ensures
        forward_host_of(ForwardStrategy::ContainerName, host_address, network, spec) == spec.name,
        network is Some && spec.network_aliases.contains_key(network->0 + ":ip"@) ==> forward_host_of(
            ForwardStrategy::ContainerIp,
            host_address,
            network,
            spec,
        ) == spec.network_aliases[network->0 + ":ip"@],
        (network is None || !spec.network_aliases.contains_key(network->0 + ":ip"@)) ==> forward_host_of(
            ForwardStrategy::ContainerIp,
            host_address,
            network,
            spec,
        ) == spec.name,
        host_address is Some ==> forward_host_of(ForwardStrategy::HostPort, host_address, network, spec)
            == host_address->0,
        host_address is None ==> forward_host_of(ForwardStrategy::HostPort, host_address, network, spec)
            == "host.docker.internal"@,
{
}

/// A removal deletes the cached host when NPM still lists it and its marker
/// names the container, and forgets it when NPM no longer lists it.
pub proof fn lemma_removal_of_owned_host(hs: Seq<ProxyHostView>, container_id: Seq<char>, host_id: u64)
    ensures
        (exists|i: int| 0 <= i < hs.len() && hs[i].id == host_id) && (forall|i: int|
            0 <= i < hs.len() && (#[trigger] hs[i]).id == host_id ==> owner_is(hs[i].meta, container_id))
            ==> removal_plan(hs, container_id, host_id) == RemovalPlan::Delete,
        (forall|i: int| 0 <= i < hs.len() ==> (#[trigger] hs[i]).id != host_id) ==> removal_plan(hs, container_id, host_id)
            == RemovalPlan::HostGone,
{
    lemma_first_with_id(hs, host_id);
    if exists|i: int| 0 <= i < hs.len() && hs[i].id == host_id {
        let i = choose|i: int| 0 <= i < hs.len() && hs[i].id == host_id;
        assert(hs[i].id == host_id);
    }
}

} // verus!
