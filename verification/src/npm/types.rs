//! The records exchanged with the NPM API.
use vstd::prelude::*;
use crate::keymap::KeyMap;
use crate::npm::meta::{Meta, MetaView};

verus! {

/// A list of strings seen through their characters.
pub open spec fn texts(v: Seq<String>) -> Seq<Seq<char>> {
    v.map_values(|s: String| s@)
}

/// A proxy host as NPM returns it.
#[derive(Debug, PartialEq, Eq)]
pub struct ProxyHost {
    pub id: u64,
    pub domain_names: Vec<String>,
    pub forward_scheme: String,
    pub forward_host: String,
    pub forward_port: u16,
    pub certificate_id: Option<u64>,
    pub ssl_forced: bool,
    pub caching_enabled: bool,
    pub allow_websocket_upgrade: bool,
    pub block_exploits: bool,
    pub meta: Meta,
}

/// The content of a [`ProxyHost`].
pub struct ProxyHostView {
    pub id: u64,
    pub domain_names: Seq<Seq<char>>,
    pub forward_scheme: Seq<char>,
    pub forward_host: Seq<char>,
    pub forward_port: u16,
    pub certificate_id: Option<u64>,
    pub ssl_forced: bool,
    pub caching_enabled: bool,
    pub allow_websocket_upgrade: bool,
    pub block_exploits: bool,
    pub meta: MetaView,
}

impl View for ProxyHost {
    type V = ProxyHostView;

    open spec fn view(&self) -> ProxyHostView {
        ProxyHostView {
            id: self.id,
            domain_names: texts(self.domain_names@),
            forward_scheme: self.forward_scheme@,
            forward_host: self.forward_host@,
            forward_port: self.forward_port,
            certificate_id: self.certificate_id,
            ssl_forced: self.ssl_forced,
            caching_enabled: self.caching_enabled,
            allow_websocket_upgrade: self.allow_websocket_upgrade,
            block_exploits: self.block_exploits,
            meta: self.meta@,
        }
    }
}

/// The body of a proxy-host creation.
#[derive(Debug, PartialEq, Eq)]
pub struct CreateProxyHost {
    pub domain_names: Vec<String>,
    pub forward_scheme: String,
    pub forward_host: String,
    pub forward_port: u16,
    pub allow_websocket_upgrade: bool,
    pub block_exploits: bool,
    pub caching_enabled: bool,
    pub meta: Meta,
    pub certificate_id: u64,
    pub ssl_forced: bool,
    pub access_list_id: u64,
}

/// The content of a [`CreateProxyHost`].
pub struct CreateProxyHostView {
    pub domain_names: Seq<Seq<char>>,
    pub forward_scheme: Seq<char>,
    pub forward_host: Seq<char>,
    pub forward_port: u16,
    pub allow_websocket_upgrade: bool,
    pub block_exploits: bool,
    pub caching_enabled: bool,
    pub meta: MetaView,
    pub certificate_id: u64,
    pub ssl_forced: bool,
    pub access_list_id: u64,
}

impl View for CreateProxyHost {
    type V = CreateProxyHostView;

    open spec fn view(&self) -> CreateProxyHostView {
        CreateProxyHostView {
            domain_names: texts(self.domain_names@),
            forward_scheme: self.forward_scheme@,
            forward_host: self.forward_host@,
            forward_port: self.forward_port,
            allow_websocket_upgrade: self.allow_websocket_upgrade,
            block_exploits: self.block_exploits,
            caching_enabled: self.caching_enabled,
            meta: self.meta@,
            certificate_id: self.certificate_id,
            ssl_forced: self.ssl_forced,
            access_list_id: self.access_list_id,
        }
    }
}

/// One JSON value of a proxy-host patch.
#[derive(Debug, PartialEq, Eq)]
pub enum PatchValue {
    Text(String),
    Number(u64),
    Flag(bool),
    Texts(Vec<String>),
}

/// The content of a [`PatchValue`].
pub enum PatchValueView {
    Text(Seq<char>),
    Number(u64),
    Flag(bool),
    Texts(Seq<Seq<char>>),
}

impl View for PatchValue {
    type V = PatchValueView;

    open spec fn view(&self) -> PatchValueView {
        match self {
            PatchValue::Text(s) => PatchValueView::Text(s@),
            PatchValue::Number(n) => PatchValueView::Number(*n),
            PatchValue::Flag(b) => PatchValueView::Flag(*b),
            PatchValue::Texts(v) => PatchValueView::Texts(texts(v@)),
        }
    }
}

/// The fields of a proxy host to change, by their JSON names.
#[derive(Debug, PartialEq, Eq)]
pub struct UpdateProxyHost(pub KeyMap<PatchValue>);

/// A patch's fields, seen through their views.
pub open spec fn patch_fields(m: Map<Seq<char>, PatchValue>) -> Map<Seq<char>, PatchValueView> {
    m.map_values(|v: PatchValue| v@)
}

impl View for UpdateProxyHost {
    type V = Map<Seq<char>, PatchValueView>;

    open spec fn view(&self) -> Map<Seq<char>, PatchValueView> {
        patch_fields(self.0@)
    }
}

impl UpdateProxyHost {
    /// The new value of field `key`, if the patch changes it.
    pub fn get(&self, key: &str) -> (r: Option<&PatchValue>)
        ensures
            r is Some <==> self@.contains_key(key@),
            r is Some ==> r->0@ == self@[key@],
    {
        self.0.get(key)
    }

    /// The number of fields the patch changes.
    pub fn len(&self) -> (n: usize)
        ensures
            n == self@.len(),
    {
        let n = self.0.len();
        proof {
            assert(self@.dom() =~= self.0@.dom());
        }
        n
    }
}

/// A Let's Encrypt certificate order.
#[derive(Debug, Clone, PartialEq, Eq)]
pub struct CertificateRequest {
    pub domain_names: Vec<String>,
    pub meta: CertificateMeta,
    pub provider: String,
}

/// The DNS-challenge settings of a certificate order.
#[derive(Debug, Clone, PartialEq, Eq)]
pub struct CertificateMeta {
    pub letsencrypt_email: String,
    pub letsencrypt_agree: bool,
    pub dns_challenge: bool,
    pub dns_provider: String,
    pub dns_provider_credentials: String,
    /// How long certbot waits for the DNS record to propagate, in seconds.
    pub propagation_seconds: u64,
}

} // verus!
