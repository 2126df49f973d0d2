//! Reading a container's `nginx_proxy_*` labels into a [`ContainerSpec`].
use vstd::prelude::*;
use crate::docker::spec::{ContainerSpec, ContainerSpecView, Scheme, scheme_named, text_map};
use crate::keymap::KeyMap;
use crate::text::{eq_ignore_ascii_case, parse_u16, str_eq_ignore_ascii_case, u16_literal};

verus! {

/// Why a container's labels do not describe a proxy host.
#[derive(Debug, PartialEq, Eq)]
pub enum LabelError {
    /// There is no `nginx_proxy_url` label.
    NotLabeled,
    /// `nginx_proxy_port` is not a `u16`.
    BadPort(String),
    /// `nginx_proxy_scheme` is neither `http` nor `https`.
    BadScheme(String),
    /// A boolean label holds something other than `true`, `false`, `1` or `0`.
    BadBool { key: &'static str, value: String },
    /// No port label and no exposed port.
    NoPort,
}

/// The content of a [`LabelError`].
pub enum LabelErrorView {
    NotLabeled,
    BadPort(Seq<char>),
    BadScheme(Seq<char>),
    BadBool { key: Seq<char>, value: Seq<char> },
    NoPort,
}

impl View for LabelError {
    type V = LabelErrorView;

    open spec fn view(&self) -> LabelErrorView {
        match self {
            LabelError::NotLabeled => LabelErrorView::NotLabeled,
            LabelError::BadPort(s) => LabelErrorView::BadPort(s@),
            LabelError::BadScheme(s) => LabelErrorView::BadScheme(s@),
            LabelError::BadBool { key, value } => LabelErrorView::BadBool { key: key@, value: value@ },
            LabelError::NoPort => LabelErrorView::NoPort,
        }
    }
}

/// What a label outcome holds, seen through views.
pub open spec fn label_result_view<T>(r: Result<T, LabelError>) -> Result<T, LabelErrorView> {
    match r {
        Ok(v) => Ok(v),
        Err(e) => Err(e@),
    }
}

/// Fallback values for labels a container does not set.
#[derive(Debug, Clone, Copy)]
pub struct Defaults {
    pub scheme: Scheme,
    pub ssl: bool,
    pub websockets: bool,
    pub block_exploits: bool,
}

impl Default for Defaults {
    fn default() -> (r: Self)
        ensures
            r.scheme == Scheme::Http,
            !r.ssl && !r.websockets && !r.block_exploits,
    {
        Defaults { scheme: Scheme::Http, ssl: false, websockets: false, block_exploits: false }
    }
}

/// What the label parser reads of one container.
pub struct ContainerFacts<'a> {
    pub id: &'a str,
    pub name: &'a str,
    pub labels: &'a KeyMap<String>,
    pub exposed_ports: &'a [u16],
    pub network_aliases: KeyMap<String>,
}

/// The text of a label, if the container sets it.
pub open spec fn label_text(labels: Map<Seq<char>, String>, key: Seq<char>) -> Option<Seq<char>> {
    if labels.contains_key(key) {
        Some(labels[key]@)
    } else {
        None
    }
}

/// The lowest port of a non-empty sequence.
pub open spec fn lowest_port(s: Seq<u16>) -> u16
    decreases s.len(),
{
    if s.len() <= 1 {
        s[0]
    } else {
        let m = lowest_port(s.drop_last());
        if s.last() < m {
            s.last()
        } else {
            m
        }
    }
}

/// `lowest_port` is one of the ports and no port is lower.
pub proof fn lemma_lowest_port(s: Seq<u16>)
    requires
        s.len() > 0,
    ensures
        s.contains(lowest_port(s)),
        forall|i: int| 0 <= i < s.len() ==> lowest_port(s) <= #[trigger] s[i],
    decreases s.len(),
{
    if s.len() > 1 {
        lemma_lowest_port(s.drop_last());
        let m = lowest_port(s.drop_last());
        let j = choose|j: int| 0 <= j < s.drop_last().len() && s.drop_last()[j] == m;
        assert(s[j] == m);
        if s.last() < m {
            assert(s[s.len() - 1] == s.last());
        }
        assert forall|i: int| 0 <= i < s.len() implies lowest_port(s) <= #[trigger] s[i] by {
            if i < s.len() - 1 {
                assert(s.drop_last()[i] == s[i]);
            }
        }
    } else {
        assert(s[0] == lowest_port(s));
    }
}

/// The port rule: the `nginx_proxy_port` label when present, else the sole
/// exposed port, else the lowest exposed port.
pub open spec fn port_choice(exposed: Seq<u16>, label: Option<Seq<char>>) -> Result<u16, LabelErrorView> {
    match label {
        Some(s) => match u16_literal(s) {
            Some(p) => Ok(p),
            None => Err(LabelErrorView::BadPort(s)),
        },
        None => if exposed.len() == 0 {
            Err(LabelErrorView::NoPort)
        } else {
            Ok(lowest_port(exposed))
        },
    }
}

/// Picks the port NPM forwards to.
pub fn select_port(exposed: &[u16], label: Option<&str>) -> (r: Result<u16, LabelError>)
    ensures
        label_result_view(r) == port_choice(exposed@, match label { Some(s) => Some(s@), None => None }),
{
    if let Some(s) = label {
        return match parse_u16(s) {
            Some(p) => Ok(p),
            None => Err(LabelError::BadPort(String::from_str(s))),
        };
    }
    let n = exposed.len();
    if n == 0 {
        return Err(LabelError::NoPort);
    }
    let mut m = exposed[0];
    let mut i: usize = 1;
    proof {
        assert(exposed@.take(1).len() == 1);
        assert(lowest_port(exposed@.take(1)) == exposed@[0]);
    }
    while i < n
        invariant
            n == exposed@.len(),
            1 <= i <= n,
            m == lowest_port(exposed@.take(i as int)),
        decreases n - i,
    {
        proof {
            assert(exposed@.take(i + 1).drop_last() == exposed@.take(i as int));
            assert(exposed@.take(i + 1).last() == exposed@[i as int]);
        }
        if exposed[i] < m {
            m = exposed[i];
        }
        i = i + 1;
    }
    proof {
        assert(exposed@.take(n as int) == exposed@);
    }
    Ok(m)
}

/// What a boolean label means: `true`/`1` or `false`/`0`, ASCII case ignored.
pub open spec fn bool_named(s: Seq<char>) -> Option<bool> {
    if eq_ignore_ascii_case(s, "true"@) || eq_ignore_ascii_case(s, "1"@) {
        Some(true)
    } else if eq_ignore_ascii_case(s, "false"@) || eq_ignore_ascii_case(s, "0"@) {
        Some(false)
    } else {
        None
    }
}

/// A boolean label, or the default when it is absent.
pub open spec fn bool_choice(key: Seq<char>, label: Option<Seq<char>>, default: bool) -> Result<bool, LabelErrorView> {
    match label {
        Some(v) => match bool_named(v) {
            Some(b) => Ok(b),
            None => Err(LabelErrorView::BadBool { key, value: v }),
        },
        None => Ok(default),
    }
}

fn parse_bool(key: &'static str, value: &str) -> (r: Result<bool, LabelError>)
    ensures
        label_result_view(r) == bool_choice(key@, Some(value@), false),
{
    if str_eq_ignore_ascii_case(value, "true") || str_eq_ignore_ascii_case(value, "1") {
        Ok(true)
    } else if str_eq_ignore_ascii_case(value, "false") || str_eq_ignore_ascii_case(value, "0") {
        Ok(false)
    } else {
        Err(LabelError::BadBool { key, value: String::from_str(value) })
    }
}

fn bool_label(labels: &KeyMap<String>, key: &'static str, default: bool) -> (r: Result<bool, LabelError>)
    ensures
        label_result_view(r) == bool_choice(key@, label_text(labels@, key@), default),
{
    match labels.get(key) {
        Some(v) => parse_bool(key, v.as_str()),
        None => Ok(default),
    }
}

/// The scheme label, or the default when it is absent.
pub open spec fn scheme_choice(label: Option<Seq<char>>, default: Scheme) -> Result<Scheme, LabelErrorView> {
    match label {
        Some(s) => match scheme_named(s) {
            Some(x) => Ok(x),
            None => Err(LabelErrorView::BadScheme(s)),
        },
        None => Ok(default),
    }
}

/// The whole label reading: the first failing label, in the order url, port,
/// scheme, ssl, websockets, block_exploits, decides the error.
pub open spec fn parse_outcome(
    id: Seq<char>,
    name: Seq<char>,
    labels: Map<Seq<char>, String>,
    exposed: Seq<u16>,
    aliases: Map<Seq<char>, Seq<char>>,
    d: Defaults,
) -> Result<ContainerSpecView, LabelErrorView> {
    match label_text(labels, "nginx_proxy_url"@) {
        None => Err(LabelErrorView::NotLabeled),
        Some(url) => match port_choice(exposed, label_text(labels, "nginx_proxy_port"@)) {
            Err(e) => Err(e),
            Ok(port) => match scheme_choice(label_text(labels, "nginx_proxy_scheme"@), d.scheme) {
                Err(e) => Err(e),
                Ok(scheme) => match bool_choice("nginx_proxy_ssl"@, label_text(labels, "nginx_proxy_ssl"@), d.ssl) {
                    Err(e) => Err(e),
                    Ok(ssl) => match bool_choice("nginx_proxy_websockets"@, label_text(labels, "nginx_proxy_websockets"@), d.websockets) {
                        Err(e) => Err(e),
                        Ok(websockets) => match bool_choice(
                            "nginx_proxy_block_exploits"@,
                            label_text(labels, "nginx_proxy_block_exploits"@),
                            d.block_exploits,
                        ) {
                            Err(e) => Err(e),
                            Ok(block_exploits) => Ok(ContainerSpecView {
                                id,
                                name,
                                url,
                                port,
                                scheme,
                                ssl,
                                websockets,
                                block_exploits,
                                network_aliases: aliases,
                            }),
                        },
                    },
                },
            },
        },
    }
}

/// The outcome of [`parse`] seen through views.
pub open spec fn spec_result_view(r: Result<ContainerSpec, LabelError>) -> Result<ContainerSpecView, LabelErrorView> {
    match r {
        Ok(s) => Ok(s@),
        Err(e) => Err(e@),
    }
}

/// Reads a container's labels into the spec of its proxy host.
pub fn parse(facts: ContainerFacts<'_>, defaults: &Defaults) -> (r: Result<ContainerSpec, LabelError>)
    ensures
        spec_result_view(r) == parse_outcome(
            facts.id@,
            facts.name@,
            facts.labels@,
            facts.exposed_ports@,
            text_map(facts.network_aliases@),
            *defaults,
        ),
        r is Ok <==> {
            &&& facts.labels@.contains_key("nginx_proxy_url"@)
            &&& facts.labels@.contains_key("nginx_proxy_port"@) ==> u16_literal(facts.labels@["nginx_proxy_port"@]@) is Some
            &&& !facts.labels@.contains_key("nginx_proxy_port"@) ==> facts.exposed_ports@.len() > 0
            &&& facts.labels@.contains_key("nginx_proxy_scheme"@) ==> scheme_named(facts.labels@["nginx_proxy_scheme"@]@) is Some
            &&& facts.labels@.contains_key("nginx_proxy_ssl"@) ==> bool_named(facts.labels@["nginx_proxy_ssl"@]@) is Some
            &&& facts.labels@.contains_key("nginx_proxy_websockets"@) ==> bool_named(
                facts.labels@["nginx_proxy_websockets"@]@,
            ) is Some
            &&& facts.labels@.contains_key("nginx_proxy_block_exploits"@) ==> bool_named(
                facts.labels@["nginx_proxy_block_exploits"@]@,
            ) is Some
        },
        r is Ok ==> {
            let s = r->Ok_0@;
            let l = facts.labels@;
            &&& s.id == facts.id@
            &&& s.name == facts.name@
            &&& s.url == l["nginx_proxy_url"@]@
            &&& s.network_aliases == text_map(facts.network_aliases@)
            &&& l.contains_key("nginx_proxy_port"@) ==> u16_literal(l["nginx_proxy_port"@]@) == Some(s.port)
            &&& !l.contains_key("nginx_proxy_port"@) ==> facts.exposed_ports@.contains(s.port) && forall|k: int|
                0 <= k < facts.exposed_ports@.len() ==> s.port <= #[trigger] facts.exposed_ports@[k]
            &&& l.contains_key("nginx_proxy_scheme"@) ==> scheme_named(l["nginx_proxy_scheme"@]@) == Some(s.scheme)
            &&& !l.contains_key("nginx_proxy_scheme"@) ==> s.scheme == defaults.scheme
            &&& l.contains_key("nginx_proxy_ssl"@) ==> bool_named(l["nginx_proxy_ssl"@]@) == Some(s.ssl)
            &&& !l.contains_key("nginx_proxy_ssl"@) ==> s.ssl == defaults.ssl
            &&& l.contains_key("nginx_proxy_websockets"@) ==> bool_named(l["nginx_proxy_websockets"@]@) == Some(s.websockets)
            &&& !l.contains_key("nginx_proxy_websockets"@) ==> s.websockets == defaults.websockets
            &&& l.contains_key("nginx_proxy_block_exploits"@) ==> bool_named(l["nginx_proxy_block_exploits"@]@) == Some(
                s.block_exploits,
            )
            &&& !l.contains_key("nginx_proxy_block_exploits"@) ==> s.block_exploits == defaults.block_exploits
        },
{
    proof {
        lemma_labels_decide_fields(
            facts.id@,
            facts.name@,
            facts.labels@,
            facts.exposed_ports@,
            text_map(facts.network_aliases@),
            *defaults,
        );
    }
    let url = match facts.labels.get("nginx_proxy_url") {
        Some(u) => u.clone(),
        None => return Err(LabelError::NotLabeled),
    };
    let port_label = match facts.labels.get("nginx_proxy_port") {
        Some(p) => Some(p.as_str()),
        None => None,
    };
    let port = match select_port(facts.exposed_ports, port_label) {
        Ok(p) => p,
        Err(e) => return Err(e),
    };
    let scheme = match facts.labels.get("nginx_proxy_scheme") {
        Some(s) => match Scheme::from_name(s.as_str()) {
            Some(x) => x,
            None => return Err(LabelError::BadScheme(s.clone())),
        },
        None => defaults.scheme,
    };
    let ssl = match bool_label(facts.labels, "nginx_proxy_ssl", defaults.ssl) {
        Ok(b) => b,
        Err(e) => return Err(e),
    };
    let websockets = match bool_label(facts.labels, "nginx_proxy_websockets", defaults.websockets) {
        Ok(b) => b,
        Err(e) => return Err(e),
    };
    let block_exploits = match bool_label(facts.labels, "nginx_proxy_block_exploits", defaults.block_exploits) {
        Ok(b) => b,
        Err(e) => return Err(e),
    };
    Ok(ContainerSpec {
        id: String::from_str(facts.id),
        name: String::from_str(facts.name),
        url,
        port,
        scheme,
        ssl,
        websockets,
        block_exploits,
        network_aliases: facts.network_aliases,
    })
}

/// What each label decides, field by field: the url is the
/// `nginx_proxy_url` label; the port is the port label when set, else the
/// lowest exposed port; a scheme or boolean label that is present decides
/// its field alone, and an absent one leaves the default. Parsing succeeds
/// exactly when the url label is present, every present label is
/// well-formed, and a port can be found.
pub proof fn lemma_labels_decide_fields(
    id: Seq<char>,
    name: Seq<char>,
    labels: Map<Seq<char>, String>,
    exposed: Seq<u16>,
    aliases: Map<Seq<char>, Seq<char>>,
    d: Defaults,
)
    ensures
        parse_outcome(id, name, labels, exposed, aliases, d) is Ok <==> {
            &&& labels.contains_key("nginx_proxy_url"@)
            &&& labels.contains_key("nginx_proxy_port"@) ==> u16_literal(labels["nginx_proxy_port"@]@) is Some
            &&& !labels.contains_key("nginx_proxy_port"@) ==> exposed.len() > 0
            &&& labels.contains_key("nginx_proxy_scheme"@) ==> scheme_named(labels["nginx_proxy_scheme"@]@) is Some
            &&& labels.contains_key("nginx_proxy_ssl"@) ==> bool_named(labels["nginx_proxy_ssl"@]@) is Some
            &&& labels.contains_key("nginx_proxy_websockets"@) ==> bool_named(labels["nginx_proxy_websockets"@]@) is Some
            &&& labels.contains_key("nginx_proxy_block_exploits"@) ==> bool_named(
                labels["nginx_proxy_block_exploits"@]@,
            ) is Some
        },
        parse_outcome(id, name, labels, exposed, aliases, d) is Ok ==> {
            let s = parse_outcome(id, name, labels, exposed, aliases, d)->Ok_0;
            &&& s.id == id
            &&& s.name == name
            &&& s.url == labels["nginx_proxy_url"@]@
            &&& s.network_aliases == aliases
            &&& labels.contains_key("nginx_proxy_port"@) ==> u16_literal(labels["nginx_proxy_port"@]@) == Some(s.port)
            &&& !labels.contains_key("nginx_proxy_port"@) ==> exposed.contains(s.port) && forall|k: int|
                0 <= k < exposed.len() ==> s.port <= #[trigger] exposed[k]
            &&& labels.contains_key("nginx_proxy_scheme"@) ==> scheme_named(labels["nginx_proxy_scheme"@]@) == Some(s.scheme)
            &&& !labels.contains_key("nginx_proxy_scheme"@) ==> s.scheme == d.scheme
            &&& labels.contains_key("nginx_proxy_ssl"@) ==> bool_named(labels["nginx_proxy_ssl"@]@) == Some(s.ssl)
            &&& !labels.contains_key("nginx_proxy_ssl"@) ==> s.ssl == d.ssl
            &&& labels.contains_key("nginx_proxy_websockets"@) ==> bool_named(labels["nginx_proxy_websockets"@]@) == Some(
                s.websockets,
            )
            &&& !labels.contains_key("nginx_proxy_websockets"@) ==> s.websockets == d.websockets
            &&& labels.contains_key("nginx_proxy_block_exploits"@) ==> bool_named(labels["nginx_proxy_block_exploits"@]@)
                == Some(s.block_exploits)
            &&& !labels.contains_key("nginx_proxy_block_exploits"@) ==> s.block_exploits == d.block_exploits
        },
{
    if exposed.len() > 0 {
        lemma_lowest_port(exposed);
    }
}

} // verus!
