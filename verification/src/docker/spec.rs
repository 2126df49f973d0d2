//! The proxy-host request that a labelled container carries.
use vstd::prelude::*;
use crate::keymap::KeyMap;
use crate::text::{eq_ignore_ascii_case, str_eq_ignore_ascii_case};

verus! {

/// The scheme NPM uses to forward to the container.
#[derive(Debug, Clone, Copy, PartialEq, Eq, Structural)]
pub enum Scheme {
    Http,
    Https,
}

/// The scheme a text names, ignoring ASCII case.
pub open spec fn scheme_named(s: Seq<char>) -> Option<Scheme> {
    if eq_ignore_ascii_case(s, "https"@) {
        Some(Scheme::Https)
    } else if eq_ignore_ascii_case(s, "http"@) {
        Some(Scheme::Http)
    } else {
        None
    }
}

impl Scheme {
    /// Reads `http` or `https` in any ASCII case.
    pub fn from_name(s: &str) -> (r: Option<Scheme>)
        ensures
            r == scheme_named(s@),
    {
        if str_eq_ignore_ascii_case(s, "https") {
            Some(Scheme::Https)
        } else if str_eq_ignore_ascii_case(s, "http") {
            Some(Scheme::Http)
        } else {
            None
        }
    }

    /// The scheme as NPM writes it in `forward_scheme`.
    pub fn as_forward_scheme(&self) -> (r: String)
        ensures
            r@ == scheme_text(*self),
    {
        match self {
            Scheme::Http => String::from_str("http"),
            Scheme::Https => String::from_str("https"),
        }
    }
}

/// The text NPM stores as `forward_scheme` for a scheme.
pub open spec fn scheme_text(s: Scheme) -> Seq<char> {
    match s {
        Scheme::Http => "http"@,
        Scheme::Https => "https"@,
    }
}

impl Default for Scheme {
    fn default() -> (r: Self)
        ensures
            r == Scheme::Http,
    {
        Scheme::Http
    }
}

impl std::str::FromStr for Scheme {
    type Err = ();

    fn from_str(s: &str) -> (r: Result<Self, Self::Err>)
        ensures
            r == match scheme_named(s@) {
                Some(x) => Ok::<Scheme, ()>(x),
                None => Err::<Scheme, ()>(()),
            },
    {
        match Scheme::from_name(s) {
            Some(x) => Ok(x),
            None => Err(()),
        }
    }
}

/// Everything the writer needs to know about one labelled container.
#[derive(Debug, PartialEq, Eq)]
pub struct ContainerSpec {
    pub id: String,
    pub name: String,
    pub url: String,
    pub port: u16,
    pub scheme: Scheme,
    pub ssl: bool,
    pub websockets: bool,
    pub block_exploits: bool,
    pub network_aliases: KeyMap<String>,
}

/// A string-valued map seen through the characters of its values.
pub open spec fn text_map(m: Map<Seq<char>, String>) -> Map<Seq<char>, Seq<char>> {
    m.map_values(|v: String| v@)
}

/// The mathematical content of a [`ContainerSpec`].
pub struct ContainerSpecView {
    pub id: Seq<char>,
    pub name: Seq<char>,
    pub url: Seq<char>,
    pub port: u16,
    pub scheme: Scheme,
    pub ssl: bool,
    pub websockets: bool,
    pub block_exploits: bool,
    pub network_aliases: Map<Seq<char>, Seq<char>>,
}

impl View for ContainerSpec {
    type V = ContainerSpecView;

    open spec fn view(&self) -> ContainerSpecView {
        ContainerSpecView {
            id: self.id@,
            name: self.name@,
            url: self.url@,
            port: self.port,
            scheme: self.scheme,
            ssl: self.ssl,
            websockets: self.websockets,
            block_exploits: self.block_exploits,
            network_aliases: text_map(self.network_aliases@),
        }
    }
}

/// Copies a string map; the copy has the same content.
pub fn clone_text_map(m: &KeyMap<String>) -> (r: KeyMap<String>)
    ensures
        text_map(r@) == text_map(m@),
{
    let r = m.clone();
    proof {
        assert(text_map(r@) =~= text_map(m@));
    }
    r
}

impl Clone for ContainerSpec {
    fn clone(&self) -> (r: Self)
        ensures
            r@ == self@,
    {
        ContainerSpec {
            id: self.id.clone(),
            name: self.name.clone(),
            url: self.url.clone(),
            port: self.port,
            scheme: self.scheme,
            ssl: self.ssl,
            websockets: self.websockets,
            block_exploits: self.block_exploits,
            network_aliases: clone_text_map(&self.network_aliases),
        }
    }
}

impl ContainerSpec {
    /// A spec for tests: name `stub`, port 80, plain HTTP, every flag on.
    pub fn stub(id: &str, url: &str) -> (r: Self)
        ensures
            r.id@ == id@,
            r.name@ == "stub"@,
            r.url@ == url@,
            r.port == 80,
            r.scheme == Scheme::Http,
            r.ssl && r.websockets && r.block_exploits,
            r@.network_aliases == Map::<Seq<char>, Seq<char>>::empty(),
    {
        let r = ContainerSpec {
            id: String::from_str(id),
            name: String::from_str("stub"),
            url: String::from_str(url),
            port: 80,
            scheme: Scheme::Http,
            ssl: true,
            websockets: true,
            block_exploits: true,
            network_aliases: KeyMap::new(),
        };
        proof {
            assert(r@.network_aliases =~= Map::<Seq<char>, Seq<char>>::empty());
        }
        r
    }
}

} // verus!
