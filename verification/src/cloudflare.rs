//! Which Cloudflare API token serves a domain's DNS challenge.
use vstd::prelude::*;
use crate::docker::spec::text_map;
use crate::keymap::KeyMap;
use crate::text::{ends_with_dot_suffix, has_dot_suffix, str_eq};

verus! {

/// No token covers a domain.
#[derive(Debug, PartialEq, Eq)]
pub enum TokenError {
    NotFound(String),
}

/// Cloudflare tokens: one per configured domain, and an optional global one.
pub struct TokenResolver {
    global: Option<String>,
    per_domain: KeyMap<String>,
}

/// Key `k` covers domain `d`: it is `d` itself or a parent domain of it.
pub open spec fn covers(k: Seq<char>, d: Seq<char>) -> bool {
    k == d || has_dot_suffix(d, k)
}

/// `k` is the longest configured key that covers `d`.
pub open spec fn best_key(tokens: Map<Seq<char>, Seq<char>>, d: Seq<char>, k: Seq<char>) -> bool {
    &&& tokens.contains_key(k)
    &&& covers(k, d)
    &&& forall|k2: Seq<char>| tokens.contains_key(k2) && covers(k2, d) ==> k2.len() <= k.len()
}

/// The token for `d`: its own entry, else the entry of its most specific
/// configured parent domain, else the global token.
pub open spec fn token_for(tokens: Map<Seq<char>, Seq<char>>, global: Option<Seq<char>>, d: Seq<char>) -> Option<Seq<char>> {
    if tokens.contains_key(d) {
        Some(tokens[d])
    } else if exists|k: Seq<char>| best_key(tokens, d, k) {
        Some(tokens[choose|k: Seq<char>| best_key(tokens, d, k)])
    } else {
        global
    }
}

/// At most one key is the longest covering key of a domain.
pub proof fn lemma_best_key_unique(tokens: Map<Seq<char>, Seq<char>>, d: Seq<char>, k1: Seq<char>, k2: Seq<char>)
    requires
        best_key(tokens, d, k1),
        best_key(tokens, d, k2),
    ensures
        k1 == k2,
{
    assert(k1.len() == k2.len());
    if k1 == d || k2 == d {
        if k1 != k2 {
            if k1 == d {
                assert(has_dot_suffix(d, k2));
            } else {
                assert(has_dot_suffix(d, k1));
            }
        }
    } else {
        assert(k1 =~= d.subrange(d.len() - k1.len(), d.len() as int));
        assert(k2 =~= d.subrange(d.len() - k2.len(), d.len() as int));
    }
}

/// The domain's own entry always wins.
pub proof fn lemma_exact_entry_wins(tokens: Map<Seq<char>, Seq<char>>, global: Option<Seq<char>>, d: Seq<char>)
    requires
        tokens.contains_key(d),
    ensures
        token_for(tokens, global, d) == Some(tokens[d]),
{
}

/// A configured parent domain is used before the global token; the longest
/// such parent gives the token.
pub proof fn lemma_parent_before_global(
    tokens: Map<Seq<char>, Seq<char>>,
    global: Option<Seq<char>>,
    d: Seq<char>,
    k: Seq<char>,
)
    requires
        !tokens.contains_key(d),
        best_key(tokens, d, k),
    ensures
        token_for(tokens, global, d) == Some(tokens[k]),
{
    let c = choose|c: Seq<char>| best_key(tokens, d, c);
    lemma_best_key_unique(tokens, d, k, c);
}

/// Resolution fails exactly when no key covers the domain and there is no
/// global token.
pub proof fn lemma_not_found_iff(tokens: Map<Seq<char>, Seq<char>>, global: Option<Seq<char>>, d: Seq<char>)
    requires
        tokens.dom().finite(),
    ensures
        token_for(tokens, global, d) is None <==> (global is None && forall|k: Seq<char>|
            tokens.contains_key(k) ==> !covers(k, d)),
{
    if exists|k: Seq<char>| tokens.contains_key(k) && covers(k, d) {
        let k0 = choose|k: Seq<char>| tokens.contains_key(k) && covers(k, d);
        lemma_longest_covering_key_exists(tokens, d, k0);
        assert(token_for(tokens, global, d) is Some);
    } else {
        assert(covers(d, d));
        assert(!tokens.contains_key(d));
        assert(!exists|k: Seq<char>| best_key(tokens, d, k));
        assert(token_for(tokens, global, d) == global);
    }
}

proof fn lemma_longest_covering_key_exists(tokens: Map<Seq<char>, Seq<char>>, d: Seq<char>, k0: Seq<char>)
    requires
        tokens.dom().finite(),
        tokens.contains_key(k0),
        covers(k0, d),
    ensures
        exists|k: Seq<char>| best_key(tokens, d, k),
    decreases d.len() - k0.len(),
{
    if k0.len() >= d.len() {
        assert forall|k2: Seq<char>| tokens.contains_key(k2) && covers(k2, d) implies k2.len() <= k0.len() by {}
        assert(best_key(tokens, d, k0));
    } else if exists|k2: Seq<char>| tokens.contains_key(k2) && covers(k2, d) && k2.len() > k0.len() {
        let k2 = choose|k2: Seq<char>| tokens.contains_key(k2) && covers(k2, d) && k2.len() > k0.len();
        assert(k2.len() <= d.len());
        lemma_longest_covering_key_exists(tokens, d, k2);
    } else {
        assert(best_key(tokens, d, k0));
    }
}

impl TokenResolver {
    /// The per-domain tokens.
    pub closed spec fn tokens(&self) -> Map<Seq<char>, Seq<char>> {
        text_map(self.per_domain@)
    }

    /// The global token.
    pub closed spec fn fallback(&self) -> Option<Seq<char>> {
        match self.global {
            Some(g) => Some(g@),
            None => None,
        }
    }

    /// A resolver over the given tokens.
    pub fn new(global: Option<String>, per_domain: KeyMap<String>) -> (r: Self)
        ensures
            r.tokens() == text_map(per_domain@),
            r.fallback() == match global { Some(g) => Some(g@), None => None::<Seq<char>> },
    {
        TokenResolver { global, per_domain }
    }

    /// The token that serves `domain`.
    pub fn for_domain(&self, domain: &str) -> (r: Result<&str, TokenError>)
        ensures
            match r {
                Ok(t) => token_for(self.tokens(), self.fallback(), domain@) == Some(t@),
                Err(TokenError::NotFound(d)) => token_for(self.tokens(), self.fallback(), domain@) is None
                    && d@ == domain@,
            },
    {
        let ghost tokens = self.tokens();
        if let Some(t) = self.per_domain.get(domain) {
            return Ok(t.as_str());
        }
        let n = self.per_domain.len();
        let mut best: Option<usize> = None;
        let mut i: usize = 0;
        while i < n
            invariant
                n == self.per_domain.keys().len(),
                self.per_domain.keys().len() == self.per_domain.vals().len(),
                forall|k: Seq<char>| #[trigger] self.per_domain@.contains_key(k) <==> self.per_domain.keys().contains(k),
                i <= n,
                tokens == self.tokens(),
                match best {
                    Some(b) => b < i && covers(self.per_domain.keys()[b as int], domain@) && forall|j: int|
                        0 <= j < i && #[trigger] covers(self.per_domain.keys()[j], domain@) ==> self.per_domain.keys()[j].len()
                            <= self.per_domain.keys()[b as int].len(),
                    None => forall|j: int| 0 <= j < i ==> !#[trigger] covers(self.per_domain.keys()[j], domain@),
                },
            decreases n - i,
        {
            let k = self.per_domain.key_at(i);
            if str_eq(domain, k.as_str()) || ends_with_dot_suffix(domain, k.as_str()) {
                match best {
                    Some(b) => {
                        if self.per_domain.key_at(b).as_str().unicode_len() <= k.as_str().unicode_len() {
                            best = Some(i);
                        }
                    },
                    None => {
                        best = Some(i);
                    },
                }
            }
            i = i + 1;
        }
        match best {
            Some(b) => {
                let v = self.per_domain.value_at(b);
                proof {
                    let kb = self.per_domain.keys()[b as int];
                    assert(self.per_domain@.contains_key(kb));
                    assert forall|k2: Seq<char>| tokens.contains_key(k2) && covers(k2, domain@) implies k2.len() <= kb.len() by {
                        assert(self.per_domain@.contains_key(k2));
                        let j = choose|j: int| 0 <= j < self.per_domain.keys().len() && self.per_domain.keys()[j] == k2;
                        assert(covers(self.per_domain.keys()[j], domain@));
                    }
                    assert(best_key(tokens, domain@, kb));
                    let c = choose|c: Seq<char>| best_key(tokens, domain@, c);
                    lemma_best_key_unique(tokens, domain@, kb, c);
                }
                Ok(v.as_str())
            },
            None => {
                proof {
                    if exists|k: Seq<char>| best_key(tokens, domain@, k) {
                        let k = choose|k: Seq<char>| best_key(tokens, domain@, k);
                        assert(self.per_domain@.contains_key(k));
                        let j = choose|j: int| 0 <= j < self.per_domain.keys().len() && self.per_domain.keys()[j] == k;
                        assert(!covers(self.per_domain.keys()[j], domain@));
                    }
                }
                match &self.global {
                    Some(g) => Ok(g.as_str()),
                    None => Err(TokenError::NotFound(String::from_str(domain))),
                }
            },
        }
    }
}

} // verus!
