//! Turning what `docker inspect` reports of a container into the facts the
//! label parser reads, and so into the container's spec.
use vstd::prelude::*;
use crate::docker::labels::{ContainerFacts, Defaults, LabelError, parse, parse_outcome, spec_result_view};
use crate::docker::spec::{ContainerSpec, ContainerSpecView, text_map};
use crate::keymap::KeyMap;
use crate::text::{before_slash, prefix_before_slash, parse_u16, trim_leading_slashes, trim_start_slashes, u16_literal};
use crate::writer::opt_text;

verus! {

/// One network the container is attached to.
#[derive(Debug, Clone)]
pub struct NetworkEndpoint {
    pub network: String,
    pub ip_address: Option<String>,
    pub aliases: Option<Vec<String>>,
}

/// The container's configuration as inspected.
#[derive(Debug, Clone)]
pub struct InspectedConfig {
    pub labels: KeyMap<String>,
    /// Exposed ports as Docker writes them, such as `80/tcp`.
    pub exposed_ports: Vec<String>,
}

/// What the label logic reads of a `docker inspect` answer.
#[derive(Debug, Clone)]
pub struct InspectedContainer {
    pub name: Option<String>,
    pub config: Option<InspectedConfig>,
    pub networks: Vec<NetworkEndpoint>,
}

/// The port numbers among Docker's `port/protocol` entries.
pub open spec fn exposed_port_set(ps: Seq<Seq<char>>) -> Set<u16> {
    Set::new(|p: u16| exists|i: int| 0 <= i < ps.len() && #[trigger] u16_literal(before_slash(ps[i])) == Some(p))
}

/// Strictly increasing.
pub open spec fn strictly_increasing(s: Seq<u16>) -> bool {
    forall|i: int, j: int| 0 <= i < j < s.len() ==> s[i] < s[j]
}

/// Two strictly increasing sequences with the same elements are equal.
pub proof fn lemma_sorted_unique(a: Seq<u16>, b: Seq<u16>)
    requires
        strictly_increasing(a),
        strictly_increasing(b),
        a.to_set() == b.to_set(),
    ensures
        a == b,
    decreases a.len(),
{
    if a.len() == 0 {
        if b.len() > 0 {
            assert(b.to_set().contains(b[0]));
        }
        assert(b.len() == 0);
        assert(a =~= b);
    } else {
        assert(a.to_set().contains(a[0]));
        if b.len() == 0 {
            assert(false);
        }
        assert(b.to_set().contains(b[0]));
        let ia = choose|i: int| 0 <= i < a.len() && a[i] == b[0];
        let ib = choose|i: int| 0 <= i < b.len() && b[i] == a[0];
        assert(a[0] <= a[ia]);
        assert(b[0] <= b[ib]);
        assert(a[0] == b[0]);
        let a2 = a.drop_first();
        let b2 = b.drop_first();
        assert forall|x: u16| a2.to_set().contains(x) <==> #[trigger] b2.to_set().contains(x) by {
            if a2.to_set().contains(x) {
                let i = choose|i: int| 0 <= i < a2.len() && a2[i] == x;
                assert(a[i + 1] == x);
                assert(a.to_set().contains(x));
                let j = choose|j: int| 0 <= j < b.len() && b[j] == x;
                assert(x > a[0]);
                assert(j != 0);
                assert(b2[j - 1] == x);
            }
            if b2.to_set().contains(x) {
                let i = choose|i: int| 0 <= i < b2.len() && b2[i] == x;
                assert(b[i + 1] == x);
                assert(b.to_set().contains(x));
                let j = choose|j: int| 0 <= j < a.len() && a[j] == x;
                assert(x > b[0]);
                assert(j != 0);
                assert(a2[j - 1] == x);
            }
        }
        assert(a2.to_set() =~= b2.to_set());
        lemma_sorted_unique(a2, b2);
        assert(a =~= b) by {
            assert forall|i: int| 0 <= i < a.len() implies a[i] == b[i] by {
                if i > 0 {
                    assert(a[i] == a2[i - 1]);
                    assert(b[i] == b2[i - 1]);
                }
            }
        }
    }
}

/// The exposed ports in ascending order, without repeats.
pub open spec fn port_list(ps: Seq<Seq<char>>) -> Seq<u16> {
    choose|s: Seq<u16>| strictly_increasing(s) && s.to_set() == exposed_port_set(ps)
}

fn insert_sorted(v: &mut Vec<u16>, p: u16)
    requires
        strictly_increasing(old(v)@),
    ensures
        strictly_increasing(final(v)@),
        final(v)@.to_set() == old(v)@.to_set().insert(p),
{
    let n = v.len();
    let mut k: usize = 0;
    while k < n && v[k] < p
        invariant
            n == v@.len(),
            k <= n,
            forall|i: int| 0 <= i < k ==> v@[i] < p,
        decreases n - k,
    {
        k = k + 1;
    }
    if k < n && v[k] == p {
        proof {
            assert(v@.to_set().contains(p)) by {
                assert(v@[k as int] == p);
            }
            assert(v@.to_set().insert(p) =~= v@.to_set());
        }
        return;
    }
    let ghost before = v@;
    v.insert(k, p);
    proof {
        assert(v@ == before.insert(k as int, p));
        assert forall|i: int, j: int| 0 <= i < j < v@.len() implies v@[i] < v@[j] by {
            if j < k {
                assert(v@[i] == before[i] && v@[j] == before[j]);
            } else if j == k {
                assert(v@[i] == before[i]);
            } else if i < k {
                assert(v@[j] == before[j - 1]);
                assert(before[j - 1] >= p);
                assert(v@[i] == before[i]);
            } else if i == k {
                assert(v@[j] == before[j - 1]);
                assert(before[k as int] > p);
                if j - 1 > k {
                    assert(before[k as int] < before[j - 1]);
                }
            } else {
                assert(v@[i] == before[i - 1] && v@[j] == before[j - 1]);
            }
        }
        assert forall|x: u16| v@.to_set().contains(x) <==> #[trigger] before.to_set().insert(p).contains(x) by {
            if v@.to_set().contains(x) {
                let i = choose|i: int| 0 <= i < v@.len() && v@[i] == x;
                if i < k {
                    assert(before[i] == x);
                } else if i > k {
                    assert(before[i - 1] == x);
                }
            }
            if before.to_set().contains(x) {
                let i = choose|i: int| 0 <= i < before.len() && before[i] == x;
                if i < k {
                    assert(v@[i] == x);
                } else {
                    assert(v@[i + 1] == x);
                }
            }
            if x == p {
                assert(v@[k as int] == p);
            }
        }
        assert(v@.to_set() =~= before.to_set().insert(p));
    }
}

/// The exposed port numbers, ascending and without repeats; entries whose
/// part before `/` is not a `u16` are skipped.
pub fn exposed_port_numbers(ports: &Vec<String>) -> (r: Vec<u16>)
    ensures
        strictly_increasing(r@),
        r@.to_set() == exposed_port_set(ports@.map_values(|s: String| s@)),
        r@ == port_list(ports@.map_values(|s: String| s@)),
{
    let ghost ps = ports@.map_values(|s: String| s@);
    let mut out: Vec<u16> = Vec::new();
    let n = ports.len();
    let mut i: usize = 0;
    proof {
        assert(out@.to_set() =~= exposed_port_set(ps.take(0)));
    }
    while i < n
        invariant
            n == ports@.len(),
            ps == ports@.map_values(|s: String| s@),
            i <= n,
            strictly_increasing(out@),
            out@.to_set() == exposed_port_set(ps.take(i as int)),
        decreases n - i,
    {
        let parsed = parse_u16(prefix_before_slash(ports[i].as_str()));
        let ghost before = out@.to_set();
        proof {
            assert(ps[i as int] == ports@[i as int]@);
        }
        match parsed {
            Some(p) => {
                insert_sorted(&mut out, p);
                proof {
                    assert forall|x: u16| out@.to_set().contains(x) <==> #[trigger] exposed_port_set(ps.take(i + 1)).contains(x) by {
                        if exposed_port_set(ps.take(i + 1)).contains(x) {
                            let j = choose|j: int| 0 <= j < i + 1 && #[trigger] u16_literal(before_slash(ps.take(i + 1)[j])) == Some(x);
                            if j < i {
                                assert(ps.take(i as int)[j] == ps.take(i + 1)[j]);
                                assert(exposed_port_set(ps.take(i as int)).contains(x));
                            }
                        }
                        if before.contains(x) {
                            let j = choose|j: int| 0 <= j < i && #[trigger] u16_literal(before_slash(ps.take(i as int)[j])) == Some(x);
                            assert(ps.take(i as int)[j] == ps.take(i + 1)[j]);
                        }
                        if x == p {
                            assert(ps.take(i + 1)[i as int] == ps[i as int]);
                        }
                    }
                    assert(out@.to_set() =~= exposed_port_set(ps.take(i + 1)));
                }
            },
            None => {
                proof {
                    assert forall|x: u16| before.contains(x) <==> #[trigger] exposed_port_set(ps.take(i + 1)).contains(x) by {
                        if exposed_port_set(ps.take(i + 1)).contains(x) {
                            let j = choose|j: int| 0 <= j < i + 1 && #[trigger] u16_literal(before_slash(ps.take(i + 1)[j])) == Some(x);
                            if j == i {
                                assert(ps.take(i + 1)[j] == ps[i as int]);
                            } else {
                                assert(ps.take(i as int)[j] == ps.take(i + 1)[j]);
                            }
                        }
                        if before.contains(x) {
                            let j = choose|j: int| 0 <= j < i && #[trigger] u16_literal(before_slash(ps.take(i as int)[j])) == Some(x);
                            assert(ps.take(i as int)[j] == ps.take(i + 1)[j]);
                        }
                    }
                    assert(out@.to_set() =~= exposed_port_set(ps.take(i + 1)));
                }
            },
        }
        i = i + 1;
    }
    proof {
        assert(ps.take(n as int) =~= ps);
        let c = port_list(ps);
        assert(strictly_increasing(c) && c.to_set() == exposed_port_set(ps));
        lemma_sorted_unique(out@, c);
    }
    out
}

/// The aliases one network adds: `<network>:ip` for a non-empty IP, and
/// `<network>:alias` for its last alias.
pub open spec fn endpoint_entries(m: Map<Seq<char>, Seq<char>>, e: NetworkEndpoint) -> Map<Seq<char>, Seq<char>> {
    let m1 = if e.ip_address is Some && e.ip_address->0@.len() > 0 {
        m.insert(e.network@ + ":ip"@, e.ip_address->0@)
    } else {
        m
    };
    if e.aliases is Some && e.aliases->0@.len() > 0 {
        m1.insert(e.network@ + ":alias"@, e.aliases->0@.last()@)
    } else {
        m1
    }
}

/// The aliases of all networks, in order.
pub open spec fn endpoints_entries(es: Seq<NetworkEndpoint>) -> Map<Seq<char>, Seq<char>>
    decreases es.len(),
{
    if es.len() == 0 {
        Map::empty()
    } else {
        endpoint_entries(endpoints_entries(es.drop_last()), es.last())
    }
}

fn add_endpoint(m: &mut KeyMap<String>, e: &NetworkEndpoint)
    ensures
        text_map(final(m)@) == endpoint_entries(text_map(old(m)@), *e),
{
    let ghost start = text_map(m@);
    if let Some(ip) = &e.ip_address {
        if ip.as_str().unicode_len() > 0 {
            let ghost before = m@;
            m.insert(e.network.clone().concat(":ip"), ip.clone());
            proof {
                assert(text_map(m@) =~= text_map(before).insert(e.network@ + ":ip"@, ip@));
            }
        }
    }
    let ghost m1 = text_map(m@);
    proof {
        assert(m1 == if e.ip_address is Some && e.ip_address->0@.len() > 0 {
            start.insert(e.network@ + ":ip"@, e.ip_address->0@)
        } else {
            start
        });
    }
    if let Some(aliases) = &e.aliases {
        let n = aliases.len();
        let mut i: usize = 0;
        while i < n
            invariant
                n == aliases@.len(),
                i <= n,
                e.aliases == Some(*aliases),
                text_map(m@) == if i == 0 {
                    m1
                } else {
                    m1.insert(e.network@ + ":alias"@, aliases@[i - 1]@)
                },
            decreases n - i,
        {
            let ghost before = m@;
            m.insert(e.network.clone().concat(":alias"), aliases[i].clone());
            proof {
                let key = e.network@ + ":alias"@;
                assert(text_map(m@) =~= text_map(before).insert(key, aliases@[i as int]@));
                if i > 0 {
                    assert(m1.insert(key, aliases@[i - 1]@).insert(key, aliases@[i as int]@) =~= m1.insert(key, aliases@[i as int]@));
                }
                assert(text_map(m@) =~= m1.insert(key, aliases@[i as int]@));
            }
            i = i + 1;
        }
        proof {
            if n > 0 {
                assert(aliases@.last() == aliases@[n - 1]);
            }
        }
    }
}

/// The container's addresses on its networks, keyed `<network>:ip` and
/// `<network>:alias`.
pub fn network_aliases(networks: &Vec<NetworkEndpoint>) -> (r: KeyMap<String>)
    ensures
        text_map(r@) == endpoints_entries(networks@),
{
    let mut m: KeyMap<String> = KeyMap::new();
    let n = networks.len();
    let mut i: usize = 0;
    proof {
        assert(text_map(m@) =~= Map::<Seq<char>, Seq<char>>::empty());
        assert(networks@.take(0) =~= Seq::<NetworkEndpoint>::empty());
    }
    while i < n
        invariant
            n == networks@.len(),
            i <= n,
            text_map(m@) == endpoints_entries(networks@.take(i as int)),
        decreases n - i,
    {
        add_endpoint(&mut m, &networks[i]);
        proof {
            assert(networks@.take(i + 1).drop_last() =~= networks@.take(i as int));
            assert(networks@.take(i + 1).last() == networks@[i as int]);
        }
        i = i + 1;
    }
    proof {
        assert(networks@.take(n as int) =~= networks@);
    }
    m
}

/// The container's name without leading `/`, or its id when it has none.
pub open spec fn name_of(id: Seq<char>, name: Option<Seq<char>>) -> Seq<char> {
    trim_leading_slashes(
        match name {
            Some(n) => n,
            None => id,
        },
    )
}

/// The spec of an inspected container: none when Docker reports no
/// configuration, else what its labels say.
pub fn spec_from_inspection(id: &str, insp: &InspectedContainer, defaults: &Defaults) -> (r: Option<
    Result<ContainerSpec, LabelError>,
>)
    ensures
        match insp.config {
            None => r is None,
            Some(c) => r matches Some(res) && spec_result_view(res) == parse_outcome(
                id@,
                name_of(id@, opt_text(insp.name)),
                c.labels@,
                port_list(c.exposed_ports@.map_values(|s: String| s@)),
                endpoints_entries(insp.networks@),
                *defaults,
            ),
        },
        forall|i: int|
            0 <= i < insp.networks@.len() && (#[trigger] insp.networks@[i]).ip_address is Some
                && insp.networks@[i].ip_address->0@.len() > 0 && (forall|j: int|
                i < j < insp.networks@.len() ==> (#[trigger] insp.networks@[j]).network@ != insp.networks@[i].network@
                    || insp.networks@[j].ip_address is None || insp.networks@[j].ip_address->0@.len() == 0) ==> (r matches Some(
                Ok(spec),
            ) ==> spec@.network_aliases.contains_key(insp.networks@[i].network@ + ":ip"@)
                && spec@.network_aliases[insp.networks@[i].network@ + ":ip"@] == insp.networks@[i].ip_address->0@),
{
    proof {
        assert forall|i: int|
            0 <= i < insp.networks@.len() && (#[trigger] insp.networks@[i]).ip_address is Some
                && insp.networks@[i].ip_address->0@.len() > 0 && (forall|j: int|
                i < j < insp.networks@.len() ==> (#[trigger] insp.networks@[j]).network@ != insp.networks@[i].network@
                    || insp.networks@[j].ip_address is None || insp.networks@[j].ip_address->0@.len() == 0) implies {
            let m = endpoints_entries(insp.networks@);
            m.contains_key(insp.networks@[i].network@ + ":ip"@) && m[insp.networks@[i].network@ + ":ip"@]
                == insp.networks@[i].ip_address->0@
        } by {
            lemma_endpoint_ip_recorded(insp.networks@, i);
        }
    }
    let config = match &insp.config {
        Some(c) => c,
        None => return None,
    };
    let name = match &insp.name {
        Some(n) => trim_start_slashes(n.as_str()),
        None => trim_start_slashes(id),
    };
    let ports = exposed_port_numbers(&config.exposed_ports);
    let aliases = network_aliases(&insp.networks);
    let facts = ContainerFacts {
        id,
        name: name.as_str(),
        labels: &config.labels,
        exposed_ports: ports.as_slice(),
        network_aliases: aliases,
    };
    Some(parse(facts, defaults))
}

/// One container of a sweep, with what `docker inspect` reported.
#[derive(Debug, Clone)]
pub struct InspectedItem {
    pub id: String,
    pub container: InspectedContainer,
}

/// What the labels of an inspected container give.
pub open spec fn inspection_outcome(id: Seq<char>, insp: InspectedContainer, d: Defaults) -> Option<
    Result<ContainerSpecView, crate::docker::labels::LabelErrorView>,
> {
    match insp.config {
        None => None,
        Some(c) => Some(
            parse_outcome(
                id,
                name_of(id, opt_text(insp.name)),
                c.labels@,
                port_list(c.exposed_ports@.map_values(|s: String| s@)),
                endpoints_entries(insp.networks@),
                d,
            ),
        ),
    }
}

/// The specs of a sweep: those of the containers whose labels parse, in order.
pub open spec fn sweep_specs(items: Seq<InspectedItem>, d: Defaults) -> Seq<ContainerSpecView>
    decreases items.len(),
{
    if items.len() == 0 {
        Seq::empty()
    } else {
        let rest = sweep_specs(items.drop_last(), d);
        match inspection_outcome(items.last().id@, items.last().container, d) {
            Some(Ok(s)) => rest.push(s),
            _ => rest,
        }
    }
}

/// The specs of the containers a sweep inspected; containers without a
/// configuration or with bad labels are skipped.
pub fn specs_from_inspections(items: &Vec<InspectedItem>, defaults: &Defaults) -> (r: Vec<ContainerSpec>)
    ensures
        r@.map_values(|c: ContainerSpec| c@) == sweep_specs(items@, *defaults),
{
    let mut out: Vec<ContainerSpec> = Vec::new();
    let n = items.len();
    let mut i: usize = 0;
    proof {
        assert(items@.take(0) =~= Seq::<InspectedItem>::empty());
        assert(out@.map_values(|c: ContainerSpec| c@) =~= Seq::<ContainerSpecView>::empty());
    }
    while i < n
        invariant
            n == items@.len(),
            i <= n,
            out@.map_values(|c: ContainerSpec| c@) == sweep_specs(items@.take(i as int), *defaults),
        decreases n - i,
    {
        let item = &items[i];
        let ghost before = out@;
        proof {
            assert(items@.take(i + 1).drop_last() =~= items@.take(i as int));
            assert(items@.take(i + 1).last() == items@[i as int]);
        }
        match spec_from_inspection(item.id.as_str(), &item.container, defaults) {
            Some(Ok(spec)) => {
                out.push(spec);
                proof {
                    assert(out@.map_values(|c: ContainerSpec| c@) =~= before.map_values(|c: ContainerSpec| c@).push(spec@));
                }
            },
            _ => {},
        }
        i = i + 1;
    }
    proof {
        assert(items@.take(n as int) =~= items@);
    }
    out
}

/// An `<network>:ip` key names one network, and is never an
/// `<network>:alias` key.
proof fn lemma_address_keys_distinct(n1: Seq<char>, n2: Seq<char>)
    ensures
        n1 + ":ip"@ == n2 + ":ip"@ ==> n1 == n2,
        n1 + ":alias"@ == n2 + ":alias"@ ==> n1 == n2,
        n1 + ":ip"@ != n2 + ":alias"@,
{
    reveal_strlit(":ip");
    reveal_strlit(":alias");
    if n1 + ":ip"@ == n2 + ":ip"@ {
        assert(n1 =~= (n1 + ":ip"@).subrange(0, n1.len() as int));
        assert(n2 =~= (n2 + ":ip"@).subrange(0, n2.len() as int));
    }
    if n1 + ":alias"@ == n2 + ":alias"@ {
        assert(n1 =~= (n1 + ":alias"@).subrange(0, n1.len() as int));
        assert(n2 =~= (n2 + ":alias"@).subrange(0, n2.len() as int));
    }
    let a = n1 + ":ip"@;
    let b = n2 + ":alias"@;
    if a == b {
        assert(a[a.len() - 1] == 'p');
        assert(b[b.len() - 1] == 's');
    }
}

/// Every endpoint with a non-empty IP has that IP recorded under
/// `<network>:ip`, whatever its aliases, unless a later endpoint of the same
/// network with a non-empty IP replaces it.
pub proof fn lemma_endpoint_ip_recorded(es: Seq<NetworkEndpoint>, i: int)
    requires
        0 <= i < es.len(),
        es[i].ip_address is Some,
        es[i].ip_address->0@.len() > 0,
        forall|j: int|
            i < j < es.len() ==> (#[trigger] es[j]).network@ != es[i].network@ || es[j].ip_address is None
                || es[j].ip_address->0@.len() == 0,
    ensures
        endpoints_entries(es).contains_key(es[i].network@ + ":ip"@),
        endpoints_entries(es)[es[i].network@ + ":ip"@] == es[i].ip_address->0@,
    decreases es.len(),
{
    let key = es[i].network@ + ":ip"@;
    let last = es.last();
    let d = es.drop_last();
    lemma_address_keys_distinct(es[i].network@, last.network@);
    if i < es.len() - 1 {
        assert(d[i] == es[i]);
        assert forall|j: int| i < j < d.len() implies (#[trigger] d[j]).network@ != d[i].network@ || d[j].ip_address is None
            || d[j].ip_address->0@.len() == 0 by {
            assert(d[j] == es[j]);
        }
        lemma_endpoint_ip_recorded(d, i);
        assert(es[es.len() - 1] == last);
        lemma_address_keys_distinct(last.network@, es[i].network@);
    } else {
        assert(es[i] == last);
    }
}

/// Every endpoint with aliases has its last alias recorded under
/// `<network>:alias`, unless a later endpoint of the same network with
/// aliases replaces it.
pub proof fn lemma_endpoint_alias_recorded(es: Seq<NetworkEndpoint>, i: int)
    requires
        0 <= i < es.len(),
        es[i].aliases is Some,
        es[i].aliases->0@.len() > 0,
        forall|j: int|
            i < j < es.len() ==> (#[trigger] es[j]).network@ != es[i].network@ || es[j].aliases is None
                || es[j].aliases->0@.len() == 0,
    ensures
        endpoints_entries(es).contains_key(es[i].network@ + ":alias"@),
        endpoints_entries(es)[es[i].network@ + ":alias"@] == es[i].aliases->0@.last()@,
    decreases es.len(),
{
    let last = es.last();
    let d = es.drop_last();
    lemma_address_keys_distinct(last.network@, es[i].network@);
    if i < es.len() - 1 {
        assert(d[i] == es[i]);
        assert forall|j: int| i < j < d.len() implies (#[trigger] d[j]).network@ != d[i].network@ || d[j].aliases is None
            || d[j].aliases->0@.len() == 0 by {
            assert(d[j] == es[j]);
        }
        lemma_endpoint_alias_recorded(d, i);
        assert(es[es.len() - 1] == last);
        lemma_address_keys_distinct(es[i].network@, last.network@);
    } else {
        assert(es[i] == last);
    }
}

} // verus!
