//! Turns the containers that are running and the proxy hosts NPM holds into
//! the intents that close the drift between them.
use vstd::prelude::*;
use crate::docker::spec::{ContainerSpec, ContainerSpecView};
use crate::intent::{Intent, IntentView};
use crate::npm::meta::{decode, decoded, owner_is};
use crate::npm::types::{ProxyHost, ProxyHostView};

verus! {

/// `h` carries this service's marker for container `id`.
pub open spec fn host_owned_by(h: ProxyHostView, id: Seq<char>) -> bool {
    owner_is(h.meta, id)
}

/// The ids of the running containers.
pub open spec fn container_ids(cs: Seq<ContainerSpecView>) -> Seq<Seq<char>> {
    cs.map_values(|c: ContainerSpecView| c.id)
}

/// One upsert per container, in order.
pub open spec fn upserts(cs: Seq<ContainerSpecView>) -> Seq<IntentView> {
    cs.map_values(|c: ContainerSpecView| IntentView::Upsert { container_id: c.id, spec: c })
}

/// One removal per owned host whose container is not running, in host order.
pub open spec fn removals(alive: Seq<Seq<char>>, hs: Seq<ProxyHostView>) -> Seq<IntentView>
    decreases hs.len(),
{
    if hs.len() == 0 {
        Seq::empty()
    } else {
        let rest = removals(alive, hs.drop_last());
        match decoded(hs.last().meta) {
            Some(m) => if alive.contains(m.container_id) {
                rest
            } else {
                rest.push(IntentView::Remove { container_id: m.container_id })
            },
            None => rest,
        }
    }
}

/// The intents of one reconciliation sweep.
pub open spec fn planned(cs: Seq<ContainerSpecView>, hs: Seq<ProxyHostView>) -> Seq<IntentView> {
    upserts(cs) + removals(container_ids(cs), hs)
}

/// The views of a list of containers.
pub open spec fn spec_views(cs: Seq<ContainerSpec>) -> Seq<ContainerSpecView> {
    cs.map_values(|c: ContainerSpec| c@)
}

/// The views of a list of hosts.
pub open spec fn host_views(hs: Seq<ProxyHost>) -> Seq<ProxyHostView> {
    hs.map_values(|h: ProxyHost| h@)
}

/// The views of a list of intents.
pub open spec fn intent_views(is: Seq<Intent>) -> Seq<IntentView> {
    is.map_values(|i: Intent| i@)
}

fn is_alive(containers: &[ContainerSpec], id: &str) -> (b: bool)
    ensures
        b == container_ids(spec_views(containers@)).contains(id@),
{
    let n = containers.len();
    let mut i: usize = 0;
    while i < n
        invariant
            n == containers@.len(),
            i <= n,
            forall|j: int| 0 <= j < i ==> containers@[j].id@ != id@,
        decreases n - i,
    {
        if crate::text::str_eq(containers[i].id.as_str(), id) {
            proof {
                assert(container_ids(spec_views(containers@))[i as int] == id@);
            }
            return true;
        }
        i = i + 1;
    }
    proof {
        if container_ids(spec_views(containers@)).contains(id@) {
            let j = choose|j: int| 0 <= j < n && container_ids(spec_views(containers@))[j] == id@;
            assert(containers@[j].id@ == id@);
        }
    }
    false
}

/// Plans a sweep: an upsert for every running container, then a removal for
/// every host that carries this service's marker for a container that is no
/// longer running. Hosts without a marker are left alone.
pub fn plan(containers: &[ContainerSpec], hosts: &[ProxyHost]) -> (out: Vec<Intent>)
    ensures
        intent_views(out@) == planned(spec_views(containers@), host_views(hosts@)),
        forall|j: int|
            0 <= j < hosts@.len() && (#[trigger] decoded(hosts@[j]@.meta)) is Some && (forall|c: int|
                0 <= c < containers@.len() ==> (#[trigger] containers@[c]).id@ != decoded(hosts@[j]@.meta)->0.container_id)
                ==> intent_views(out@).contains(IntentView::Remove { container_id: decoded(hosts@[j]@.meta)->0.container_id }),
{
    let mut out: Vec<Intent> = Vec::new();
    let n = containers.len();
    let mut i: usize = 0;
    while i < n
        invariant
            n == containers@.len(),
            i <= n,
            intent_views(out@) == upserts(spec_views(containers@).take(i as int)),
        decreases n - i,
    {
        let spec = &containers[i];
        let ghost before = out@;
        let item = Intent::Upsert { container_id: spec.id.clone(), spec: spec.clone() };
        proof {
            assert(item@ == (IntentView::Upsert { container_id: containers@[i as int]@.id, spec: containers@[i as int]@ }));
        }
        out.push(item);
        proof {
            let target = upserts(spec_views(containers@).take(i + 1));
            assert(out@ == before.push(item));
            assert(intent_views(before) == upserts(spec_views(containers@).take(i as int)));
            assert(intent_views(before).len() == i);
            assert(before.len() == i);
            assert forall|k: int| 0 <= k < target.len() implies intent_views(out@)[k] == target[k] by {
                if k < i {
                    assert(out@[k] == before[k]);
                    assert(intent_views(out@)[k] == intent_views(before)[k]);
                    assert(upserts(spec_views(containers@).take(i as int))[k] == target[k]);
                } else {
                    assert(spec_views(containers@).take(i + 1)[k] == containers@[i as int]@);
                }
            }
            assert(intent_views(out@) =~= target);
        }
        i = i + 1;
    }
    proof {
        assert(spec_views(containers@).take(n as int) =~= spec_views(containers@));
    }
    let ghost alive = container_ids(spec_views(containers@));
    let ghost ups = upserts(spec_views(containers@));
    let m = hosts.len();
    let mut j: usize = 0;
    while j < m
        invariant
            m == hosts@.len(),
            n == containers@.len(),
            j <= m,
            alive == container_ids(spec_views(containers@)),
            intent_views(out@) == ups + removals(alive, host_views(hosts@).take(j as int)),
        decreases m - j,
    {
        let host = &hosts[j];
        let ghost before = intent_views(out@);
        proof {
            assert(host_views(hosts@).take(j + 1).drop_last() =~= host_views(hosts@).take(j as int));
            assert(host_views(hosts@).take(j + 1).last() == host@);
        }
        if let Some(marker) = decode(&host.meta) {
            if !is_alive(containers, marker.container_id.as_str()) {
                out.push(Intent::Remove { container_id: marker.container_id });
                proof {
                    assert(intent_views(out@) =~= before.push(IntentView::Remove { container_id: marker.container_id@ }));
                }
            }
        }
        proof {
            assert(intent_views(out@) =~= ups + removals(alive, host_views(hosts@).take(j + 1)));
        }
        j = j + 1;
    }
    proof {
        assert(host_views(hosts@).take(m as int) =~= host_views(hosts@));
        assert forall|j: int|
            0 <= j < hosts@.len() && (#[trigger] decoded(hosts@[j]@.meta)) is Some && (forall|c: int|
                0 <= c < containers@.len() ==> (#[trigger] containers@[c]).id@ != decoded(hosts@[j]@.meta)->0.container_id)
            implies intent_views(out@).contains(IntentView::Remove { container_id: decoded(hosts@[j]@.meta)->0.container_id }) by {
            let cs = spec_views(containers@);
            let hs = host_views(hosts@);
            assert(hs[j] == hosts@[j]@);
            assert forall|c: int| 0 <= c < cs.len() implies (#[trigger] cs[c]).id != decoded(hs[j].meta)->0.container_id by {
                assert(cs[c] == containers@[c]@);
            }
            lemma_plan_removes_stale_owned_hosts(cs, hs, j);
        }
    }
    out
}

/// Every container gets exactly one upsert, at its own position, carrying its
/// spec.
pub proof fn lemma_every_container_upserted(cs: Seq<ContainerSpecView>, hs: Seq<ProxyHostView>, i: int)
    requires
        0 <= i < cs.len(),
    ensures
        planned(cs, hs)[i] == (IntentView::Upsert { container_id: cs[i].id, spec: cs[i] }),
{
}

/// Every intent after the upserts removes the container named by the marker
/// of some host, and that container is not running.
pub proof fn lemma_removals_only_for_dead_owned_hosts(alive: Seq<Seq<char>>, hs: Seq<ProxyHostView>, k: int)
    requires
        0 <= k < removals(alive, hs).len(),
    ensures
        removals(alive, hs)[k] matches IntentView::Remove { container_id } && !alive.contains(container_id)
            && exists|j: int| 0 <= j < hs.len() && #[trigger] host_owned_by(hs[j], container_id),
    decreases hs.len(),
{
    if hs.len() == 0 {
        assert(false);
    }
    let rest = removals(alive, hs.drop_last());
    if k < rest.len() {
        lemma_removals_only_for_dead_owned_hosts(alive, hs.drop_last(), k);
        assert(removals(alive, hs)[k] == rest[k]);
        if let IntentView::Remove { container_id } = rest[k] {
            let j = choose|j: int| 0 <= j < hs.drop_last().len() && #[trigger] host_owned_by(hs.drop_last()[j], container_id);
            assert(hs[j] == hs.drop_last()[j]);
            assert(host_owned_by(hs[j], container_id));
        }
    } else {
        assert(hs[hs.len() - 1] == hs.last());
        match decoded(hs.last().meta) {
            Some(m) => {
                if alive.contains(m.container_id) {
                    assert(removals(alive, hs) == rest);
                    assert(false);
                }
                assert(removals(alive, hs) == rest.push(IntentView::Remove { container_id: m.container_id }));
                assert(removals(alive, hs)[k] == (IntentView::Remove { container_id: m.container_id }));
                assert(host_owned_by(hs[hs.len() - 1], m.container_id));
            },
            None => {
                assert(removals(alive, hs) == rest);
                assert(false);
            },
        }
    }
}

/// Hosts whose meta holds no marker (created by hand) give no intent at all.
pub proof fn lemma_unowned_hosts_ignored(alive: Seq<Seq<char>>, hs: Seq<ProxyHostView>)
    requires
        forall|j: int| 0 <= j < hs.len() ==> (#[trigger] decoded(hs[j].meta)) is None,
    ensures
        removals(alive, hs) == Seq::<IntentView>::empty(),
    decreases hs.len(),
{
    if hs.len() > 0 {
        assert forall|j: int| 0 <= j < hs.drop_last().len() implies (#[trigger] decoded(hs.drop_last()[j].meta)) is None by {
            assert(hs.drop_last()[j] == hs[j]);
        }
        lemma_unowned_hosts_ignored(alive, hs.drop_last());
        assert(decoded(hs[hs.len() - 1].meta) is None);
    }
}

/// A host owned for a running container is never removed.
pub proof fn lemma_live_container_not_removed(alive: Seq<Seq<char>>, hs: Seq<ProxyHostView>, id: Seq<char>)
    requires
        alive.contains(id),
    ensures
        !removals(alive, hs).contains(IntentView::Remove { container_id: id }),
{
    if removals(alive, hs).contains(IntentView::Remove { container_id: id }) {
        let k = choose|k: int| 0 <= k < removals(alive, hs).len() && removals(alive, hs)[k] == (IntentView::Remove { container_id: id });
        lemma_removals_only_for_dead_owned_hosts(alive, hs, k);
    }
}

/// No removal is lost: every host whose marker names a container that is not
/// running gets a removal of that container, whatever the host's other
/// fields.
pub proof fn lemma_removals_complete(alive: Seq<Seq<char>>, hs: Seq<ProxyHostView>, j: int)
    requires
        0 <= j < hs.len(),
        decoded(hs[j].meta) is Some,
        !alive.contains(decoded(hs[j].meta)->0.container_id),
    ensures
        removals(alive, hs).contains(IntentView::Remove { container_id: decoded(hs[j].meta)->0.container_id }),
    decreases hs.len(),
{
    let target = IntentView::Remove { container_id: decoded(hs[j].meta)->0.container_id };
    let rest = removals(alive, hs.drop_last());
    if j < hs.len() - 1 {
        assert(hs.drop_last()[j] == hs[j]);
        lemma_removals_complete(alive, hs.drop_last(), j);
        let k = choose|k: int| 0 <= k < rest.len() && rest[k] == target;
        match decoded(hs.last().meta) {
            Some(m) => if alive.contains(m.container_id) {
                assert(removals(alive, hs)[k] == target);
            } else {
                assert(removals(alive, hs) == rest.push(IntentView::Remove { container_id: m.container_id }));
                assert(removals(alive, hs)[k] == target);
            },
            None => {
                assert(removals(alive, hs)[k] == target);
            },
        }
    } else {
        assert(hs[j] == hs.last());
        assert(removals(alive, hs) == rest.push(target));
        assert(removals(alive, hs)[rest.len() as int] == target);
    }
}

/// A sweep removes every owned host whose container is gone: when no running
/// container has the id that a host's marker names, the plan holds a removal
/// of that id.
pub proof fn lemma_plan_removes_stale_owned_hosts(cs: Seq<ContainerSpecView>, hs: Seq<ProxyHostView>, j: int)
    requires
        0 <= j < hs.len(),
        decoded(hs[j].meta) is Some,
        forall|c: int| 0 <= c < cs.len() ==> (#[trigger] cs[c]).id != decoded(hs[j].meta)->0.container_id,
    ensures
        planned(cs, hs).contains(IntentView::Remove { container_id: decoded(hs[j].meta)->0.container_id }),
{
    let id = decoded(hs[j].meta)->0.container_id;
    let alive = container_ids(cs);
    if alive.contains(id) {
        let c = choose|c: int| 0 <= c < alive.len() && alive[c] == id;
        assert(cs[c].id == id);
    }
    lemma_removals_complete(alive, hs, j);
    let r = removals(alive, hs);
    let k = choose|k: int| 0 <= k < r.len() && r[k] == (IntentView::Remove { container_id: id });
    assert(planned(cs, hs)[upserts(cs).len() + k] == r[k]);
}

} // verus!
