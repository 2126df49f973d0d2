//! What has to change on an existing proxy host so that it forwards as a
//! container's spec asks.
use vstd::prelude::*;
use crate::docker::spec::{ContainerSpec, ContainerSpecView, scheme_text};
use crate::keymap::KeyMap;
use crate::npm::types::{PatchValue, PatchValueView, ProxyHost, ProxyHostView, UpdateProxyHost, patch_fields, texts};
use crate::text::str_eq;

verus! {

/// The proxy host a container should have.
pub struct DesiredProxyHost<'a> {
    pub spec: &'a ContainerSpec,
    pub forward_host: &'a str,
}

/// The fields of `e` that differ from what `s` asks (forwarding to `fh`),
/// each with its desired value.
pub open spec fn diff_fields(e: ProxyHostView, s: ContainerSpecView, fh: Seq<char>) -> Map<Seq<char>, PatchValueView> {
    let m0 = Map::<Seq<char>, PatchValueView>::empty();
    let m1 = if e.forward_scheme != scheme_text(s.scheme) {
        m0.insert("forward_scheme"@, PatchValueView::Text(scheme_text(s.scheme)))
    } else {
        m0
    };
    let m2 = if e.forward_host != fh {
        m1.insert("forward_host"@, PatchValueView::Text(fh))
    } else {
        m1
    };
    let m3 = if e.forward_port != s.port {
        m2.insert("forward_port"@, PatchValueView::Number(s.port as u64))
    } else {
        m2
    };
    let m4 = if e.allow_websocket_upgrade != s.websockets {
        m3.insert("allow_websocket_upgrade"@, PatchValueView::Flag(s.websockets))
    } else {
        m3
    };
    let m5 = if e.block_exploits != s.block_exploits {
        m4.insert("block_exploits"@, PatchValueView::Flag(s.block_exploits))
    } else {
        m4
    };
    if e.domain_names != seq![s.url] {
        m5.insert("domain_names"@, PatchValueView::Texts(seq![s.url]))
    } else {
        m5
    }
}

/// The patch `diff_spec` returns: none when nothing differs.
pub open spec fn diff_outcome(e: ProxyHostView, s: ContainerSpecView, fh: Seq<char>) -> Option<Map<Seq<char>, PatchValueView>> {
    if diff_fields(e, s, fh).dom() == Set::<Seq<char>>::empty() {
        None
    } else {
        Some(diff_fields(e, s, fh))
    }
}

/// The six forwarding fields of `e` are those `s` asks for.
pub open spec fn host_matches(e: ProxyHostView, s: ContainerSpecView, fh: Seq<char>) -> bool {
    &&& e.forward_scheme == scheme_text(s.scheme)
    &&& e.forward_host == fh
    &&& e.forward_port == s.port
    &&& e.allow_websocket_upgrade == s.websockets
    &&& e.block_exploits == s.block_exploits
    &&& e.domain_names == seq![s.url]
}

fn insert_field(patch: &mut KeyMap<PatchValue>, key: &str, value: PatchValue)
    ensures
        patch_fields(final(patch)@) == patch_fields(old(patch)@).insert(key@, value@),
{
    let ghost before = patch@;
    patch.insert(String::from_str(key), value);
    proof {
        assert(patch_fields(patch@) =~= patch_fields(before).insert(key@, value@));
    }
}

fn has_single_domain(names: &Vec<String>, url: &String) -> (b: bool)
    ensures
        b == (texts(names@) == seq![url@]),
{
    if names.len() == 1 && str_eq(names[0].as_str(), url.as_str()) {
        proof {
            assert(texts(names@) =~= seq![url@]);
        }
        true
    } else {
        proof {
            if texts(names@) == seq![url@] {
                assert(texts(names@).len() == 1);
                assert(texts(names@)[0] == url@);
            }
        }
        false
    }
}

/// The patch that makes `existing` forward as `desired` asks, or `None` when
/// it already does.
pub fn diff_spec(existing: &ProxyHost, desired: &DesiredProxyHost<'_>) -> (r: Option<UpdateProxyHost>)
    ensures
        match r {
            Some(p) => diff_outcome(existing@, desired.spec@, desired.forward_host@) == Some(p@),
            None => diff_outcome(existing@, desired.spec@, desired.forward_host@) is None,
        },
{
    let mut patch: KeyMap<PatchValue> = KeyMap::new();
    let ghost e = existing@;
    let ghost s = desired.spec@;
    let ghost fh = desired.forward_host@;
    proof {
        assert(patch_fields(patch@) =~= Map::<Seq<char>, PatchValueView>::empty());
    }
    let desired_scheme = desired.spec.scheme.as_forward_scheme();
    if !str_eq(existing.forward_scheme.as_str(), desired_scheme.as_str()) {
        insert_field(&mut patch, "forward_scheme", PatchValue::Text(desired_scheme));
    }
    if !str_eq(existing.forward_host.as_str(), desired.forward_host) {
        insert_field(&mut patch, "forward_host", PatchValue::Text(String::from_str(desired.forward_host)));
    }
    if existing.forward_port != desired.spec.port {
        insert_field(&mut patch, "forward_port", PatchValue::Number(desired.spec.port as u64));
    }
    if existing.allow_websocket_upgrade != desired.spec.websockets {
        insert_field(&mut patch, "allow_websocket_upgrade", PatchValue::Flag(desired.spec.websockets));
    }
    if existing.block_exploits != desired.spec.block_exploits {
        insert_field(&mut patch, "block_exploits", PatchValue::Flag(desired.spec.block_exploits));
    }
    if !has_single_domain(&existing.domain_names, &desired.spec.url) {
        let mut names: Vec<String> = Vec::new();
        names.push(desired.spec.url.clone());
        proof {
            assert(texts(names@) =~= seq![s.url]);
        }
        insert_field(&mut patch, "domain_names", PatchValue::Texts(names));
    }
    proof {
        assert(patch_fields(patch@) == diff_fields(e, s, fh));
    }
    let result = UpdateProxyHost(patch);
    if result.len() == 0 {
        proof {
            assert(result@.dom() =~= Set::<Seq<char>>::empty());
        }
        None
    } else {
        proof {
            if result@.dom() == Set::<Seq<char>>::empty() {
                assert(result@.dom().len() == 0);
            }
        }
        Some(result)
    }
}

/// `e` with the fields of a patch applied.
pub open spec fn patched(e: ProxyHostView, p: Map<Seq<char>, PatchValueView>) -> ProxyHostView {
    ProxyHostView {
        forward_scheme: if p.contains_key("forward_scheme"@) && p["forward_scheme"@] is Text {
            p["forward_scheme"@]->Text_0
        } else {
            e.forward_scheme
        },
        forward_host: if p.contains_key("forward_host"@) && p["forward_host"@] is Text {
            p["forward_host"@]->Text_0
        } else {
            e.forward_host
        },
        forward_port: if p.contains_key("forward_port"@) && p["forward_port"@] is Number
            && p["forward_port"@]->Number_0 <= u16::MAX {
            p["forward_port"@]->Number_0 as u16
        } else {
            e.forward_port
        },
        allow_websocket_upgrade: if p.contains_key("allow_websocket_upgrade"@) && p["allow_websocket_upgrade"@] is Flag {
            p["allow_websocket_upgrade"@]->Flag_0
        } else {
            e.allow_websocket_upgrade
        },
        block_exploits: if p.contains_key("block_exploits"@) && p["block_exploits"@] is Flag {
            p["block_exploits"@]->Flag_0
        } else {
            e.block_exploits
        },
        domain_names: if p.contains_key("domain_names"@) && p["domain_names"@] is Texts {
            p["domain_names"@]->Texts_0
        } else {
            e.domain_names
        },
        ..e
    }
}

/// The six field names a patch can hold are pairwise different.
proof fn lemma_patch_keys_distinct()
    ensures
        "forward_scheme"@ != "forward_host"@,
        "forward_scheme"@ != "forward_port"@,
        "forward_scheme"@ != "allow_websocket_upgrade"@,
        "forward_scheme"@ != "block_exploits"@,
        "forward_scheme"@ != "domain_names"@,
        "forward_host"@ != "forward_port"@,
        "forward_host"@ != "allow_websocket_upgrade"@,
        "forward_host"@ != "block_exploits"@,
        "forward_host"@ != "domain_names"@,
        "forward_port"@ != "allow_websocket_upgrade"@,
        "forward_port"@ != "block_exploits"@,
        "forward_port"@ != "domain_names"@,
        "allow_websocket_upgrade"@ != "block_exploits"@,
        "allow_websocket_upgrade"@ != "domain_names"@,
        "block_exploits"@ != "domain_names"@,
{
    reveal_strlit("forward_scheme");
    reveal_strlit("forward_host");
    reveal_strlit("forward_port");
    reveal_strlit("allow_websocket_upgrade");
    reveal_strlit("block_exploits");
    reveal_strlit("domain_names");
    assert("forward_scheme"@[0] != "allow_websocket_upgrade"@[0]);
    assert("forward_scheme"@[0] != "block_exploits"@[0]);
    assert("forward_scheme"@[0] != "domain_names"@[0]);
    assert("forward_host"@[0] != "allow_websocket_upgrade"@[0]);
    assert("forward_host"@[0] != "block_exploits"@[0]);
    assert("forward_host"@[0] != "domain_names"@[0]);
    assert("forward_port"@[0] != "allow_websocket_upgrade"@[0]);
    assert("forward_port"@[0] != "block_exploits"@[0]);
    assert("forward_port"@[0] != "domain_names"@[0]);
    assert("allow_websocket_upgrade"@[0] != "block_exploits"@[0]);
    assert("allow_websocket_upgrade"@[0] != "domain_names"@[0]);
    assert("block_exploits"@[0] != "domain_names"@[0]);
    assert("forward_host"@[8] != "forward_port"@[8]);
    assert("forward_scheme"@.len() != "forward_host"@.len());
    assert("forward_scheme"@.len() != "forward_port"@.len());
}

/// No patch exactly when the host already forwards as asked.
pub proof fn lemma_no_patch_iff_matching(e: ProxyHostView, s: ContainerSpecView, fh: Seq<char>)
    ensures
        diff_outcome(e, s, fh) is None <==> host_matches(e, s, fh),
{
    lemma_patch_keys_distinct();
    let d = diff_fields(e, s, fh);
    if !host_matches(e, s, fh) {
        if e.forward_scheme != scheme_text(s.scheme) {
            assert(d.contains_key("forward_scheme"@));
        } else if e.forward_host != fh {
            assert(d.contains_key("forward_host"@));
        } else if e.forward_port != s.port {
            assert(d.contains_key("forward_port"@));
        } else if e.allow_websocket_upgrade != s.websockets {
            assert(d.contains_key("allow_websocket_upgrade"@));
        } else if e.block_exploits != s.block_exploits {
            assert(d.contains_key("block_exploits"@));
        } else {
            assert(d.contains_key("domain_names"@));
        }
    } else {
        assert(d.dom() =~= Set::<Seq<char>>::empty());
    }
}

/// Applying the patch makes the host forward as asked, changes nothing else,
/// and a second diff then finds nothing to change.
pub proof fn lemma_patch_reaches_desired(e: ProxyHostView, s: ContainerSpecView, fh: Seq<char>)
    ensures
        host_matches(patched(e, diff_fields(e, s, fh)), s, fh),
        patched(e, diff_fields(e, s, fh)).id == e.id,
        patched(e, diff_fields(e, s, fh)).meta == e.meta,
        patched(e, diff_fields(e, s, fh)).certificate_id == e.certificate_id,
        patched(e, diff_fields(e, s, fh)).ssl_forced == e.ssl_forced,
        diff_outcome(patched(e, diff_fields(e, s, fh)), s, fh) is None,
{
    lemma_patch_keys_distinct();
    let d = diff_fields(e, s, fh);
    let p = patched(e, d);
    assert(p.forward_scheme == scheme_text(s.scheme)) by {
        if e.forward_scheme != scheme_text(s.scheme) {
            assert(d.contains_key("forward_scheme"@));
            assert(d["forward_scheme"@] == PatchValueView::Text(scheme_text(s.scheme)));
        } else {
            assert(!d.contains_key("forward_scheme"@));
        }
    }
    assert(p.forward_host == fh) by {
        if e.forward_host != fh {
            assert(d["forward_host"@] == PatchValueView::Text(fh));
        } else {
            assert(!d.contains_key("forward_host"@));
        }
    }
    assert(p.forward_port == s.port) by {
        if e.forward_port != s.port {
            assert(d["forward_port"@] == PatchValueView::Number(s.port as u64));
        } else {
            assert(!d.contains_key("forward_port"@));
        }
    }
    assert(p.allow_websocket_upgrade == s.websockets) by {
        if e.allow_websocket_upgrade != s.websockets {
            assert(d["allow_websocket_upgrade"@] == PatchValueView::Flag(s.websockets));
        } else {
            assert(!d.contains_key("allow_websocket_upgrade"@));
        }
    }
    assert(p.block_exploits == s.block_exploits) by {
        if e.block_exploits != s.block_exploits {
            assert(d["block_exploits"@] == PatchValueView::Flag(s.block_exploits));
        } else {
            assert(!d.contains_key("block_exploits"@));
        }
    }
    assert(p.domain_names == seq![s.url]) by {
        if e.domain_names != seq![s.url] {
            assert(d["domain_names"@] == PatchValueView::Texts(seq![s.url]));
        } else {
            assert(!d.contains_key("domain_names"@));
        }
    }
    lemma_no_patch_iff_matching(p, s, fh);
}

} // verus!
