use npm_docker_sync::keymap::KeyMap;
use npm_docker_sync::npm::meta::{decode, encode, owned_by, Meta, MetaValue, OwnershipMarker, MARKER_KEY};
use time::OffsetDateTime;

fn sample() -> OwnershipMarker {
    OwnershipMarker {
        version: 1,
        container_id: "7b3f".into(),
        container_name: "myapp".into(),
        managed_at: OffsetDateTime::from_unix_timestamp(1776774896).unwrap(),
    }
}

fn object(meta: &Meta) -> &KeyMap<MetaValue> {
    match meta {
        Meta::Object(m) => m,
        Meta::Other(_) => panic!("meta is not an object"),
    }
}

#[test]
fn encode_into_fresh_meta() {
    let v = encode(&sample(), None);
    let marker = object(&v).get("npm_docker_sync").expect("marker key present");
    match marker {
        MetaValue::Marker(m) => {
            assert_eq!(m.container_id, "7b3f");
            assert_eq!(m.version, 1);
        }
        MetaValue::Json(_) => panic!("marker not stored"),
    }
}

#[test]
fn encode_preserves_existing_keys() {
    let mut existing = KeyMap::new();
    existing.insert("user_notes".to_string(), MetaValue::Json("\"do not touch\"".to_string()));
    let existing = Meta::Object(existing);
    let v = encode(&sample(), Some(&existing));
    assert_eq!(
        object(&v).get("user_notes"),
        Some(&MetaValue::Json("\"do not touch\"".to_string()))
    );
    assert!(object(&v).get("npm_docker_sync").is_some());
}

#[test]
fn encode_overwrites_stale_marker() {
    let mut existing = KeyMap::new();
    existing.insert(
        "npm_docker_sync".to_string(),
        MetaValue::Json("{\"container_id\":\"old\"}".to_string()),
    );
    let v = encode(&sample(), Some(&Meta::Object(existing)));
    assert_eq!(decode(&v).unwrap().container_id, "7b3f");
}

#[test]
fn decode_none_when_key_missing() {
    assert!(decode(&Meta::Object(KeyMap::new())).is_none());
}

#[test]
fn decode_round_trips() {
    let v = encode(&sample(), None);
    let got = decode(&v).expect("decoded");
    assert_eq!(got, sample());
}

#[test]
fn decode_none_on_malformed_marker() {
    let mut m = KeyMap::new();
    m.insert("npm_docker_sync".to_string(), MetaValue::Json("\"nonsense\"".to_string()));
    assert!(decode(&Meta::Object(m)).is_none());
}

#[test]
fn encode_replaces_non_object_meta() {
    let v = encode(&sample(), Some(&Meta::Other("null".to_string())));
    assert_eq!(object(&v).len(), 1);
    assert!(decode(&Meta::Other("[]".to_string())).is_none());
}

#[test]
fn ownership_is_by_container_id() {
    let v = encode(&sample(), None);
    assert!(owned_by(&v, "7b3f"));
    assert!(!owned_by(&v, "other"));
    assert!(!owned_by(&Meta::Object(KeyMap::new()), "7b3f"));
    assert_eq!(MARKER_KEY, "npm_docker_sync");
}
