//! The ownership marker stored under `npm_docker_sync` in a proxy host's
//! `meta` object.
//!
//! `meta` is a JSON value. The library holds what its logic reads of it: whether
//! it is an object, its keys, and, under the marker key, a marker when one is
//! there. Every other value is kept as its JSON text, unchanged.
use vstd::prelude::*;
use crate::keymap::KeyMap;
use time::OffsetDateTime;

verus! {

#[verifier::external_type_specification]
#[verifier::external_body]
pub struct ExOffsetDateTime(OffsetDateTime);

/// `time::OffsetDateTime::now_utc`: the current time, in UTC. It depends on
/// the clock, so nothing is stated of it.
#[verifier::external_body]
pub(crate) fn now_utc() -> OffsetDateTime {
    OffsetDateTime::now_utc()
}

/// The key under which the marker is stored.
pub const MARKER_KEY: &'static str = "npm_docker_sync";

/// Records that this service created and owns a proxy host.
#[derive(Debug, PartialEq, Eq)]
pub struct OwnershipMarker {
    pub version: u32,
    pub container_id: String,
    pub container_name: String,
    pub managed_at: OffsetDateTime,
}

/// The content of an [`OwnershipMarker`].
pub struct OwnershipMarkerView {
    pub version: u32,
    pub container_id: Seq<char>,
    pub container_name: Seq<char>,
    pub managed_at: OffsetDateTime,
}

impl View for OwnershipMarker {
    type V = OwnershipMarkerView;

    open spec fn view(&self) -> OwnershipMarkerView {
        OwnershipMarkerView {
            version: self.version,
            container_id: self.container_id@,
            container_name: self.container_name@,
            managed_at: self.managed_at,
        }
    }
}

impl Clone for OwnershipMarker {
    fn clone(&self) -> (r: Self)
        ensures
            r@ == self@,
    {
        OwnershipMarker {
            version: self.version,
            container_id: self.container_id.clone(),
            container_name: self.container_name.clone(),
            managed_at: self.managed_at,
        }
    }
}

/// One value of the `meta` object: a well-formed marker, or any other JSON
/// value as its text.
#[derive(Debug, PartialEq, Eq)]
pub enum MetaValue {
    Marker(OwnershipMarker),
    Json(String),
}

/// The content of a [`MetaValue`].
pub enum MetaValueView {
    Marker(OwnershipMarkerView),
    Json(Seq<char>),
}

impl View for MetaValue {
    type V = MetaValueView;

    open spec fn view(&self) -> MetaValueView {
        match self {
            MetaValue::Marker(m) => MetaValueView::Marker(m@),
            MetaValue::Json(s) => MetaValueView::Json(s@),
        }
    }
}

impl Clone for MetaValue {
    fn clone(&self) -> (r: Self)
        ensures
            r@ == self@,
    {
        match self {
            MetaValue::Marker(m) => MetaValue::Marker(m.clone()),
            MetaValue::Json(s) => MetaValue::Json(s.clone()),
        }
    }
}

/// A proxy host's `meta` field: a JSON object, or another JSON value as text.
#[derive(Debug, PartialEq, Eq)]
pub enum Meta {
    Object(KeyMap<MetaValue>),
    Other(String),
}

/// The content of a [`Meta`].
pub enum MetaView {
    Object(Map<Seq<char>, MetaValueView>),
    Other(Seq<char>),
}

/// A `meta` object's entries, seen through their views.
pub open spec fn meta_entries(m: Map<Seq<char>, MetaValue>) -> Map<Seq<char>, MetaValueView> {
    m.map_values(|v: MetaValue| v@)
}

impl View for Meta {
    type V = MetaView;

    open spec fn view(&self) -> MetaView {
        match self {
            Meta::Object(m) => MetaView::Object(meta_entries(m@)),
            Meta::Other(s) => MetaView::Other(s@),
        }
    }
}

/// Copies a `meta` object; the copy has the same content.
fn clone_entries(m: &KeyMap<MetaValue>) -> (r: KeyMap<MetaValue>)
    ensures
        meta_entries(r@) == meta_entries(m@),
{
    let r = m.clone();
    proof {
        assert(meta_entries(r@) =~= meta_entries(m@));
    }
    r
}

impl Clone for Meta {
    fn clone(&self) -> (r: Self)
        ensures
            r@ == self@,
    {
        match self {
            Meta::Object(m) => Meta::Object(clone_entries(m)),
            Meta::Other(s) => Meta::Other(s.clone()),
        }
    }
}

/// The `meta` that `encode` writes: the existing object, or a fresh one when
/// there is none, with the marker stored under the marker key.
pub open spec fn encoded(marker: OwnershipMarkerView, existing: Option<MetaView>) -> MetaView {
    let base = match existing {
        Some(MetaView::Object(m)) => m,
        _ => Map::empty(),
    };
    MetaView::Object(base.insert(MARKER_KEY@, MetaValueView::Marker(marker)))
}

/// The marker a `meta` holds: a well-formed marker under the marker key of an
/// object.
pub open spec fn decoded(meta: MetaView) -> Option<OwnershipMarkerView> {
    match meta {
        MetaView::Object(m) => if m.contains_key(MARKER_KEY@) {
            match m[MARKER_KEY@] {
                MetaValueView::Marker(mk) => Some(mk),
                MetaValueView::Json(_) => None,
            }
        } else {
            None
        },
        MetaView::Other(_) => None,
    }
}

/// Stores `marker` in `existing_meta`, keeping every other key of an object.
pub fn encode(marker: &OwnershipMarker, existing_meta: Option<&Meta>) -> (r: Meta)
    ensures
        r@ == encoded(marker@, match existing_meta { Some(m) => Some(m@), None => None }),
{
    let mut obj = match existing_meta {
        Some(Meta::Object(m)) => clone_entries(m),
        _ => KeyMap::new(),
    };
    let ghost before = obj@;
    obj.insert(String::from_str(MARKER_KEY), MetaValue::Marker(marker.clone()));
    proof {
        assert(meta_entries(obj@) =~= meta_entries(before).insert(MARKER_KEY@, MetaValueView::Marker(marker@)));
        if let Some(Meta::Object(m)) = existing_meta {
        } else {
            assert(meta_entries(before) =~= Map::<Seq<char>, MetaValueView>::empty());
        }
    }
    Meta::Object(obj)
}

/// The marker stored in `meta`, if it holds a well-formed one.
pub fn decode(meta: &Meta) -> (r: Option<OwnershipMarker>)
    ensures
        match r {
            Some(m) => decoded(meta@) == Some(m@),
            None => decoded(meta@) is None,
        },
{
    match meta {
        Meta::Object(obj) => match obj.get(MARKER_KEY) {
            Some(MetaValue::Marker(m)) => Some(m.clone()),
            _ => None,
        },
        Meta::Other(_) => None,
    }
}

/// `meta` holds a marker naming the container `id`.
pub open spec fn owner_is(meta: MetaView, id: Seq<char>) -> bool {
    decoded(meta) matches Some(m) && m.container_id == id
}

/// Whether `meta` holds a marker naming the container `container_id`.
pub fn owned_by(meta: &Meta, container_id: &str) -> (b: bool)
    ensures
        b == owner_is(meta@, container_id@),
{
    match meta {
        Meta::Object(obj) => match obj.get(MARKER_KEY) {
            Some(MetaValue::Marker(m)) => crate::text::str_eq(m.container_id.as_str(), container_id),
            _ => false,
        },
        Meta::Other(_) => false,
    }
}

/// Decoding what `encode` wrote gives back the marker, whatever `meta` held
/// before.
pub proof fn lemma_decode_encode(marker: OwnershipMarkerView, existing: Option<MetaView>)
    ensures
        decoded(encoded(marker, existing)) == Some(marker),
{
}

/// `encode` leaves every other key of an existing object, and its value, as
/// it was.
pub proof fn lemma_encode_preserves_other_keys(
    marker: OwnershipMarkerView,
    existing: Map<Seq<char>, MetaValueView>,
    key: Seq<char>,
)
    requires
        key != MARKER_KEY@,
    ensures
        encoded(marker, Some(MetaView::Object(existing))) matches MetaView::Object(m) && (m.contains_key(key)
            == existing.contains_key(key)) && (existing.contains_key(key) ==> m[key] == existing[key]),
{
}

/// A meta that is not an object, or an object without the marker key, holds
/// no marker: hosts created by hand are never taken for owned ones.
pub proof fn lemma_unmarked_meta_decodes_to_none(meta: MetaView)
    requires
        meta matches MetaView::Object(m) ==> !m.contains_key(MARKER_KEY@),
    ensures
        decoded(meta) is None,
{
}

} // verus!
