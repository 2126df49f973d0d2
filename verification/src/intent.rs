//! What the watcher and the reconciler ask the writer to do.
use vstd::prelude::*;
use crate::docker::spec::{ContainerSpec, ContainerSpecView};

verus! {

/// A request to create/refresh or to remove the proxy host of a container.
#[derive(Debug, PartialEq, Eq)]
pub enum Intent {
    Upsert { container_id: String, spec: ContainerSpec },
    Remove { container_id: String },
}

/// The content of an [`Intent`].
pub enum IntentView {
    Upsert { container_id: Seq<char>, spec: ContainerSpecView },
    Remove { container_id: Seq<char> },
}

impl View for Intent {
    type V = IntentView;

    open spec fn view(&self) -> IntentView {
        match self {
            Intent::Upsert { container_id, spec } => IntentView::Upsert { container_id: container_id@, spec: spec@ },
            Intent::Remove { container_id } => IntentView::Remove { container_id: container_id@ },
        }
    }
}

impl Clone for Intent {
    fn clone(&self) -> (r: Self)
        ensures
            r@ == self@,
    {
        match self {
            Intent::Upsert { container_id, spec } => Intent::Upsert { container_id: container_id.clone(), spec: spec.clone() },
            Intent::Remove { container_id } => Intent::Remove { container_id: container_id.clone() },
        }
    }
}

} // verus!
