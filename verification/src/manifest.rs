use vstd::prelude::*;

use crate::text::{split_on, split_spec};

verus! {

/// What `create` was asked for: the manifest file of the object.
pub struct ApplyArgs {
    pub file: String,
}

/// What `delete` was asked for: the manifest file of the object.
pub struct DeleteArgs {
    pub file: String,
}

/// Where `apply` creates an object: discovery runs on the core group whatever
/// the `apiVersion` holds, and the object goes to its own namespace.
pub struct ApplyTarget {
    /// Whether the `apiVersion` names a group (`group/version`).
    pub names_group: bool,
    pub discovery_group: String,
    pub kind: String,
    pub namespace: String,
}

/// Plans the creation of an object with this `apiVersion`, kind and namespace.
pub fn apply_target(api_version: &str, kind: &str, namespace: &str) -> (t: ApplyTarget)
    ensures
        t.names_group == (split_spec(api_version@, '/').len() == 2),
        t.discovery_group@ == Seq::<char>::empty(),
        t.kind@ == kind@,
        t.namespace@ == namespace@,
{
    let parts = split_on(api_version, '/');
    assert(parts@.map_values(|p: String| p@).len() == parts@.len());
    let names_group = parts.len() == 2;
    // both shapes of apiVersion are handled alike
    ApplyTarget {
        names_group,
        discovery_group: String::new(),
        kind: String::from_str(kind),
        namespace: String::from_str(namespace),
    }
}

/// The `metadata.namespace` field of a manifest, as YAML has it.
pub enum NamespaceField {
    Absent,
    Text(String),
    Other,
}

/// Which objects a delete addresses.
pub enum DeleteScope {
    AllNamespaces,
    Namespace(String),
}

/// The scope of a delete: cluster-wide when the manifest names no namespace,
/// that namespace when it names one, and none when the field is not text.
pub fn delete_scope(namespace: NamespaceField) -> (scope: Option<DeleteScope>)
    ensures
        match namespace {
            NamespaceField::Absent => scope == Some(DeleteScope::AllNamespaces),
            NamespaceField::Text(ns) => scope == Some(DeleteScope::Namespace(ns)),
            NamespaceField::Other => scope is None,
        },
{
    match namespace {
        NamespaceField::Absent => Some(DeleteScope::AllNamespaces),
        NamespaceField::Text(ns) => Some(DeleteScope::Namespace(ns)),
        NamespaceField::Other => None,
    }
}

} // verus!
