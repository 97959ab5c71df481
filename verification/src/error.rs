//! What can be wrong with a container's declaration.

use vstd::prelude::*;

verus! {

/// A fault in the declaration of a versioned container.
///
/// Every variant names the version or the item at which the fault lies.
#[derive(Debug, PartialEq, Eq)]
pub enum SchemaError {
    /// Two declared versions share the identifier `version`.
    DuplicateVersion { version: u64 },
    /// An action of the item `item` names `version`, which the container
    /// does not declare.
    UnknownVersionReference { item: String, version: u64 },
    /// The actions of the item `item` contradict each other.
    InvalidLifecycle { item: String },
    /// The item `item` first appears in `version` and declares no default,
    /// so the conversion into `version` has no value for it.
    NoDefaultForAddedItem { item: String, version: u64 },
}

/// The mathematical value of a [`SchemaError`].
pub enum SchemaErrorModel {
    DuplicateVersion { version: u64 },
    UnknownVersionReference { item: Seq<char>, version: u64 },
    InvalidLifecycle { item: Seq<char> },
    NoDefaultForAddedItem { item: Seq<char>, version: u64 },
}

impl View for SchemaError {
    type V = SchemaErrorModel;

    open spec fn view(&self) -> SchemaErrorModel {
        match self {
            SchemaError::DuplicateVersion { version } => SchemaErrorModel::DuplicateVersion {
                version: *version,
            },
            SchemaError::UnknownVersionReference {
                item,
                version,
            } => SchemaErrorModel::UnknownVersionReference { item: item@, version: *version },
            SchemaError::InvalidLifecycle { item } => SchemaErrorModel::InvalidLifecycle {
                item: item@,
            },
            SchemaError::NoDefaultForAddedItem {
                item,
                version,
            } => SchemaErrorModel::NoDefaultForAddedItem { item: item@, version: *version },
        }
    }
}

} // verus!
