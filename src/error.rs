use vstd::prelude::*;

verus! {

/// Why an operation on the configuration tree was refused.
#[derive(Debug, Clone, Copy, PartialEq, Eq, Structural)]
pub enum ConfigError {
    /// The attribute index is past the end of the node's attribute table.
    InvalidAttribute,
    /// The attribute does not support the requested direction (read or write).
    PermissionDenied,
    /// A child of that name already exists.
    NameConflict,
    /// No child of that name exists.
    NotFound,
    /// The node's item type declares no child type.
    UnsupportedOperation,
    /// The written value is longer than the attribute's backing buffer.
    CapacityExceeded,
    /// The value to show is longer than the caller's buffer.
    Overflow,
    /// The handle names a node that has been removed.
    StaleReference,
}

} // verus!
