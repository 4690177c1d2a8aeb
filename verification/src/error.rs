//! The errors a write or update call can report.

use vstd::prelude::*;

verus! {

/// Why a write or update call failed.
///
/// A failure anywhere inside a container aborts the whole call: no partial
/// bit sequence is ever returned, and a child's error is propagated
/// unchanged rather than wrapped.
#[derive(Clone, Copy, Debug, PartialEq, Eq, Structural)]
pub enum Error {
    /// A derived-field result does not fit the field's declared type.
    Conversion,
    /// A built-in or custom field writer failed, for instance because a
    /// value needs more bits than the field's declared width.
    Codec,
}

} // verus!
