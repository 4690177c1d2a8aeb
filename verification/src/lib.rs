//! A schema-driven engine that serializes structured values into a precise,
//! bit-addressable binary form, and keeps derived fields (such as length
//! counters) consistent with the data they describe.
//!
//! A [`descriptor::TypeDescriptor`] describes the wire layout of one struct or
//! tagged-union type: field order, bit widths, endianness, custom write
//! expressions, context parameters and discriminant rules. A
//! [`value::Value`] holds the in-memory data. The write engine in
//! [`writer`] walks the descriptor over the value, refreshes every derived
//! field, and emits a deterministic sequence of bits, packed
//! most-significant-bit first into a [`bits::BitSink`].
//!
//! Every executable function is proved to return exactly what the
//! mathematical model in [`model`] says; [`laws`] states and proves what
//! holds of that model for all descriptors and values: determinism,
//! declaration-order layout, exact bit widths, refreshed counters and
//! tagged-union framing.

pub mod bits;
pub mod descriptor;
pub mod error;
pub mod laws;
pub mod model;
pub mod value;
pub mod writer;
