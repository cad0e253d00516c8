//! A typed bridge for defining native extension objects inside a
//! reference-counted foreign runtime.
//!
//! A foreign runtime manages objects as contiguous memory blocks headed by a
//! fixed object header. This library lets native payload values live inline
//! inside such blocks: it computes where a payload sits after a variable-size
//! base prefix (respecting alignment), allocates and tears down the blocks in
//! the right order, and builds new runtime type descriptors whose size and
//! finalizer slots match the composite layout.
//!
//! The runtime itself (allocator, reference counts, type readiness, attribute
//! dictionaries) is modeled explicitly as a [`runtime::Runtime`] value, so
//! every layout and lifecycle rule is stated and proved rather than assumed.

pub mod layout;
pub mod runtime;
pub mod payload;
pub mod object;
pub mod builder;
pub mod laws;
