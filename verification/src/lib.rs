//! A typed, validated in-memory model of a glTF 2.0 asset.
//!
//! The crate centres on three subsystems:
//!
//! * indexed cross-references ([`root::Index`]) with checked and unchecked
//!   resolution against the document's top-level arrays;
//! * a validation pass that walks every entity, checks index bounds and
//!   cross-field consistency, and aggregates structured diagnostics;
//! * a typed accessor reader that decodes strided regions of the raw binary
//!   payloads into strongly-typed element sequences with per-read bounds
//!   checks.
//!
//! Reading files, JSON (de)serialization and image decoding live outside this
//! crate; the document model here works on plain values handed to it.

use vstd::prelude::*;

pub mod accessor;
pub mod animation;
pub mod asset;
pub mod buffer;
pub mod camera;
pub mod image;
pub mod material;
pub mod mesh;
pub mod root;
pub mod scene;
pub mod skin;
pub mod texture;
pub mod validation;

pub use crate::root::Root;

verus! {

} // verus!
