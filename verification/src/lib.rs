//! A catalog of LwM2M object definitions.
//!
//! Object definition documents are decoded from loosely typed textual fields
//! into a strict typed model: a dotted [`Version`] with a total order, field
//! decoders with per-field strictness, and an [`Object`]/[`Resource`] record
//! model. Decoded objects are aggregated into a [`Registry`] that answers
//! identity, name and version lookups.

pub mod decode;
pub mod loader;
pub mod model;
pub mod registry;
pub mod strutil;
pub mod version;

pub use model::LwM2MSpec;
pub use model::Object;
pub use model::Operations;
pub use model::Resource;
pub use model::ResourceType;
pub use registry::Registry;
pub use version::ParseVersionError;
pub use version::Version;
