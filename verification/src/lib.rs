//! Verified core of a container-registry manifest pipeline.
//!
//! Given the raw bytes of an OCI or Docker image manifest, this crate
//! parses and schema-validates the document, content-addresses the
//! exact bytes received, and extracts the list of content digests the
//! manifest depends on locally.

pub mod buffer;
pub mod digest;
pub mod json;
pub mod manifest;
pub mod manifest_media_type;
pub mod numstr;
pub mod strutil;

pub use digest::{sha256_digest, Digest, DigestError};
pub use manifest::{
    FromJson, InvalidManifest, Manifest, ManifestError, ManifestListEntry, OCIManifest,
    OCIManifestList, OCIManifestV2, Object, Platform,
};
