//! The media-type strings of the manifest wire format.
//!
//! These strings are part of the externally observable contract of a
//! registry and must be reproduced byte-for-byte: clients and peer
//! registries dispatch on them.
use vstd::prelude::*;

verus! {

/// Media type of the legacy (schema version 1) Docker manifest.
pub open spec fn spec_docker_v1() -> Seq<char> {
    "application/vnd.docker.distribution.manifest.v1+json"@
}

/// Media type of a Docker schema-2 image manifest.
pub open spec fn spec_docker_v2() -> Seq<char> {
    "application/vnd.docker.distribution.manifest.v2+json"@
}

/// Media type of an OCI v1 image manifest.
pub open spec fn spec_oci_v1() -> Seq<char> {
    "application/vnd.oci.image.manifest.v1+json"@
}

/// Media type of a Docker manifest list.
pub open spec fn spec_docker_list() -> Seq<char> {
    "application/vnd.docker.distribution.manifest.list.v2+json"@
}

/// Media type of an OCI image index.
pub open spec fn spec_oci_index() -> Seq<char> {
    "application/vnd.oci.image.index.v1+json"@
}

/// Media type of a foreign layer: hosted at an external URL and never
/// stored by the registry, so excluded from local-dependency accounting.
pub open spec fn spec_foreign_layer() -> Seq<char> {
    "application/vnd.docker.image.rootfs.foreign.diff.tar.gzip"@
}

/// The media type assumed when a schema-2 document omits the field.
/// The distribution spec allows the omission; falling back to the OCI v1
/// image manifest type is load-bearing for interoperability.
pub open spec fn spec_default() -> Seq<char> {
    spec_oci_v1()
}

pub fn docker_v1() -> (s: &'static str)
    ensures
        s@ == spec_docker_v1(),
{
    "application/vnd.docker.distribution.manifest.v1+json"
}

pub fn docker_v2() -> (s: &'static str)
    ensures
        s@ == spec_docker_v2(),
{
    "application/vnd.docker.distribution.manifest.v2+json"
}

pub fn oci_v1() -> (s: &'static str)
    ensures
        s@ == spec_oci_v1(),
{
    "application/vnd.oci.image.manifest.v1+json"
}

pub fn docker_list() -> (s: &'static str)
    ensures
        s@ == spec_docker_list(),
{
    "application/vnd.docker.distribution.manifest.list.v2+json"
}

pub fn oci_index() -> (s: &'static str)
    ensures
        s@ == spec_oci_index(),
{
    "application/vnd.oci.image.index.v1+json"
}

pub fn foreign_layer() -> (s: &'static str)
    ensures
        s@ == spec_foreign_layer(),
{
    "application/vnd.docker.image.rootfs.foreign.diff.tar.gzip"
}

pub fn default_media_type() -> (s: &'static str)
    ensures
        s@ == spec_default(),
{
    "application/vnd.oci.image.manifest.v1+json"
}

} // verus!
