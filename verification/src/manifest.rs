//! The manifest model, parser and reference extractor.
//!
//! A manifest is an immutable value built once from the raw bytes a
//! client pushed: the exact bytes, the parsed model, and the content
//! address of the bytes. Parsing dispatches on the declared schema
//! version and media type first, then decodes the chosen shape; the
//! reference extractor walks a parsed model and collects the digests the
//! manifest depends on locally.
use vstd::pervasive::unreached;
use vstd::prelude::*;

use crate::buffer::{bytes_as_slice, bytes_clone, bytes_from_vec, bytes_view};
use crate::digest::{
    sha256_digest, spec_sha256_digest_str, valid_digest_str, Digest, DigestError,
};
use crate::json::{
    json_as_array, json_as_string, json_as_u64, json_doc_of, json_from_slice, json_get,
    json_is_null, json_view, values_views, JsonDoc,
};
use crate::manifest_media_type::{
    default_media_type, docker_list, docker_v2, foreign_layer, oci_index, oci_v1, spec_default,
    spec_docker_list, spec_docker_v2, spec_foreign_layer, spec_oci_index, spec_oci_v1,
};
use crate::numstr::{dec_str, u64_to_dec_string};
use crate::strutil::str_eq;

verus! {

/// Reference to one config or layer blob: media type, size (absent when
/// the document omits it), and the digest string in raw form. The digest
/// is validated only when the object is dereferenced by the reference
/// extractor, not at parse time.
#[derive(Debug)]
pub struct Object {
    pub media_type: String,
    pub size: Option<u64>,
    pub digest: String,
}

/// The platform an index entry targets.
#[derive(Debug)]
pub struct Platform {
    pub architecture: String,
    pub os: String,
    pub os_version: Option<String>,
    pub os_features: Option<String>,
    pub variant: Option<String>,
    pub features: Option<Vec<String>>,
}

/// One entry of a manifest index: a platform-specific manifest,
/// referenced by digest.
#[derive(Debug)]
pub struct ManifestListEntry {
    pub media_type: String,
    pub size: u32,
    pub digest: String,
    pub platform: Option<Platform>,
}

/// A manifest index: a fan-out document referencing multiple
/// platform-specific manifests by digest.
#[derive(Debug)]
pub struct OCIManifestList {
    pub schema_version: u8,
    pub media_type: String,
    pub manifests: Vec<ManifestListEntry>,
}

/// A single image manifest: one config object and ordered layer objects.
#[derive(Debug)]
pub struct OCIManifestV2 {
    pub schema_version: u8,
    pub media_type: Option<String>,
    pub config: Object,
    pub layers: Vec<Object>,
}

/// The two manifest shapes.
#[derive(Debug)]
pub enum OCIManifest {
    List(OCIManifestList),
    V2(OCIManifestV2),
}

/// A schema-level rule violation: missing or unsupported schema version,
/// or an unsupported media type.
#[derive(Debug, PartialEq, Eq)]
pub struct InvalidManifest {
    pub err: String,
}

/// The closed set of failure kinds raised by this crate.
#[derive(Debug, PartialEq, Eq)]
pub enum ManifestError {
    /// Encoding a manifest back to bytes failed. Reserved for symmetry;
    /// parsing never raises it.
    SerializeError,
    /// The document is malformed, or a value has the wrong shape or type
    /// for the dispatched variant.
    DeserializeError,
    /// A schema-level rule violation, with its reason.
    InvalidManifest(InvalidManifest),
    /// A digest string found inside the manifest is not syntactically
    /// valid.
    InvalidDigest(DigestError),
}

/// Media types that select the single-image shape.
pub open spec fn spec_is_single_type(mt: Seq<char>) -> bool {
    mt == spec_docker_v2() || mt == spec_oci_v1()
}

/// Media types that select the index shape.
pub open spec fn spec_is_index_type(mt: Seq<char>) -> bool {
    mt == spec_docker_list() || mt == spec_oci_index()
}

/// The media type used for dispatch: the declared one, or the default
/// single-image type when the document declares none.
pub open spec fn spec_effective_media_type(mt: Option<Seq<char>>) -> Seq<char> {
    match mt {
        Option::Some(s) => s,
        Option::None => spec_default(),
    }
}

/// What the parser guarantees of every model it returns: the schema
/// version is 2, and the declared media type (where the schema requires
/// or keeps one) belongs to the variant it was decoded as.
pub open spec fn manifest_shape_wf(m: OCIManifest) -> bool {
    match m {
        OCIManifest::V2(m2) => m2.schema_version == 2 && match m2.media_type {
            Option::Some(s) => spec_is_single_type(s@),
            Option::None => true,
        },
        OCIManifest::List(l) => l.schema_version == 2 && spec_is_index_type(l.media_type@),
    }
}

/// The three outcomes of media-type dispatch.
#[derive(Debug, Clone, Copy, PartialEq, Eq, Structural)]
pub enum MediaKind {
    Single,
    Index,
    Unsupported,
}

/// The shape selected by a (possibly absent) declared media type, after
/// the default rule.
pub open spec fn spec_classify_media_type(mt: Option<Seq<char>>) -> MediaKind {
    let eff = spec_effective_media_type(mt);
    if spec_is_single_type(eff) {
        MediaKind::Single
    } else if spec_is_index_type(eff) {
        MediaKind::Index
    } else {
        MediaKind::Unsupported
    }
}

/// The view of an optional string.
pub open spec fn spec_view_opt(mt: Option<String>) -> Option<Seq<char>> {
    match mt {
        Option::Some(s) => Option::Some(s@),
        Option::None => Option::None,
    }
}

/// Mathematical mirror of `Object`.
#[verifier::ext_equal]
pub ghost struct ObjectSpec {
    pub media_type: Seq<char>,
    pub size: Option<u64>,
    pub digest: Seq<char>,
}

impl View for Object {
    type V = ObjectSpec;

    open spec fn view(&self) -> ObjectSpec {
        ObjectSpec { media_type: self.media_type@, size: self.size, digest: self.digest@ }
    }
}

/// Mathematical mirror of `Platform`.
#[verifier::ext_equal]
pub ghost struct PlatformSpec {
    pub architecture: Seq<char>,
    pub os: Seq<char>,
    pub os_version: Option<Seq<char>>,
    pub os_features: Option<Seq<char>>,
    pub variant: Option<Seq<char>>,
    pub features: Option<Seq<Seq<char>>>,
}

/// The views of a sequence of strings.
pub open spec fn strings_views(ss: Seq<String>) -> Seq<Seq<char>> {
    ss.map_values(|s: String| s@)
}

impl View for Platform {
    type V = PlatformSpec;

    open spec fn view(&self) -> PlatformSpec {
        PlatformSpec {
            architecture: self.architecture@,
            os: self.os@,
            os_version: spec_view_opt(self.os_version),
            os_features: spec_view_opt(self.os_features),
            variant: spec_view_opt(self.variant),
            features: match self.features {
                Option::Some(fs) => Option::Some(strings_views(fs@)),
                Option::None => Option::None,
            },
        }
    }
}

/// Mathematical mirror of `ManifestListEntry`.
#[verifier::ext_equal]
pub ghost struct EntrySpec {
    pub media_type: Seq<char>,
    pub size: u32,
    pub digest: Seq<char>,
    pub platform: Option<PlatformSpec>,
}

impl View for ManifestListEntry {
    type V = EntrySpec;

    open spec fn view(&self) -> EntrySpec {
        EntrySpec {
            media_type: self.media_type@,
            size: self.size,
            digest: self.digest@,
            platform: match self.platform {
                Option::Some(p) => Option::Some(p@),
                Option::None => Option::None,
            },
        }
    }
}

/// The views of a sequence of objects.
pub open spec fn objects_views(os: Seq<Object>) -> Seq<ObjectSpec> {
    os.map_values(|o: Object| o@)
}

/// The views of a sequence of index entries.
pub open spec fn entries_views(es: Seq<ManifestListEntry>) -> Seq<EntrySpec> {
    es.map_values(|e: ManifestListEntry| e@)
}

/// Mathematical mirror of `OCIManifestList`.
#[verifier::ext_equal]
pub ghost struct ListSpec {
    pub schema_version: u8,
    pub media_type: Seq<char>,
    pub manifests: Seq<EntrySpec>,
}

impl View for OCIManifestList {
    type V = ListSpec;

    open spec fn view(&self) -> ListSpec {
        ListSpec {
            schema_version: self.schema_version,
            media_type: self.media_type@,
            manifests: entries_views(self.manifests@),
        }
    }
}

/// Mathematical mirror of `OCIManifestV2`.
#[verifier::ext_equal]
pub ghost struct V2Spec {
    pub schema_version: u8,
    pub media_type: Option<Seq<char>>,
    pub config: ObjectSpec,
    pub layers: Seq<ObjectSpec>,
}

impl View for OCIManifestV2 {
    type V = V2Spec;

    open spec fn view(&self) -> V2Spec {
        V2Spec {
            schema_version: self.schema_version,
            media_type: spec_view_opt(self.media_type),
            config: self.config@,
            layers: objects_views(self.layers@),
        }
    }
}

/// Mathematical mirror of `OCIManifest`.
#[verifier::ext_equal]
pub ghost enum OCIManifestSpec {
    List(ListSpec),
    V2(V2Spec),
}

impl View for OCIManifest {
    type V = OCIManifestSpec;

    open spec fn view(&self) -> OCIManifestSpec {
        match self {
            OCIManifest::List(l) => OCIManifestSpec::List(l@),
            OCIManifest::V2(m2) => OCIManifestSpec::V2(m2@),
        }
    }
}

/// The spec-level shape of a parse failure: a malformed document or type
/// mismatch, or a schema violation with its exact message.
#[verifier::ext_equal]
pub ghost enum ParseErrorSpec {
    Deserialize,
    Invalid(Seq<char>),
}

/// Whether an error value carries the outcome the parse specification
/// assigns.
pub open spec fn error_matches(e: ManifestError, pe: ParseErrorSpec) -> bool {
    match pe {
        ParseErrorSpec::Deserialize => e is DeserializeError,
        ParseErrorSpec::Invalid(msg) => e matches ManifestError::InvalidManifest(im) && im.err@
            == msg,
    }
}

/// The value of a key in a document, when the document is an object
/// holding it.
pub open spec fn doc_get(d: JsonDoc, key: Seq<char>) -> Option<JsonDoc> {
    match d {
        JsonDoc::Obj(m) => if m.contains_key(key) {
            Option::Some(m[key])
        } else {
            Option::None
        },
        _ => Option::None,
    }
}

/// A required string field: its content, or None on absence or type
/// mismatch.
pub open spec fn spec_req_str(d: JsonDoc, key: Seq<char>) -> Option<Seq<char>> {
    match doc_get(d, key) {
        Option::Some(JsonDoc::Str(s)) => Option::Some(s),
        _ => Option::None,
    }
}

/// An optional string field: absent or null gives None; a value of any
/// other non-string type is a mismatch.
pub open spec fn spec_opt_str(d: JsonDoc, key: Seq<char>) -> Result<Option<Seq<char>>, ()> {
    match doc_get(d, key) {
        Option::None => Ok(Option::None),
        Option::Some(JsonDoc::Null) => Ok(Option::None),
        Option::Some(JsonDoc::Str(s)) => Ok(Option::Some(s)),
        Option::Some(_) => Err(()),
    }
}

/// An optional unsigned-integer field, with the same convention.
pub open spec fn spec_opt_u64(d: JsonDoc, key: Seq<char>) -> Result<Option<u64>, ()> {
    match doc_get(d, key) {
        Option::None => Ok(Option::None),
        Option::Some(JsonDoc::Null) => Ok(Option::None),
        Option::Some(JsonDoc::UInt(n)) => Ok(Option::Some(n)),
        Option::Some(_) => Err(()),
    }
}

/// The declared schema version: a "schemaVersion" field holding an
/// unsigned integer.
pub open spec fn spec_schema_version_of(d: JsonDoc) -> Option<u64> {
    match doc_get(d, "schemaVersion"@) {
        Option::Some(JsonDoc::UInt(n)) => Option::Some(n),
        _ => Option::None,
    }
}

/// The schema error for a missing or unsupported version.
pub open spec fn spec_version_error(sv: Option<u64>) -> ParseErrorSpec {
    match sv {
        Option::None => ParseErrorSpec::Invalid("schemaVersion is required"@),
        Option::Some(n) => if n == 1 {
            ParseErrorSpec::Invalid(
                "Manifest Schema version 1 is not supported. Please update."@,
            )
        } else {
            ParseErrorSpec::Invalid("Unsupported version: "@ + dec_str(n as nat))
        },
    }
}

/// The declared media-type field of a schema-2 document: absent (or
/// null), a declared string, or a value of the wrong type.
#[verifier::ext_equal]
pub ghost enum MediaTypeField {
    Absent,
    Declared(Seq<char>),
    WrongType,
}

pub open spec fn spec_media_type_field(d: JsonDoc) -> MediaTypeField {
    match doc_get(d, "mediaType"@) {
        Option::None => MediaTypeField::Absent,
        Option::Some(JsonDoc::Null) => MediaTypeField::Absent,
        Option::Some(JsonDoc::Str(s)) => MediaTypeField::Declared(s),
        Option::Some(_) => MediaTypeField::WrongType,
    }
}

/// Structural decoding of one content object, as mathematics.
pub open spec fn spec_decode_object(d: JsonDoc) -> Result<ObjectSpec, ParseErrorSpec> {
    match (spec_req_str(d, "mediaType"@), spec_opt_u64(d, "size"@), spec_req_str(d, "digest"@)) {
        (Option::Some(mt), Ok(size), Option::Some(dg)) => Ok(
            ObjectSpec { media_type: mt, size, digest: dg },
        ),
        _ => Err(ParseErrorSpec::Deserialize),
    }
}

/// Structural decoding of a sequence of content objects; one mismatch
/// anywhere fails the whole sequence.
pub open spec fn spec_decode_objects(elems: Seq<JsonDoc>) -> Result<Seq<ObjectSpec>, ParseErrorSpec>
    decreases elems.len(),
{
    if elems.len() == 0 {
        Ok(Seq::empty())
    } else {
        match (spec_decode_objects(elems.drop_last()), spec_decode_object(elems.last())) {
            (Ok(rest), Ok(o)) => Ok(rest.push(o)),
            _ => Err(ParseErrorSpec::Deserialize),
        }
    }
}

/// Structural decoding of a sequence of strings.
pub open spec fn spec_decode_strings(elems: Seq<JsonDoc>) -> Result<Seq<Seq<char>>, ParseErrorSpec>
    decreases elems.len(),
{
    if elems.len() == 0 {
        Ok(Seq::empty())
    } else {
        match (spec_decode_strings(elems.drop_last()), elems.last()) {
            (Ok(rest), JsonDoc::Str(s)) => Ok(rest.push(s)),
            _ => Err(ParseErrorSpec::Deserialize),
        }
    }
}

/// Structural decoding of a platform descriptor, as mathematics.
pub open spec fn spec_decode_platform(d: JsonDoc) -> Result<PlatformSpec, ParseErrorSpec> {
    match (
        spec_req_str(d, "architecture"@),
        spec_req_str(d, "os"@),
        spec_opt_str(d, "os.version"@),
        spec_opt_str(d, "os.features"@),
        spec_opt_str(d, "variant"@),
    ) {
        (Option::Some(arch), Option::Some(os), Ok(osv), Ok(osf), Ok(var)) => match doc_get(
            d,
            "features"@,
        ) {
            Option::None => Ok(
                PlatformSpec {
                    architecture: arch,
                    os,
                    os_version: osv,
                    os_features: osf,
                    variant: var,
                    features: Option::None,
                },
            ),
            Option::Some(JsonDoc::Null) => Ok(
                PlatformSpec {
                    architecture: arch,
                    os,
                    os_version: osv,
                    os_features: osf,
                    variant: var,
                    features: Option::None,
                },
            ),
            Option::Some(JsonDoc::Arr(elems)) => match spec_decode_strings(elems) {
                Ok(fs) => Ok(
                    PlatformSpec {
                        architecture: arch,
                        os,
                        os_version: osv,
                        os_features: osf,
                        variant: var,
                        features: Option::Some(fs),
                    },
                ),
                Err(e) => Err(e),
            },
            Option::Some(_) => Err(ParseErrorSpec::Deserialize),
        },
        _ => Err(ParseErrorSpec::Deserialize),
    }
}

/// Structural decoding of one index entry, as mathematics. The size must
/// be an unsigned integer within the 32-bit range the model keeps.
pub open spec fn spec_decode_entry(d: JsonDoc) -> Result<EntrySpec, ParseErrorSpec> {
    match (spec_req_str(d, "mediaType"@), doc_get(d, "size"@), spec_req_str(d, "digest"@)) {
        (Option::Some(mt), Option::Some(JsonDoc::UInt(n)), Option::Some(dg)) => if n > u32::MAX
            as u64 {
            Err(ParseErrorSpec::Deserialize)
        } else {
            match doc_get(d, "platform"@) {
                Option::None => Ok(
                    EntrySpec {
                        media_type: mt,
                        size: n as u32,
                        digest: dg,
                        platform: Option::None,
                    },
                ),
                Option::Some(JsonDoc::Null) => Ok(
                    EntrySpec {
                        media_type: mt,
                        size: n as u32,
                        digest: dg,
                        platform: Option::None,
                    },
                ),
                Option::Some(p) => match spec_decode_platform(p) {
                    Ok(ps) => Ok(
                        EntrySpec {
                            media_type: mt,
                            size: n as u32,
                            digest: dg,
                            platform: Option::Some(ps),
                        },
                    ),
                    Err(e) => Err(e),
                },
            }
        },
        _ => Err(ParseErrorSpec::Deserialize),
    }
}

/// Structural decoding of a sequence of index entries.
pub open spec fn spec_decode_entries(elems: Seq<JsonDoc>) -> Result<Seq<EntrySpec>, ParseErrorSpec>
    decreases elems.len(),
{
    if elems.len() == 0 {
        Ok(Seq::empty())
    } else {
        match (spec_decode_entries(elems.drop_last()), spec_decode_entry(elems.last())) {
            (Ok(rest), Ok(en)) => Ok(rest.push(en)),
            _ => Err(ParseErrorSpec::Deserialize),
        }
    }
}

proof fn lemma_decode_strings_err(elems: Seq<JsonDoc>, i: int)
    requires
        0 <= i < elems.len(),
        !(elems[i] is Str),
    ensures
        spec_decode_strings(elems) == Err::<Seq<Seq<char>>, ParseErrorSpec>(
            ParseErrorSpec::Deserialize,
        ),
    decreases elems.len(),
{
    if i + 1 < elems.len() {
        assert(elems.drop_last()[i] == elems[i]);
        lemma_decode_strings_err(elems.drop_last(), i);
    }
}

proof fn lemma_decode_objects_err(elems: Seq<JsonDoc>, i: int)
    requires
        0 <= i < elems.len(),
        spec_decode_object(elems[i]) is Err,
    ensures
        spec_decode_objects(elems) == Err::<Seq<ObjectSpec>, ParseErrorSpec>(
            ParseErrorSpec::Deserialize,
        ),
    decreases elems.len(),
{
    if i + 1 < elems.len() {
        assert(elems.drop_last()[i] == elems[i]);
        lemma_decode_objects_err(elems.drop_last(), i);
    }
}

proof fn lemma_decode_entries_err(elems: Seq<JsonDoc>, i: int)
    requires
        0 <= i < elems.len(),
        spec_decode_entry(elems[i]) is Err,
    ensures
        spec_decode_entries(elems) == Err::<Seq<EntrySpec>, ParseErrorSpec>(
            ParseErrorSpec::Deserialize,
        ),
    decreases elems.len(),
{
    if i + 1 < elems.len() {
        assert(elems.drop_last()[i] == elems[i]);
        lemma_decode_entries_err(elems.drop_last(), i);
    }
}

/// Structural decoding of the single-image shape: a config object and an
/// array of layer objects. `mt` is the media type the dispatch selected
/// by (None when the document declares none).
pub open spec fn spec_decode_v2(d: JsonDoc, mt: Option<Seq<char>>) -> Result<
    V2Spec,
    ParseErrorSpec,
> {
    match doc_get(d, "config"@) {
        Option::None => Err(ParseErrorSpec::Deserialize),
        Option::Some(c) => match spec_decode_object(c) {
            Err(e) => Err(e),
            Ok(config) => match doc_get(d, "layers"@) {
                Option::Some(JsonDoc::Arr(elems)) => match spec_decode_objects(elems) {
                    Ok(layers) => Ok(
                        V2Spec { schema_version: 2, media_type: mt, config, layers },
                    ),
                    Err(e) => Err(e),
                },
                _ => Err(ParseErrorSpec::Deserialize),
            },
        },
    }
}

/// Structural decoding of the index shape: an array of entries.
pub open spec fn spec_decode_list(d: JsonDoc, media_type: Seq<char>) -> Result<
    ListSpec,
    ParseErrorSpec,
> {
    match doc_get(d, "manifests"@) {
        Option::Some(JsonDoc::Arr(elems)) => match spec_decode_entries(elems) {
            Ok(ms) => Ok(ListSpec { schema_version: 2, media_type, manifests: ms }),
            Err(e) => Err(e),
        },
        _ => Err(ParseErrorSpec::Deserialize),
    }
}

/// What the parser returns for a structured document: the schema-version
/// rule first, then media-type dispatch with the default rule, then
/// structural decoding of the selected shape. A media-type field of the
/// wrong type dispatches to the default single-image shape, where it is
/// a type mismatch.
pub open spec fn spec_from_json(d: JsonDoc) -> Result<OCIManifestSpec, ParseErrorSpec> {
    let sv = spec_schema_version_of(d);
    if sv != Option::Some(2u64) {
        Err(spec_version_error(sv))
    } else {
        match spec_media_type_field(d) {
            MediaTypeField::WrongType => Err(ParseErrorSpec::Deserialize),
            MediaTypeField::Absent => match spec_decode_v2(d, Option::None) {
                Ok(m2) => Ok(OCIManifestSpec::V2(m2)),
                Err(e) => Err(e),
            },
            MediaTypeField::Declared(s) => if spec_is_single_type(s) {
                match spec_decode_v2(d, Option::Some(s)) {
                    Ok(m2) => Ok(OCIManifestSpec::V2(m2)),
                    Err(e) => Err(e),
                }
            } else if spec_is_index_type(s) {
                match spec_decode_list(d, s) {
                    Ok(l) => Ok(OCIManifestSpec::List(l)),
                    Err(e) => Err(e),
                }
            } else {
                Err(ParseErrorSpec::Invalid("Media Type "@ + s + " is not supported."@))
            },
        }
    }
}

/// Enforces the schema-version rule: only version 2 is accepted. The
/// legacy signed format (version 1) is a deliberate compatibility
/// cutoff; any other version is unsupported.
pub fn check_schema_version(sv: Option<u64>) -> (r: Result<(), ManifestError>)
    ensures
        match r {
            Ok(_) => sv == Option::Some(2u64),
            Err(e) => sv != Option::Some(2u64) && match (sv, e) {
                (Option::None, ManifestError::InvalidManifest(im)) => im.err@
                    == "schemaVersion is required"@,
                (Option::Some(n), ManifestError::InvalidManifest(im)) => if n == 1 {
                    im.err@ == "Manifest Schema version 1 is not supported. Please update."@
                } else {
                    im.err@ == "Unsupported version: "@ + dec_str(n as nat)
                },
                _ => false,
            },
        },
        r matches Err(e) ==> error_matches(e, spec_version_error(sv)),
{
    match sv {
        Option::None => Err(
            ManifestError::InvalidManifest(
                InvalidManifest { err: String::from_str("schemaVersion is required") },
            ),
        ),
        Option::Some(1u64) => Err(
            ManifestError::InvalidManifest(
                InvalidManifest {
                    err: String::from_str(
                        "Manifest Schema version 1 is not supported. Please update.",
                    ),
                },
            ),
        ),
        Option::Some(2u64) => Ok(()),
        Option::Some(n) => {
            let mut msg = String::from_str("Unsupported version: ");
            let ns = u64_to_dec_string(n);
            msg.append(ns.as_str());
            Err(ManifestError::InvalidManifest(InvalidManifest { err: msg }))
        },
    }
}

/// Classifies the (possibly absent) declared media type of a schema-2
/// document: an absent one means the default single-image type.
pub fn classify_media_type(mt: &Option<String>) -> (k: MediaKind)
    ensures
        k == spec_classify_media_type(spec_view_opt(*mt)),
{
    match mt {
        Option::Some(s) => {
            if str_eq(s.as_str(), docker_v2()) || str_eq(s.as_str(), oci_v1()) {
                MediaKind::Single
            } else if str_eq(s.as_str(), docker_list()) || str_eq(s.as_str(), oci_index()) {
                MediaKind::Index
            } else {
                MediaKind::Unsupported
            }
        },
        Option::None => MediaKind::Single,
    }
}

/// Law: a document that omits its media type is dispatched as a
/// single-image manifest of the default (OCI v1) type.
pub proof fn lemma_absent_media_type_defaults_to_single()
    ensures
        spec_effective_media_type(Option::None) == spec_oci_v1(),
        spec_classify_media_type(Option::None) == MediaKind::Single,
{
}

/// The schema-level error raised for a declared media type that selects
/// neither shape.
fn unsupported_media_type_error(mt: &String) -> (e: ManifestError)
    ensures
        e matches ManifestError::InvalidManifest(im) && im.err@ == "Media Type "@ + mt@
            + " is not supported."@,
{
    let mut msg = String::from_str("Media Type ");
    msg.append(mt.as_str());
    msg.append(" is not supported.");
    ManifestError::InvalidManifest(InvalidManifest { err: msg })
}

/// Reads a field that the dispatched shape requires to be a string.
fn req_string_field(v: &serde_json::Value, key: &str) -> (r: Result<String, ManifestError>)
    ensures
        match r {
            Ok(s) => spec_req_str(json_view(*v), key@) == Option::Some(s@),
            Err(e) => spec_req_str(json_view(*v), key@) is None && e matches
                ManifestError::DeserializeError,
        },
{
    match json_get(v, key) {
        Option::Some(x) => match json_as_string(x) {
            Option::Some(s) => Ok(s),
            Option::None => Err(ManifestError::DeserializeError),
        },
        Option::None => Err(ManifestError::DeserializeError),
    }
}

/// Reads a field that may be absent or null but must be a string when it
/// carries a value.
fn opt_string_field(v: &serde_json::Value, key: &str) -> (r: Result<
    Option<String>,
    ManifestError,
>)
    ensures
        match r {
            Ok(s) => spec_opt_str(json_view(*v), key@) == Ok::<Option<Seq<char>>, ()>(
                spec_view_opt(s),
            ),
            Err(e) => spec_opt_str(json_view(*v), key@) is Err && e matches
                ManifestError::DeserializeError,
        },
{
    match json_get(v, key) {
        Option::Some(x) => {
            if json_is_null(x) {
                Ok(Option::None)
            } else {
                match json_as_string(x) {
                    Option::Some(s) => Ok(Option::Some(s)),
                    Option::None => Err(ManifestError::DeserializeError),
                }
            }
        },
        Option::None => Ok(Option::None),
    }
}

/// Structurally decodes one content object.
fn decode_object(v: &serde_json::Value) -> (r: Result<Object, ManifestError>)
    ensures
        match r {
            Ok(o) => spec_decode_object(json_view(*v)) == Ok::<ObjectSpec, ParseErrorSpec>(o@),
            Err(e) => spec_decode_object(json_view(*v)) == Err::<ObjectSpec, ParseErrorSpec>(
                ParseErrorSpec::Deserialize,
            ) && e matches ManifestError::DeserializeError,
        },
{
    let media_type = match req_string_field(v, "mediaType") {
        Ok(s) => s,
        Err(e) => {
            return Err(e);
        },
    };
    let size = match json_get(v, "size") {
        Option::Some(x) => {
            if json_is_null(x) {
                Option::None
            } else {
                match json_as_u64(x) {
                    Option::Some(n) => Option::Some(n),
                    Option::None => {
                        return Err(ManifestError::DeserializeError);
                    },
                }
            }
        },
        Option::None => Option::None,
    };
    let digest = match req_string_field(v, "digest") {
        Ok(s) => s,
        Err(e) => {
            return Err(e);
        },
    };
    Ok(Object { media_type, size, digest })
}

/// Structurally decodes a platform descriptor.
fn decode_platform(v: &serde_json::Value) -> (r: Result<Platform, ManifestError>)
    ensures
        match r {
            Ok(p) => spec_decode_platform(json_view(*v)) == Ok::<PlatformSpec, ParseErrorSpec>(
                p@,
            ),
            Err(e) => spec_decode_platform(json_view(*v)) == Err::<PlatformSpec, ParseErrorSpec>(
                ParseErrorSpec::Deserialize,
            ) && e matches ManifestError::DeserializeError,
        },
{
    let architecture = match req_string_field(v, "architecture") {
        Ok(s) => s,
        Err(e) => {
            return Err(e);
        },
    };
    let os = match req_string_field(v, "os") {
        Ok(s) => s,
        Err(e) => {
            return Err(e);
        },
    };
    let os_version = match opt_string_field(v, "os.version") {
        Ok(s) => s,
        Err(e) => {
            return Err(e);
        },
    };
    let os_features = match opt_string_field(v, "os.features") {
        Ok(s) => s,
        Err(e) => {
            return Err(e);
        },
    };
    let variant = match opt_string_field(v, "variant") {
        Ok(s) => s,
        Err(e) => {
            return Err(e);
        },
    };
    let features = match json_get(v, "features") {
        Option::Some(x) => {
            if json_is_null(x) {
                Option::None
            } else {
                let arr = match json_as_array(x) {
                    Option::Some(a) => a,
                    Option::None => {
                        return Err(ManifestError::DeserializeError);
                    },
                };
                let ghost elems = values_views(arr@);
                let mut out: Vec<String> = Vec::new();
                let mut i: usize = 0;
                proof {
                    assert(elems.subrange(0, 0) =~= Seq::<JsonDoc>::empty());
                    assert(strings_views(out@) =~= Seq::<Seq<char>>::empty());
                }
                while i < arr.len()
                    invariant
                        i <= arr@.len(),
                        elems == values_views(arr@),
                        spec_req_str(json_view(*v), "architecture"@) == Option::Some(
                            architecture@,
                        ),
                        spec_req_str(json_view(*v), "os"@) == Option::Some(os@),
                        spec_opt_str(json_view(*v), "os.version"@) == Ok::<
                            Option<Seq<char>>,
                            (),
                        >(spec_view_opt(os_version)),
                        spec_opt_str(json_view(*v), "os.features"@) == Ok::<
                            Option<Seq<char>>,
                            (),
                        >(spec_view_opt(os_features)),
                        spec_opt_str(json_view(*v), "variant"@) == Ok::<Option<Seq<char>>, ()>(
                            spec_view_opt(variant),
                        ),
                        doc_get(json_view(*v), "features"@) == Option::Some(JsonDoc::Arr(elems)),
                        spec_decode_strings(elems.subrange(0, i as int)) == Ok::<
                            Seq<Seq<char>>,
                            ParseErrorSpec,
                        >(strings_views(out@)),
                    decreases arr@.len() - i,
                {
                    match json_as_string(&arr[i]) {
                        Option::Some(s) => {
                            let ghost pre_views = strings_views(out@);
                            let ghost s_view = s@;
                            out.push(s);
                            proof {
                                let pre = elems.subrange(0, i as int);
                                let post = elems.subrange(0, i + 1 as int);
                                assert(post.drop_last() =~= pre);
                                assert(post.last() == elems[i as int]);
                                assert(strings_views(out@) =~= pre_views.push(s_view));
                            }
                        },
                        Option::None => {
                            proof {
                                lemma_decode_strings_err(elems, i as int);
                            }
                            return Err(ManifestError::DeserializeError);
                        },
                    }
                    i += 1;
                }
                proof {
                    assert(elems.subrange(0, elems.len() as int) =~= elems);
                }
                Option::Some(out)
            }
        },
        Option::None => Option::None,
    };
    Ok(Platform { architecture, os, os_version, os_features, variant, features })
}

/// Structurally decodes one index entry.
fn decode_entry(v: &serde_json::Value) -> (r: Result<ManifestListEntry, ManifestError>)
    ensures
        match r {
            Ok(en) => spec_decode_entry(json_view(*v)) == Ok::<EntrySpec, ParseErrorSpec>(en@),
            Err(e) => spec_decode_entry(json_view(*v)) == Err::<EntrySpec, ParseErrorSpec>(
                ParseErrorSpec::Deserialize,
            ) && e matches ManifestError::DeserializeError,
        },
{
    let media_type = match req_string_field(v, "mediaType") {
        Ok(s) => s,
        Err(e) => {
            return Err(e);
        },
    };
    let size64 = match json_get(v, "size") {
        Option::Some(x) => match json_as_u64(x) {
            Option::Some(n) => n,
            Option::None => {
                return Err(ManifestError::DeserializeError);
            },
        },
        Option::None => {
            return Err(ManifestError::DeserializeError);
        },
    };
    if size64 > u32::MAX as u64 {
        return Err(ManifestError::DeserializeError);
    }
    let size = size64 as u32;
    let digest = match req_string_field(v, "digest") {
        Ok(s) => s,
        Err(e) => {
            return Err(e);
        },
    };
    let platform = match json_get(v, "platform") {
        Option::Some(x) => {
            if json_is_null(x) {
                Option::None
            } else {
                match decode_platform(x) {
                    Ok(p) => Option::Some(p),
                    Err(e) => {
                        return Err(e);
                    },
                }
            }
        },
        Option::None => Option::None,
    };
    Ok(ManifestListEntry { media_type, size, digest, platform })
}

/// Structurally decodes the single-image shape. `mt_present` says
/// whether the document carries a `mediaType` field at all, and `mt` its
/// string content; a field that is present but not a string is a type
/// mismatch.
fn decode_v2(raw: &serde_json::Value, mt_present: bool, mt: Option<String>) -> (r: Result<
    OCIManifestV2,
    ManifestError,
>)
    ensures
        match r {
            Ok(m2) => m2.schema_version == 2 && m2.media_type == mt,
            Err(e) => e matches ManifestError::DeserializeError,
        },
        ({
            if mt_present && mt is None {
                r is Err
            } else {
                match spec_decode_v2(json_view(*raw), spec_view_opt(mt)) {
                    Ok(ms) => r matches Ok(m2) && m2@ == ms,
                    Err(pe) => r is Err && pe == ParseErrorSpec::Deserialize,
                }
            }
        }),
{
    if mt_present && mt.is_none() {
        return Err(ManifestError::DeserializeError);
    }
    let config = match json_get(raw, "config") {
        Option::Some(x) => match decode_object(x) {
            Ok(o) => o,
            Err(e) => {
                return Err(e);
            },
        },
        Option::None => {
            return Err(ManifestError::DeserializeError);
        },
    };
    let layers_val = match json_get(raw, "layers") {
        Option::Some(x) => x,
        Option::None => {
            return Err(ManifestError::DeserializeError);
        },
    };
    let arr = match json_as_array(layers_val) {
        Option::Some(a) => a,
        Option::None => {
            return Err(ManifestError::DeserializeError);
        },
    };
    let ghost elems = values_views(arr@);
    let mut layers: Vec<Object> = Vec::new();
    let mut i: usize = 0;
    proof {
        assert(elems.subrange(0, 0) =~= Seq::<JsonDoc>::empty());
        assert(objects_views(layers@) =~= Seq::<ObjectSpec>::empty());
    }
    while i < arr.len()
        invariant
            i <= arr@.len(),
            elems == values_views(arr@),
            !(mt_present && mt is None),
            doc_get(json_view(*raw), "config"@) matches Option::Some(c) && spec_decode_object(c)
                == Ok::<ObjectSpec, ParseErrorSpec>(config@),
            doc_get(json_view(*raw), "layers"@) == Option::Some(JsonDoc::Arr(elems)),
            spec_decode_objects(elems.subrange(0, i as int)) == Ok::<
                Seq<ObjectSpec>,
                ParseErrorSpec,
            >(objects_views(layers@)),
        decreases arr@.len() - i,
    {
        match decode_object(&arr[i]) {
            Ok(o) => {
                let ghost pre_views = objects_views(layers@);
                let ghost o_view = o@;
                layers.push(o);
                proof {
                    let pre = elems.subrange(0, i as int);
                    let post = elems.subrange(0, i + 1 as int);
                    assert(post.drop_last() =~= pre);
                    assert(post.last() == elems[i as int]);
                    assert(objects_views(layers@) =~= pre_views.push(o_view));
                }
            },
            Err(e) => {
                proof {
                    lemma_decode_objects_err(elems, i as int);
                }
                return Err(e);
            },
        }
        i += 1;
    }
    proof {
        assert(elems.subrange(0, elems.len() as int) =~= elems);
    }
    Ok(OCIManifestV2 { schema_version: 2, media_type: mt, config, layers })
}

/// Structurally decodes the index shape. `media_type` is the declared
/// media type the dispatch selected this shape by; the schema requires
/// it for this variant.
fn decode_list(raw: &serde_json::Value, media_type: String) -> (r: Result<
    OCIManifestList,
    ManifestError,
>)
    ensures
        match r {
            Ok(l) => l.schema_version == 2 && l.media_type == media_type,
            Err(e) => e matches ManifestError::DeserializeError,
        },
        match spec_decode_list(json_view(*raw), media_type@) {
            Ok(ls) => r matches Ok(l) && l@ == ls,
            Err(pe) => r is Err && pe == ParseErrorSpec::Deserialize,
        },
{
    let manifests_val = match json_get(raw, "manifests") {
        Option::Some(x) => x,
        Option::None => {
            return Err(ManifestError::DeserializeError);
        },
    };
    let arr = match json_as_array(manifests_val) {
        Option::Some(a) => a,
        Option::None => {
            return Err(ManifestError::DeserializeError);
        },
    };
    let ghost elems = values_views(arr@);
    let mut manifests: Vec<ManifestListEntry> = Vec::new();
    let mut i: usize = 0;
    proof {
        assert(elems.subrange(0, 0) =~= Seq::<JsonDoc>::empty());
        assert(entries_views(manifests@) =~= Seq::<EntrySpec>::empty());
    }
    while i < arr.len()
        invariant
            i <= arr@.len(),
            elems == values_views(arr@),
            doc_get(json_view(*raw), "manifests"@) == Option::Some(JsonDoc::Arr(elems)),
            spec_decode_entries(elems.subrange(0, i as int)) == Ok::<
                Seq<EntrySpec>,
                ParseErrorSpec,
            >(entries_views(manifests@)),
        decreases arr@.len() - i,
    {
        match decode_entry(&arr[i]) {
            Ok(en) => {
                let ghost pre_views = entries_views(manifests@);
                let ghost en_view = en@;
                manifests.push(en);
                proof {
                    let pre = elems.subrange(0, i as int);
                    let post = elems.subrange(0, i + 1 as int);
                    assert(post.drop_last() =~= pre);
                    assert(post.last() == elems[i as int]);
                    assert(entries_views(manifests@) =~= pre_views.push(en_view));
                }
            },
            Err(e) => {
                proof {
                    lemma_decode_entries_err(elems, i as int);
                }
                return Err(e);
            },
        }
        i += 1;
    }
    proof {
        assert(elems.subrange(0, elems.len() as int) =~= elems);
    }
    Ok(OCIManifestList { schema_version: 2, media_type, manifests })
}

/// Converts a parsed document into a validated manifest model: the
/// schema-version rule first, then media-type dispatch, then structural
/// decoding of the selected shape.
pub fn from_json_value(raw: &serde_json::Value) -> (r: Result<OCIManifest, ManifestError>)
    ensures
        match r {
            Ok(m) => manifest_shape_wf(m),
            Err(e) => e matches ManifestError::DeserializeError || e matches
                ManifestError::InvalidManifest(_),
        },
        match spec_from_json(json_view(*raw)) {
            Ok(ms) => r matches Ok(m) && m@ == ms,
            Err(pe) => r matches Err(e) && error_matches(e, pe),
        },
{
    let ghost jv = json_view(*raw);
    let sv = match json_get(raw, "schemaVersion") {
        Option::Some(x) => json_as_u64(x),
        Option::None => Option::None,
    };
    proof {
        assert(sv == spec_schema_version_of(jv));
    }
    match check_schema_version(sv) {
        Ok(_) => {},
        Err(e) => {
            return Err(e);
        },
    }
    let (mt_present, mt): (bool, Option<String>) = match json_get(raw, "mediaType") {
        Option::Some(x) => {
            if json_is_null(x) {
                (false, Option::None)
            } else {
                (true, json_as_string(x))
            }
        },
        Option::None => (false, Option::None),
    };
    proof {
        assert(match spec_media_type_field(jv) {
            MediaTypeField::Absent => !mt_present && mt is None,
            MediaTypeField::Declared(s) => mt_present && spec_view_opt(mt) == Option::Some(s),
            MediaTypeField::WrongType => mt_present && mt is None,
        });
    }
    match classify_media_type(&mt) {
        MediaKind::Single => match decode_v2(raw, mt_present, mt) {
            Ok(m2) => Ok(OCIManifest::V2(m2)),
            Err(e) => Err(e),
        },
        MediaKind::Index => match mt {
            Option::Some(s) => match decode_list(raw, s) {
                Ok(l) => Ok(OCIManifest::List(l)),
                Err(e) => Err(e),
            },
            Option::None => unreached(),
        },
        MediaKind::Unsupported => match mt {
            Option::Some(s) => Err(unsupported_media_type_error(&s)),
            Option::None => unreached(),
        },
    }
}

/// Conversion from a parsed structured document.
pub trait FromJson: Sized + View {
    /// What decoding returns for a given document, at the spec level.
    spec fn from_json_spec(d: JsonDoc) -> Result<Self::V, ParseErrorSpec>;

    /// Decodes a validated value from a JSON document tree.
    fn from_json(raw: &serde_json::Value) -> (r: Result<Self, ManifestError>)
        ensures
            match Self::from_json_spec(json_view(*raw)) {
                Ok(ms) => r matches Ok(m) && m@ == ms,
                Err(pe) => r matches Err(e) && error_matches(e, pe),
            },
    ;
}

impl FromJson for OCIManifest {
    open spec fn from_json_spec(d: JsonDoc) -> Result<OCIManifestSpec, ParseErrorSpec> {
        spec_from_json(d)
    }

    fn from_json(raw: &serde_json::Value) -> (r: Result<Self, ManifestError>) {
        from_json_value(raw)
    }
}

/// Law: the version gate of the parse specification — a missing or
/// non-2 schema version is rejected with exactly the version error, for
/// every document.
pub proof fn lemma_version_gate(d: JsonDoc)
    ensures
        spec_schema_version_of(d) != Option::Some(2u64) ==> spec_from_json(d) == Err::<
            OCIManifestSpec,
            ParseErrorSpec,
        >(spec_version_error(spec_schema_version_of(d))),
{
}

/// Law: a schema-2 document without a declared media type is decoded as
/// the single-image shape, carrying no declared type, whenever its body
/// decodes at all.
pub proof fn lemma_absent_media_type_parses_single(d: JsonDoc)
    requires
        spec_schema_version_of(d) == Option::Some(2u64),
        spec_media_type_field(d) == MediaTypeField::Absent,
    ensures
        spec_decode_v2(d, Option::None) matches Ok(m2) ==> spec_from_json(d) == Ok::<
            OCIManifestSpec,
            ParseErrorSpec,
        >(OCIManifestSpec::V2(m2)) && m2.media_type is None,
{
}

/// Whether a layer is foreign-hosted: stored at an external URL and
/// never by this registry.
pub open spec fn spec_is_foreign(o: Object) -> bool {
    o.media_type@ == spec_foreign_layer()
}

/// Digest strings of the locally stored layers, in document order.
pub open spec fn local_layer_digest_strs(layers: Seq<Object>) -> Seq<Seq<char>>
    decreases layers.len(),
{
    if layers.len() == 0 {
        Seq::empty()
    } else {
        local_layer_digest_strs(layers.drop_last()) + (if spec_is_foreign(layers.last()) {
            Seq::<Seq<char>>::empty()
        } else {
            seq![layers.last().digest@]
        })
    }
}

/// Digest strings of an index's entries: one per entry, in order.
pub open spec fn entry_digest_strs(entries: Seq<ManifestListEntry>) -> Seq<Seq<char>> {
    entries.map_values(|e: ManifestListEntry| e.digest@)
}

/// All digest strings a manifest depends on locally, in the order the
/// extractor collects them: for a single manifest the non-foreign layer
/// digests then the config digest; for an index every entry's digest,
/// without recursion into the referenced manifests.
pub open spec fn local_digest_strs(m: OCIManifest) -> Seq<Seq<char>> {
    match m {
        OCIManifest::V2(m2) => local_layer_digest_strs(m2.layers@) + seq![m2.config.digest@],
        OCIManifest::List(l) => entry_digest_strs(l.manifests@),
    }
}

pub open spec fn all_digest_strs_valid(strs: Seq<Seq<char>>) -> bool {
    forall|i: int| 0 <= i < strs.len() ==> valid_digest_str(#[trigger] strs[i])
}

/// The position of the first syntactically invalid digest string: the
/// one whose error fails the whole extraction.
pub open spec fn first_invalid_digest_idx(strs: Seq<Seq<char>>) -> int
    decreases strs.len(),
{
    if strs.len() == 0 {
        0
    } else if !valid_digest_str(strs[0]) {
        0
    } else {
        1 + first_invalid_digest_idx(strs.drop_first())
    }
}

proof fn lemma_first_invalid_digest_idx(strs: Seq<Seq<char>>, j: int)
    requires
        0 <= j < strs.len(),
        !valid_digest_str(strs[j]),
        forall|k: int| 0 <= k < j ==> valid_digest_str(#[trigger] strs[k]),
    ensures
        first_invalid_digest_idx(strs) == j,
    decreases j,
{
    if j > 0 {
        assert(valid_digest_str(strs[0]));
        let rest = strs.drop_first();
        assert(rest[j - 1] == strs[j]);
        assert forall|k: int| 0 <= k < j - 1 implies valid_digest_str(#[trigger] rest[k]) by {
            assert(rest[k] == strs[k + 1]);
        }
        lemma_first_invalid_digest_idx(rest, j - 1);
    }
}

/// The views of a sequence of digests.
pub open spec fn digest_views(ds: Seq<Digest>) -> Seq<Seq<char>> {
    ds.map_values(|d: Digest| d@)
}

/// Law: an index contributes exactly one digest per entry — the entry's
/// own digest string, in document order. The referenced sub-manifests
/// are never recursed into.
pub proof fn lemma_index_digests_one_per_entry(l: OCIManifestList)
    ensures
        local_digest_strs(OCIManifest::List(l)).len() == l.manifests@.len(),
        forall|i: int|
            0 <= i < l.manifests@.len() ==> local_digest_strs(OCIManifest::List(l))[i]
                == l.manifests@[i].digest@,
{
}

/// Law: a foreign layer contributes no digest; any other layer appends
/// exactly its own digest string.
pub proof fn lemma_layer_digest_step(layers: Seq<Object>)
    requires
        layers.len() > 0,
    ensures
        spec_is_foreign(layers.last()) ==> local_layer_digest_strs(layers)
            == local_layer_digest_strs(layers.drop_last()),
        !spec_is_foreign(layers.last()) ==> local_layer_digest_strs(layers)
            == local_layer_digest_strs(layers.drop_last()) + seq![layers.last().digest@],
{
    if spec_is_foreign(layers.last()) {
        assert(local_layer_digest_strs(layers) =~= local_layer_digest_strs(layers.drop_last()));
    }
}

proof fn lemma_layer_strs_prefix(layers: Seq<Object>, i: int)
    requires
        0 <= i <= layers.len(),
    ensures
        local_layer_digest_strs(layers.subrange(0, i)).len() <= local_layer_digest_strs(
            layers,
        ).len(),
        forall|j: int|
            0 <= j < local_layer_digest_strs(layers.subrange(0, i)).len()
                ==> #[trigger] local_layer_digest_strs(layers)[j] == local_layer_digest_strs(
                layers.subrange(0, i),
            )[j],
    decreases layers.len() - i,
{
    if i == layers.len() {
        assert(layers.subrange(0, i) =~= layers);
    } else {
        lemma_layer_strs_prefix(layers, i + 1);
        let pre = layers.subrange(0, i);
        let post = layers.subrange(0, i + 1);
        assert(post.drop_last() =~= pre);
        assert(post.last() == layers[i]);
    }
}

/// An immutable manifest value: the exact raw bytes received, the model
/// parsed from them, and the content address of the bytes, computed once
/// at construction and never recomputed.
#[derive(Debug)]
pub struct Manifest {
    raw: bytes::Bytes,
    parsed: OCIManifest,
    digest: Digest,
}

/// The media type a manifest reports: the declared one of a single
/// manifest, with the default when it declares none; the declared one of
/// an index, verbatim.
pub open spec fn spec_media_type_of(m: OCIManifest) -> Seq<char> {
    match m {
        OCIManifest::V2(m2) => match m2.media_type {
            Option::Some(s) => s@,
            Option::None => spec_default(),
        },
        OCIManifest::List(l) => l.media_type@,
    }
}

impl Manifest {
    /// The raw bytes, as received.
    pub closed spec fn spec_raw(&self) -> Seq<u8> {
        bytes_view(self.raw)
    }

    /// The parsed model.
    pub closed spec fn spec_parsed(&self) -> OCIManifest {
        self.parsed
    }

    /// The cached content address, in canonical textual form.
    pub closed spec fn spec_digest(&self) -> Seq<char> {
        self.digest@
    }

    /// Invariant: the digest is the content address of exactly the raw
    /// bytes — never of a re-encoding, so that key order or whitespace
    /// can never change the manifest's identity — and the model is
    /// well-formed for its variant.
    pub open spec fn wf(&self) -> bool {
        &&& self.spec_digest() == spec_sha256_digest_str(self.spec_raw())
        &&& valid_digest_str(self.spec_digest())
        &&& manifest_shape_wf(self.spec_parsed())
    }

    /// Parses an owned byte vector into a manifest.
    pub fn from_vec(vec: Vec<u8>) -> (r: Result<Manifest, ManifestError>)
        ensures
            match r {
                Ok(m) => m.wf() && m.spec_raw() == vec@,
                Err(e) => e matches ManifestError::DeserializeError || e matches
                    ManifestError::InvalidManifest(_),
            },
            match json_doc_of(vec@) {
                Option::None => r matches Err(e) && e is DeserializeError,
                Option::Some(d) => match spec_from_json(d) {
                    Ok(ms) => r matches Ok(m) && m.spec_parsed()@ == ms,
                    Err(pe) => r matches Err(e) && error_matches(e, pe),
                },
            },
    {
        Self::from_bytes(bytes_from_vec(vec))
    }

    /// Parses the raw bytes of a manifest document. Construction either
    /// fully succeeds or returns an error: no partial manifest is ever
    /// observable.
    pub fn from_bytes(bytes: bytes::Bytes) -> (r: Result<Manifest, ManifestError>)
        ensures
            match r {
                Ok(m) => m.wf() && m.spec_raw() == bytes_view(bytes),
                Err(e) => e matches ManifestError::DeserializeError || e matches
                    ManifestError::InvalidManifest(_),
            },
            match json_doc_of(bytes_view(bytes)) {
                Option::None => r matches Err(e) && e is DeserializeError,
                Option::Some(d) => match spec_from_json(d) {
                    Ok(ms) => r matches Ok(m) && m.spec_parsed()@ == ms,
                    Err(pe) => r matches Err(e) && error_matches(e, pe),
                },
            },
    {
        let parsed = {
            let slice = bytes_as_slice(&bytes);
            match json_from_slice(slice) {
                Ok(v) => match from_json_value(&v) {
                    Ok(p) => p,
                    Err(e) => {
                        return Err(e);
                    },
                },
                Err(_) => {
                    return Err(ManifestError::DeserializeError);
                },
            }
        };
        let digest = {
            let slice = bytes_as_slice(&bytes);
            sha256_digest(slice)
        };
        Ok(Manifest { raw: bytes, parsed, digest })
    }

    /// The parsed model.
    pub fn parsed(&self) -> (p: &OCIManifest)
        ensures
            *p == self.spec_parsed(),
    {
        &self.parsed
    }

    /// The raw bytes, exactly as received: a shallow copy of the shared
    /// buffer, never a re-encoding.
    pub fn raw(&self) -> (r: bytes::Bytes)
        ensures
            bytes_view(r) == self.spec_raw(),
    {
        bytes_clone(&self.raw)
    }

    /// The content address of the raw bytes, computed at construction.
    pub fn digest(&self) -> (d: &Digest)
        ensures
            d@ == self.spec_digest(),
    {
        &self.digest
    }

    /// The media type the manifest reports: the declared string when
    /// present, the default single-image type when a single manifest
    /// declares none.
    pub fn get_media_type(&self) -> (r: String)
        ensures
            r@ == spec_media_type_of(self.spec_parsed()),
    {
        match &self.parsed {
            OCIManifest::V2(m2) => match &m2.media_type {
                Option::Some(s) => s.clone(),
                Option::None => String::from_str(default_media_type()),
            },
            OCIManifest::List(l) => l.media_type.clone(),
        }
    }

    /// Returns the digests of all assets the manifest depends on
    /// locally: for a single manifest the non-foreign layers then the
    /// config, for an index one digest per entry. Every digest string is
    /// validated; a single invalid one anywhere fails the whole call
    /// with the digest error of the first offender — no partial list is
    /// ever returned.
    pub fn get_local_asset_digests(&self) -> (r: Result<Vec<Digest>, ManifestError>)
        ensures
            ({
                let strs = local_digest_strs(self.spec_parsed());
                match r {
                    Ok(ds) => {
                        &&& all_digest_strs_valid(strs)
                        &&& ds@.len() == strs.len()
                        &&& forall|i: int| 0 <= i < ds@.len() ==> (#[trigger] ds@[i])@ == strs[i]
                    },
                    Err(e) => {
                        let j = first_invalid_digest_idx(strs);
                        &&& !all_digest_strs_valid(strs)
                        &&& 0 <= j < strs.len()
                        &&& !valid_digest_str(strs[j])
                        &&& forall|k: int| 0 <= k < j ==> valid_digest_str(#[trigger] strs[k])
                        &&& match e {
                            ManifestError::InvalidDigest(de) => match de {
                                DigestError::InvalidDigestFormat(t) => t@ == strs[j],
                            },
                            _ => false,
                        }
                    },
                }
            }),
    {
        match &self.parsed {
            OCIManifest::V2(m2) => {
                let ghost layers = m2.layers@;
                let ghost strs = local_digest_strs(self.spec_parsed());
                let mut out: Vec<Digest> = Vec::new();
                let mut i: usize = 0;
                while i < m2.layers.len()
                    invariant
                        i <= layers.len(),
                        m2.layers@ == layers,
                        strs == local_digest_strs(self.spec_parsed()),
                        strs == local_layer_digest_strs(layers) + seq![m2.config.digest@],
                        digest_views(out@) == local_layer_digest_strs(
                            layers.subrange(0, i as int),
                        ),
                        forall|k: int|
                            0 <= k < out@.len() ==> valid_digest_str((#[trigger] out@[k])@),
                    decreases layers.len() - i,
                {
                    let ghost pre = local_layer_digest_strs(layers.subrange(0, i as int));
                    proof {
                        lemma_layer_strs_prefix(layers, i as int);
                        lemma_layer_strs_prefix(layers, i + 1 as int);
                        assert(layers.subrange(0, i + 1 as int).drop_last() =~= layers.subrange(
                            0,
                            i as int,
                        ));
                        lemma_layer_digest_step(layers.subrange(0, i + 1 as int));
                    }
                    let o = &m2.layers[i];
                    if !str_eq(o.media_type.as_str(), foreign_layer()) {
                        match Digest::try_from_str(o.digest.as_str()) {
                            Ok(d) => {
                                out.push(d);
                                proof {
                                    assert(digest_views(out@) =~= pre + seq![o.digest@]);
                                }
                            },
                            Err(de) => {
                                proof {
                                    let j = pre.len() as int;
                                    assert(local_layer_digest_strs(
                                        layers.subrange(0, i + 1 as int),
                                    ) == pre + seq![o.digest@]);
                                    assert(local_layer_digest_strs(layers)[j] == (pre + seq![
                                        o.digest@,
                                    ])[j]);
                                    assert(strs[j] == o.digest@);
                                    assert forall|k: int| 0 <= k < j implies valid_digest_str(
                                        #[trigger] strs[k],
                                    ) by {
                                        assert(strs[k] == pre[k]);
                                        assert(pre[k] == digest_views(out@)[k]);
                                    }
                                    assert(0 <= j < strs.len());
                                    assert(!valid_digest_str(strs[j]));
                                    lemma_first_invalid_digest_idx(strs, j);
                                }
                                return Err(ManifestError::InvalidDigest(de));
                            },
                        }
                    } else {
                        proof {
                            assert(local_layer_digest_strs(layers.subrange(0, i + 1 as int))
                                == pre);
                        }
                    }
                    i += 1;
                }
                proof {
                    assert(layers.subrange(0, layers.len() as int) =~= layers);
                }
                match Digest::try_from_str(m2.config.digest.as_str()) {
                    Ok(d) => {
                        out.push(d);
                        proof {
                            assert(digest_views(out@) =~= strs);
                            assert forall|k: int| 0 <= k < strs.len() implies valid_digest_str(
                                #[trigger] strs[k],
                            ) by {
                                assert(strs[k] == digest_views(out@)[k]);
                                assert(strs[k] == out@[k]@);
                            }
                            assert forall|k: int|
                                0 <= k < out@.len() implies (#[trigger] out@[k])@ == strs[k] by {
                                assert(digest_views(out@)[k] == out@[k]@);
                            }
                        }
                        Ok(out)
                    },
                    Err(de) => {
                        proof {
                            let j = strs.len() - 1;
                            assert(strs[j] == m2.config.digest@);
                            assert forall|k: int| 0 <= k < j implies valid_digest_str(
                                #[trigger] strs[k],
                            ) by {
                                assert(strs[k] == local_layer_digest_strs(layers)[k]);
                                assert(strs[k] == digest_views(out@)[k]);
                                assert(strs[k] == out@[k]@);
                            }
                            assert(0 <= j < strs.len());
                            assert(!valid_digest_str(strs[j]));
                            lemma_first_invalid_digest_idx(strs, j);
                        }
                        Err(ManifestError::InvalidDigest(de))
                    },
                }
            },
            OCIManifest::List(l) => {
                let ghost strs = local_digest_strs(self.spec_parsed());
                let mut out: Vec<Digest> = Vec::new();
                let mut i: usize = 0;
                while i < l.manifests.len()
                    invariant
                        i <= l.manifests@.len(),
                        strs == local_digest_strs(self.spec_parsed()),
                        strs == entry_digest_strs(l.manifests@),
                        out@.len() == i,
                        forall|k: int|
                            0 <= k < i ==> (#[trigger] out@[k])@ == l.manifests@[k].digest@
                                && valid_digest_str(out@[k]@),
                    decreases l.manifests@.len() - i,
                {
                    match Digest::try_from_str(l.manifests[i].digest.as_str()) {
                        Ok(d) => out.push(d),
                        Err(de) => {
                            proof {
                                let j = i as int;
                                assert(strs[j] == l.manifests@[j].digest@);
                                assert forall|k: int| 0 <= k < j implies valid_digest_str(
                                    #[trigger] strs[k],
                                ) by {
                                    assert(strs[k] == l.manifests@[k].digest@);
                                    assert(strs[k] == out@[k]@);
                                }
                                assert(0 <= j < strs.len());
                                assert(!valid_digest_str(strs[j]));
                                lemma_first_invalid_digest_idx(strs, j);
                            }
                            return Err(ManifestError::InvalidDigest(de));
                        },
                    }
                    i += 1;
                }
                proof {
                    assert forall|k: int| 0 <= k < strs.len() implies valid_digest_str(
                        #[trigger] strs[k],
                    ) by {
                        assert(strs[k] == l.manifests@[k].digest@);
                        assert(strs[k] == out@[k]@);
                    }
                    assert forall|k: int|
                        0 <= k < out@.len() implies (#[trigger] out@[k])@ == strs[k] by {
                        assert(strs[k] == l.manifests@[k].digest@);
                    }
                }
                Ok(out)
            },
        }
    }
}

/// Law: a well-formed manifest's cached digest equals the digest
/// engine's result on its raw bytes — the original bytes, never a
/// re-encoding of the parsed tree.
pub proof fn lemma_digest_matches_compute(m: &Manifest)
    requires
        m.wf(),
    ensures
        m.spec_digest() == spec_sha256_digest_str(m.spec_raw()),
        valid_digest_str(m.spec_digest()),
{
}

} // verus!

