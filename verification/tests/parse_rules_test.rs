use oci_manifest::{
    sha256_digest, DigestError, Manifest, ManifestError, OCIManifest,
};

const SINGLE_WITH_TYPE: &str = r#"{
   "schemaVersion": 2,
   "mediaType": "application/vnd.docker.distribution.manifest.v2+json",
   "config": {
      "mediaType": "application/vnd.docker.container.image.v1+json",
      "size": 1278,
      "digest": "sha256:4a415e3663882fbc554ee830889c68a33b3585503892cc718a4698e91ef2a526"
   },
   "layers": [
      {
         "mediaType": "application/vnd.docker.image.rootfs.diff.tar.gzip",
         "size": 1967949,
         "digest": "sha256:1e76f742da490c8d7c921e811e5233def206e76683ee28d735397ec2231f131d"
      }
   ]
}"#;

fn single_with_version(version: &str) -> String {
    format!(
        r#"{{
   "schemaVersion": {},
   "config": {{
      "mediaType": "application/vnd.oci.image.config.v1+json",
      "digest": "sha256:4a415e3663882fbc554ee830889c68a33b3585503892cc718a4698e91ef2a526"
   }},
   "layers": []
}}"#,
        version
    )
}

#[test]
fn digest_is_computed_over_the_original_bytes() {
    let mani = Manifest::from_vec(SINGLE_WITH_TYPE.as_bytes().to_vec()).unwrap();
    let expected = sha256_digest(SINGLE_WITH_TYPE.as_bytes());
    assert_eq!(mani.digest().to_string(), expected.to_string());
    assert_eq!(mani.digest(), &expected);
}

#[test]
fn raw_returns_the_exact_input_bytes() {
    let mani = Manifest::from_vec(SINGLE_WITH_TYPE.as_bytes().to_vec()).unwrap();
    assert_eq!(mani.raw().as_ref(), SINGLE_WITH_TYPE.as_bytes());
}

#[test]
fn equivalent_but_reordered_document_gets_another_digest() {
    // Same JSON content, different whitespace: identity must differ,
    // because the digest addresses the bytes, not the parsed tree.
    let spaced = format!(" {}", SINGLE_WITH_TYPE);
    let a = Manifest::from_vec(SINGLE_WITH_TYPE.as_bytes().to_vec()).unwrap();
    let b = Manifest::from_vec(spaced.as_bytes().to_vec()).unwrap();
    assert_ne!(a.digest().to_string(), b.digest().to_string());
}

#[test]
fn schema_version_absent_is_rejected() {
    let data = r#"{"config": {"mediaType": "a", "digest": "b"}, "layers": []}"#;
    match Manifest::from_vec(data.as_bytes().to_vec()) {
        Err(ManifestError::InvalidManifest(im)) => {
            assert_eq!(im.err, "schemaVersion is required")
        },
        _ => panic!("expected a schema-level error"),
    }
}

#[test]
fn schema_version_one_is_rejected() {
    match Manifest::from_vec(single_with_version("1").into_bytes()) {
        Err(ManifestError::InvalidManifest(im)) => assert_eq!(
            im.err,
            "Manifest Schema version 1 is not supported. Please update."
        ),
        _ => panic!("expected a schema-level error"),
    }
}

#[test]
fn schema_version_three_is_rejected() {
    match Manifest::from_vec(single_with_version("3").into_bytes()) {
        Err(ManifestError::InvalidManifest(im)) => {
            assert_eq!(im.err, "Unsupported version: 3")
        },
        _ => panic!("expected a schema-level error"),
    }
}

#[test]
fn schema_version_forty_two_is_rejected() {
    match Manifest::from_vec(single_with_version("42").into_bytes()) {
        Err(ManifestError::InvalidManifest(im)) => {
            assert_eq!(im.err, "Unsupported version: 42")
        },
        _ => panic!("expected a schema-level error"),
    }
}

#[test]
fn absent_media_type_defaults_to_oci_v1() {
    let mani = Manifest::from_vec(single_with_version("2").into_bytes()).unwrap();
    match mani.parsed() {
        OCIManifest::V2(m2) => assert_eq!(m2.media_type, None),
        OCIManifest::List(_) => panic!("expected the single-image shape"),
    }
    assert_eq!(
        mani.get_media_type(),
        "application/vnd.oci.image.manifest.v1+json"
    );
}

#[test]
fn declared_media_type_is_returned_verbatim() {
    let mani = Manifest::from_vec(SINGLE_WITH_TYPE.as_bytes().to_vec()).unwrap();
    assert_eq!(
        mani.get_media_type(),
        "application/vnd.docker.distribution.manifest.v2+json"
    );
}

#[test]
fn unsupported_media_type_is_rejected() {
    let data = r#"{"schemaVersion": 2, "mediaType": "application/whatever"}"#;
    match Manifest::from_vec(data.as_bytes().to_vec()) {
        Err(ManifestError::InvalidManifest(im)) => {
            assert_eq!(im.err, "Media Type application/whatever is not supported.")
        },
        _ => panic!("expected a schema-level error"),
    }
}

#[test]
fn malformed_document_is_a_deserialize_error() {
    let r = Manifest::from_vec(b"not json at all".to_vec());
    assert!(matches!(r, Err(ManifestError::DeserializeError)));
}

#[test]
fn missing_config_is_a_deserialize_error() {
    let data = r#"{"schemaVersion": 2, "layers": []}"#;
    let r = Manifest::from_vec(data.as_bytes().to_vec());
    assert!(matches!(r, Err(ManifestError::DeserializeError)));
}

#[test]
fn non_array_layers_is_a_deserialize_error() {
    let data = r#"{
        "schemaVersion": 2,
        "config": {"mediaType": "a", "digest": "b"},
        "layers": 7
    }"#;
    let r = Manifest::from_vec(data.as_bytes().to_vec());
    assert!(matches!(r, Err(ManifestError::DeserializeError)));
}

#[test]
fn non_string_media_type_is_a_deserialize_error() {
    let data = r#"{
        "schemaVersion": 2,
        "mediaType": 5,
        "config": {"mediaType": "a", "digest": "b"},
        "layers": []
    }"#;
    let r = Manifest::from_vec(data.as_bytes().to_vec());
    assert!(matches!(r, Err(ManifestError::DeserializeError)));
}

#[test]
fn non_numeric_size_is_a_deserialize_error() {
    let data = r#"{
        "schemaVersion": 2,
        "config": {"mediaType": "a", "size": "big", "digest": "b"},
        "layers": []
    }"#;
    let r = Manifest::from_vec(data.as_bytes().to_vec());
    assert!(matches!(r, Err(ManifestError::DeserializeError)));
}

#[test]
fn oversized_entry_size_is_a_deserialize_error() {
    let data = r#"{
        "schemaVersion": 2,
        "mediaType": "application/vnd.oci.image.index.v1+json",
        "manifests": [
          {
            "mediaType": "application/vnd.oci.image.manifest.v1+json",
            "size": 4294967296,
            "digest": "sha256:e692418e4cbaf90ca69d05a66403747baa33ee08806650b51fab815ad7fc331f"
          }
        ]
    }"#;
    let r = Manifest::from_vec(data.as_bytes().to_vec());
    assert!(matches!(r, Err(ManifestError::DeserializeError)));
}

#[test]
fn single_manifest_digests_are_layers_then_config() {
    let mani = Manifest::from_vec(SINGLE_WITH_TYPE.as_bytes().to_vec()).unwrap();
    let digests: Vec<String> = mani
        .get_local_asset_digests()
        .unwrap()
        .iter()
        .map(|d| d.to_string())
        .collect();
    assert_eq!(
        digests,
        vec![
            "sha256:1e76f742da490c8d7c921e811e5233def206e76683ee28d735397ec2231f131d".to_string(),
            "sha256:4a415e3663882fbc554ee830889c68a33b3585503892cc718a4698e91ef2a526".to_string(),
        ]
    );
}

#[test]
fn foreign_layers_are_excluded_from_local_digests() {
    let data = r#"{
        "schemaVersion": 2,
        "config": {
            "mediaType": "application/vnd.oci.image.config.v1+json",
            "digest": "sha256:4a415e3663882fbc554ee830889c68a33b3585503892cc718a4698e91ef2a526"
        },
        "layers": [
          {
            "mediaType": "application/vnd.docker.image.rootfs.foreign.diff.tar.gzip",
            "size": 1612893008,
            "digest": "sha256:9038b92872bc268d5c975e84dd94e69848564b222ad116ee652c62e0c2f894b2"
          }
        ]
    }"#;
    let mani = Manifest::from_vec(data.as_bytes().to_vec()).unwrap();
    let digests: Vec<String> = mani
        .get_local_asset_digests()
        .unwrap()
        .iter()
        .map(|d| d.to_string())
        .collect();
    assert_eq!(
        digests,
        vec!["sha256:4a415e3663882fbc554ee830889c68a33b3585503892cc718a4698e91ef2a526".to_string()]
    );
}

#[test]
fn index_digests_are_one_per_entry_in_order() {
    let data = r#"{
        "schemaVersion": 2,
        "mediaType": "application/vnd.docker.distribution.manifest.list.v2+json",
        "manifests": [
          {
            "mediaType": "application/vnd.docker.distribution.manifest.v2+json",
            "size": 7143,
            "digest": "sha256:e692418e4cbaf90ca69d05a66403747baa33ee08806650b51fab815ad7fc331f",
            "platform": { "architecture": "ppc64le", "os": "linux" }
          },
          {
            "mediaType": "application/vnd.docker.distribution.manifest.v2+json",
            "size": 7682,
            "digest": "sha256:5b0bcabd1ed22e9fb1310cf6c2dec7cdef19f0ad69efa1f392e94a4333501270",
            "platform": { "architecture": "amd64", "os": "linux" }
          }
        ]
    }"#;
    let mani = Manifest::from_vec(data.as_bytes().to_vec()).unwrap();
    assert_eq!(
        mani.get_media_type(),
        "application/vnd.docker.distribution.manifest.list.v2+json"
    );
    let digests: Vec<String> = mani
        .get_local_asset_digests()
        .unwrap()
        .iter()
        .map(|d| d.to_string())
        .collect();
    assert_eq!(
        digests,
        vec![
            "sha256:e692418e4cbaf90ca69d05a66403747baa33ee08806650b51fab815ad7fc331f".to_string(),
            "sha256:5b0bcabd1ed22e9fb1310cf6c2dec7cdef19f0ad69efa1f392e94a4333501270".to_string(),
        ]
    );
    match mani.parsed() {
        OCIManifest::List(l) => {
            assert_eq!(l.manifests.len(), 2);
            assert_eq!(l.manifests[0].size, 7143);
            let p = l.manifests[0].platform.as_ref().unwrap();
            assert_eq!(p.architecture, "ppc64le");
            assert_eq!(p.os, "linux");
        },
        OCIManifest::V2(_) => panic!("expected the index shape"),
    }
}

#[test]
fn one_invalid_layer_digest_fails_the_whole_extraction() {
    let data = r#"{
        "schemaVersion": 2,
        "config": {
            "mediaType": "application/vnd.oci.image.config.v1+json",
            "digest": "sha256:4a415e3663882fbc554ee830889c68a33b3585503892cc718a4698e91ef2a526"
        },
        "layers": [
          {
            "mediaType": "application/vnd.docker.image.rootfs.diff.tar.gzip",
            "digest": "sha256:1e76f742da490c8d7c921e811e5233def206e76683ee28d735397ec2231f131d"
          },
          {
            "mediaType": "application/vnd.docker.image.rootfs.diff.tar.gzip",
            "digest": "not-a-digest"
          }
        ]
    }"#;
    let mani = Manifest::from_vec(data.as_bytes().to_vec()).unwrap();
    match mani.get_local_asset_digests() {
        Err(ManifestError::InvalidDigest(DigestError::InvalidDigestFormat(t))) => {
            assert_eq!(t, "not-a-digest")
        },
        _ => panic!("expected an invalid-digest error"),
    }
}

#[test]
fn the_first_invalid_digest_is_reported() {
    let data = r#"{
        "schemaVersion": 2,
        "mediaType": "application/vnd.oci.image.index.v1+json",
        "manifests": [
          {
            "mediaType": "application/vnd.oci.image.manifest.v1+json",
            "size": 1,
            "digest": "first-bad"
          },
          {
            "mediaType": "application/vnd.oci.image.manifest.v1+json",
            "size": 2,
            "digest": "second-bad"
          }
        ]
    }"#;
    let mani = Manifest::from_vec(data.as_bytes().to_vec()).unwrap();
    match mani.get_local_asset_digests() {
        Err(ManifestError::InvalidDigest(DigestError::InvalidDigestFormat(t))) => {
            assert_eq!(t, "first-bad")
        },
        _ => panic!("expected an invalid-digest error"),
    }
}

#[test]
fn invalid_config_digest_fails_the_extraction() {
    let data = r#"{
        "schemaVersion": 2,
        "config": {
            "mediaType": "application/vnd.oci.image.config.v1+json",
            "digest": "sha256:TOOSHORT"
        },
        "layers": []
    }"#;
    let mani = Manifest::from_vec(data.as_bytes().to_vec()).unwrap();
    match mani.get_local_asset_digests() {
        Err(ManifestError::InvalidDigest(DigestError::InvalidDigestFormat(t))) => {
            assert_eq!(t, "sha256:TOOSHORT")
        },
        _ => panic!("expected an invalid-digest error"),
    }
}

#[test]
fn null_media_type_counts_as_absent() {
    let data = r#"{
        "schemaVersion": 2,
        "mediaType": null,
        "config": {
            "mediaType": "application/vnd.oci.image.config.v1+json",
            "size": null,
            "digest": "sha256:4a415e3663882fbc554ee830889c68a33b3585503892cc718a4698e91ef2a526"
        },
        "layers": []
    }"#;
    let mani = Manifest::from_vec(data.as_bytes().to_vec()).unwrap();
    match mani.parsed() {
        OCIManifest::V2(m2) => {
            assert_eq!(m2.media_type, None);
            assert_eq!(m2.config.size, None);
        },
        OCIManifest::List(_) => panic!("expected the single-image shape"),
    }
    assert_eq!(
        mani.get_media_type(),
        "application/vnd.oci.image.manifest.v1+json"
    );
}

#[test]
fn from_bytes_accepts_a_shared_buffer() {
    let buf = bytes::Bytes::from(SINGLE_WITH_TYPE.as_bytes().to_vec());
    let mani = Manifest::from_bytes(buf).unwrap();
    assert_eq!(mani.raw().as_ref(), SINGLE_WITH_TYPE.as_bytes());
    assert_eq!(
        mani.digest().to_string(),
        sha256_digest(SINGLE_WITH_TYPE.as_bytes()).to_string()
    );
}
