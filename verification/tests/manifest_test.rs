use oci_manifest::{sha256_digest, FromJson, Manifest, OCIManifest};
use serde_json::Value;

#[test]
fn valid_v2_2() {
    let data = r#"{
   "schemaVersion": 2,
   "mediaType": "application/vnd.docker.distribution.manifest.v2+json",
   "config": {
      "mediaType": "application/vnd.docker.container.image.v1+json",
      "digest": "sha256:4d3c246dfef2edb11eccb051b47d896d0db8f1c4563c0cce9f6274b9abd9ac74"
   },
   "layers": [
      {
         "mediaType": "application/vnd.docker.image.rootfs.diff.tar.gzip",
         "size": 2789670,
         "digest": "sha256:9d48c3bd43c520dc2784e868a780e976b207cbf493eaff8c6596eb871cbd9609"
      },
      {
         "mediaType": "application/vnd.docker.image.rootfs.diff.tar.gzip",
         "size": 5876721,
         "digest": "sha256:1ae95a11626f76a9bd496d4666276e4495508be864c894ce25602c0baff06826"
      },
      {
          "mediaType": "application/vnd.docker.image.rootfs.foreign.diff.tar.gzip",
          "size": 1612893008,
          "digest": "sha256:9038b92872bc268d5c975e84dd94e69848564b222ad116ee652c62e0c2f894b2",
          "urls": [
                    "https://mcr.microsoft.com/v2/windows/servercore/blobs/sha256:9038b92872bc268d5c975e84dd94e69848564b222ad116ee652c62e0c2f894b2"
          ]

      }
   ]
}"#;
    let mani = Manifest::from_vec(data.as_bytes().to_vec()).unwrap();
    let m_v2 = match mani.parsed() {
        OCIManifest::V2(ref m2) => m2,
        OCIManifest::List(_) => unreachable!(),
    };

    assert_eq!(
        m_v2.media_type,
        Some("application/vnd.docker.distribution.manifest.v2+json".to_string())
    );
    assert_eq!(m_v2.schema_version, 2);
    assert_eq!(
        m_v2.config.media_type,
        "application/vnd.docker.container.image.v1+json"
    );
    assert_eq!(m_v2.config.size, None);
    assert_eq!(
        m_v2.config.digest,
        "sha256:4d3c246dfef2edb11eccb051b47d896d0db8f1c4563c0cce9f6274b9abd9ac74"
    );
    assert_eq!(
        m_v2.layers[0].media_type,
        "application/vnd.docker.image.rootfs.diff.tar.gzip"
    );
    assert_eq!(m_v2.layers[0].size, Some(2789670));
    assert_eq!(
        m_v2.layers[0].digest,
        "sha256:9d48c3bd43c520dc2784e868a780e976b207cbf493eaff8c6596eb871cbd9609"
    );
    let digests_str: Vec<_> = mani
        .get_local_asset_digests()
        .unwrap()
        .iter()
        .map(|d| d.to_string())
        .collect();

    assert_eq!(digests_str.len(), 3);
    assert!(digests_str.contains(
        &"sha256:9d48c3bd43c520dc2784e868a780e976b207cbf493eaff8c6596eb871cbd9609".to_string()
    ));
    assert!(digests_str.contains(
        &"sha256:1ae95a11626f76a9bd496d4666276e4495508be864c894ce25602c0baff06826".to_string()
    ));
}

#[test]
fn valid_v2() {
    let data = r#"{
     "schemaVersion": 2,
     "mediaType": "application/vnd.docker.distribution.manifest.v2+json",
     "config": {
        "mediaType": "application/vnd.docker.container.image.v1+json",
        "size": 1278,
        "digest": "sha256:4a415e3663882fbc554ee830889c68a33b3585503892cc718a4698e91ef2a526"
     },
     "layers": [
        {
           "mediaType": "application/vnd.docker.image.rootfs.diff.tar.gzip",
           "size": 1967949,
           "digest": "sha256:1e76f742da490c8d7c921e811e5233def206e76683ee28d735397ec2231f131d"
        }
     ]
   }"#;
    let mani = Manifest::from_vec(data.as_bytes().to_vec()).unwrap();
    let m_v2 = match mani.parsed() {
        OCIManifest::V2(ref m2) => m2,
        OCIManifest::List(_) => unreachable!(),
    };

    assert_eq!(
        m_v2.media_type,
        Some("application/vnd.docker.distribution.manifest.v2+json".to_string())
    );
    assert_eq!(m_v2.schema_version, 2);
    assert_eq!(
        m_v2.config.media_type,
        "application/vnd.docker.container.image.v1+json"
    );
    assert_eq!(m_v2.config.size.unwrap(), 1278);
    assert_eq!(
        m_v2.config.digest,
        "sha256:4a415e3663882fbc554ee830889c68a33b3585503892cc718a4698e91ef2a526"
    );
    assert_eq!(
        m_v2.layers[0].media_type,
        "application/vnd.docker.image.rootfs.diff.tar.gzip"
    );
    assert_eq!(m_v2.layers[0].size.unwrap(), 1967949);
    assert_eq!(
        m_v2.layers[0].digest,
        "sha256:1e76f742da490c8d7c921e811e5233def206e76683ee28d735397ec2231f131d"
    );

    let digests_str: Vec<_> = mani
        .get_local_asset_digests()
        .unwrap()
        .iter()
        .map(|d| d.to_string())
        .collect();
    assert_eq!(digests_str.len(), 2);
    assert!(digests_str.contains(
        &"sha256:1e76f742da490c8d7c921e811e5233def206e76683ee28d735397ec2231f131d".to_string()
    ));
    assert!(digests_str.contains(
        &"sha256:4a415e3663882fbc554ee830889c68a33b3585503892cc718a4698e91ef2a526".to_string()
    ));
}

#[test]
fn valid_oci() {
    let config = "{}\n".as_bytes();
    let config_digest = sha256_digest(config);
    let data = format!(
        r#"{{ "config": {{ "digest": "{}",
                         "mediaType": "application/vnd.oci.image.config.v1+json",
                         "size": {} }},
             "mediaType": "application/vnd.oci.image.manifest.v1+json",
             "layers": [], "schemaVersion": 2 }}"#,
        config_digest.to_string(),
        config.len()
    );

    let v: Value = serde_json::from_str(&data).unwrap();
    assert!(OCIManifest::from_json(&v).is_ok());
}

#[test]
fn valid_manifest_list() {
    let data = r#"{
                "schemaVersion": 2,
                "mediaType": "application/vnd.docker.distribution.manifest.list.v2+json",
                "manifests": [
                  {
                    "mediaType": "application/vnd.docker.distribution.manifest.v2+json",
                    "size": 7143,
                    "digest": "sha256:e692418e4cbaf90ca69d05a66403747baa33ee08806650b51fab815ad7fc331f",
                    "platform": {
                      "architecture": "ppc64le",
                      "os": "linux"
                    }
                  },
                  {
                    "mediaType": "application/vnd.docker.distribution.manifest.v2+json",
                    "size": 7682,
                    "digest": "sha256:5b0bcabd1ed22e9fb1310cf6c2dec7cdef19f0ad69efa1f392e94a4333501270",
                    "platform": {
                      "architecture": "amd64",
                      "os": "linux",
                      "features": [
                        "sse4"
                      ]
                    }
                  }
                ]
              }
              "#;

    let v: Value = serde_json::from_str(data).unwrap();
    assert!(OCIManifest::from_json(&v).is_ok());
}
