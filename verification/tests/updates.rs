use p256::ecdsa::signature::Signer;
use p256::ecdsa::{Signature, SigningKey};
use serde_json::Value;
use tailsend::updates::{
    hex_digest, verify_files, verify_manifest_signature, ReleaseFile, ReleaseManifest,
    UpdateError, MAX_MANIFEST_BYTES,
};

fn manifest_json(m: &ReleaseManifest) -> Vec<u8> {
    let mut files = Vec::new();
    for f in &m.files {
        let mut o = serde_json::Map::new();
        o.insert("path".to_string(), Value::String(f.path.clone()));
        o.insert("size".to_string(), Value::from(f.size));
        o.insert("sha256".to_string(), Value::String(f.sha256.clone()));
        files.push(Value::Object(o));
    }
    let mut o = serde_json::Map::new();
    o.insert("release_id".to_string(), Value::String(m.release_id.clone()));
    o.insert("revision".to_string(), Value::from(m.revision));
    o.insert("distribution".to_string(), Value::String(m.distribution.clone()));
    o.insert("target".to_string(), Value::String(m.target.clone()));
    o.insert("min_api_version".to_string(), Value::from(m.min_api_version));
    o.insert("files".to_string(), Value::Array(files));
    serde_json::to_vec(&Value::Object(o)).unwrap()
}

fn parse_manifest(bytes: &[u8]) -> Option<ReleaseManifest> {
    let v: Value = serde_json::from_slice(bytes).ok()?;
    let text = |k: &str| v.get(k).and_then(Value::as_str).map(str::to_string);
    let mut files = Vec::new();
    for f in v.get("files")?.as_array()? {
        files.push(ReleaseFile {
            path: f.get("path")?.as_str()?.to_string(),
            size: f.get("size")?.as_u64()?,
            sha256: f.get("sha256")?.as_str()?.to_string(),
        });
    }
    Some(ReleaseManifest {
        release_id: text("release_id")?,
        revision: v.get("revision")?.as_u64()?,
        distribution: text("distribution")?,
        target: text("target")?,
        min_api_version: v.get("min_api_version")?.as_u64()? as u16,
        files,
    })
}

/// Checks the signature over the exact bytes, then reads and validates the
/// manifest, as the update installer does.
fn verify_manifest(
    public_key: &[u8],
    bytes: &[u8],
    signature: &[u8],
) -> Result<ReleaseManifest, UpdateError> {
    verify_manifest_signature(public_key, bytes, signature)?;
    let manifest = parse_manifest(bytes).expect("manifest JSON");
    manifest.validate()?;
    Ok(manifest)
}

fn sample_manifest() -> ReleaseManifest {
    ReleaseManifest {
        release_id: "r1".to_string(),
        revision: 1,
        distribution: "web".to_string(),
        target: "browser".to_string(),
        min_api_version: 1,
        files: vec![ReleaseFile {
            path: "index.html".to_string(),
            size: 5,
            sha256: hex_digest(b"hello"),
        }],
    }
}

fn signed_manifest() -> (Vec<u8>, Vec<u8>, Vec<u8>) {
    let key = SigningKey::from_bytes((&[7u8; 32]).into()).unwrap();
    let bytes = manifest_json(&sample_manifest());
    let signature: Signature = key.sign(&bytes);
    let public_key = key.verifying_key().to_encoded_point(false).as_bytes().to_vec();
    (bytes, public_key, signature.to_bytes().to_vec())
}

#[test]
fn verifies_exact_manifest_and_files() {
    let (bytes, public_key, signature) = signed_manifest();
    let manifest = verify_manifest(&public_key, &bytes, &signature).unwrap();
    assert_eq!(manifest, sample_manifest());
    verify_files(&manifest, &[("index.html", b"hello".as_slice())]).unwrap();
}

#[test]
fn rejects_re_serialized_or_modified_manifest() {
    let (mut bytes, public_key, signature) = signed_manifest();
    bytes.push(b' ');
    assert!(matches!(
        verify_manifest(&public_key, &bytes, &signature),
        Err(UpdateError::InvalidSignature)
    ));
}

#[test]
fn rejects_path_traversal_and_missing_files() {
    let manifest = ReleaseManifest {
        release_id: "r".to_string(),
        revision: 1,
        distribution: "web".to_string(),
        target: "browser".to_string(),
        min_api_version: 1,
        files: vec![ReleaseFile {
            path: "../index.html".to_string(),
            size: 0,
            sha256: hex_digest(b""),
        }],
    };
    assert!(manifest.validate().is_err());

    let (bytes, public_key, signature) = signed_manifest();
    let verified = verify_manifest(&public_key, &bytes, &signature).unwrap();
    assert!(verify_files(&verified, &[]).is_err());
}

#[test]
fn rejects_paths_that_change_meaning_as_urls_or_on_windows() {
    let (bytes, public_key, signature) = signed_manifest();
    let manifest = verify_manifest(&public_key, &bytes, &signature).unwrap();
    for path in [
        "%2e%2e/index.html",
        "C:payload",
        "index.html?other",
        "index.html#other",
        "CON.txt",
        "LPT1",
        "index.html.",
        "a /b",
    ] {
        let mut candidate = manifest.clone();
        candidate.files[0].path = path.into();
        assert!(candidate.validate().is_err(), "accepted {path}");
    }
    for path in ["INDEX.HTML", "index.html/child"] {
        let mut candidate = manifest.clone();
        candidate.files.push(ReleaseFile {
            path: path.into(),
            size: 0,
            sha256: hex_digest(b""),
        });
        assert!(
            candidate.validate().is_err(),
            "accepted alias or file/directory conflict {path}"
        );
    }
}

#[test]
fn signature_does_not_bypass_target_api_or_rollback_checks() {
    let (bytes, public_key, signature) = signed_manifest();
    let manifest = verify_manifest(&public_key, &bytes, &signature).unwrap();
    manifest.check_compatibility("web", "browser", 1, 0).unwrap();
    for (distribution, target, api, revision) in [
        ("native", "browser", 1, 0),
        ("web", "macos", 1, 0),
        ("web", "browser", 0, 0),
        ("web", "browser", 1, 1),
        ("web", "browser", 1, 2),
    ] {
        assert!(matches!(
            manifest.check_compatibility(distribution, target, api, revision),
            Err(UpdateError::IncompatibleRelease(_))
        ));
    }
}

#[test]
fn signature_checks_size_and_length_first() {
    let (bytes, public_key, signature) = signed_manifest();
    assert!(matches!(
        verify_manifest_signature(&public_key, &bytes, &signature[..63]),
        Err(UpdateError::InvalidSignatureLength)
    ));
    let huge = vec![b' '; MAX_MANIFEST_BYTES + 1];
    assert!(matches!(
        verify_manifest_signature(&public_key, &huge, &signature),
        Err(UpdateError::ManifestTooLarge)
    ));
    let mut wrong = signature.clone();
    wrong[10] ^= 1;
    assert!(matches!(
        verify_manifest_signature(&public_key, &bytes, &wrong),
        Err(UpdateError::InvalidSignature)
    ));
    assert!(matches!(
        verify_manifest_signature(&[1, 2, 3], &bytes, &signature),
        Err(UpdateError::InvalidSignature)
    ));
}

#[test]
fn file_checks_report_size_hash_and_duplicates() {
    let manifest = sample_manifest();
    assert!(matches!(
        verify_files(&manifest, &[("index.html", b"hell".as_slice())]),
        Err(UpdateError::SizeMismatch { expected: 5, actual: 4, .. })
    ));
    assert!(matches!(
        verify_files(&manifest, &[("index.html", b"jello".as_slice())]),
        Err(UpdateError::HashMismatch { .. })
    ));
    assert!(matches!(
        verify_files(&manifest, &[("other.html", b"hello".as_slice())]),
        Err(UpdateError::InvalidEntry(_))
    ));
    assert!(matches!(
        verify_files(
            &manifest,
            &[("index.html", b"hello".as_slice()), ("index.html", b"hello".as_slice())]
        ),
        Err(UpdateError::InvalidEntry(_))
    ));
}

#[test]
fn hex_digest_is_lowercase_sha256() {
    assert_eq!(
        hex_digest(b"hello"),
        "2cf24dba5fb0a30e26e83b2ac5b9e29e1b161e5c1fa7425e73043362938b9824"
    );
    assert_eq!(
        hex_digest(b""),
        "e3b0c44298fc1c149afbf4c8996fb92427ae41e4649b934ca495991b7852b855"
    );
}
