use tenkai::crypto::digest_of;
use tenkai::oci_artifact::registry::{check_stored, selected_store, settle_pull};
use tenkai::oci_artifact::{
    bind_identity, dash, mirrors_from_properties, pull_reference, validate_all,
    validate_registry_host, verify_environment_pull, verify_publication, ArtifactRegistry,
    FilesystemArtifactRegistry, MemoryArtifactRegistry, OciArtifactRef, MIRROR_PROPERTY_PREFIX,
};
use tenkai::text_map::TextMap;

fn sample(registry: &str, bytes: &[u8]) -> OciArtifactRef {
    OciArtifactRef {
        registry: registry.into(),
        repository: "edge/app".into(),
        digest: digest_of(bytes),
        media_type: "application/vnd.oci.image.manifest.v1+json".into(),
    }
}

#[test]
fn registry_hosts_cannot_escape_the_filesystem_store() {
    let err = validate_registry_host("artifact registry", "..")
        .unwrap_err()
        .to_string();
    assert!(err.contains("host name"), "{err}");
    assert!(validate_registry_host("artifact registry", "ghcr.io").is_ok());
}

#[test]
fn unresolvable_digest_fails_closed_with_digest_named() {
    let registry = MemoryArtifactRegistry::new();
    let reference = sample("ghcr.io", b"payload-a");
    let err = registry.verify(&reference).unwrap_err().to_string();
    assert!(err.contains(&reference.digest), "{err}");
    assert!(err.contains("unresolvable"), "{err}");
}

#[test]
fn mismatched_bytes_are_rejected_before_put() {
    let mut registry = MemoryArtifactRegistry::new();
    let mut reference = sample("ghcr.io", b"payload-a");
    reference.digest = digest_of(b"payload-b");
    let err = registry
        .put(&reference, b"payload-a".to_vec())
        .unwrap_err()
        .to_string();
    assert!(err.contains(&reference.digest), "{err}");
}

#[test]
fn missing_mirror_refuses_origin_pull() {
    let reference = sample("ghcr.io", b"payload-a");
    let err = pull_reference(&reference, &TextMap::new())
        .unwrap_err()
        .to_string();
    assert!(err.contains("ghcr.io"), "{err}");
    assert!(err.contains("origin pull is refused"), "{err}");
}

fn mirrored_properties() -> TextMap<String> {
    let mut properties = TextMap::new();
    properties.insert(
        format!("{MIRROR_PROPERTY_PREFIX}ghcr.io"),
        "mirror.internal".into(),
    );
    properties
}

#[test]
fn environment_pull_uses_mirror_only() {
    let mut registry = MemoryArtifactRegistry::new();
    let origin = sample("ghcr.io", b"payload-a");
    let mirrored = OciArtifactRef {
        registry: "mirror.internal".into(),
        ..origin.copy()
    };
    registry.put(&mirrored, b"payload-a".to_vec()).unwrap();
    let pulls =
        verify_environment_pull(&vec![origin], &mirrored_properties(), Some(&registry)).unwrap();
    assert_eq!(pulls, vec![mirrored]);
    let err = registry
        .verify(&sample("ghcr.io", b"payload-a"))
        .unwrap_err();
    assert!(err.to_string().contains("unresolvable"));
}

#[test]
fn filesystem_store_is_idempotent_and_names_a_conflicting_digest() {
    let registry = FilesystemArtifactRegistry::new("/store");
    let reference = sample("mirror.internal", b"payload-a");
    let check = |existing: Option<&[u8]>| {
        FilesystemArtifactRegistry::check_put(&reference, b"payload-a", existing)
    };
    assert_eq!(check(None), Ok(true));
    assert_eq!(check(Some(b"payload-a")), Ok(false));
    check_stored(&reference, Some(b"payload-a")).unwrap();
    assert_eq!(
        registry.blob_path(&reference),
        format!(
            "/store/mirror.internal/edge/app/{}",
            reference.digest.replace(':', "-")
        )
    );
    let err = check(Some(b"tampered")).unwrap_err().to_string();
    assert!(err.contains(&reference.digest), "{err}");
    assert!(err.contains("already exists with different bytes"), "{err}");
    assert!(check_stored(&reference, Some(b"tampered"))
        .unwrap_err()
        .to_string()
        .contains("does not match stored bytes"));
    assert!(check_stored(&reference, None)
        .unwrap_err()
        .to_string()
        .contains("is unresolvable at mirror.internal/edge/app"));
}

#[test]
fn stored_content_is_fetched() {
    let mut registry = MemoryArtifactRegistry::new();
    let reference = sample("ghcr.io", b"payload-a");
    registry.store(&reference, b"payload-a".to_vec()).unwrap();
    assert_eq!(registry.fetch(&reference), Ok(b"payload-a".to_vec()));
    assert_eq!(registry.verify(&reference), Ok(reference.copy()));
    assert!(registry.fetch(&sample("ghcr.io", b"payload-b")).is_err());
}

#[test]
fn a_registry_is_needed_where_artifacts_are_named() {
    let none: Option<&MemoryArtifactRegistry> = None;
    verify_publication(&Vec::new(), none).unwrap();
    let artifacts = vec![sample("ghcr.io", b"payload-a")];
    assert_eq!(
        verify_publication(&artifacts, none).unwrap_err().to_string(),
        "live artifact registry required when a release names OCI artifacts"
    );
    assert_eq!(
        verify_environment_pull(&artifacts, &mirrored_properties(), none)
            .unwrap_err()
            .to_string(),
        "live artifact registry required to pull digest-bound artifacts"
    );
    assert_eq!(
        FilesystemArtifactRegistry::from_setting(None).unwrap_err().to_string(),
        "TENKAI_OCI_STORE is required when a release names OCI artifacts"
    );
    assert!(FilesystemArtifactRegistry::from_setting(Some("/store")).is_ok());
    assert!(selected_store(Some("")).is_none());
    assert!(selected_store(Some("/store")).is_some());
}

#[test]
fn failed_pulls_name_digest_and_mirror() {
    let origin = sample("ghcr.io", b"payload-a");
    let pull = sample("mirror.internal", b"payload-a");
    let err = settle_pull(&origin, &pull, Err(tenkai::error::Error::fixed("gone")))
        .unwrap_err()
        .to_string();
    assert_eq!(
        err,
        format!(
            "artifact digest {} failed mirror pull from mirror.internal: gone",
            origin.digest
        )
    );
    assert_eq!(settle_pull(&origin, &pull, Ok(pull.copy())), Ok(pull.copy()));
}

#[test]
fn references_are_checked_field_by_field() {
    let refused = |change: fn(&mut OciArtifactRef)| {
        let mut reference = sample("ghcr.io", b"payload-a");
        change(&mut reference);
        reference.validate().unwrap_err().to_string()
    };
    assert!(refused(|r| r.registry = "https://ghcr.io".into()).contains("host name"));
    assert!(refused(|r| r.registry = "user@ghcr.io".into()).contains("host name"));
    assert_eq!(
        refused(|r| r.repository = "/etc".into()),
        "artifact repository \"/etc\" must be a relative repository path"
    );
    assert!(refused(|r| r.repository = "a/../b".into()).contains("relative repository path"));
    assert!(refused(|r| r.digest = "sha256:AB".into()).contains("artifact digest"));
    assert_eq!(
        refused(|r| r.media_type = "".into()),
        "artifact media type must be a non-empty media type"
    );
    validate_all(&vec![sample("ghcr.io", b"a"), sample("ghcr.io", b"b")]).unwrap();
    let reference = sample("ghcr.io", b"payload-a");
    assert_eq!(
        reference.identity_key(),
        format!(
            "ghcr.io/edge/app/application/vnd.oci.image.manifest.v1+json@{}",
            reference.digest
        )
    );
    assert_eq!(
        reference.layer_entry_path(),
        Ok(format!("oci-layers/{}", dash(&reference.digest)))
    );
    assert_eq!(dash("sha256:ab"), "sha256-ab");
}

#[test]
fn identity_does_not_depend_on_the_order_of_declaration() {
    let bound = |artifacts: Vec<OciArtifactRef>| {
        let mut bytes = b"prefix".to_vec();
        bind_identity(&mut bytes, &artifacts);
        bytes
    };
    let one = || sample("ghcr.io", b"one");
    let two = || sample("ghcr.io", b"two");
    assert_eq!(bound(vec![one(), two()]), bound(vec![two(), one()]));
    assert_ne!(bound(vec![one()]), bound(vec![two()]));
    let mut empty = b"prefixtenkai.oci_artifact.v1".to_vec();
    empty.extend([0; 8]);
    assert_eq!(bound(Vec::new()), empty);
    assert!(bound(vec![one()]).starts_with(b"prefix"));
}

#[test]
fn mirrors_are_read_from_prefixed_properties() {
    let mut properties = mirrored_properties();
    properties.insert("other".to_string(), "x".to_string());
    properties.insert(format!("{MIRROR_PROPERTY_PREFIX}quay.io"), " ".to_string());
    let mirrors = mirrors_from_properties(&properties);
    assert_eq!(mirrors.text("ghcr.io"), Some("mirror.internal"));
    assert_eq!(mirrors.text("other"), None);
    let pulled = pull_reference(&sample("ghcr.io", b"payload-a"), &mirrors).unwrap();
    assert_eq!(pulled, sample("mirror.internal", b"payload-a"));
}

struct LoggingRegistry {
    failing: Option<String>,
    log: std::sync::Mutex<Vec<OciArtifactRef>>,
}

impl LoggingRegistry {
    fn new(failing: Option<&OciArtifactRef>) -> LoggingRegistry {
        LoggingRegistry {
            failing: failing.map(|reference| reference.digest.clone()),
            log: std::sync::Mutex::new(Vec::new()),
        }
    }

    fn asked(&self) -> Vec<String> {
        let log = self.log.lock().unwrap();
        log.iter().map(|reference| format!("{} {}", reference.registry, reference.digest)).collect()
    }
}

impl ArtifactRegistry for LoggingRegistry {
    fn verify(&self, reference: &OciArtifactRef) -> Result<OciArtifactRef, tenkai::error::Error> {
        self.log.lock().unwrap().push(reference.copy());
        if self.failing.as_deref() == Some(reference.digest.as_str()) {
            return Err(tenkai::error::Error::fixed("gone"));
        }
        Ok(reference.copy())
    }

    fn fetch(&self, _: &OciArtifactRef) -> Result<Vec<u8>, tenkai::error::Error> {
        Ok(Vec::new())
    }

    fn store(&mut self, _: &OciArtifactRef, _: Vec<u8>) -> Result<(), tenkai::error::Error> {
        Ok(())
    }
}

#[test]
fn publication_asks_for_each_artifact_until_one_fails() {
    let artifacts =
        vec![sample("ghcr.io", b"a"), sample("ghcr.io", b"b"), sample("ghcr.io", b"c")];
    let named = |upto: usize, host: &str| -> Vec<String> {
        artifacts[..upto].iter().map(|one| format!("{host} {}", one.digest)).collect()
    };
    let registry = LoggingRegistry::new(None);
    verify_publication(&artifacts, Some(&registry)).unwrap();
    assert_eq!(registry.asked(), named(3, "ghcr.io"));
    let registry = LoggingRegistry::new(Some(&artifacts[1]));
    assert_eq!(
        verify_publication(&artifacts, Some(&registry)).unwrap_err().to_string(),
        "gone"
    );
    assert_eq!(registry.asked(), named(2, "ghcr.io"));
    let mut damaged = sample("ghcr.io", b"d");
    damaged.digest = "sha256:short".into();
    let registry = LoggingRegistry::new(None);
    assert!(verify_publication(&vec![sample("ghcr.io", b"a"), damaged], Some(&registry)).is_err());
    verify_publication(&Vec::new(), Some(&registry)).unwrap();
    assert!(registry.asked().is_empty());
}

#[test]
fn environment_pulls_are_what_the_registry_verified() {
    let artifacts = vec![sample("ghcr.io", b"a"), sample("ghcr.io", b"b")];
    let mut properties = TextMap::new();
    properties.insert(format!("{MIRROR_PROPERTY_PREFIX}ghcr.io"), "mirror.local".to_string());
    let registry = LoggingRegistry::new(None);
    let pulls = verify_environment_pull(&artifacts, &properties, Some(&registry)).unwrap();
    assert_eq!(pulls, vec![sample("mirror.local", b"a"), sample("mirror.local", b"b")]);
    assert_eq!(*registry.log.lock().unwrap(), pulls);
    let registry = LoggingRegistry::new(Some(&artifacts[0]));
    assert_eq!(
        verify_environment_pull(&artifacts, &properties, Some(&registry))
            .unwrap_err()
            .to_string(),
        format!("artifact digest {} failed mirror pull from mirror.local: gone", artifacts[0].digest)
    );
    assert_eq!(registry.asked().len(), 1);
    let registry = LoggingRegistry::new(None);
    assert!(verify_environment_pull(&artifacts, &TextMap::new(), Some(&registry)).is_err());
    assert!(registry.asked().is_empty());
}

#[test]
fn an_empty_directory_puts_no_slash_in_front() {
    let reference = sample("ghcr.io", b"a");
    assert_eq!(
        FilesystemArtifactRegistry::new("").blob_path(&reference),
        format!("ghcr.io/edge/app/{}", dash(&reference.digest))
    );
    assert_eq!(
        FilesystemArtifactRegistry::new("/store/").blob_path(&reference),
        format!("/store/ghcr.io/edge/app/{}", dash(&reference.digest))
    );
}
