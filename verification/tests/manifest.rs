use tenkai::manifest::artifact::{validate_input_path, DeployInput, Node, NodeContent};
use tenkai::manifest::workdir::{
    check_copy, check_destination, check_existing, prepare_parent, runtime_destination,
    snapshot_destination, ParentKind, ParentStep, Reuse,
};
use tenkai::manifest::{
    artifact_digest, digest, validate_manifest, validate_version, DependencySection,
    DeploySection, ExecutorKind, GateSection, Manifest, ProductKind, ProductSection,
};

fn manifest() -> Manifest {
    let mut deploy = DeploySection::default();
    deploy.install = "true".into();
    Manifest {
        product: ProductSection {
            name: "api".into(),
            version: "1.0.0".into(),
            description: String::new(),
            kind: ProductKind::Software,
        },
        deploy,
        dependencies: Vec::new(),
        model: None,
        runtime: None,
        requirements: None,
        model_health: None,
        gate: GateSection::default(),
    }
}

#[test]
fn manifests_without_executor_use_local_shell() {
    let manifest = manifest();
    validate_manifest(&manifest).unwrap();
    assert_eq!(manifest.deploy.executor, ExecutorKind::LocalShell);
}

#[test]
fn release_versions_must_be_semver() {
    assert!(validate_version("1.2.3+build.4").is_ok());
    assert!(validate_version("legacy_build").is_err());
}

#[test]
fn manifests_name_what_is_wrong() {
    let refused = |change: fn(&mut Manifest)| {
        let mut manifest = manifest();
        change(&mut manifest);
        validate_manifest(&manifest).unwrap_err().to_string()
    };
    assert_eq!(
        refused(|m| m.product.version = String::new()),
        "manifest needs product.name and product.version"
    );
    assert_eq!(
        refused(|m| m.deploy.install = " ".into()),
        "manifest needs a non-empty deploy.install command"
    );
    assert_eq!(
        refused(|m| m.deploy.timeout_seconds = Some(0)),
        "deploy.timeout_seconds must be greater than zero"
    );
    assert_eq!(
        refused(|m| m.deploy.timeout_seconds = Some(3601)),
        "deploy.timeout_seconds must not exceed 3600 seconds"
    );
    assert!(refused(|m| m.product.name = "a/b".into()).starts_with("product.name"));
    assert!(refused(|m| m.product.version = "one".into()).contains("one"));
    let dependency = |product: &str, version: &str| DependencySection {
        product: product.into(),
        version: version.into(),
    };
    let with = |dependencies: Vec<DependencySection>| {
        let mut manifest = manifest();
        manifest.dependencies = dependencies;
        validate_manifest(&manifest).map_err(|error| error.to_string())
    };
    assert_eq!(with(vec![dependency("db", ">=1.0.0, <2.0.0")]), Ok(()));
    assert_eq!(
        with(vec![dependency("api", "1")]).unwrap_err(),
        "release api cannot depend on itself"
    );
    assert_eq!(
        with(vec![dependency("db", "1"), dependency("db", "2")]).unwrap_err(),
        "release api declares dependency db more than once"
    );
    assert_eq!(
        with(vec![dependency("db", "newest")]).unwrap_err(),
        "invalid dependency version range \"newest\" for db"
    );
}

#[test]
fn manifest_digests_are_of_the_text() {
    assert_eq!(
        digest("abc"),
        "ba7816bf8f01cfea414140de5dae2223b00361a396177a9cb410ff61f20015ad"
    );
}

fn file(name: &str, content: &str) -> Node {
    Node {
        name: name.as_bytes().to_vec(),
        label: name.into(),
        mode: 0o644,
        content: NodeContent::File(content.as_bytes().to_vec()),
    }
}

fn inputs(nodes: Vec<Node>) -> Vec<DeployInput> {
    nodes
        .into_iter()
        .map(|node| DeployInput { path: node.label.clone(), node })
        .collect()
}

#[test]
fn artifact_digest_changes_with_executable_inputs() {
    let first = artifact_digest(&inputs(vec![file("deploy.sh", "echo one\n")])).unwrap();
    assert_eq!(
        first,
        artifact_digest(&inputs(vec![file("deploy.sh", "echo one\n")])).unwrap()
    );
    let second = artifact_digest(&inputs(vec![file("deploy.sh", "echo two\n")])).unwrap();
    assert_ne!(first, second);
    let mut executable = file("deploy.sh", "echo one\n");
    executable.mode = 0o755;
    assert_ne!(first, artifact_digest(&inputs(vec![executable])).unwrap());
}

#[test]
fn inputs_are_digested_in_the_order_of_their_paths() {
    let one = || file("a", "1");
    let two = || file("b", "2");
    assert_eq!(
        artifact_digest(&inputs(vec![one(), two()])),
        artifact_digest(&inputs(vec![two(), one()]))
    );
    assert_eq!(
        artifact_digest(&inputs(vec![one(), one()])).unwrap_err().to_string(),
        "deploy inputs must not contain duplicates"
    );
}

#[test]
fn links_are_not_deploy_inputs() {
    let link = || Node {
        name: b"link".to_vec(),
        label: "link".into(),
        mode: 0,
        content: NodeContent::Symlink,
    };
    assert_eq!(
        artifact_digest(&inputs(vec![link()])).unwrap_err().to_string(),
        "deploy input cannot be a symlink: link"
    );
    let directory = Node {
        name: b"dir".to_vec(),
        label: "dir".into(),
        mode: 0o755,
        content: NodeContent::Directory(vec![file("f", "x"), link()]),
    };
    assert_eq!(
        artifact_digest(&inputs(vec![directory])).unwrap_err().to_string(),
        "artifact workdir cannot contain symlink link"
    );
    validate_input_path("config/app.toml").unwrap();
    assert_eq!(
        validate_input_path("").unwrap_err().to_string(),
        "deploy inputs must not contain empty paths"
    );
    assert!(validate_input_path("../x").is_err());
    assert!(validate_input_path("/x").is_err());
}

#[test]
fn snapshots_lie_outside_the_working_directory() {
    assert_eq!(
        snapshot_destination("/src", "/state", "manifest", "artifact"),
        Ok("/state/releases/manifest-artifact".to_string())
    );
    assert_eq!(
        snapshot_destination("/src", "/src/.state", "m", "a").unwrap_err().to_string(),
        "TENKAI_STATE_DIR must be outside the deployment workdir"
    );
    let first = runtime_destination("/state", "dev", "api", "key");
    assert_eq!(first, "/state/runtime/dev/api/key");
    assert_ne!(first, runtime_destination("/state", "prod", "api", "key"));
}

#[test]
fn copies_are_checked_against_their_digest() {
    assert_eq!(check_existing(Some("d"), "d"), Reuse::Keep);
    assert_eq!(check_existing(Some("e"), "d"), Reuse::Refill);
    assert_eq!(check_existing(None, "d"), Reuse::Refill);
    check_copy("d", "d", true).unwrap();
    assert_eq!(
        check_copy("e", "d", false).unwrap_err().to_string(),
        "versioned deploy-input snapshot failed integrity verification"
    );
    assert_eq!(prepare_parent(ParentKind::Symlink, "p"), Ok(ParentStep::Replace));
    assert_eq!(prepare_parent(ParentKind::Absent, "p"), Ok(ParentStep::Make));
    assert!(prepare_parent(ParentKind::Other, "p").is_err());
    check_destination("/run", "/run/config", true).unwrap();
    assert!(check_destination("/run", "/elsewhere", true).is_err());
    assert!(check_destination("/run", "/run", false).is_err());
}
