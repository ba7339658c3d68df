use tenkai::crypto::digest_of;
use tenkai::manifest::{
    DeploySection, GateSection, Manifest, ModelHealthSection, ModelRequirementsSection,
    ModelRuntimeSection, ModelSection, ProductKind, ProductSection,
};
use tenkai::model_runtime::engine::{
    bind_host_from_health_endpoint, require_loopback_bind, require_loopback_health_endpoint,
    uses_real_engine, Probe,
};
use tenkai::model_runtime::executor::{check_written, observed_identity, start_request};
use tenkai::model_runtime::weights::{
    cached_name, verify_weights, weight_source, CachedBlob, WeightSource,
};
use tenkai::model_runtime::{
    EngineHandle, EngineStartRequest, FakeInferenceEngine, InferenceEngineProcess,
    LlamaCppProcessLauncher, LocalModelRuntimeExecutor, ModelRuntimeDescriptor,
    ReferenceLlamaCppExecutor, WeightCache, MODEL_RUNTIME_CONTRACT_VERSION,
};

fn sample_descriptor() -> ModelRuntimeDescriptor {
    ModelRuntimeDescriptor {
        contract_version: MODEL_RUNTIME_CONTRACT_VERSION,
        product_name: "qwen-coder".into(),
        product_version: "3.2.1".into(),
        model: ModelSection {
            source: "hf://org/qwen-coder".into(),
            revision: "9bcfabc".into(),
            format: "gguf".into(),
            quantization: "Q4_K_M".into(),
            artifact_digest: format!("sha256:{}", "ab".repeat(32)),
            license: "apache-2.0".into(),
        },
        runtime: ModelRuntimeSection {
            engine: "llama.cpp".into(),
            port: 8080,
            context_length: 32768,
        },
        requirements: ModelRequirementsSection {
            architecture: vec!["arm64".into()],
            memory_gib: 32,
            accelerator: vec!["apple-metal".into()],
        },
        health: ModelHealthSection {
            endpoint: "http://127.0.0.1:8080/v1/models".into(),
            smoke_prompt: "Return exactly: OK".into(),
            max_startup_seconds: 300,
        },
    }
}

#[test]
fn validates_digest_and_required_fields() {
    let mut descriptor = sample_descriptor();
    descriptor.validate().unwrap();
    descriptor.model.artifact_digest = "sha256:deadbeef".into();
    assert!(descriptor.validate().is_err());
    descriptor = sample_descriptor();
    descriptor.model.source = "sqlite://weights".into();
    assert!(descriptor.validate().is_err());
}

fn sample_manifest() -> Manifest {
    let sample = sample_descriptor();
    Manifest {
        product: ProductSection {
            name: "qwen-coder".into(),
            version: "3.2.1".into(),
            description: String::new(),
            kind: ProductKind::ModelRuntime,
        },
        deploy: DeploySection::default(),
        dependencies: Vec::new(),
        model: Some(sample.model),
        runtime: Some(sample.runtime),
        requirements: Some(sample.requirements),
        model_health: Some(sample.health),
        gate: GateSection::default(),
    }
}

#[test]
fn from_manifest_builds_descriptor() {
    let descriptor = ModelRuntimeDescriptor::from_manifest(&sample_manifest()).unwrap();
    assert_eq!(descriptor.product_name, "qwen-coder");
    assert!(ModelRuntimeDescriptor::digest(b"{}").starts_with("sha256:"));
    assert_eq!(descriptor, sample_descriptor());
}

#[test]
fn each_section_of_a_model_manifest_is_needed() {
    let refused = |manifest: &Manifest| {
        ModelRuntimeDescriptor::from_manifest(manifest).unwrap_err().to_string()
    };
    let mut manifest = sample_manifest();
    manifest.model = None;
    assert_eq!(refused(&manifest), "model_runtime manifest needs a [model] section");
    manifest = sample_manifest();
    manifest.runtime = None;
    assert_eq!(refused(&manifest), "model_runtime manifest needs a [runtime] section");
    manifest = sample_manifest();
    manifest.requirements = None;
    assert_eq!(refused(&manifest), "model_runtime manifest needs a [requirements] section");
    manifest = sample_manifest();
    manifest.model_health = None;
    assert_eq!(refused(&manifest), "model_runtime manifest needs a [health] section");
}

#[test]
fn descriptors_name_the_field_that_is_wrong() {
    let refused = |change: fn(&mut ModelRuntimeDescriptor)| {
        let mut descriptor = sample_descriptor();
        change(&mut descriptor);
        descriptor.validate().unwrap_err().to_string()
    };
    assert_eq!(
        refused(|d| d.contract_version = 2),
        "unsupported model_runtime contract version 2; expected 1"
    );
    assert_eq!(refused(|d| d.runtime.port = 0), "runtime.port must be non-zero");
    assert_eq!(refused(|d| d.model.license = " ".into()), "model.license must not be empty");
    assert_eq!(
        refused(|d| d.runtime.context_length = 0),
        "runtime.context_length must be non-zero"
    );
    assert_eq!(
        refused(|d| d.requirements.architecture = Vec::new()),
        "requirements.architecture must not be empty"
    );
    assert_eq!(
        refused(|d| d.requirements.accelerator = vec!["".into()]),
        "requirements.accelerator entries must not be empty"
    );
    assert_eq!(
        refused(|d| d.requirements.memory_gib = 0),
        "requirements.memory_gib must be non-zero"
    );
    assert_eq!(
        refused(|d| d.health.max_startup_seconds = 0),
        "health.max_startup_seconds must be non-zero"
    );
    assert_eq!(
        refused(|d| d.model.source = "tenkai-db://x".into()),
        "model.source cannot address Tenkai operational storage"
    );
}

#[test]
fn weights_are_verified_against_their_digest() {
    let payload = b"tiny-model-bytes";
    let digest = digest_of(payload);
    verify_weights("/src/model.bin", payload, &digest).unwrap();
    let bad = format!("sha256:{}", "00".repeat(32));
    let err = verify_weights("/src/model.bin", payload, &bad).unwrap_err().to_string();
    assert_eq!(
        err,
        format!("weight digest mismatch for /src/model.bin: expected {bad}, got {digest}")
    );
    let cache = WeightCache::new("/cache");
    let hex = &digest["sha256:".len()..];
    assert_eq!(cache.blob_path(&digest), Ok(format!("/cache/sha256/{hex}")));
    assert_eq!(cache.settle_fetch(&digest, payload).unwrap(), format!("/cache/sha256/{hex}"));
    let err = cache.settle_fetch(&bad, payload).unwrap_err().to_string();
    assert!(err.contains("verification failed"));
    assert!(cache.blob_path("sha256:nope").is_err());
}

#[test]
fn sources_are_files_or_on_the_web() {
    assert_eq!(
        weight_source("file:///models/a.bin"),
        Ok(WeightSource::File("/models/a.bin".into()))
    );
    assert_eq!(
        weight_source("https://host/a.bin"),
        Ok(WeightSource::Web("https://host/a.bin".into()))
    );
    assert_eq!(
        weight_source("file://a.bin").unwrap_err().to_string(),
        "file:// model.source must be an absolute path"
    );
    assert!(weight_source("hf://org/a").unwrap_err().to_string().contains("reserved"));
    assert!(weight_source("ftp://a").unwrap_err().to_string().contains("unsupported"));
}

fn blob(digest: &str, modified: i128) -> CachedBlob {
    CachedBlob { hex: digest["sha256:".len()..].to_string(), modified }
}

#[test]
fn weight_cache_evicts_unprotected_oldest_first() {
    let digests = (0..3).map(|i| digest_of(&[i as u8; 16])).collect::<Vec<_>>();
    let held = |kept: &[usize]| {
        kept.iter().map(|i| blob(&digests[*i], 15 * *i as i128)).collect::<Vec<_>>()
    };
    let protected = vec![digests[2].clone()];
    let removed = WeightCache::evict(&protected, &held(&[0, 1, 2]), 2).unwrap();
    assert_eq!(removed.len(), 1);
    assert_eq!(removed[0], digests[0]);
    let removed = WeightCache::evict(&protected, &held(&[1, 2]), 0).unwrap();
    assert!(!removed.iter().any(|d| d == &digests[2]));
    assert_eq!(removed, vec![digests[1].clone()]);
}

#[test]
fn blob_names_are_digests() {
    assert_eq!(cached_name(&"ab".repeat(32)), Some("ab".repeat(32)));
    assert_eq!(cached_name("ab.partial"), None);
}

fn activate<E: InferenceEngineProcess>(
    executor: &ReferenceLlamaCppExecutor<E>,
    descriptor: &ModelRuntimeDescriptor,
    active: Option<ModelRuntimeDescriptor>,
    handle: Option<EngineHandle>,
) -> Result<
    (Option<ModelRuntimeDescriptor>, EngineHandle, Option<EngineHandle>),
    tenkai::error::Error,
> {
    let generation = format!("generation-{}", descriptor.product_version);
    executor
        .activate(descriptor, &active, &handle, &generation, None)
        .map(|activation| (activation.previous, activation.candidate, activation.retired))
}

#[test]
fn reference_executor_activates_after_smoke_and_retains_previous() {
    let executor = ReferenceLlamaCppExecutor::with_fake("/state/active.json");
    let mut first = sample_descriptor();
    first.product_version = "1.0.0".into();
    first.health.endpoint = "http://127.0.0.1:8080/v1/models".into();
    let (previous, handle, retired) = activate(&executor, &first, None, None).unwrap();
    assert_eq!((previous, retired), (None, None));

    let mut second = sample_descriptor();
    second.product_version = "2.0.0".into();
    second.health.endpoint = "http://127.0.0.1:8081/v1/models".into();
    second.runtime.port = 8081;
    let (previous, candidate, retired) =
        activate(&executor, &second, Some(first.copy()), Some(handle.copy())).unwrap();
    assert_eq!(candidate.port, 8081);
    assert_eq!(candidate.marker, "fake:generation-2.0.0");
    assert_eq!(previous, Some(first));
    assert_eq!(retired, Some(handle));
}

#[test]
fn reference_executor_smoke_failure_retains_active_generation() {
    let failing = ReferenceLlamaCppExecutor::new(
        "/state/active.json",
        FakeInferenceEngine { fail_smoke: true, fail_start: false },
    );
    let mut bad = sample_descriptor();
    bad.product_version = "9.9.9".into();
    bad.health.endpoint = "http://127.0.0.1:8080/v1/models".into();
    let err = activate(&failing, &bad, Some(sample_descriptor()), None)
        .unwrap_err()
        .to_string();
    assert!(err.contains("smoke failed") || err.contains("retained"), "{err}");
    let stuck = ReferenceLlamaCppExecutor::new(
        "/state/active.json",
        FakeInferenceEngine { fail_smoke: false, fail_start: true },
    );
    assert_eq!(
        activate(&stuck, &bad, None, None).unwrap_err().to_string(),
        "model_runtime candidate start failed; active generation retained"
    );
}

#[test]
fn reference_executor_rejects_non_loopback_health() {
    let executor = ReferenceLlamaCppExecutor::with_fake("/state/active.json");
    let mut descriptor = sample_descriptor();
    descriptor.health.endpoint = "http://0.0.0.0:8080/v1/models".into();
    assert!(activate(&executor, &descriptor, None, None).is_err());
    descriptor = sample_descriptor();
    descriptor.runtime.engine = "vllm".into();
    assert!(activate(&executor, &descriptor, None, None)
        .unwrap_err()
        .to_string()
        .contains("requires runtime.engine=llama.cpp, got vllm"));
}

#[test]
fn executors_hold_their_paths_and_check_what_they_wrote() {
    let local = LocalModelRuntimeExecutor::new("/state/active.json")
        .with_weight_cache(WeightCache::new("/cache"));
    assert_eq!(local.state_path(), "/state/active.json");
    assert_eq!(local.weight_cache().unwrap().root(), "/cache");
    let reference = ReferenceLlamaCppExecutor::with_fake("/state/active.json");
    assert_eq!(reference.state_path(), "/state/active.json");
    assert!(reference.weight_cache().is_none());
    assert!(!reference.engine().fail_start);

    let descriptor = sample_descriptor();
    let identity = ModelRuntimeDescriptor::digest(b"encoded");
    assert_eq!(identity, digest_of(b"encoded"));
    check_written(&descriptor, b"encoded", &identity).unwrap();
    assert!(check_written(&descriptor, b"other", &identity).is_err());
    assert_eq!(observed_identity(Some(&descriptor), b"encoded"), Ok(Some(identity.clone())));
    assert_eq!(observed_identity(None, b""), Ok(None));
    LocalModelRuntimeExecutor::check_observed(Some(&identity), &identity).unwrap();
    assert!(LocalModelRuntimeExecutor::check_observed(None, &identity).is_err());
}

#[test]
fn engines_bind_loopback_only() {
    require_loopback_bind(" ::1 ", 80).unwrap();
    require_loopback_bind("localhost", 80).unwrap();
    assert_eq!(
        require_loopback_bind("0.0.0.0", 80).unwrap_err().to_string(),
        "reference model engine must bind loopback only, got host \"0.0.0.0\""
    );
    assert_eq!(
        require_loopback_bind("127.0.0.1", 0).unwrap_err().to_string(),
        "model runtime port must not be zero"
    );
    require_loopback_health_endpoint("http://localhost:1/x").unwrap();
    assert!(require_loopback_health_endpoint("https://localhost:1/x").is_err());
    assert_eq!(bind_host_from_health_endpoint("http://[::1]:80/x"), Ok("::1".to_string()));
    assert_eq!(bind_host_from_health_endpoint("http://localhost:80/x"), Ok("127.0.0.1".to_string()));
}

fn request() -> EngineStartRequest {
    start_request(&sample_descriptor(), "g1", Some("/w.bin".to_string())).unwrap()
}

#[test]
fn llama_servers_are_started_and_stopped_by_their_process() {
    let launcher = LlamaCppProcessLauncher::configured(None);
    assert_eq!(launcher.binary, "llama-server");
    assert_eq!(LlamaCppProcessLauncher::configured(Some("/bin/llama")).binary, "/bin/llama");
    assert_eq!(
        LlamaCppProcessLauncher::arguments(&request()).unwrap(),
        vec!["--host", "127.0.0.1", "--port", "8080", "--model", "/w.bin"]
    );
    let mut bare = request();
    bare.weights_path = None;
    assert_eq!(
        LlamaCppProcessLauncher::arguments(&bare).unwrap_err().to_string(),
        "llama.cpp launcher requires verified weights path"
    );
    let mut other = request();
    other.engine = "vllm".into();
    assert!(LlamaCppProcessLauncher::arguments(&other).is_err());
    let mut handle = LlamaCppProcessLauncher::started(&request(), 4321);
    assert_eq!(handle.marker, "pid:4321");
    assert_eq!(LlamaCppProcessLauncher::stop_target(&handle), Some(4321));
    handle.marker = "fake:g1".into();
    assert_eq!(LlamaCppProcessLauncher::stop_target(&handle), None);
    assert_eq!(
        launcher.not_started().to_string(),
        "starting llama.cpp candidate via llama-server (set TENKAI_LLAMA_SERVER or use FakeInferenceEngine)"
    );
}

#[test]
fn probes_are_judged_by_their_status() {
    let health = sample_descriptor().health;
    assert_eq!(LlamaCppProcessLauncher::probe_fault(&health, &Probe::Success), None);
    assert_eq!(
        LlamaCppProcessLauncher::probe_fault(&health, &Probe::Status("503 Busy".into())),
        Some("health endpoint http://127.0.0.1:8080/v1/models returned 503 Busy".into())
    );
    assert_eq!(
        LlamaCppProcessLauncher::probe_fault(&health, &Probe::Failed("refused".into())),
        Some("refused".into())
    );
    let handle = LlamaCppProcessLauncher::started(&request(), 1);
    assert_eq!(
        LlamaCppProcessLauncher::not_up(&handle, &health, None).to_string(),
        "llama.cpp smoke failed for generation g1 at http://127.0.0.1:8080/v1/models: health probe did not run"
    );
    assert_eq!(LlamaCppProcessLauncher::startup_seconds(&health), 300);
}

#[test]
fn the_real_engine_is_chosen_by_the_settings() {
    assert!(uses_real_engine(true, None));
    assert!(uses_real_engine(false, Some("TRUE")));
    assert!(uses_real_engine(false, Some("1")));
    assert!(!uses_real_engine(false, Some("yes")));
    assert!(!uses_real_engine(false, None));
}

#[test]
fn fake_engines_fail_on_request() {
    let fine = FakeInferenceEngine::default();
    let handle = fine.start_candidate(&request()).unwrap();
    let health = sample_descriptor().health;
    fine.smoke(&handle, &health).unwrap();
    fine.stop(&handle).unwrap();
    let broken = FakeInferenceEngine { fail_smoke: true, fail_start: true };
    assert_eq!(
        broken.start_candidate(&request()).unwrap_err().to_string(),
        "fake engine refused to start candidate generation g1"
    );
    assert!(broken
        .smoke(&handle, &health)
        .unwrap_err()
        .to_string()
        .starts_with("fake engine smoke failed for generation g1 at http://"));
}

#[test]
fn probes_are_bounded_in_time() {
    let seconds = |max_startup_seconds: u32| {
        let mut health = sample_descriptor().health;
        health.max_startup_seconds = max_startup_seconds;
        (
            LlamaCppProcessLauncher::probe_seconds(&health),
            LlamaCppProcessLauncher::startup_seconds(&health),
        )
    };
    assert_eq!(seconds(0), (1, 1));
    assert_eq!(seconds(30), (30, 30));
    assert_eq!(seconds(300), (60, 300));
}

#[test]
fn weights_are_kept_under_their_digits() {
    let digest = digest_of(b"weights");
    let digits = &digest["sha256:".len()..];
    let path = |root: &str| WeightCache::new(root).blob_path(&digest).unwrap();
    assert_eq!(path(""), format!("sha256/{digits}"));
    assert_eq!(path("/cache"), format!("/cache/sha256/{digits}"));
    assert_eq!(path("/cache/"), format!("/cache/sha256/{digits}"));
    assert_ne!(WeightCache::new("").blob_path(&digest_of(b"other")).unwrap(), path(""));
    assert!(WeightCache::new("").blob_path("sha256:deadbeef").is_err());
}

struct SlowEngine {
    log: std::sync::Mutex<Vec<String>>,
}

impl InferenceEngineProcess for SlowEngine {
    fn start_candidate(
        &self,
        request: &EngineStartRequest,
    ) -> Result<EngineHandle, tenkai::error::Error> {
        self.log.lock().unwrap().push(format!("start {}", request.generation_id));
        FakeInferenceEngine { fail_smoke: false, fail_start: false }.start_candidate(request)
    }

    fn smoke(
        &self,
        handle: &EngineHandle,
        health: &ModelHealthSection,
    ) -> Result<(), tenkai::error::Error> {
        self.log.lock().unwrap().push(format!("smoke {} {}", handle.generation_id, health.endpoint));
        Err(tenkai::error::Error::fixed("not up"))
    }

    fn stop(&self, handle: &EngineHandle) -> Result<(), tenkai::error::Error> {
        self.log.lock().unwrap().push(format!("stop {}", handle.generation_id));
        Ok(())
    }
}

#[test]
fn a_candidate_that_does_not_come_up_is_stopped() {
    let executor = ReferenceLlamaCppExecutor::new(
        "/state/active.json",
        SlowEngine { log: std::sync::Mutex::new(Vec::new()) },
    );
    assert_eq!(
        activate(&executor, &sample_descriptor(), None, None).unwrap_err().to_string(),
        "model_runtime smoke failed; candidate stopped and previous generation retained for rollback"
    );
    assert_eq!(
        *executor.engine().log.lock().unwrap(),
        vec![
            "start generation-3.2.1".to_string(),
            "smoke generation-3.2.1 http://127.0.0.1:8080/v1/models".to_string(),
            "stop generation-3.2.1".to_string(),
        ]
    );
}
