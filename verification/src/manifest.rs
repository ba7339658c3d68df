//! Product manifests: what a release is and how to apply it.
pub mod artifact;
pub mod workdir;

pub use crate::version::validate_version;
pub use artifact::artifact_digest;

use crate::crypto::{digest_hex, sha256_hex};
use crate::error::{first_refusal, refusal, Error};
use crate::framing::utf8;
use crate::ontology::{identifier_refusal, validate_identifier};
use crate::text::{blank, quote, quoted, same};
use crate::version::{is_requirement, requirement_valid, version_refusal};
use vstd::prelude::*;

verus! {

/// What a product is delivered as.
#[derive(Debug, Clone, Copy, PartialEq, Eq, Structural)]
pub enum ProductKind {
    Software,
    ModelRuntime,
    RoutingConfig,
}

/// How a release is applied.
#[derive(Debug, Clone, Copy, PartialEq, Eq, Structural)]
pub enum ExecutorKind {
    LocalShell,
}

/// A product manifest.
#[derive(Debug, PartialEq, Eq)]
pub struct Manifest {
    pub product: ProductSection,
    pub deploy: DeploySection,
    pub dependencies: Vec<DependencySection>,
    pub model: Option<ModelSection>,
    pub runtime: Option<ModelRuntimeSection>,
    pub requirements: Option<ModelRequirementsSection>,
    pub model_health: Option<ModelHealthSection>,
    pub gate: GateSection,
}

/// Another product that a release needs.
#[derive(Debug, PartialEq, Eq)]
pub struct DependencySection {
    pub product: String,
    pub version: String,
}

/// Which product and version a manifest is for.
#[derive(Debug, PartialEq, Eq)]
pub struct ProductSection {
    pub name: String,
    pub version: String,
    pub description: String,
    pub kind: ProductKind,
}

/// How a release is installed, observed and removed.
#[derive(Debug, PartialEq, Eq)]
pub struct DeploySection {
    pub executor: ExecutorKind,
    /// Working directory of all commands, relative to the manifest.
    pub workdir: String,
    /// Command that installs the release.
    pub install: String,
    /// Immutable files or directories, relative to the working directory.
    pub inputs: Vec<String>,
    /// Command that removes the product.
    pub uninstall: Option<String>,
    /// Command that prints the installed version. Exit code 3 means absent.
    pub observe: Option<String>,
    /// Health probe; exit code 0 means healthy.
    pub health: Option<String>,
    /// Longest duration of one command.
    pub timeout_seconds: Option<u64>,
}

/// What must pass before a release is applied.
#[derive(Debug, PartialEq, Eq)]
pub struct GateSection {
    /// The evaluation suite whose latest run must pass.
    pub eval_suite: Option<String>,
}

/// The weights of a model.
#[derive(Debug, PartialEq, Eq)]
pub struct ModelSection {
    pub source: String,
    pub revision: String,
    pub format: String,
    pub quantization: String,
    pub artifact_digest: String,
    pub license: String,
}

/// The engine that serves a model.
#[derive(Debug, PartialEq, Eq)]
pub struct ModelRuntimeSection {
    pub engine: String,
    pub port: u16,
    pub context_length: u32,
}

/// What an environment must offer to a model.
#[derive(Debug, PartialEq, Eq)]
pub struct ModelRequirementsSection {
    pub architecture: Vec<String>,
    pub memory_gib: u32,
    pub accelerator: Vec<String>,
}

/// How the health of a served model is probed.
#[derive(Debug, PartialEq, Eq)]
pub struct ModelHealthSection {
    pub endpoint: String,
    pub smoke_prompt: String,
    pub max_startup_seconds: u32,
}

/// A manifest with its text and its resolved working directory.
#[derive(Debug, PartialEq, Eq)]
pub struct LoadedManifest {
    pub manifest: Manifest,
    /// The text as it was published.
    pub raw: String,
    /// The absolute working directory.
    pub workdir: String,
}

pub const MAX_DEPLOY_TIMEOUT_SECONDS: u64 = 3600;

impl Default for DeploySection {
    /// The deployment of a manifest that leaves everything open.
    fn default() -> (section: DeploySection)
        ensures
            section.executor == ExecutorKind::LocalShell,
            section.workdir@ == "."@,
            section.install@ == Seq::<char>::empty(),
            section.inputs@.len() == 0,
            section.uninstall is None,
            section.observe is None,
            section.health is None,
            section.timeout_seconds == Some(600u64),
    {
        let section = DeploySection {
            executor: ExecutorKind::LocalShell,
            workdir: ".".to_owned(),
            install: String::new(),
            inputs: Vec::new(),
            uninstall: None,
            observe: None,
            health: None,
            timeout_seconds: Some(600),
        };
        assert(section.install@ =~= Seq::<char>::empty());
        section
    }
}

impl Default for GateSection {
    /// No gate.
    fn default() -> (section: GateSection)
        ensures
            section.eval_suite is None,
    {
        GateSection { eval_suite: None }
    }
}

/// Why a timeout is refused.
pub open spec fn timeout_refusal(seconds: Option<u64>) -> Option<Seq<char>> {
    match seconds {
        None => None,
        Some(value) => if value == 0 {
            Some("deploy.timeout_seconds must be greater than zero"@)
        } else if value > MAX_DEPLOY_TIMEOUT_SECONDS {
            Some("deploy.timeout_seconds must not exceed 3600 seconds"@)
        } else {
            None
        },
    }
}

/// Check the timeout of a manifest's commands.
pub fn validate_timeout(manifest: &Manifest) -> (result: Result<(), Error>)
    ensures
        refusal(result) == timeout_refusal(manifest.deploy.timeout_seconds),
{
    match manifest.deploy.timeout_seconds {
        None => Ok(()),
        Some(value) => if value == 0 {
            Err(Error::fixed("deploy.timeout_seconds must be greater than zero"))
        } else if value > MAX_DEPLOY_TIMEOUT_SECONDS {
            Err(Error::fixed("deploy.timeout_seconds must not exceed 3600 seconds"))
        } else {
            Ok(())
        },
    }
}

/// What a dependency says.
pub struct DependencyModel {
    pub product: Seq<char>,
    pub version: Seq<char>,
}

impl View for DependencySection {
    type V = DependencyModel;

    open spec fn view(&self) -> DependencyModel {
        DependencyModel { product: self.product@, version: self.version@ }
    }
}

/// What dependencies say, in order.
pub open spec fn dependency_models(list: Seq<DependencySection>) -> Seq<DependencyModel> {
    list.map_values(|item: DependencySection| item@)
}

/// An earlier dependency names the same product.
pub open spec fn depended_on(earlier: Seq<DependencyModel>, product: Seq<char>) -> bool {
    exists|i: int| 0 <= i < earlier.len() && (#[trigger] earlier[i]).product == product
}

/// Why a dependency is refused behind the earlier ones.
pub open spec fn dependency_refusal(
    name: Seq<char>,
    earlier: Seq<DependencyModel>,
    dependency: DependencyModel,
) -> Option<Seq<char>> {
    let identifier = identifier_refusal("dependency.product"@, dependency.product);
    if identifier is Some {
        identifier
    } else if dependency.product == name {
        Some("release "@ + name + " cannot depend on itself"@)
    } else if depended_on(earlier, dependency.product) {
        Some(
            "release "@ + name + " declares dependency "@ + dependency.product + " more than once"@,
        )
    } else if !requirement_valid(dependency.version) {
        Some(
            "invalid dependency version range "@ + quoted(dependency.version) + " for "@
                + dependency.product,
        )
    } else {
        None
    }
}

/// Why the dependencies of a release are refused: the refusal of the first
/// that is.
pub open spec fn dependencies_refusal(name: Seq<char>, list: Seq<DependencyModel>) -> Option<
    Seq<char>,
>
    decreases list.len(),
{
    if list.len() == 0 {
        None
    } else {
        first_refusal(
            dependencies_refusal(name, list.drop_last()),
            dependency_refusal(name, list.drop_last(), list.last()),
        )
    }
}

proof fn lemma_dependencies_stop(name: Seq<char>, list: Seq<DependencyModel>, at: int)
    requires
        0 <= at < list.len(),
        dependencies_refusal(name, list.take(at + 1)) is Some,
    ensures
        dependencies_refusal(name, list) == dependencies_refusal(name, list.take(at + 1)),
    decreases list.len() - at,
{
    if at + 1 == list.len() {
        assert(list.take(at + 1) =~= list);
    } else {
        assert(list.take(at + 2).drop_last() =~= list.take(at + 1));
        lemma_dependencies_stop(name, list, at + 1);
    }
}

/// A release that was accepted depends on no product twice and not on itself.
pub proof fn accepted_dependencies_are_distinct(name: Seq<char>, list: Seq<DependencyModel>)
    requires
        dependencies_refusal(name, list) is None,
    ensures
        forall|i: int| 0 <= i < list.len() ==> (#[trigger] list[i]).product != name,
        forall|i: int, j: int|
            0 <= i < j < list.len() ==> (#[trigger] list[i]).product != (
            #[trigger] list[j]).product,
    decreases list.len(),
{
    if list.len() > 0 {
        let before = list.drop_last();
        accepted_dependencies_are_distinct(name, before);
        assert forall|i: int| 0 <= i < list.len() implies (#[trigger] list[i]).product != name by {
            if i < before.len() {
                assert(before[i] == list[i]);
            }
        }
        assert forall|i: int, j: int| 0 <= i < j < list.len() implies (#[trigger] list[i]).product
            != (#[trigger] list[j]).product by {
            assert(before[i] == list[i]);
            if j < before.len() {
                assert(before[j] == list[j]);
            }
        }
    }
}

fn is_depended_on(manifest: &Manifest, at: usize) -> (answer: bool)
    requires
        at < manifest.dependencies@.len(),
    ensures
        answer == depended_on(
            dependency_models(manifest.dependencies@).take(at as int),
            manifest.dependencies@[at as int].product@,
        ),
{
    let ghost earlier = dependency_models(manifest.dependencies@).take(at as int);
    let product = &manifest.dependencies[at].product;
    let mut i: usize = 0;
    while i < at
        invariant
            i <= at < manifest.dependencies@.len(),
            earlier == dependency_models(manifest.dependencies@).take(at as int),
            *product == manifest.dependencies@[at as int].product,
            forall|k: int| 0 <= k < i ==> (#[trigger] earlier[k]).product != product@,
        decreases at - i,
    {
        assert(earlier[i as int] == manifest.dependencies@[i as int]@);
        if same(&manifest.dependencies[i].product, product) {
            return true;
        }
        i = i + 1;
    }
    false
}

fn check_dependency(manifest: &Manifest, at: usize) -> (result: Result<(), Error>)
    requires
        at < manifest.dependencies@.len(),
    ensures
        refusal(result) == dependency_refusal(
            manifest.product.name@,
            dependency_models(manifest.dependencies@).take(at as int),
            dependency_models(manifest.dependencies@)[at as int],
        ),
{
    let dependency = &manifest.dependencies[at];
    match validate_identifier("dependency.product", dependency.product.as_str()) {
        Err(error) => return Err(error),
        Ok(_) => {},
    }
    if same(&dependency.product, &manifest.product.name) {
        let mut message = "release ".to_owned();
        message.append(manifest.product.name.as_str());
        message.append(" cannot depend on itself");
        return Err(Error::new(message));
    }
    if is_depended_on(manifest, at) {
        let mut message = "release ".to_owned();
        message.append(manifest.product.name.as_str());
        message.append(" declares dependency ");
        message.append(dependency.product.as_str());
        message.append(" more than once");
        return Err(Error::new(message));
    }
    if !is_requirement(dependency.version.as_str()) {
        let mut message = "invalid dependency version range ".to_owned();
        message.append(quote(dependency.version.as_str()).as_str());
        message.append(" for ");
        message.append(dependency.product.as_str());
        return Err(Error::new(message));
    }
    Ok(())
}

/// Check the dependencies of a manifest.
pub fn validate_dependencies(manifest: &Manifest) -> (result: Result<(), Error>)
    ensures
        refusal(result) == dependencies_refusal(
            manifest.product.name@,
            dependency_models(manifest.dependencies@),
        ),
{
    let ghost models = dependency_models(manifest.dependencies@);
    let mut i: usize = 0;
    assert(models.take(0) =~= Seq::<DependencyModel>::empty());
    while i < manifest.dependencies.len()
        invariant
            i <= manifest.dependencies.len(),
            models == dependency_models(manifest.dependencies@),
            dependencies_refusal(manifest.product.name@, models.take(i as int)) is None,
        decreases manifest.dependencies.len() - i,
    {
        assert(models.take(i + 1).drop_last() =~= models.take(i as int));
        assert(models.take(i + 1).last() == models[i as int]);
        match check_dependency(manifest, i) {
            Err(error) => {
                proof {
                    lemma_dependencies_stop(manifest.product.name@, models, i as int);
                }
                return Err(error);
            },
            Ok(_) => {},
        }
        i = i + 1;
    }
    assert(models.take(i as int) =~= models);
    Ok(())
}

/// Why a manifest is refused.
pub open spec fn manifest_refusal(manifest: Manifest) -> Option<Seq<char>> {
    let name = manifest.product.name@;
    let version = manifest.product.version@;
    if name.len() == 0 || version.len() == 0 {
        Some("manifest needs product.name and product.version"@)
    } else if blank(manifest.deploy.install@) {
        Some("manifest needs a non-empty deploy.install command"@)
    } else {
        first_refusal(
            timeout_refusal(manifest.deploy.timeout_seconds),
            first_refusal(
                identifier_refusal("product.name"@, name),
                first_refusal(
                    identifier_refusal("product.version"@, version),
                    first_refusal(
                        version_refusal(version),
                        dependencies_refusal(name, dependency_models(manifest.dependencies@)),
                    ),
                ),
            ),
        )
    }
}

/// Check a manifest that was read.
pub fn validate_manifest(manifest: &Manifest) -> (result: Result<(), Error>)
    ensures
        refusal(result) == manifest_refusal(*manifest),
{
    if manifest.product.name.as_str().unicode_len() == 0
        || manifest.product.version.as_str().unicode_len() == 0 {
        return Err(Error::fixed("manifest needs product.name and product.version"));
    }
    if manifest.deploy.install.as_str().trim().unicode_len() == 0 {
        return Err(Error::fixed("manifest needs a non-empty deploy.install command"));
    }
    match validate_timeout(manifest) {
        Err(error) => return Err(error),
        Ok(_) => {},
    }
    match validate_identifier("product.name", manifest.product.name.as_str()) {
        Err(error) => return Err(error),
        Ok(_) => {},
    }
    match validate_identifier("product.version", manifest.product.version.as_str()) {
        Err(error) => return Err(error),
        Ok(_) => {},
    }
    match validate_version(manifest.product.version.as_str()) {
        Err(error) => return Err(error),
        Ok(_) => {},
    }
    validate_dependencies(manifest)
}

/// The digest of the text of a manifest.
pub fn digest(raw: &str) -> (text: String)
    ensures
        text@ == sha256_hex(utf8(raw@)),
        text@.len() == 64,
{
    digest_hex(raw.as_bytes())
}

proof fn lemma_dependencies_sound(name: Seq<char>, list: Seq<DependencyModel>)
    ensures
        dependencies_refusal(name, list) is None <==> {
            &&& forall|i: int|
                0 <= i < list.len() ==> identifier_refusal(
                    "dependency.product"@,
                    (#[trigger] list[i]).product,
                ) is None && list[i].product != name && requirement_valid(list[i].version)
            &&& forall|i: int, j: int|
                0 <= i < j < list.len() ==> (#[trigger] list[i]).product != (
                #[trigger] list[j]).product
        },
    decreases list.len(),
{
    if list.len() > 0 {
        let front = list.drop_last();
        let last = list.len() - 1;
        lemma_dependencies_sound(name, front);
        assert(forall|i: int| 0 <= i < last ==> front[i] == list[i]);
        if dependencies_refusal(name, list) is None {
            accepted_dependencies_are_distinct(name, list);
            assert forall|i: int| 0 <= i < list.len() implies identifier_refusal(
                "dependency.product"@,
                (#[trigger] list[i]).product,
            ) is None && list[i].product != name && requirement_valid(list[i].version) by {
                if i < last {
                    assert(requirement_valid(front[i].version));
                }
            }
        }
        if (forall|i: int|
            0 <= i < list.len() ==> identifier_refusal(
                "dependency.product"@,
                (#[trigger] list[i]).product,
            ) is None && list[i].product != name && requirement_valid(list[i].version)) && (forall|
            i: int,
            j: int,
        |
            0 <= i < j < list.len() ==> (#[trigger] list[i]).product != (
            #[trigger] list[j]).product) {
            assert forall|i: int, j: int| 0 <= i < j < front.len() implies (
            #[trigger] front[i]).product != (#[trigger] front[j]).product by {
                assert(list[i].product != list[j].product);
            }
            assert(requirement_valid(list[last].version));
            if depended_on(front, list[last].product) {
                let i = choose|i: int|
                    0 <= i < front.len() && (#[trigger] front[i]).product == list[last].product;
                assert(list[i].product != list[last].product);
            }
        }
    }
}

/// The dependencies of a release are accepted if and only if each names another
/// product by an identifier, with a valid version range, and none is named twice.
pub proof fn accepted_dependencies(manifest: &Manifest, result: Result<(), Error>)
    requires
        call_ensures(validate_dependencies, (manifest,), result),
    ensures
        result is Ok <==> {
            let list = manifest.dependencies@;
            &&& forall|i: int|
                0 <= i < list.len() ==> identifier_refusal(
                    "dependency.product"@,
                    (#[trigger] list[i]).product@,
                ) is None && list[i].product@ != manifest.product.name@ && requirement_valid(
                    list[i].version@,
                )
            &&& forall|i: int, j: int|
                0 <= i < j < list.len() ==> (#[trigger] list[i]).product@ != (
                #[trigger] list[j]).product@
        },
{
    let list = manifest.dependencies@;
    let models = dependency_models(list);
    let name = manifest.product.name@;
    lemma_dependencies_sound(name, models);
    assert(models.len() == list.len());
    assert forall|i: int| 0 <= i < list.len() implies models[i] == (#[trigger] list[i])@ by {};
    if result is Ok {
        assert forall|i: int| 0 <= i < list.len() implies identifier_refusal(
            "dependency.product"@,
            (#[trigger] list[i]).product@,
        ) is None && list[i].product@ != name && requirement_valid(list[i].version@) by {
            assert(models[i].product != name);
        }
        assert forall|i: int, j: int| 0 <= i < j < list.len() implies (
        #[trigger] list[i]).product@ != (#[trigger] list[j]).product@ by {
            assert(models[i].product != models[j].product);
        }
    } else {
        if forall|i: int|
            0 <= i < models.len() ==> identifier_refusal(
                "dependency.product"@,
                (#[trigger] models[i]).product,
            ) is None && models[i].product != name && requirement_valid(models[i].version) {
            let (i, j) = choose|i: int, j: int|
                0 <= i < j < models.len() && (#[trigger] models[i]).product == (
                #[trigger] models[j]).product;
            assert(list[i].product@ == list[j].product@);
        } else {
            let i = choose|i: int|
                0 <= i < models.len() && !(identifier_refusal(
                    "dependency.product"@,
                    (#[trigger] models[i]).product,
                ) is None && models[i].product != name && requirement_valid(models[i].version));
            assert(list[i]@ == models[i]);
        }
    }
}

/// A manifest is accepted if and only if it names a product and a semantic
/// version by identifiers, has a command to install, a timeout of at most an
/// hour if any, and dependencies that are accepted.
pub proof fn accepted_manifests(
    manifest: &Manifest,
    dependencies: Result<(), Error>,
    result: Result<(), Error>,
)
    requires
        call_ensures(validate_manifest, (manifest,), result),
        call_ensures(validate_dependencies, (manifest,), dependencies),
    ensures
        result is Ok <==> {
            let name = manifest.product.name@;
            let version = manifest.product.version@;
            &&& name.len() > 0
            &&& version.len() > 0
            &&& !blank(manifest.deploy.install@)
            &&& manifest.deploy.timeout_seconds matches Some(seconds) ==> 1 <= seconds <= 3600
            &&& identifier_refusal("product.name"@, name) is None
            &&& identifier_refusal("product.version"@, version) is None
            &&& crate::version::version_valid(version)
            &&& dependencies is Ok
        },
{
}

/// A timeout passes where it is absent, or from a second to an hour.
pub proof fn timeouts_are_bounded(manifest: &Manifest, result: Result<(), Error>)
    requires
        call_ensures(validate_timeout, (manifest,), result),
    ensures
        result is Ok <==> (manifest.deploy.timeout_seconds matches Some(seconds) ==> 1 <= seconds
            <= 3_600),
{
}

} // verus!
