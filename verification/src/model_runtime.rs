//! Model runtimes: the release descriptor of a served model, its weights and
//! the engines that serve it.
//!
//! Engines stay outside: they load models and serve traffic. Weights are never
//! stored with operational state, only their digests and descriptors are.
pub mod engine;
pub mod executor;
pub mod weights;

pub use engine::{
    EngineHandle, EngineStartRequest, FakeInferenceEngine, InferenceEngineProcess,
    LlamaCppProcessLauncher,
};
pub use executor::{LocalModelRuntimeExecutor, ModelRuntimeExecutor, ReferenceLlamaCppExecutor};
pub use weights::WeightCache;

use crate::crypto::{digest_of, prefixed_digest};
use crate::error::{first_refusal, refusal, refuse_unless, Error};
use crate::manifest::{
    Manifest, ModelHealthSection, ModelRequirementsSection, ModelRuntimeSection, ModelSection,
};
use crate::ontology::{identifier_refusal, validate_identifier};
use crate::signature_verification::{digest_refusal, validate_prefixed_digest};
use crate::text::{begins_with, blank, copy_texts, decimal, decimal_text, starts_with, texts};
use vstd::prelude::*;

verus! {

/// Version of the model-runtime descriptor.
pub const MODEL_RUNTIME_CONTRACT_VERSION: u32 = 1;

/// The descriptor of a model-runtime release.
#[derive(Debug, PartialEq, Eq)]
pub struct ModelRuntimeDescriptor {
    pub contract_version: u32,
    pub product_name: String,
    pub product_version: String,
    pub model: ModelSection,
    pub runtime: ModelRuntimeSection,
    pub requirements: ModelRequirementsSection,
    pub health: ModelHealthSection,
}

/// What a descriptor says.
pub struct DescriptorModel {
    pub contract_version: u32,
    pub product_name: Seq<char>,
    pub product_version: Seq<char>,
    pub source: Seq<char>,
    pub revision: Seq<char>,
    pub format: Seq<char>,
    pub quantization: Seq<char>,
    pub artifact_digest: Seq<char>,
    pub license: Seq<char>,
    pub engine: Seq<char>,
    pub port: u16,
    pub context_length: u32,
    pub architecture: Seq<Seq<char>>,
    pub memory_gib: u32,
    pub accelerator: Seq<Seq<char>>,
    pub endpoint: Seq<char>,
    pub smoke_prompt: Seq<char>,
    pub max_startup_seconds: u32,
}

/// What the parts of a descriptor say together.
pub open spec fn described(
    contract_version: u32,
    product_name: Seq<char>,
    product_version: Seq<char>,
    model: ModelSection,
    runtime: ModelRuntimeSection,
    requirements: ModelRequirementsSection,
    health: ModelHealthSection,
) -> DescriptorModel {
    DescriptorModel {
        contract_version,
        product_name,
        product_version,
        source: model.source@,
        revision: model.revision@,
        format: model.format@,
        quantization: model.quantization@,
        artifact_digest: model.artifact_digest@,
        license: model.license@,
        engine: runtime.engine@,
        port: runtime.port,
        context_length: runtime.context_length,
        architecture: texts(requirements.architecture@),
        memory_gib: requirements.memory_gib,
        accelerator: texts(requirements.accelerator@),
        endpoint: health.endpoint@,
        smoke_prompt: health.smoke_prompt@,
        max_startup_seconds: health.max_startup_seconds,
    }
}

impl View for ModelRuntimeDescriptor {
    type V = DescriptorModel;

    open spec fn view(&self) -> DescriptorModel {
        described(
            self.contract_version,
            self.product_name@,
            self.product_version@,
            self.model,
            self.runtime,
            self.requirements,
            self.health,
        )
    }
}

/// Why a field is refused: it must not be blank.
pub open spec fn filled_refusal(field: Seq<char>, value: Seq<char>) -> Option<Seq<char>> {
    refuse_unless(!blank(value), field + " must not be empty"@)
}

/// No text of a list is blank.
pub open spec fn all_filled(list: Seq<Seq<char>>) -> bool {
    forall|i: int| 0 <= i < list.len() ==> !blank(#[trigger] list[i])
}

/// Why the texts of a descriptor are refused.
pub open spec fn fields_refusal(d: DescriptorModel) -> Option<Seq<char>> {
    first_refusal(
        filled_refusal("model.source"@, d.source),
        first_refusal(
            filled_refusal("model.revision"@, d.revision),
            first_refusal(
                filled_refusal("model.format"@, d.format),
                first_refusal(
                    filled_refusal("model.quantization"@, d.quantization),
                    first_refusal(
                        filled_refusal("model.artifact_digest"@, d.artifact_digest),
                        first_refusal(
                            filled_refusal("model.license"@, d.license),
                            first_refusal(
                                filled_refusal("runtime.engine"@, d.engine),
                                filled_refusal("health.endpoint"@, d.endpoint),
                            ),
                        ),
                    ),
                ),
            ),
        ),
    )
}

/// Why the numbers and lists of a descriptor are refused.
pub open spec fn limits_refusal(d: DescriptorModel) -> Option<Seq<char>> {
    if d.port == 0 {
        Some("runtime.port must be non-zero"@)
    } else if d.context_length == 0 {
        Some("runtime.context_length must be non-zero"@)
    } else if d.architecture.len() == 0 {
        Some("requirements.architecture must not be empty"@)
    } else if !all_filled(d.architecture) {
        Some("requirements.architecture entries must not be empty"@)
    } else if d.memory_gib == 0 {
        Some("requirements.memory_gib must be non-zero"@)
    } else if !all_filled(d.accelerator) {
        Some("requirements.accelerator entries must not be empty"@)
    } else if d.max_startup_seconds == 0 {
        Some("health.max_startup_seconds must be non-zero"@)
    } else if begins_with(d.source, "sqlite:"@) || begins_with(d.source, "tenkai-db:"@) {
        Some("model.source cannot address Tenkai operational storage"@)
    } else {
        None
    }
}

/// Why a descriptor is refused.
pub open spec fn descriptor_refusal(d: DescriptorModel) -> Option<Seq<char>> {
    first_refusal(
        refuse_unless(
            d.contract_version == MODEL_RUNTIME_CONTRACT_VERSION,
            "unsupported model_runtime contract version "@ + decimal(d.contract_version as nat)
                + "; expected "@ + decimal(MODEL_RUNTIME_CONTRACT_VERSION as nat),
        ),
        first_refusal(
            identifier_refusal("product.name"@, d.product_name),
            first_refusal(
                identifier_refusal("product.version"@, d.product_version),
                first_refusal(
                    fields_refusal(d),
                    first_refusal(
                        digest_refusal("model.artifact_digest"@, d.artifact_digest),
                        limits_refusal(d),
                    ),
                ),
            ),
        ),
    )
}

/// Why a manifest has no descriptor: the first section that it lacks.
pub open spec fn sections_refusal(manifest: Manifest) -> Option<Seq<char>> {
    if manifest.model is None {
        Some("model_runtime manifest needs a [model] section"@)
    } else if manifest.runtime is None {
        Some("model_runtime manifest needs a [runtime] section"@)
    } else if manifest.requirements is None {
        Some("model_runtime manifest needs a [requirements] section"@)
    } else if manifest.model_health is None {
        Some("model_runtime manifest needs a [health] section"@)
    } else {
        None
    }
}

/// The descriptor that the sections of a manifest spell.
pub open spec fn manifest_descriptor(manifest: Manifest) -> DescriptorModel {
    described(
        MODEL_RUNTIME_CONTRACT_VERSION,
        manifest.product.name@,
        manifest.product.version@,
        manifest.model->0,
        manifest.runtime->0,
        manifest.requirements->0,
        manifest.model_health->0,
    )
}

fn require_filled(field: &str, value: &str) -> (result: Result<(), Error>)
    ensures
        refusal(result) == filled_refusal(field@, value@),
{
    if value.trim().unicode_len() == 0 {
        let mut message = field.to_owned();
        message.append(" must not be empty");
        return Err(Error::new(message));
    }
    Ok(())
}

fn each_filled(list: &Vec<String>) -> (answer: bool)
    ensures
        answer == all_filled(texts(list@)),
{
    let ghost models = texts(list@);
    let mut i: usize = 0;
    while i < list.len()
        invariant
            i <= list.len(),
            models == texts(list@),
            forall|k: int| 0 <= k < i ==> !blank(#[trigger] models[k]),
        decreases list.len() - i,
    {
        assert(models[i as int] == list@[i as int]@);
        if list[i].as_str().trim().unicode_len() == 0 {
            return false;
        }
        i = i + 1;
    }
    true
}

fn copy_model(model: &ModelSection) -> (copy: ModelSection)
    ensures
        copy.source@ == model.source@,
        copy.revision@ == model.revision@,
        copy.format@ == model.format@,
        copy.quantization@ == model.quantization@,
        copy.artifact_digest@ == model.artifact_digest@,
        copy.license@ == model.license@,
{
    ModelSection {
        source: model.source.clone(),
        revision: model.revision.clone(),
        format: model.format.clone(),
        quantization: model.quantization.clone(),
        artifact_digest: model.artifact_digest.clone(),
        license: model.license.clone(),
    }
}

fn copy_runtime(runtime: &ModelRuntimeSection) -> (copy: ModelRuntimeSection)
    ensures
        copy.engine@ == runtime.engine@,
        copy.port == runtime.port,
        copy.context_length == runtime.context_length,
{
    ModelRuntimeSection {
        engine: runtime.engine.clone(),
        port: runtime.port,
        context_length: runtime.context_length,
    }
}

fn copy_requirements(requirements: &ModelRequirementsSection) -> (copy: ModelRequirementsSection)
    ensures
        texts(copy.architecture@) == texts(requirements.architecture@),
        copy.memory_gib == requirements.memory_gib,
        texts(copy.accelerator@) == texts(requirements.accelerator@),
{
    ModelRequirementsSection {
        architecture: copy_texts(&requirements.architecture),
        memory_gib: requirements.memory_gib,
        accelerator: copy_texts(&requirements.accelerator),
    }
}

fn copy_health(health: &ModelHealthSection) -> (copy: ModelHealthSection)
    ensures
        copy.endpoint@ == health.endpoint@,
        copy.smoke_prompt@ == health.smoke_prompt@,
        copy.max_startup_seconds == health.max_startup_seconds,
{
    ModelHealthSection {
        endpoint: health.endpoint.clone(),
        smoke_prompt: health.smoke_prompt.clone(),
        max_startup_seconds: health.max_startup_seconds,
    }
}

impl ModelRuntimeDescriptor {
    /// The descriptor of a manifest.
    pub fn from_manifest(manifest: &Manifest) -> (result: Result<ModelRuntimeDescriptor, Error>)
        ensures
            refusal(result) == first_refusal(
                sections_refusal(*manifest),
                descriptor_refusal(manifest_descriptor(*manifest)),
            ),
            result matches Ok(descriptor) ==> descriptor@ == manifest_descriptor(*manifest),
    {
        let model = match &manifest.model {
            None => {
                return Err(Error::fixed("model_runtime manifest needs a [model] section"));
            },
            Some(section) => copy_model(section),
        };
        let runtime = match &manifest.runtime {
            None => {
                return Err(Error::fixed("model_runtime manifest needs a [runtime] section"));
            },
            Some(section) => copy_runtime(section),
        };
        let requirements = match &manifest.requirements {
            None => {
                return Err(Error::fixed("model_runtime manifest needs a [requirements] section"));
            },
            Some(section) => copy_requirements(section),
        };
        let health = match &manifest.model_health {
            None => {
                return Err(Error::fixed("model_runtime manifest needs a [health] section"));
            },
            Some(section) => copy_health(section),
        };
        let descriptor = ModelRuntimeDescriptor {
            contract_version: MODEL_RUNTIME_CONTRACT_VERSION,
            product_name: manifest.product.name.clone(),
            product_version: manifest.product.version.clone(),
            model,
            runtime,
            requirements,
            health,
        };
        match descriptor.validate() {
            Err(error) => Err(error),
            Ok(_) => Ok(descriptor),
        }
    }

    fn check_fields(&self) -> (result: Result<(), Error>)
        ensures
            refusal(result) == fields_refusal(self@),
    {
        match require_filled("model.source", &self.model.source) {
            Err(error) => return Err(error),
            Ok(_) => {},
        }
        match require_filled("model.revision", &self.model.revision) {
            Err(error) => return Err(error),
            Ok(_) => {},
        }
        match require_filled("model.format", &self.model.format) {
            Err(error) => return Err(error),
            Ok(_) => {},
        }
        match require_filled("model.quantization", &self.model.quantization) {
            Err(error) => return Err(error),
            Ok(_) => {},
        }
        match require_filled("model.artifact_digest", &self.model.artifact_digest) {
            Err(error) => return Err(error),
            Ok(_) => {},
        }
        match require_filled("model.license", &self.model.license) {
            Err(error) => return Err(error),
            Ok(_) => {},
        }
        match require_filled("runtime.engine", &self.runtime.engine) {
            Err(error) => return Err(error),
            Ok(_) => {},
        }
        require_filled("health.endpoint", &self.health.endpoint)
    }

    fn check_limits(&self) -> (result: Result<(), Error>)
        ensures
            refusal(result) == limits_refusal(self@),
    {
        if self.runtime.port == 0 {
            return Err(Error::fixed("runtime.port must be non-zero"));
        }
        if self.runtime.context_length == 0 {
            return Err(Error::fixed("runtime.context_length must be non-zero"));
        }
        if self.requirements.architecture.len() == 0 {
            return Err(Error::fixed("requirements.architecture must not be empty"));
        }
        if !each_filled(&self.requirements.architecture) {
            return Err(Error::fixed("requirements.architecture entries must not be empty"));
        }
        if self.requirements.memory_gib == 0 {
            return Err(Error::fixed("requirements.memory_gib must be non-zero"));
        }
        if !each_filled(&self.requirements.accelerator) {
            return Err(Error::fixed("requirements.accelerator entries must not be empty"));
        }
        if self.health.max_startup_seconds == 0 {
            return Err(Error::fixed("health.max_startup_seconds must be non-zero"));
        }
        if starts_with(&self.model.source, "sqlite:") || starts_with(
            &self.model.source,
            "tenkai-db:",
        ) {
            return Err(Error::fixed("model.source cannot address Tenkai operational storage"));
        }
        Ok(())
    }

    /// Check a descriptor.
    pub fn validate(&self) -> (result: Result<(), Error>)
        ensures
            refusal(result) == descriptor_refusal(self@),
    {
        if self.contract_version != MODEL_RUNTIME_CONTRACT_VERSION {
            let mut message = "unsupported model_runtime contract version ".to_owned();
            message.append(decimal_text(self.contract_version as u64).as_str());
            message.append("; expected ");
            message.append(decimal_text(MODEL_RUNTIME_CONTRACT_VERSION as u64).as_str());
            return Err(Error::new(message));
        }
        match validate_identifier("product.name", &self.product_name) {
            Err(error) => return Err(error),
            Ok(_) => {},
        }
        match validate_identifier("product.version", &self.product_version) {
            Err(error) => return Err(error),
            Ok(_) => {},
        }
        match self.check_fields() {
            Err(error) => return Err(error),
            Ok(_) => {},
        }
        match validate_prefixed_digest("model.artifact_digest", &self.model.artifact_digest) {
            Err(error) => return Err(error),
            Ok(_) => {},
        }
        self.check_limits()
    }

    /// The content identity of a descriptor, from its encoded form.
    pub fn digest(encoded: &[u8]) -> (text: String)
        ensures
            text@ == prefixed_digest(encoded@),
    {
        digest_of(encoded)
    }

    /// A copy of the descriptor.
    pub fn copy(&self) -> (copy: ModelRuntimeDescriptor)
        ensures
            copy@ == self@,
    {
        ModelRuntimeDescriptor {
            contract_version: self.contract_version,
            product_name: self.product_name.clone(),
            product_version: self.product_version.clone(),
            model: copy_model(&self.model),
            runtime: copy_runtime(&self.runtime),
            requirements: copy_requirements(&self.requirements),
            health: copy_health(&self.health),
        }
    }
}

proof fn lemma_texts_filled(list: Seq<String>)
    ensures
        all_filled(texts(list)) <==> forall|i: int|
            0 <= i < list.len() ==> !blank((#[trigger] list[i])@),
{
    if all_filled(texts(list)) {
        assert forall|i: int| 0 <= i < list.len() implies !blank((#[trigger] list[i])@) by {
            assert(texts(list)[i] == list[i]@);
        }
    }
}

/// A valid descriptor is of the known version, names a product, says what is
/// served and how, and does not draw its weights from operational storage. A
/// descriptor of which all this holds is valid.
pub proof fn valid_descriptors(descriptor: &ModelRuntimeDescriptor, result: Result<(), Error>)
    requires
        call_ensures(ModelRuntimeDescriptor::validate, (descriptor,), result),
    ensures
        result is Ok <==> {
            &&& descriptor.contract_version == 1
            &&& crate::ontology::identifier(descriptor.product_name@)
            &&& crate::ontology::identifier(descriptor.product_version@)
            &&& !blank(descriptor.model.source@)
            &&& !blank(descriptor.model.revision@)
            &&& !blank(descriptor.model.format@)
            &&& !blank(descriptor.model.quantization@)
            &&& !blank(descriptor.model.license@)
            &&& !blank(descriptor.model.artifact_digest@)
            &&& crate::crypto::is_digest(descriptor.model.artifact_digest@)
            &&& !blank(descriptor.runtime.engine@)
            &&& !blank(descriptor.health.endpoint@)
            &&& descriptor.runtime.port > 0
            &&& descriptor.runtime.context_length > 0
            &&& descriptor.requirements.architecture@.len() > 0
            &&& forall|i: int|
                0 <= i < descriptor.requirements.architecture@.len() ==> !blank(
                    (#[trigger] descriptor.requirements.architecture@[i])@,
                )
            &&& descriptor.requirements.memory_gib > 0
            &&& forall|i: int|
                0 <= i < descriptor.requirements.accelerator@.len() ==> !blank(
                    (#[trigger] descriptor.requirements.accelerator@[i])@,
                )
            &&& descriptor.health.max_startup_seconds > 0
            &&& !begins_with(descriptor.model.source@, "sqlite:"@)
            &&& !begins_with(descriptor.model.source@, "tenkai-db:"@)
        },
{
    lemma_texts_filled(descriptor.requirements.architecture@);
    lemma_texts_filled(descriptor.requirements.accelerator@);
}

/// The descriptor of a manifest says what its sections say, and is valid.
pub proof fn manifest_spells_its_descriptor(
    manifest: &Manifest,
    result: Result<ModelRuntimeDescriptor, Error>,
    checked: Result<(), Error>,
)
    requires
        call_ensures(ModelRuntimeDescriptor::from_manifest, (manifest,), result),
    ensures
        result matches Ok(descriptor) ==> {
            &&& manifest.model is Some && manifest.runtime is Some && manifest.requirements is Some
                && manifest.model_health is Some
            &&& descriptor.product_name@ == manifest.product.name@
            &&& descriptor.product_version@ == manifest.product.version@
            &&& descriptor.model.source@ == manifest.model->0.source@
            &&& descriptor.model.revision@ == manifest.model->0.revision@
            &&& descriptor.model.format@ == manifest.model->0.format@
            &&& descriptor.model.quantization@ == manifest.model->0.quantization@
            &&& descriptor.model.artifact_digest@ == manifest.model->0.artifact_digest@
            &&& descriptor.model.license@ == manifest.model->0.license@
            &&& descriptor.runtime.engine@ == manifest.runtime->0.engine@
            &&& descriptor.runtime.port == manifest.runtime->0.port
            &&& descriptor.runtime.context_length == manifest.runtime->0.context_length
            &&& texts(descriptor.requirements.architecture@) == texts(
                manifest.requirements->0.architecture@,
            )
            &&& descriptor.requirements.memory_gib == manifest.requirements->0.memory_gib
            &&& texts(descriptor.requirements.accelerator@) == texts(
                manifest.requirements->0.accelerator@,
            )
            &&& descriptor.health.endpoint@ == manifest.model_health->0.endpoint@
            &&& descriptor.health.smoke_prompt@ == manifest.model_health->0.smoke_prompt@
            &&& descriptor.health.max_startup_seconds
                == manifest.model_health->0.max_startup_seconds
            &&& call_ensures(ModelRuntimeDescriptor::validate, (&descriptor,), checked)
                ==> checked is Ok
        },
        manifest.model is None || manifest.runtime is None || manifest.requirements is None
            || manifest.model_health is None ==> result is Err,
{
}

} // verus!
