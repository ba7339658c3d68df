//! Release selection for one subscription of an environment.
use crate::error::{refusal, refuse_unless, Error};
use crate::graph::Object;
use crate::manifest::{ModelRequirementsSection, ProductKind};
use crate::ontology::{release_id, release_id_text};
use crate::text::{
    begins_with, decimal, decimal_text, blank, found_from, less, listed, opt_str, parse_u32, quote,
    quote_list, quoted, quoted_list, same, split_once, stands_at, strip_prefix, text_less, texts,
    trimmed, unsigned_value,
};
use crate::text_map::{text_at, TextMap};
use crate::version::{is_below, is_version, version_below, version_valid};
use vstd::prelude::*;

verus! {

/// The outcome of a selection: a version and its release, or why there is
/// none.
pub type Selection = Result<(Seq<char>, Seq<char>), Seq<char>>;

/// What the manifest of a stored release says, as far as selection reads it.
#[derive(Debug, PartialEq, Eq)]
pub enum StoredManifest {
    Absent,
    Unreadable,
    Present { kind: ProductKind, requirements: Option<ModelRequirementsSection> },
}

/// A stored release.
#[derive(Debug, PartialEq, Eq)]
pub struct PublishedRelease {
    pub id: String,
    pub version: Option<String>,
    pub manifest: StoredManifest,
}

/// The head of a subscribed channel.
#[derive(Debug, PartialEq, Eq)]
pub struct ChannelHead<'a> {
    pub product: &'a str,
    pub version: &'a str,
    pub release_id: &'a str,
}

/// Whether a version lies in a range `min..max` that holds its minimum and not
/// its maximum, or why that cannot be told.
pub open spec fn range_verdict(version: Seq<char>, range: Seq<char>) -> Result<bool, Seq<char>> {
    match found_from(range, ".."@, 0) {
        None => Err("version range must be min..max, got "@ + quoted(range)),
        Some(at) => {
            let min = trimmed(range.take(at));
            let max = trimmed(range.skip(at + ".."@.len()));
            if !version_valid(version) {
                Err("invalid version "@ + quoted(version))
            } else if !version_valid(min) {
                Err("invalid version range minimum in "@ + quoted(range))
            } else if !version_valid(max) {
                Err("invalid version range maximum in "@ + quoted(range))
            } else if !version_below(min, max) {
                Err("version range minimum must be less than maximum in "@ + quoted(range))
            } else {
                Ok(!version_below(version, min) && version_below(version, max))
            }
        },
    }
}

fn about(start: &str, value: &str) -> (error: Error)
    ensures
        error@ == start@ + quoted(value@),
{
    let mut message = start.to_owned();
    message.append(quote(value).as_str());
    Error::new(message)
}

/// Whether a version lies in a range `min..max` that holds its minimum and not
/// its maximum.
pub fn version_in_range(version: &str, range: &str) -> (result: Result<bool, Error>)
    ensures
        match (result, range_verdict(version@, range@)) {
            (Ok(answer), Ok(verdict)) => answer == verdict,
            (Err(error), Err(text)) => error@ == text,
            _ => false,
        },
{
    let (low, high) = match split_once(range, "..") {
        None => return Err(about("version range must be min..max, got ", range)),
        Some(parts) => parts,
    };
    if !is_version(version) {
        return Err(about("invalid version ", version));
    }
    let min = low.as_str().trim();
    if !is_version(min) {
        return Err(about("invalid version range minimum in ", range));
    }
    let max = high.as_str().trim();
    if !is_version(max) {
        return Err(about("invalid version range maximum in ", range));
    }
    if !is_below(min, max) {
        return Err(about("version range minimum must be less than maximum in ", range));
    }
    Ok(!is_below(version, min) && is_below(version, max))
}

/// What is said of a fact that an environment does not have.
pub open spec fn missing_fact_text(
    model: Seq<char>,
    fact: Seq<char>,
    environment: Seq<char>,
) -> Seq<char> {
    "model_runtime "@ + model + " requires environment fact "@ + fact + " for "@ + environment
        + "; set it with `tenkaictl env facts set "@ + environment + " "@ + fact + "=…`"@
}

/// What is said of a fact that a model does not allow.
pub open spec fn excluded_fact_text(
    model: Seq<char>,
    fact: Seq<char>,
    allowed: Seq<Seq<char>>,
    environment: Seq<char>,
    value: Seq<char>,
) -> Seq<char> {
    "model_runtime "@ + model + " requirements."@ + fact + " "@ + quoted_list(allowed)
        + " does not include environment "@ + environment + " fact "@ + fact + "="@ + value
}

/// Why an environment does not fit a model: its architecture, memory and
/// accelerator, in this order.
pub open spec fn fit_refusal(
    environment: Seq<char>,
    product: Seq<char>,
    version: Seq<char>,
    facts: Map<Seq<char>, String>,
    requirements: ModelRequirementsSection,
) -> Option<Seq<char>> {
    let model = product + "@"@ + version;
    let architecture = text_at(facts, "architecture"@);
    let memory = text_at(facts, "memory_gib"@);
    let accelerator = text_at(facts, "accelerator"@);
    if architecture is None {
        Some(missing_fact_text(model, "architecture"@, environment))
    } else if !texts(requirements.architecture@).contains(architecture->0) {
        Some(
            excluded_fact_text(
                model,
                "architecture"@,
                texts(requirements.architecture@),
                environment,
                architecture->0,
            ),
        )
    } else if memory is None {
        Some(missing_fact_text(model, "memory_gib"@, environment))
    } else if unsigned_value(memory->0) is None || unsigned_value(memory->0)->0 > u32::MAX {
        Some(
            "environment "@ + environment + " fact memory_gib="@ + quoted(memory->0)
                + " is not a non-negative integer"@,
        )
    } else if unsigned_value(memory->0)->0 < requirements.memory_gib {
        Some(
            "model_runtime "@ + model + " requires memory_gib>="@ + decimal(
                requirements.memory_gib as nat,
            ) + " but environment "@ + environment + " fact memory_gib="@ + decimal(
                unsigned_value(memory->0)->0 as nat,
            ),
        )
    } else if requirements.accelerator@.len() == 0 {
        None
    } else if accelerator is None {
        Some(missing_fact_text(model, "accelerator"@, environment))
    } else if !texts(requirements.accelerator@).contains(accelerator->0) {
        Some(
            excluded_fact_text(
                model,
                "accelerator"@,
                texts(requirements.accelerator@),
                environment,
                accelerator->0,
            ),
        )
    } else {
        None
    }
}

fn model_name(product: &str, version: &str) -> (name: String)
    ensures
        name@ == product@ + "@"@ + version@,
{
    let mut name = product.to_owned();
    name.append("@");
    name.append(version);
    name
}

fn missing_fact(model: &str, fact: &str, environment: &str) -> (error: Error)
    ensures
        error@ == missing_fact_text(model@, fact@, environment@),
{
    let mut message = "model_runtime ".to_owned();
    message.append(model);
    message.append(" requires environment fact ");
    message.append(fact);
    message.append(" for ");
    message.append(environment);
    message.append("; set it with `tenkaictl env facts set ");
    message.append(environment);
    message.append(" ");
    message.append(fact);
    message.append("=…`");
    Error::new(message)
}

fn excluded_fact(
    model: &str,
    fact: &str,
    allowed: &Vec<String>,
    environment: &str,
    value: &str,
) -> (error: Error)
    ensures
        error@ == excluded_fact_text(model@, fact@, texts(allowed@), environment@, value@),
{
    let mut message = "model_runtime ".to_owned();
    message.append(model);
    message.append(" requirements.");
    message.append(fact);
    message.append(" ");
    message.append(quote_list(allowed).as_str());
    message.append(" does not include environment ");
    message.append(environment);
    message.append(" fact ");
    message.append(fact);
    message.append("=");
    message.append(value);
    Error::new(message)
}

fn check_memory(
    environment: &str,
    model: &str,
    raw: &str,
    required: u32,
) -> (result: Result<(), Error>)
    ensures
        refusal(result) == (if unsigned_value(raw@) is None || unsigned_value(raw@)->0 > u32::MAX {
            Some(
                "environment "@ + environment@ + " fact memory_gib="@ + quoted(raw@)
                    + " is not a non-negative integer"@,
            )
        } else if unsigned_value(raw@)->0 < required {
            Some(
                "model_runtime "@ + model@ + " requires memory_gib>="@ + decimal(required as nat)
                    + " but environment "@ + environment@ + " fact memory_gib="@ + decimal(
                    unsigned_value(raw@)->0 as nat,
                ),
            )
        } else {
            None
        }),
{
    let memory = match parse_u32(raw) {
        None => {
            let mut message = "environment ".to_owned();
            message.append(environment);
            message.append(" fact memory_gib=");
            message.append(quote(raw).as_str());
            message.append(" is not a non-negative integer");
            return Err(Error::new(message));
        },
        Some(value) => value,
    };
    if memory < required {
        let mut message = "model_runtime ".to_owned();
        message.append(model);
        message.append(" requires memory_gib>=");
        message.append(decimal_text(required as u64).as_str());
        message.append(" but environment ");
        message.append(environment);
        message.append(" fact memory_gib=");
        message.append(decimal_text(memory as u64).as_str());
        return Err(Error::new(message));
    }
    Ok(())
}

/// Match the requirements of a model against the facts of an environment.
pub fn model_requirements_fit(
    environment: &str,
    product: &str,
    version: &str,
    facts: &TextMap<String>,
    requirements: &ModelRequirementsSection,
) -> (result: Result<(), Error>)
    ensures
        refusal(result) == fit_refusal(
            environment@,
            product@,
            version@,
            facts@,
            *requirements,
        ),
{
    let model = model_name(product, version);
    let architecture = match facts.text("architecture") {
        None => return Err(missing_fact(model.as_str(), "architecture", environment)),
        Some(value) => value,
    };
    if !listed(&requirements.architecture, architecture) {
        return Err(
            excluded_fact(
                model.as_str(),
                "architecture",
                &requirements.architecture,
                environment,
                architecture,
            ),
        );
    }
    let memory = match facts.text("memory_gib") {
        None => return Err(missing_fact(model.as_str(), "memory_gib", environment)),
        Some(value) => value,
    };
    match check_memory(environment, model.as_str(), memory, requirements.memory_gib) {
        Err(error) => return Err(error),
        Ok(_) => {},
    }
    if requirements.accelerator.len() == 0 {
        return Ok(());
    }
    let accelerator = match facts.text("accelerator") {
        None => return Err(missing_fact(model.as_str(), "accelerator", environment)),
        Some(value) => value,
    };
    if !listed(&requirements.accelerator, accelerator) {
        return Err(
            excluded_fact(
                model.as_str(),
                "accelerator",
                &requirements.accelerator,
                environment,
                accelerator,
            ),
        );
    }
    Ok(())
}

/// A model fits an environment if and only if the environment has an architecture
/// that is one of those the model lists, at least the memory it asks for and,
/// where it lists accelerators, an accelerator that is one of them.
pub proof fn fit_is_what_the_requirements_list(
    environment: &str,
    product: &str,
    version: &str,
    facts: &TextMap<String>,
    requirements: &ModelRequirementsSection,
    result: Result<(), Error>,
)
    requires
        call_ensures(
            model_requirements_fit,
            (environment, product, version, facts, requirements),
            result,
        ),
    ensures
        result is Ok <==> {
            &&& text_at(facts@, "architecture"@) matches Some(architecture) && exists|i: int|
                0 <= i < requirements.architecture@.len() && (
                #[trigger] requirements.architecture@[i])@ == architecture
            &&& text_at(facts@, "memory_gib"@) matches Some(memory) && (unsigned_value(
                memory,
            ) matches Some(gib) && requirements.memory_gib <= gib <= u32::MAX)
            &&& requirements.accelerator@.len() == 0 || (text_at(
                facts@,
                "accelerator"@,
            ) matches Some(accelerator) && exists|i: int|
                0 <= i < requirements.accelerator@.len() && (
                #[trigger] requirements.accelerator@[i])@ == accelerator)
        },
{
    lemma_listed_texts(requirements.architecture@, text_at(facts@, "architecture"@));
    lemma_listed_texts(requirements.accelerator@, text_at(facts@, "accelerator"@));
}

proof fn lemma_listed_texts(list: Seq<String>, wanted: Option<Seq<char>>)
    ensures
        wanted matches Some(text) ==> (texts(list).contains(text) <==> exists|i: int|
            0 <= i < list.len() && (#[trigger] list[i])@ == text),
{
    if wanted is Some {
        let text = wanted->0;
        if texts(list).contains(text) {
            let i = choose|i: int| 0 <= i < texts(list).len() && texts(list)[i] == text;
            assert(list[i]@ == text);
        }
        if exists|i: int| 0 <= i < list.len() && (#[trigger] list[i])@ == text {
            let i = choose|i: int| 0 <= i < list.len() && (#[trigger] list[i])@ == text;
            assert(texts(list)[i] == text);
        }
    }
}

/// What is said of a manifest that cannot be read.
pub open spec fn unreadable_text(id: Seq<char>) -> Seq<char> {
    "parsing stored manifest of "@ + id
}

fn unreadable(id: &str) -> (error: Error)
    ensures
        error@ == unreadable_text(id@),
{
    let mut message = "parsing stored manifest of ".to_owned();
    message.append(id);
    Error::new(message)
}

/// Whether a release that is stored, or not, is that of a model.
pub open spec fn model_verdict(release: Option<&PublishedRelease>) -> Result<bool, Seq<char>> {
    match release {
        None => Ok(false),
        Some(stored) => match stored.manifest {
            StoredManifest::Absent => Ok(false),
            StoredManifest::Unreadable => Err(unreadable_text(stored.id@)),
            StoredManifest::Present { kind, requirements } => Ok(
                kind == ProductKind::ModelRuntime,
            ),
        },
    }
}

/// Whether a release that is stored, or not, is that of a model.
pub fn release_is_model_runtime(release: Option<&PublishedRelease>) -> (result: Result<
    bool,
    Error,
>)
    ensures
        match (result, model_verdict(release)) {
            (Ok(answer), Ok(verdict)) => answer == verdict,
            (Err(error), Err(text)) => error@ == text,
            _ => false,
        },
{
    match release {
        None => Ok(false),
        Some(stored) => match &stored.manifest {
            StoredManifest::Absent => Ok(false),
            StoredManifest::Unreadable => Err(unreadable(stored.id.as_str())),
            StoredManifest::Present { kind, requirements: _ } => Ok(
                *kind == ProductKind::ModelRuntime,
            ),
        },
    }
}

/// Whether some of the first releases of a product is that of a model.
pub open spec fn any_model_verdict(releases: Seq<PublishedRelease>, from: int) -> Result<
    bool,
    Seq<char>,
>
    decreases releases.len() - from,
{
    if from < 0 || from >= releases.len() {
        Ok(false)
    } else {
        match model_verdict(Some(&releases[from])) {
            Err(text) => Err(text),
            Ok(verdict) => if verdict {
                Ok(true)
            } else {
                any_model_verdict(releases, from + 1)
            },
        }
    }
}

/// Whether some release of a product is that of a model.
pub fn product_has_model_runtime_release(releases: &Vec<PublishedRelease>) -> (result: Result<
    bool,
    Error,
>)
    ensures
        match (result, any_model_verdict(releases@, 0)) {
            (Ok(answer), Ok(verdict)) => answer == verdict,
            (Err(error), Err(text)) => error@ == text,
            _ => false,
        },
{
    let mut i: usize = 0;
    while i < releases.len()
        invariant
            i <= releases.len(),
            any_model_verdict(releases@, 0) == any_model_verdict(releases@, i as int),
        decreases releases.len() - i,
    {
        match release_is_model_runtime(Some(&releases[i])) {
            Err(error) => return Err(error),
            Ok(true) => return Ok(true),
            Ok(false) => {},
        }
        i = i + 1;
    }
    Ok(false)
}

/// Why a release does not fit the environment that it is selected for.
pub open spec fn release_fit_refusal(
    environment: Seq<char>,
    product: Seq<char>,
    version: Seq<char>,
    release_id: Seq<char>,
    release: Option<&PublishedRelease>,
    facts: Map<Seq<char>, String>,
) -> Option<Seq<char>> {
    match release {
        None => Some("release "@ + release_id + " is not published"@),
        Some(stored) => match stored.manifest {
            StoredManifest::Absent => None,
            StoredManifest::Unreadable => Some(unreadable_text(release_id)),
            StoredManifest::Present { kind, requirements } => if kind
                != ProductKind::ModelRuntime {
                None
            } else {
                match requirements {
                    None => Some(
                        "model_runtime "@ + product + "@"@ + version
                            + " has no [requirements] section"@,
                    ),
                    Some(needed) => fit_refusal(environment, product, version, facts, needed),
                }
            },
        },
    }
}

/// Check that a release fits the environment that it is selected for.
pub fn ensure_model_runtime_fits(
    environment: &str,
    product: &str,
    version: &str,
    release_id: &str,
    release: Option<&PublishedRelease>,
    facts: &TextMap<String>,
) -> (result: Result<(), Error>)
    ensures
        refusal(result) == release_fit_refusal(
            environment@,
            product@,
            version@,
            release_id@,
            release,
            facts@,
        ),
{
    match release {
        None => {
            let mut message = "release ".to_owned();
            message.append(release_id);
            message.append(" is not published");
            Err(Error::new(message))
        },
        Some(stored) => match &stored.manifest {
            StoredManifest::Absent => Ok(()),
            StoredManifest::Unreadable => Err(unreadable(release_id)),
            StoredManifest::Present { kind, requirements } => {
                if *kind != ProductKind::ModelRuntime {
                    return Ok(());
                }
                match requirements {
                    None => {
                        let mut message = "model_runtime ".to_owned();
                        message.append(product);
                        message.append("@");
                        message.append(version);
                        message.append(" has no [requirements] section");
                        Err(Error::new(message))
                    },
                    Some(needed) => model_requirements_fit(
                        environment,
                        product,
                        version,
                        facts,
                        needed,
                    ),
                }
            },
        },
    }
}

/// What a variant is selected for.
pub struct VariantContext {
    pub environment: Seq<char>,
    pub product: Seq<char>,
    pub channel_version: Seq<char>,
    pub range: Option<Seq<char>>,
    pub facts: Map<Seq<char>, String>,
}

/// Whether a release is a variant that can be selected: in the range, not
/// above the channel head, and fitting the facts.
pub open spec fn variant_verdict(c: VariantContext, release: PublishedRelease) -> Result<
    bool,
    Seq<char>,
> {
    match release.version {
        None => Ok(false),
        Some(text) => {
            let version = text@;
            let in_range: Result<bool, Seq<char>> = match c.range {
                None => Ok(true),
                Some(range) => range_verdict(version, range),
            };
            match in_range {
                Err(error) => Err(error),
                Ok(inside) => if !inside {
                    Ok(false)
                } else if version_valid(c.channel_version) && version_valid(version)
                    && version_below(c.channel_version, version) {
                    Ok(false)
                } else {
                    match release.manifest {
                        StoredManifest::Absent => Ok(false),
                        StoredManifest::Unreadable => Err(unreadable_text(release.id@)),
                        StoredManifest::Present { kind, requirements } => Ok(
                            kind == ProductKind::ModelRuntime && requirements is Some
                                && fit_refusal(
                                c.environment,
                                c.product,
                                version,
                                c.facts,
                                requirements->0,
                            ) is None,
                        ),
                    }
                },
            }
        },
    }
}

/// One version is lower than another: as versions where both are, as texts
/// otherwise.
pub open spec fn variant_lower(left: Seq<char>, right: Seq<char>) -> bool {
    if version_valid(left) && version_valid(right) {
        version_below(left, right)
    } else {
        text_less(left, right)
    }
}

/// The place of the highest variant among the first releases, the last of
/// those with one version.
pub open spec fn best_variant(
    c: VariantContext,
    releases: Seq<PublishedRelease>,
    count: nat,
) -> Result<Option<int>, Seq<char>>
    decreases count,
{
    if count == 0 {
        Ok(None)
    } else {
        match best_variant(c, releases, (count - 1) as nat) {
            Err(text) => Err(text),
            Ok(best) => match variant_verdict(c, releases[count - 1]) {
                Err(text) => Err(text),
                Ok(suitable) => if suitable && (best is None || !variant_lower(
                    releases[count - 1].version->0@,
                    releases[best->0].version->0@,
                )) {
                    Ok(Some(count - 1))
                } else {
                    Ok(best)
                },
            },
        }
    }
}

proof fn lemma_best_stop(c: VariantContext, releases: Seq<PublishedRelease>, at: nat)
    requires
        at <= releases.len(),
        best_variant(c, releases, at) is Err,
    ensures
        best_variant(c, releases, releases.len()) == best_variant(c, releases, at),
    decreases releases.len() - at,
{
    if at < releases.len() {
        lemma_best_stop(c, releases, at + 1);
    }
}

/// The selection of a model's variant.
pub open spec fn variant_selection(
    c: VariantContext,
    channel_release: Seq<char>,
    head: Option<&PublishedRelease>,
    releases: Seq<PublishedRelease>,
) -> Selection {
    match best_variant(c, releases, releases.len()) {
        Err(text) => Err(text),
        Ok(Some(at)) => Ok((releases[at].version->0@, releases[at].id@)),
        Ok(None) => {
            let start = "no model_runtime variant of "@ + c.product + " fits environment "@
                + c.environment + " facts (architecture/memory_gib/accelerator); "@;
            match release_fit_refusal(
                c.environment,
                c.product,
                c.channel_version,
                channel_release,
                head,
                c.facts,
            ) {
                Some(error) => Err(start + "channel head rejected: "@ + error),
                None => Err(start + "publish a feasible variant or relax constraints"@),
            }
        },
    }
}

/// A result says what a selection is.
pub open spec fn selects(result: Result<(String, String), Error>, selection: Selection) -> bool {
    match (result, selection) {
        (Ok((version, id)), Ok((version_text, id_text))) => version@ == version_text && id@
            == id_text,
        (Err(error), Err(text)) => error@ == text,
        _ => false,
    }
}

fn is_variant(
    environment: &str,
    product: &str,
    channel_version: &str,
    range: Option<&str>,
    facts: &TextMap<String>,
    release: &PublishedRelease,
) -> (result: Result<bool, Error>)
    ensures
        ({
            let c = VariantContext {
                environment: environment@,
                product: product@,
                channel_version: channel_version@,
                range: opt_str(range),
                facts: facts@,
            };
            match (result, variant_verdict(c, *release)) {
                (Ok(answer), Ok(verdict)) => answer == verdict,
                (Err(error), Err(text)) => error@ == text,
                _ => false,
            }
        }),
{
    let version = match &release.version {
        None => return Ok(false),
        Some(text) => text.as_str(),
    };
    match range {
        None => {},
        Some(bounds) => match version_in_range(version, bounds) {
            Err(error) => return Err(error),
            Ok(false) => return Ok(false),
            Ok(true) => {},
        },
    }
    if is_version(channel_version) && is_version(version) && is_below(channel_version, version) {
        return Ok(false);
    }
    match &release.manifest {
        StoredManifest::Absent => Ok(false),
        StoredManifest::Unreadable => Err(unreadable(release.id.as_str())),
        StoredManifest::Present { kind, requirements } => {
            if *kind != ProductKind::ModelRuntime {
                return Ok(false);
            }
            match requirements {
                None => Ok(false),
                Some(needed) => {
                    let fit = model_requirements_fit(environment, product, version, facts, needed);
                    Ok(fit.is_ok())
                },
            }
        },
    }
}

fn is_lower(left: &str, right: &str) -> (answer: bool)
    ensures
        answer == variant_lower(left@, right@),
        version_valid(left@) && version_valid(right@) && answer ==> !version_below(right@, left@),
        version_valid(left@) && version_valid(right@) && !answer ==> forall|other: Seq<char>|
            version_valid(other) && #[trigger] version_below(left@, other) ==> version_below(
                right@,
                other,
            ),
{
    if is_version(left) && is_version(right) {
        is_below(left, right)
    } else {
        less(left, right)
    }
}

/// Every variant that can be selected has a semantic version.
pub open spec fn variants_are_versions(
    c: VariantContext,
    releases: Seq<PublishedRelease>,
    count: int,
) -> bool {
    forall|i: int|
        0 <= i < count && variant_verdict(c, #[trigger] releases[i]) == Ok::<bool, Seq<char>>(true)
            ==> version_valid(releases[i].version->0@)
}

/// No variant of another version that can be selected is higher than a
/// version.
pub open spec fn none_higher(
    c: VariantContext,
    releases: Seq<PublishedRelease>,
    count: int,
    version: Seq<char>,
) -> bool {
    forall|i: int|
        0 <= i < count && variant_verdict(c, #[trigger] releases[i]) == Ok::<bool, Seq<char>>(true)
            && releases[i].version->0@ != version ==> !version_below(
            version,
            releases[i].version->0@,
        )
}

/// Select the highest variant of a model that fits an environment. The
/// channel head is a ceiling. Where all variants have semantic versions, none
/// that could have been selected is higher.
pub fn select_model_runtime_variant(
    environment: &str,
    channel: &ChannelHead,
    head: Option<&PublishedRelease>,
    range: Option<&str>,
    facts: &TextMap<String>,
    releases: &Vec<PublishedRelease>,
) -> (result: Result<(String, String), Error>)
    ensures
        ({
            let c = VariantContext {
                environment: environment@,
                product: channel.product@,
                channel_version: channel.version@,
                range: opt_str(range),
                facts: facts@,
            };
            &&& selects(result, variant_selection(c, channel.release_id@, head, releases@))
            &&& result matches Ok((version, _)) ==> variants_are_versions(
                c,
                releases@,
                releases@.len() as int,
            ) ==> none_higher(c, releases@, releases@.len() as int, version@)
        }),
{
    let ghost c = VariantContext {
        environment: environment@,
        product: channel.product@,
        channel_version: channel.version@,
        range: opt_str(range),
        facts: facts@,
    };
    let mut best: Option<usize> = None;
    let mut i: usize = 0;
    while i < releases.len()
        invariant
            i <= releases.len(),
            c.environment == environment@,
            c.product == channel.product@,
            c.channel_version == channel.version@,
            c.range == opt_str(range),
            c.facts == facts@,
            match best {
                Some(at) => at < i && best_variant(c, releases@, i as nat) == Ok::<
                    Option<int>,
                    Seq<char>,
                >(Some(at as int)) && releases@[at as int].version is Some && variant_verdict(
                    c,
                    releases@[at as int],
                ) == Ok::<bool, Seq<char>>(true) && (variants_are_versions(
                    c,
                    releases@,
                    i as int,
                ) ==> none_higher(c, releases@, i as int, releases@[at as int].version->0@)),
                None => best_variant(c, releases@, i as nat) == Ok::<Option<int>, Seq<char>>(None)
                    && forall|k: int|
                    0 <= k < i ==> variant_verdict(c, #[trigger] releases@[k]) == Ok::<
                        bool,
                        Seq<char>,
                    >(false),
            },
        decreases releases.len() - i,
    {
        let release = &releases[i];
        assert(*release == releases@[i as int]);
        let suitable = match is_variant(
            environment,
            channel.product,
            channel.version,
            range,
            facts,
            release,
        ) {
            Err(error) => {
                proof {
                    lemma_best_stop(c, releases@, (i + 1) as nat);
                }
                return Err(error);
            },
            Ok(answer) => answer,
        };
        if suitable {
            let version = release.version.as_ref().unwrap();
            let lower = match best {
                None => false,
                Some(at) => is_lower(
                    version.as_str(),
                    releases[at].version.as_ref().unwrap().as_str(),
                ),
            };
            proof {
                if variants_are_versions(c, releases@, i + 1) {
                    assert(variants_are_versions(c, releases@, i as int));
                    assert(version_valid(version@));
                    if best is Some {
                        let other = releases@[best->0 as int].version->0@;
                        assert(version_valid(other));
                        if !lower {
                            assert(none_higher(c, releases@, i as int, other));
                            assert(none_higher(c, releases@, i + 1, version@)) by {
                                assert forall|k: int|
                                    0 <= k < i + 1 && variant_verdict(c, #[trigger] releases@[k])
                                        == Ok::<bool, Seq<char>>(true) && releases@[k].version->0@
                                        != version@ implies !version_below(
                                    version@,
                                    releases@[k].version->0@,
                                ) by {
                                    let seen = releases@[k].version->0@;
                                    assert(version_valid(seen));
                                    if version_below(version@, seen) {
                                        assert(version_below(other, seen));
                                        if seen == other {
                                            assert(variant_lower(version@, other));
                                        }
                                    }
                                }
                            }
                        } else {
                            assert(none_higher(c, releases@, i + 1, other));
                        }
                    }
                }
            }
            if !lower {
                best = Some(i);
            }
        }
        i = i + 1;
    }
    match best {
        Some(at) => Ok(
            (releases[at].version.as_ref().unwrap().clone(), releases[at].id.clone()),
        ),
        None => {
            let mut message = "no model_runtime variant of ".to_owned();
            message.append(channel.product);
            message.append(" fits environment ");
            message.append(environment);
            message.append(" facts (architecture/memory_gib/accelerator); ");
            match ensure_model_runtime_fits(
                environment,
                channel.product,
                channel.version,
                channel.release_id,
                head,
                facts,
            ) {
                Err(error) => {
                    message.append("channel head rejected: ");
                    message.append(error.to_string().as_str());
                },
                Ok(_) => {
                    message.append("publish a feasible variant or relax constraints");
                },
            }
            Err(Error::new(message))
        },
    }
}

/// The property that pins the version of a product.
pub open spec fn pin_key_text(product: Seq<char>) -> Seq<char> {
    "constraint.version_pin."@ + product
}

/// The property that bounds the version of a product.
pub open spec fn range_key_text(product: Seq<char>) -> Seq<char> {
    "constraint.version_range."@ + product
}

/// What is said of a version outside a range constraint.
pub open spec fn violation_text(
    subject: Seq<char>,
    version: Seq<char>,
    product: Seq<char>,
    environment: Seq<char>,
    range: Seq<char>,
) -> Seq<char> {
    subject + version + " for "@ + product + " in "@ + environment
        + " violates version range constraint "@ + quoted(range) + " ("@ + range_key_text(product)
        + ")"@
}

/// The selection under a version pin.
pub open spec fn pinned_selection(
    pin: Seq<char>,
    range: Option<Seq<char>>,
    environment: Seq<char>,
    product: Seq<char>,
    channel_version: Seq<char>,
    channel_release: Seq<char>,
    pinned: Option<&PublishedRelease>,
    facts: Map<Seq<char>, String>,
) -> Selection {
    let id = release_id_text(product, pin);
    let in_range: Result<bool, Seq<char>> = match range {
        None => Ok(true),
        Some(bounds) => range_verdict(pin, bounds),
    };
    let unfit = release_fit_refusal(environment, product, pin, id, pinned, facts);
    if blank(pin) {
        Err("constraint version pin for "@ + product + " must not be empty"@)
    } else if pinned is None {
        Err(
            "version pin "@ + pin + " for "@ + product + " in "@ + environment
                + " is not published (constraint "@ + pin_key_text(product) + ")"@,
        )
    } else if in_range is Err {
        Err(in_range->Err_0)
    } else if !in_range->Ok_0 {
        Err(violation_text("version pin "@, pin, product, environment, range->0))
    } else if unfit is Some {
        Err(unfit->0)
    } else if pin != channel_version {
        Ok((pin, id))
    } else {
        Ok((channel_version, channel_release))
    }
}

/// The selection without a version pin.
pub open spec fn channel_selection(
    c: VariantContext,
    channel_release: Seq<char>,
    head: Option<&PublishedRelease>,
    releases: Seq<PublishedRelease>,
) -> Selection {
    let in_range: Result<bool, Seq<char>> = match c.range {
        None => Ok(true),
        Some(bounds) => range_verdict(c.channel_version, bounds),
    };
    let model = model_verdict(head);
    let any = any_model_verdict(releases, 0);
    if in_range is Err {
        Err(in_range->Err_0)
    } else if model is Err {
        Err(model->Err_0)
    } else if model->Ok_0 {
        variant_selection(c, channel_release, head, releases)
    } else if !in_range->Ok_0 {
        Err(
            violation_text(
                "channel head "@,
                c.channel_version,
                c.product,
                c.environment,
                c.range->0,
            ),
        )
    } else if any is Err {
        Err(any->Err_0)
    } else if any->Ok_0 {
        variant_selection(c, channel_release, head, releases)
    } else {
        Ok((c.channel_version, channel_release))
    }
}

fn violation(
    subject: &str,
    version: &str,
    product: &str,
    environment: &str,
    range: &str,
) -> (error: Error)
    ensures
        error@ == violation_text(subject@, version@, product@, environment@, range@),
{
    let mut key = "constraint.version_range.".to_owned();
    key.append(product);
    let mut message = subject.to_owned();
    message.append(version);
    message.append(" for ");
    message.append(product);
    message.append(" in ");
    message.append(environment);
    message.append(" violates version range constraint ");
    message.append(quote(range).as_str());
    message.append(" (");
    message.append(key.as_str());
    message.append(")");
    Error::new(message)
}

fn select_pinned(
    pin: &str,
    range: Option<&str>,
    environment: &str,
    channel: &ChannelHead,
    pinned: Option<&PublishedRelease>,
    facts: &TextMap<String>,
) -> (result: Result<(String, String), Error>)
    ensures
        selects(
            result,
            pinned_selection(
                pin@,
                opt_str(range),
                environment@,
                channel.product@,
                channel.version@,
                channel.release_id@,
                pinned,
                facts@,
            ),
        ),
{
    if pin.trim().unicode_len() == 0 {
        let mut message = "constraint version pin for ".to_owned();
        message.append(channel.product);
        message.append(" must not be empty");
        return Err(Error::new(message));
    }
    if pinned.is_none() {
        let mut key = "constraint.version_pin.".to_owned();
        key.append(channel.product);
        let mut message = "version pin ".to_owned();
        message.append(pin);
        message.append(" for ");
        message.append(channel.product);
        message.append(" in ");
        message.append(environment);
        message.append(" is not published (constraint ");
        message.append(key.as_str());
        message.append(")");
        return Err(Error::new(message));
    }
    match range {
        None => {},
        Some(bounds) => match version_in_range(pin, bounds) {
            Err(error) => return Err(error),
            Ok(false) => {
                return Err(
                    violation("version pin ", pin, channel.product, environment, bounds),
                );
            },
            Ok(true) => {},
        },
    }
    let id = release_id(channel.product, pin);
    match ensure_model_runtime_fits(
        environment,
        channel.product,
        pin,
        id.as_str(),
        pinned,
        facts,
    ) {
        Err(error) => return Err(error),
        Ok(_) => {},
    }
    if !same(pin, channel.version) {
        Ok((pin.to_owned(), id))
    } else {
        Ok((channel.version.to_owned(), channel.release_id.to_owned()))
    }
}

fn select_unpinned(
    range: Option<&str>,
    environment: &str,
    channel: &ChannelHead,
    head: Option<&PublishedRelease>,
    facts: &TextMap<String>,
    releases: &Vec<PublishedRelease>,
) -> (result: Result<(String, String), Error>)
    ensures
        selects(
            result,
            channel_selection(
                VariantContext {
                    environment: environment@,
                    product: channel.product@,
                    channel_version: channel.version@,
                    range: opt_str(range),
                    facts: facts@,
                },
                channel.release_id@,
                head,
                releases@,
            ),
        ),
{
    let inside = match range {
        None => true,
        Some(bounds) => match version_in_range(channel.version, bounds) {
            Err(error) => return Err(error),
            Ok(answer) => answer,
        },
    };
    let model = match release_is_model_runtime(head) {
        Err(error) => return Err(error),
        Ok(answer) => answer,
    };
    if model {
        return select_model_runtime_variant(environment, channel, head, range, facts, releases);
    }
    match range {
        None => {},
        Some(bounds) => {
            if !inside {
                return Err(
                    violation(
                        "channel head ",
                        channel.version,
                        channel.product,
                        environment,
                        bounds,
                    ),
                );
            }
        },
    }
    match product_has_model_runtime_release(releases) {
        Err(error) => return Err(error),
        Ok(true) => {
            return select_model_runtime_variant(
                environment,
                channel,
                head,
                range,
                facts,
                releases,
            );
        },
        Ok(false) => {},
    }
    Ok((channel.version.to_owned(), channel.release_id.to_owned()))
}

/// The selection for one subscription. `pinned` is the stored release of the
/// pinned version, `head` that of the channel head, and `releases` are all
/// stored releases of the product.
pub open spec fn constrained_selection(
    environment: Object,
    name: Seq<char>,
    product: Seq<char>,
    channel_version: Seq<char>,
    channel_release: Seq<char>,
    pinned: Option<&PublishedRelease>,
    head: Option<&PublishedRelease>,
    facts: Map<Seq<char>, String>,
    releases: Seq<PublishedRelease>,
) -> Selection {
    let range = environment.property(range_key_text(product));
    match environment.property(pin_key_text(product)) {
        Some(pin) => pinned_selection(
            pin,
            range,
            name,
            product,
            channel_version,
            channel_release,
            pinned,
            facts,
        ),
        None => channel_selection(
            VariantContext { environment: name, product, channel_version, range, facts },
            channel_release,
            head,
            releases,
        ),
    }
}

/// Resolve a channel head against the constraints and facts of one
/// environment. A version pin overrides the channel head, and a version range
/// bounds it. For models the channel head is a ceiling, and the highest
/// variant that fits is selected.
pub fn resolve_constrained_release(
    environment: &Object,
    name: &str,
    channel: &ChannelHead,
    pinned: Option<&PublishedRelease>,
    head: Option<&PublishedRelease>,
    facts: &TextMap<String>,
    releases: &Vec<PublishedRelease>,
) -> (result: Result<(String, String), Error>)
    ensures
        selects(
            result,
            constrained_selection(
                *environment,
                name@,
                channel.product@,
                channel.version@,
                channel.release_id@,
                pinned,
                head,
                facts@,
                releases@,
            ),
        ),
{
    let mut pin_key = "constraint.version_pin.".to_owned();
    pin_key.append(channel.product);
    let mut range_key = "constraint.version_range.".to_owned();
    range_key.append(channel.product);
    let range = environment.properties.text(range_key.as_str());
    match environment.properties.text(pin_key.as_str()) {
        Some(pin) => select_pinned(pin, range, name, channel, pinned, facts),
        None => select_unpinned(range, name, channel, head, facts, releases),
    }
}

/// A version pin decides: where it is published, in range and fitting, the
/// pinned version is selected whatever the channel head is.
pub proof fn pin_overrides_the_channel(
    environment: Object,
    name: Seq<char>,
    product: Seq<char>,
    channel_version: Seq<char>,
    channel_release: Seq<char>,
    pinned: Option<&PublishedRelease>,
    head: Option<&PublishedRelease>,
    facts: Map<Seq<char>, String>,
    releases: Seq<PublishedRelease>,
)
    requires
        environment.property(pin_key_text(product)) is Some,
        constrained_selection(
            environment,
            name,
            product,
            channel_version,
            channel_release,
            pinned,
            head,
            facts,
            releases,
        ) is Ok,
    ensures
        constrained_selection(
            environment,
            name,
            product,
            channel_version,
            channel_release,
            pinned,
            head,
            facts,
            releases,
        )->Ok_0.0 == environment.property(pin_key_text(product))->0,
{
}

proof fn lemma_best_is_variant(c: VariantContext, releases: Seq<PublishedRelease>, count: nat)
    requires
        count <= releases.len(),
    ensures
        best_variant(c, releases, count) matches Ok(Some(at)) ==> 0 <= at < count
            && variant_verdict(c, releases[at]) == Ok::<bool, Seq<char>>(true),
    decreases count,
{
    if count > 0 {
        lemma_best_is_variant(c, releases, (count - 1) as nat);
    }
}

/// A selected variant is a stored release that fits the facts, and it is not
/// above the channel head.
pub proof fn selected_variant_fits_below_the_ceiling(
    c: VariantContext,
    channel_release: Seq<char>,
    head: Option<&PublishedRelease>,
    releases: Seq<PublishedRelease>,
)
    requires
        variant_selection(c, channel_release, head, releases) is Ok,
    ensures
        ({
            let (version, id) = variant_selection(c, channel_release, head, releases)->Ok_0;
            &&& exists|i: int|
                0 <= i < releases.len() && (#[trigger] releases[i]).id@ == id
                    && releases[i].version is Some && releases[i].version->0@ == version
                    && variant_verdict(c, releases[i]) == Ok::<bool, Seq<char>>(true)
            &&& version_valid(c.channel_version) && version_valid(version) ==> !version_below(
                c.channel_version,
                version,
            )
        }),
{
    lemma_best_is_variant(c, releases, releases.len());
    let at = best_variant(c, releases, releases.len())->Ok_0->0;
    assert(releases[at].id@ == releases[at].id@);
}

/// A required fact of an environment.
#[derive(Debug, PartialEq, Eq)]
pub struct RequiredFact {
    /// The property that holds the constraint.
    pub key: String,
    pub fact: String,
    pub expected: String,
}

/// The prefix of the properties that require facts.
pub open spec fn require_fact_prefix() -> Seq<char> {
    "constraint.require_fact."@
}

/// The places of the constraints among the first properties.
pub open spec fn required_places(keys: Seq<Seq<char>>, count: nat) -> Seq<int>
    decreases count,
{
    if count == 0 {
        Seq::<int>::empty()
    } else {
        let before = required_places(keys, (count - 1) as nat);
        if begins_with(keys[count - 1], require_fact_prefix()) {
            before.push(count - 1)
        } else {
            before
        }
    }
}

/// The facts that an environment's constraints require, in the order of their
/// properties.
pub fn required_facts(environment: &Object) -> (list: Vec<RequiredFact>)
    ensures
        ({
            let keys = environment.properties.keys();
            let found = required_places(keys, keys.len());
            &&& list@.len() == found.len()
            &&& forall|i: int|
                0 <= i < list@.len() ==> {
                    &&& (#[trigger] list@[i]).key@ == keys[found[i]]
                    &&& list@[i].fact@ == keys[found[i]].skip(require_fact_prefix().len() as int)
                    &&& list@[i].expected@ == environment.properties@[keys[found[i]]]@
                }
        }),
{
    let ghost keys = environment.properties.keys();
    let mut list: Vec<RequiredFact> = Vec::new();
    let count = environment.properties.len();
    let mut i: usize = 0;
    while i < count
        invariant
            i <= count,
            keys == environment.properties.keys(),
            count == keys.len(),
            list@.len() == required_places(keys, i as nat).len(),
            forall|k: int|
                0 <= k < list@.len() ==> {
                    let place = required_places(keys, i as nat)[k];
                    &&& (#[trigger] list@[k]).key@ == keys[place]
                    &&& list@[k].fact@ == keys[place].skip(require_fact_prefix().len() as int)
                    &&& list@[k].expected@ == environment.properties@[keys[place]]@
                },
        decreases count - i,
    {
        let key = environment.properties.key_at(i);
        let value = environment.properties.value_at(i);
        match strip_prefix(key.as_str(), "constraint.require_fact.") {
            None => {},
            Some(fact) => {
                list.push(
                    RequiredFact {
                        key: key.clone(),
                        fact: fact.to_owned(),
                        expected: value.clone(),
                    },
                );
            },
        }
        i = i + 1;
    }
    list
}

/// Check a fact that a constraint requires.
pub fn check_required_fact(
    environment: &str,
    required: &RequiredFact,
    actual: &str,
) -> (result: Result<(), Error>)
    ensures
        refusal(result) == refuse_unless(
            required.expected@ == "*"@ || required.expected@ == actual@,
            "environment "@ + environment@ + " fact "@ + required.fact@ + "="@ + actual@
                + " does not satisfy constraint "@ + quoted(required.expected@) + " ("@
                + required.key@ + ")"@,
        ),
{
    if same(&required.expected, "*") || same(&required.expected, actual) {
        return Ok(());
    }
    let mut message = "environment ".to_owned();
    message.append(environment);
    message.append(" fact ");
    message.append(required.fact.as_str());
    message.append("=");
    message.append(actual);
    message.append(" does not satisfy constraint ");
    message.append(quote(required.expected.as_str()).as_str());
    message.append(" (");
    message.append(required.key.as_str());
    message.append(")");
    Err(Error::new(message))
}

/// Why the kind of a release cannot be told.
pub open spec fn kind_refusal(id: Seq<char>, release: Option<&PublishedRelease>) -> Option<
    Seq<char>,
> {
    match release {
        None => Some("release "@ + id + " not found for product kind lookup"@),
        Some(stored) => match stored.manifest {
            StoredManifest::Absent => Some("release "@ + id + " has no stored manifest"@),
            StoredManifest::Unreadable => Some(unreadable_text(id)),
            StoredManifest::Present { kind, requirements } => None,
        },
    }
}

/// The kind of a stored release.
pub fn release_product_kind(id: &str, release: Option<&PublishedRelease>) -> (result: Result<
    ProductKind,
    Error,
>)
    ensures
        refusal(result) == kind_refusal(id@, release),
        result matches Ok(found) ==> release is Some && release->0.manifest is Present
            && release->0.manifest->kind == found,
{
    match release {
        None => {
            let mut message = "release ".to_owned();
            message.append(id);
            message.append(" not found for product kind lookup");
            Err(Error::new(message))
        },
        Some(stored) => match &stored.manifest {
            StoredManifest::Absent => {
                let mut message = "release ".to_owned();
                message.append(id);
                message.append(" has no stored manifest");
                Err(Error::new(message))
            },
            StoredManifest::Unreadable => Err(unreadable(id)),
            StoredManifest::Present { kind, requirements: _ } => Ok(*kind),
        },
    }
}

proof fn lemma_found_first(text: Seq<char>, part: Seq<char>, from: int, at: int)
    requires
        0 <= from <= at <= text.len(),
        stands_at(text, part, at),
        forall|i: int| from <= i < at ==> !#[trigger] stands_at(text, part, i),
    ensures
        found_from(text, part, from) == Some(at),
    decreases at - from,
{
    if from < at {
        assert(!stands_at(text, part, from));
        lemma_found_first(text, part, from + 1, at);
    }
}

/// A range `min..max` holds its minimum and every version up to its maximum,
/// and not its maximum: of three versions with the minimum below the maximum,
/// the answer is whether the version is not below the one and below the other.
pub proof fn range_is_half_open(
    version: &str,
    range: &str,
    at: int,
    result: Result<bool, Error>,
)
    requires
        call_ensures(version_in_range, (version, range), result),
        0 <= at <= range@.len(),
        stands_at(range@, ".."@, at),
        forall|i: int| 0 <= i < at ==> !#[trigger] stands_at(range@, ".."@, i),
    ensures
        ({
            let min = trimmed(range@.take(at));
            let max = trimmed(range@.skip(at + 2));
            &&& result is Ok <==> version_valid(version@) && version_valid(min) && version_valid(
                max,
            ) && version_below(min, max)
            &&& result matches Ok(inside) ==> (inside <==> !version_below(version@, min)
                && version_below(version@, max))
        }),
{
    reveal_strlit("..");
    lemma_found_first(range@, ".."@, 0, at);
}

/// A release fits where it is published and either is no model or is one whose
/// architectures hold the environment's, whose memory the environment has, and
/// whose accelerators, where it lists any, hold the environment's.
pub proof fn fitting_releases(
    environment: &str,
    product: &str,
    version: &str,
    release_id: &str,
    release: Option<&PublishedRelease>,
    facts: &TextMap<String>,
    result: Result<(), Error>,
)
    requires
        call_ensures(
            ensure_model_runtime_fits,
            (environment, product, version, release_id, release, facts),
            result,
        ),
    ensures
        release is None ==> result is Err,
        release is Some && release->0.manifest is Unreadable ==> result is Err,
        release is Some && release->0.manifest is Absent ==> result is Ok,
        release is Some ==> (release->0.manifest matches StoredManifest::Present {
            kind,
            requirements,
        } ==> (result is Ok <==> (kind == ProductKind::ModelRuntime ==> requirements is Some
            && meets(facts@, requirements->0)))),
{
    if release is Some && release->0.manifest is Present
        && release->0.manifest->requirements is Some {
        lemma_meets(
            environment@,
            product@,
            version@,
            facts@,
            release->0.manifest->requirements->0,
        );
    }
}

/// Facts meet the requirements of a model: its architectures hold the
/// architecture, the memory is enough, and its accelerators, where it lists
/// any, hold the accelerator.
pub open spec fn meets(
    facts: Map<Seq<char>, String>,
    requirements: ModelRequirementsSection,
) -> bool {
    &&& text_at(facts, "architecture"@) matches Some(architecture) && exists|i: int|
        0 <= i < requirements.architecture@.len() && (#[trigger] requirements.architecture@[i])@
            == architecture
    &&& text_at(facts, "memory_gib"@) matches Some(memory) && (unsigned_value(
        memory,
    ) matches Some(gib) && requirements.memory_gib <= gib <= u32::MAX)
    &&& requirements.accelerator@.len() == 0 || (text_at(
        facts,
        "accelerator"@,
    ) matches Some(accelerator) && exists|i: int|
        0 <= i < requirements.accelerator@.len() && (#[trigger] requirements.accelerator@[i])@
            == accelerator)
}

proof fn lemma_meets(
    environment: Seq<char>,
    product: Seq<char>,
    version: Seq<char>,
    facts: Map<Seq<char>, String>,
    requirements: ModelRequirementsSection,
)
    ensures
        fit_refusal(environment, product, version, facts, requirements) is None <==> meets(
            facts,
            requirements,
        ),
{
    lemma_listed_texts(requirements.architecture@, text_at(facts, "architecture"@));
    lemma_listed_texts(requirements.accelerator@, text_at(facts, "accelerator"@));
}

/// A selected variant is a stored release of a model. The environment meets its
/// requirements, it lies in the range where there is one, and it is not above
/// the channel head.
pub proof fn selected_variant_is_suitable(
    environment: &str,
    channel: &ChannelHead,
    head: Option<&PublishedRelease>,
    range: Option<&str>,
    facts: &TextMap<String>,
    releases: &Vec<PublishedRelease>,
    result: Result<(String, String), Error>,
)
    requires
        call_ensures(
            select_model_runtime_variant,
            (environment, channel, head, range, facts, releases),
            result,
        ),
        result is Ok,
    ensures
        exists|i: int|
            {
                let (version, id) = result->Ok_0;
                &&& 0 <= i < releases@.len()
                &&& (#[trigger] releases@[i]).id@ == id@
                &&& releases@[i].version matches Some(stored) && stored@ == version@
                &&& releases@[i].manifest matches StoredManifest::Present {
                    kind,
                    requirements: Some(needed),
                } && kind == ProductKind::ModelRuntime && meets(facts@, needed)
                &&& range matches Some(bounds) ==> range_verdict(version@, bounds@) == Ok::<
                    bool,
                    Seq<char>,
                >(true)
                &&& version_valid(channel.version@) && version_valid(version@) ==> !version_below(
                    channel.version@,
                    version@,
                )
            },
{
    let c = VariantContext {
        environment: environment@,
        product: channel.product@,
        channel_version: channel.version@,
        range: opt_str(range),
        facts: facts@,
    };
    lemma_best_is_variant(c, releases@, releases@.len());
    let at = best_variant(c, releases@, releases@.len())->Ok_0->0;
    let release = releases@[at];
    lemma_meets(
        c.environment,
        c.product,
        release.version->0@,
        facts@,
        release.manifest->requirements->0,
    );
    assert(releases@[at].id@ == result->Ok_0.1@);
}

proof fn lemma_best_found(
    c: VariantContext,
    releases: Seq<PublishedRelease>,
    count: nat,
    at: int,
)
    requires
        count <= releases.len(),
        forall|i: int|
            0 <= i < releases.len() ==> variant_verdict(c, #[trigger] releases[i]) is Ok,
        variant_verdict(c, releases[at]) == Ok::<bool, Seq<char>>(true),
        0 <= at,
    ensures
        best_variant(c, releases, count) is Ok,
        at < count ==> best_variant(c, releases, count)->Ok_0 is Some,
    decreases count,
{
    if count > 0 {
        lemma_best_found(c, releases, (count - 1) as nat, at);
        assert(variant_verdict(c, releases[count - 1]) is Ok);
    }
}

/// Where the manifests can be read and nothing bounds the version but the
/// channel head, one stored model at or below it that the environment meets is
/// enough for a variant to be selected.
pub proof fn suitable_variant_is_enough(
    environment: &str,
    channel: &ChannelHead,
    head: Option<&PublishedRelease>,
    facts: &TextMap<String>,
    releases: &Vec<PublishedRelease>,
    result: Result<(String, String), Error>,
    at: int,
)
    requires
        call_ensures(
            select_model_runtime_variant,
            (environment, channel, head, None, facts, releases),
            result,
        ),
        forall|i: int|
            0 <= i < releases@.len() ==> !((#[trigger] releases@[i]).manifest is Unreadable),
        0 <= at < releases@.len(),
        releases@[at].version is Some,
        version_valid(channel.version@) && version_valid(releases@[at].version->0@)
            ==> !version_below(channel.version@, releases@[at].version->0@),
        releases@[at].manifest matches StoredManifest::Present {
            kind,
            requirements: Some(needed),
        } && kind == ProductKind::ModelRuntime && meets(facts@, needed),
    ensures
        result is Ok,
{
    let c = VariantContext {
        environment: environment@,
        product: channel.product@,
        channel_version: channel.version@,
        range: None,
        facts: facts@,
    };
    let release = releases@[at];
    lemma_meets(
        c.environment,
        c.product,
        release.version->0@,
        facts@,
        release.manifest->requirements->0,
    );
    lemma_best_found(c, releases@, releases@.len(), at);
}

proof fn lemma_best_last(c: VariantContext, releases: Seq<PublishedRelease>, count: nat, i: int)
    requires
        count <= releases.len(),
        best_variant(c, releases, count) matches Ok(Some(at)) && at < i < count,
        variant_verdict(c, releases[i]) == Ok::<bool, Seq<char>>(true),
    ensures
        variant_lower(
            releases[i].version->0@,
            releases[best_variant(c, releases, count)->Ok_0->0].version->0@,
        ),
    decreases count,
{
    if count > 0 && i < count - 1 {
        lemma_best_last(c, releases, (count - 1) as nat, i);
    }
}

/// Of several variants with one version the last stored one is selected: each
/// suitable release stored behind the selected one has a lower version.
pub proof fn later_variants_are_lower(
    environment: &str,
    channel: &ChannelHead,
    head: Option<&PublishedRelease>,
    range: Option<&str>,
    facts: &TextMap<String>,
    releases: &Vec<PublishedRelease>,
    result: Result<(String, String), Error>,
)
    requires
        call_ensures(
            select_model_runtime_variant,
            (environment, channel, head, range, facts, releases),
            result,
        ),
        result is Ok,
    ensures
        exists|at: int|
            {
                let c = VariantContext {
                    environment: environment@,
                    product: channel.product@,
                    channel_version: channel.version@,
                    range: opt_str(range),
                    facts: facts@,
                };
                let version = result->Ok_0.0@;
                &&& 0 <= at < releases@.len()
                &&& (#[trigger] releases@[at]).id@ == result->Ok_0.1@
                &&& forall|i: int|
                    at < i < releases@.len() && variant_verdict(c, #[trigger] releases@[i]) == Ok::<
                        bool,
                        Seq<char>,
                    >(true) ==> {
                        let other = releases@[i].version->0@;
                        if version_valid(other) && version_valid(version) {
                            version_below(other, version)
                        } else {
                            text_less(other, version)
                        }
                    }
            },
{
    let c = VariantContext {
        environment: environment@,
        product: channel.product@,
        channel_version: channel.version@,
        range: opt_str(range),
        facts: facts@,
    };
    lemma_best_is_variant(c, releases@, releases@.len());
    let at = best_variant(c, releases@, releases@.len())->Ok_0->0;
    assert forall|i: int|
        at < i < releases@.len() && variant_verdict(c, #[trigger] releases@[i]) == Ok::<
            bool,
            Seq<char>,
        >(true) implies variant_lower(releases@[i].version->0@, releases@[at].version->0@) by {
        lemma_best_last(c, releases@, releases@.len(), i);
    }
    assert(releases@[at].id@ == result->Ok_0.1@);
}

/// A pinned version is selected if and only if it is not blank, it is
/// published, it lies in the range where there is one, and it fits; the release
/// is that of the pinned version, whatever the channel head is.
pub proof fn pinned_versions(
    environment: &Object,
    name: &str,
    channel: &ChannelHead,
    pinned: Option<&PublishedRelease>,
    head: Option<&PublishedRelease>,
    facts: &TextMap<String>,
    releases: &Vec<PublishedRelease>,
    result: Result<(String, String), Error>,
    pin: Seq<char>,
)
    requires
        call_ensures(
            resolve_constrained_release,
            (environment, name, channel, pinned, head, facts, releases),
            result,
        ),
        environment.property("constraint.version_pin."@ + channel.product@) == Some(pin),
    ensures
        result matches Ok((version, id)) ==> {
            &&& version@ == pin
            &&& id@ == if pin == channel.version@ {
                channel.release_id@
            } else {
                release_id_text(channel.product@, pin)
            }
        },
        result is Ok <==> {
            let range = environment.property("constraint.version_range."@ + channel.product@);
            &&& trimmed(pin).len() > 0
            &&& pinned is Some
            &&& range matches Some(bounds) ==> range_verdict(pin, bounds) == Ok::<bool, Seq<char>>(
                true,
            )
            &&& !(pinned->0.manifest is Unreadable)
            &&& pinned->0.manifest matches StoredManifest::Present { kind, requirements } ==> (kind
                == ProductKind::ModelRuntime ==> requirements is Some && meets(
                facts@,
                requirements->0,
            ))
        },
{
    if pinned is Some && pinned->0.manifest is Present && pinned->0.manifest->requirements is Some {
        lemma_meets(
            name@,
            channel.product@,
            pin,
            facts@,
            pinned->0.manifest->requirements->0,
        );
    }
}

proof fn lemma_no_model(releases: Seq<PublishedRelease>, from: int)
    requires
        0 <= from,
        forall|i: int|
            from <= i < releases.len() ==> model_verdict(Some(&#[trigger] releases[i])) == Ok::<
                bool,
                Seq<char>,
            >(false),
    ensures
        any_model_verdict(releases, from) == Ok::<bool, Seq<char>>(false),
    decreases releases.len() - from,
{
    if from < releases.len() {
        assert(model_verdict(Some(&releases[from])) == Ok::<bool, Seq<char>>(false));
        lemma_no_model(releases, from + 1);
    }
}

/// A product without models takes the head of its channel as it is, where that
/// lies in the range or there is none, and refuses it otherwise.
pub proof fn plain_product_takes_the_channel_head(
    environment: &Object,
    name: &str,
    channel: &ChannelHead,
    pinned: Option<&PublishedRelease>,
    head: Option<&PublishedRelease>,
    facts: &TextMap<String>,
    releases: &Vec<PublishedRelease>,
    result: Result<(String, String), Error>,
)
    requires
        call_ensures(
            resolve_constrained_release,
            (environment, name, channel, pinned, head, facts, releases),
            result,
        ),
        environment.property("constraint.version_pin."@ + channel.product@) is None,
        head is None || head->0.manifest is Absent || (head->0.manifest is Present
            && head->0.manifest->kind != ProductKind::ModelRuntime),
        forall|i: int|
            0 <= i < releases@.len() ==> ((#[trigger] releases@[i]).manifest is Absent || (
            releases@[i].manifest is Present && releases@[i].manifest->kind
                != ProductKind::ModelRuntime)),
    ensures
        result is Ok <==> (environment.property(
            "constraint.version_range."@ + channel.product@,
        ) matches Some(bounds) ==> range_verdict(channel.version@, bounds) == Ok::<
            bool,
            Seq<char>,
        >(true)),
        result matches Ok((version, id)) ==> version@ == channel.version@ && id@
            == channel.release_id@,
{
    lemma_no_model(releases@, 0);
}

/// Where the channel head is a model, what is selected without a pin is a
/// stored model that the environment meets, in the range and not above the
/// head.
pub proof fn model_head_selects_a_suitable_variant(
    environment: &Object,
    name: &str,
    channel: &ChannelHead,
    pinned: Option<&PublishedRelease>,
    head: Option<&PublishedRelease>,
    facts: &TextMap<String>,
    releases: &Vec<PublishedRelease>,
    result: Result<(String, String), Error>,
)
    requires
        call_ensures(
            resolve_constrained_release,
            (environment, name, channel, pinned, head, facts, releases),
            result,
        ),
        environment.property("constraint.version_pin."@ + channel.product@) is None,
        head is Some && head->0.manifest is Present && head->0.manifest->kind
            == ProductKind::ModelRuntime,
        result is Ok,
    ensures
        exists|i: int|
            {
                let (version, id) = result->Ok_0;
                &&& 0 <= i < releases@.len()
                &&& (#[trigger] releases@[i]).id@ == id@
                &&& releases@[i].version matches Some(stored) && stored@ == version@
                &&& releases@[i].manifest matches StoredManifest::Present {
                    kind,
                    requirements: Some(needed),
                } && kind == ProductKind::ModelRuntime && meets(facts@, needed)
                &&& environment.property(
                    "constraint.version_range."@ + channel.product@,
                ) matches Some(bounds) ==> range_verdict(version@, bounds) == Ok::<
                    bool,
                    Seq<char>,
                >(true)
                &&& version_valid(channel.version@) && version_valid(version@) ==> !version_below(
                    channel.version@,
                    version@,
                )
            },
{
    let c = VariantContext {
        environment: name@,
        product: channel.product@,
        channel_version: channel.version@,
        range: environment.property("constraint.version_range."@ + channel.product@),
        facts: facts@,
    };
    lemma_best_is_variant(c, releases@, releases@.len());
    let at = best_variant(c, releases@, releases@.len())->Ok_0->0;
    let release = releases@[at];
    lemma_meets(
        c.environment,
        c.product,
        release.version->0@,
        facts@,
        release.manifest->requirements->0,
    );
    assert(releases@[at].id@ == result->Ok_0.1@);
}

/// A required fact is satisfied by the expected value, and by any value where
/// a star is expected, and by nothing else.
pub proof fn required_facts_are_matched(
    environment: &str,
    required: &RequiredFact,
    actual: &str,
    result: Result<(), Error>,
)
    requires
        call_ensures(check_required_fact, (environment, required, actual), result),
    ensures
        result is Ok <==> required.expected@ == actual@ || required.expected@ == "*"@,
{
}

proof fn lemma_required_places(keys: Seq<Seq<char>>, count: nat)
    requires
        count <= keys.len(),
    ensures
        ({
            let found = required_places(keys, count);
            &&& forall|k: int|
                0 <= k < found.len() ==> 0 <= #[trigger] found[k] < count && begins_with(
                    keys[found[k]],
                    require_fact_prefix(),
                )
            &&& forall|i: int|
                0 <= i < count && begins_with(#[trigger] keys[i], require_fact_prefix())
                    ==> found.contains(i)
        }),
    decreases count,
{
    if count > 0 {
        lemma_required_places(keys, (count - 1) as nat);
        let before = required_places(keys, (count - 1) as nat);
        let found = required_places(keys, count);
        assert forall|i: int|
            0 <= i < count && begins_with(
                #[trigger] keys[i],
                require_fact_prefix(),
            ) implies found.contains(i) by {
            if i < count - 1 {
                assert(before.contains(i));
                let k = choose|k: int| 0 <= k < before.len() && before[k] == i;
                assert(found[k] == i);
            } else {
                assert(found[found.len() - 1] == i);
            }
        }
    }
}

/// Every property with the prefix requires the fact that its key names behind
/// the prefix, with its value, and nothing else is required.
pub proof fn required_facts_are_the_prefixed_properties(
    environment: &Object,
    list: Vec<RequiredFact>,
)
    requires
        call_ensures(required_facts, (environment,), list),
    ensures
        ({
            let keys = environment.properties.keys();
            let prefix = "constraint.require_fact."@;
            &&& forall|i: int|
                0 <= i < keys.len() && begins_with(#[trigger] keys[i], prefix) ==> exists|k: int|
                    0 <= k < list@.len() && (#[trigger] list@[k]).key@ == keys[i]
                        && list@[k].fact@ == keys[i].skip(prefix.len() as int)
                        && list@[k].expected@ == environment.properties@[keys[i]]@
            &&& forall|k: int|
                0 <= k < list@.len() ==> begins_with((#[trigger] list@[k]).key@, prefix)
                    && keys.contains(list@[k].key@)
        }),
{
    let keys = environment.properties.keys();
    let prefix = "constraint.require_fact."@;
    lemma_required_places(keys, keys.len());
    let found = required_places(keys, keys.len());
    assert forall|i: int| 0 <= i < keys.len() && begins_with(
        #[trigger] keys[i],
        prefix,
    ) implies exists|k: int|
        0 <= k < list@.len() && (#[trigger] list@[k]).key@ == keys[i] && list@[k].fact@
            == keys[i].skip(prefix.len() as int) && list@[k].expected@
            == environment.properties@[keys[i]]@ by {
        assert(found.contains(i));
        let k = choose|k: int| 0 <= k < found.len() && found[k] == i;
        assert(list@[k].key@ == keys[found[k]]);
    }
    assert forall|k: int| 0 <= k < list@.len() implies begins_with(
        (#[trigger] list@[k]).key@,
        prefix,
    ) && keys.contains(list@[k].key@) by {
        assert(0 <= found[k] < keys.len());
        assert(keys[found[k]] == list@[k].key@);
    }
}

/// The kind of a release is told if and only if its manifest is stored and can
/// be read, and it is the kind in the manifest.
pub proof fn release_kinds(
    id: &str,
    release: Option<&PublishedRelease>,
    result: Result<ProductKind, Error>,
)
    requires
        call_ensures(release_product_kind, (id, release), result),
    ensures
        result is Ok <==> release is Some && release->0.manifest is Present,
        result matches Ok(kind) ==> release->0.manifest->kind == kind,
{
}

/// A release is that of a model if and only if it is stored with a manifest of
/// that kind; only a manifest that cannot be read leaves it open.
pub proof fn model_releases(release: Option<&PublishedRelease>, result: Result<bool, Error>)
    requires
        call_ensures(release_is_model_runtime, (release,), result),
    ensures
        result is Err <==> release is Some && release->0.manifest is Unreadable,
        result matches Ok(answer) ==> (answer <==> release is Some && release->0.manifest is Present
            && release->0.manifest->kind == ProductKind::ModelRuntime),
{
}

/// A product has a model-runtime release where one of its releases is one.
pub proof fn one_model_release_is_enough(
    releases: &Vec<PublishedRelease>,
    at: int,
    result: Result<bool, Error>,
)
    requires
        call_ensures(product_has_model_runtime_release, (releases,), result),
        0 <= at < releases@.len(),
        model_verdict(Some(&releases@[at])) == Ok::<bool, Seq<char>>(true),
        forall|i: int|
            0 <= i < at ==> model_verdict(Some(&#[trigger] releases@[i])) == Ok::<bool, Seq<char>>(
                false,
            ),
    ensures
        result == Ok::<bool, Error>(true),
{
    lemma_any_model(releases@, 0, at);
}

proof fn lemma_any_model(releases: Seq<PublishedRelease>, from: int, at: int)
    requires
        0 <= from <= at <= releases.len(),
        at < releases.len() ==> model_verdict(Some(&releases[at])) == Ok::<bool, Seq<char>>(true),
        forall|i: int|
            from <= i < at ==> model_verdict(Some(&#[trigger] releases[i])) == Ok::<
                bool,
                Seq<char>,
            >(false),
    ensures
        any_model_verdict(releases, from) == Ok::<bool, Seq<char>>(at < releases.len()),
    decreases at - from,
{
    if from < at {
        assert(model_verdict(Some(&releases[from])) == Ok::<bool, Seq<char>>(false));
        lemma_any_model(releases, from + 1, at);
    }
}

/// A product of which no release is a model-runtime release has none.
pub proof fn plain_releases_are_no_models(
    releases: &Vec<PublishedRelease>,
    result: Result<bool, Error>,
)
    requires
        call_ensures(product_has_model_runtime_release, (releases,), result),
        forall|i: int|
            0 <= i < releases@.len() ==> model_verdict(Some(&#[trigger] releases@[i])) == Ok::<
                bool,
                Seq<char>,
            >(false),
    ensures
        result == Ok::<bool, Error>(false),
{
    lemma_any_model(releases@, 0, releases@.len() as int);
}

} // verus!
