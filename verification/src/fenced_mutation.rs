//! Fenced local mutations: what a deployment command gets to see, and how a
//! supervised command ends.
use crate::crypto::sha256_hex;
use crate::error::{refusal, refuse_unless, Error};
use crate::framing::utf8;
use crate::manifest::digest;
use crate::text::{
    begins_with, contains, contains_text, decimal, decimal_text, opt_text, starts_with, texts,
};
use crate::text_map::{text_values, TextMap};
use vstd::prelude::*;

verus! {

/// How many seconds pass between two refreshes of the lease.
pub const REFRESH_SECONDS: u64 = 10;

/// How many seconds a deployment command may take.
pub const TIMEOUT_SECONDS: u64 = 600;

/// A command that mutates an environment.
#[derive(Debug, PartialEq, Eq)]
pub struct MutationCommand<'a> {
    pub lock_path: &'a str,
    pub workdir: &'a str,
    pub environment: &'a str,
    pub product: &'a str,
    pub command: &'a str,
}

/// The variables that a deployment command inherits. Credentials of the
/// control plane are not among them.
pub open spec fn inherited_names() -> Seq<Seq<char>> {
    seq![
        "PATH"@,
        "HOME"@,
        "USER"@,
        "LOGNAME"@,
        "LANG"@,
        "LC_ALL"@,
        "LC_CTYPE"@,
        "TMPDIR"@,
        "TMP"@,
        "TEMP"@,
        "TZ"@,
    ]
}

/// The variables that hold credentials of the control plane.
pub open spec fn forbidden_names() -> Seq<Seq<char>> {
    seq![
        "SEKAI_AUTH_TOKEN"@,
        "TENKAI_MANAGEMENT_TOKEN"@,
        "TENKAI_RUNTIME_TOKEN"@,
        "TENKAI_RUNTIME_TOKENS"@,
        "TENKAI_OUTCOME_PROVIDER_TOKEN"@,
        "TENKAI_OUTCOME_PROVIDER_URL"@,
        "TENKAI_OUTCOME_PROVIDER_PRINCIPAL"@,
        "TENKAI_OUTCOME_PROVIDER_REGISTRATION"@,
        "TENKAI_JWT_VERIFIER_CONFIG"@,
        "TENKAI_POSTGRES_URL"@,
        "TENKAI_DEVELOPMENT_FIXTURE_PRINCIPALS"@,
    ]
}

/// The variables that a deployment command inherits.
pub fn inherited_variables() -> (names: Vec<String>)
    ensures
        texts(names@) == inherited_names(),
{
    let mut names: Vec<String> = Vec::new();
    names.push("PATH".to_owned());
    names.push("HOME".to_owned());
    names.push("USER".to_owned());
    names.push("LOGNAME".to_owned());
    names.push("LANG".to_owned());
    names.push("LC_ALL".to_owned());
    names.push("LC_CTYPE".to_owned());
    names.push("TMPDIR".to_owned());
    names.push("TMP".to_owned());
    names.push("TEMP".to_owned());
    names.push("TZ".to_owned());
    assert(texts(names@) =~= inherited_names());
    names
}

/// The project name under which an environment composes a product.
pub open spec fn project_name(environment: Seq<char>, product: Seq<char>) -> Seq<char> {
    "tenkai-"@ + sha256_hex(utf8(environment + "\0"@ + product)).take(16)
}

/// What a deployment command inherits: those of the variables that are set.
pub open spec fn inherited(parent: Map<Seq<char>, Seq<char>>) -> Map<Seq<char>, Seq<char>> {
    parent.restrict(inherited_names().to_set())
}

/// What a deployment command gets to see.
pub open spec fn child_variables(
    parent: Map<Seq<char>, Seq<char>>,
    environment: Seq<char>,
    product: Seq<char>,
    generation: Option<u64>,
) -> Map<Seq<char>, Seq<char>> {
    let named = inherited(parent).insert("TENKAI_ENVIRONMENT"@, environment).insert(
        "TENKAI_PRODUCT"@,
        product,
    ).insert("COMPOSE_PROJECT_NAME"@, project_name(environment, product));
    match generation {
        Some(value) => named.insert("TENKAI_FENCING_GENERATION"@, decimal(value as nat)),
        None => named,
    }
}

fn inherit(parent: &TextMap<String>) -> (result: TextMap<String>)
    ensures
        text_values(result@) == inherited(text_values(parent@)),
{
    let names = inherited_variables();
    let ghost all = inherited_names();
    let ghost map = text_values(parent@);
    let mut result: TextMap<String> = TextMap::new();
    let mut i: usize = 0;
    while i < names.len()
        invariant
            i <= names.len(),
            all == inherited_names(),
            all == texts(names@),
            map == text_values(parent@),
            forall|key: Seq<char>| #[trigger]
                result@.contains_key(key) ==> all.contains(key) && map.contains_key(key)
                    && result@[key]@ == map[key],
            forall|k: int|
                0 <= k < i && map.contains_key(#[trigger] all[k]) ==> result@.contains_key(all[k]),
        decreases names.len() - i,
    {
        assert(all[i as int] == names@[i as int]@);
        assert(all.contains(all[i as int]));
        match parent.get(names[i].as_str()) {
            None => {},
            Some(value) => {
                result.insert(names[i].clone(), value.clone());
            },
        }
        i = i + 1;
    }
    assert forall|key: Seq<char>| #[trigger]
        text_values(result@).contains_key(key) <==> inherited(map).contains_key(key) by {
        if inherited(map).contains_key(key) {
            assert(all.contains(key));
            let k = all.index_of(key);
            assert(map.contains_key(all[k]));
        }
    }
    assert(text_values(result@) =~= inherited(map));
    result
}

/// The variables of a deployment command, from those of its parent: few are
/// inherited, and its identity and its fence are set.
pub fn deploy_child_environment(
    parent: &TextMap<String>,
    environment: &str,
    product: &str,
    fencing_generation: Option<u64>,
) -> (variables: TextMap<String>)
    ensures
        text_values(variables@) == child_variables(
            text_values(parent@),
            environment@,
            product@,
            fencing_generation,
        ),
{
    broadcast use crate::text_map::group_text_values;

    let mut variables = inherit(parent);
    let mut identity = environment.to_owned();
    identity.append("\0");
    identity.append(product);
    let full = digest(&identity);
    let short = full.as_str().substring_char(0, 16);
    assert(short@ =~= full@.take(16));
    let mut project = "tenkai-".to_owned();
    project.append(short);
    variables.insert("TENKAI_ENVIRONMENT".to_owned(), environment.to_owned());
    variables.insert("TENKAI_PRODUCT".to_owned(), product.to_owned());
    variables.insert("COMPOSE_PROJECT_NAME".to_owned(), project);
    match fencing_generation {
        Some(generation) => {
            variables.insert("TENKAI_FENCING_GENERATION".to_owned(), decimal_text(generation));
        },
        None => {},
    }
    variables
}

proof fn lemma_forbidden_first(name: Seq<char>)
    requires
        forbidden_names().contains(name),
    ensures
        name.len() >= 16,
        begins_with(name, "SEKAI"@) || begins_with(name, "TENKAI_"@),
        name != "TENKAI_ENVIRONMENT"@,
        name != "TENKAI_PRODUCT"@,
        name != "TENKAI_FENCING_GENERATION"@,
        name != "COMPOSE_PROJECT_NAME"@,
{
    reveal_strlit("SEKAI");
    reveal_strlit("TENKAI_");
    reveal_strlit("TENKAI_ENVIRONMENT");
    reveal_strlit("TENKAI_PRODUCT");
    reveal_strlit("TENKAI_FENCING_GENERATION");
    reveal_strlit("COMPOSE_PROJECT_NAME");
    reveal_strlit("SEKAI_AUTH_TOKEN");
    reveal_strlit("TENKAI_MANAGEMENT_TOKEN");
    reveal_strlit("TENKAI_RUNTIME_TOKEN");
    reveal_strlit("TENKAI_RUNTIME_TOKENS");
    reveal_strlit("TENKAI_OUTCOME_PROVIDER_TOKEN");
    reveal_strlit("TENKAI_OUTCOME_PROVIDER_URL");
    reveal_strlit("TENKAI_OUTCOME_PROVIDER_PRINCIPAL");
    reveal_strlit("TENKAI_OUTCOME_PROVIDER_REGISTRATION");
    reveal_strlit("TENKAI_JWT_VERIFIER_CONFIG");
    reveal_strlit("TENKAI_POSTGRES_URL");
    reveal_strlit("TENKAI_DEVELOPMENT_FIXTURE_PRINCIPALS");
    let at = forbidden_names().index_of(name);
    assert(forbidden_names()[at] == name);
    if at == 0 {
        assert(name[0] == 'S');
        assert(name.take(5) =~= "SEKAI"@);
        assert("TENKAI_ENVIRONMENT"@[0] != name[0]);
        assert("TENKAI_PRODUCT"@[0] != name[0]);
        assert("TENKAI_FENCING_GENERATION"@[0] != name[0]);
        assert("COMPOSE_PROJECT_NAME"@[0] != name[0]);
    } else {
        assert(name.take(7) =~= "TENKAI_"@);
        assert(name[0] == 'T');
        assert("COMPOSE_PROJECT_NAME"@[0] == 'C');
        assert("TENKAI_ENVIRONMENT"@[7] == 'E');
        assert("TENKAI_PRODUCT"@.len() == 14);
        assert("TENKAI_FENCING_GENERATION"@[7] == 'F');
        assert(name[7] == 'M' || name[7] == 'R' || name[7] == 'O' || name[7] == 'J' || name[7]
            == 'P' || name[7] == 'D');
    }
}

proof fn lemma_inherited_short(name: Seq<char>)
    requires
        inherited_names().contains(name),
    ensures
        name.len() <= 8,
{
    reveal_strlit("PATH");
    reveal_strlit("HOME");
    reveal_strlit("USER");
    reveal_strlit("LOGNAME");
    reveal_strlit("LANG");
    reveal_strlit("LC_ALL");
    reveal_strlit("LC_CTYPE");
    reveal_strlit("TMPDIR");
    reveal_strlit("TMP");
    reveal_strlit("TEMP");
    reveal_strlit("TZ");
    let at = inherited_names().index_of(name);
    assert(inherited_names()[at] == name);
}

/// No credential of the control plane reaches a deployment command, whatever
/// its parent holds.
pub proof fn credentials_do_not_reach_commands(
    parent: Map<Seq<char>, Seq<char>>,
    environment: Seq<char>,
    product: Seq<char>,
    generation: Option<u64>,
    name: Seq<char>,
)
    requires
        forbidden_names().contains(name),
    ensures
        !child_variables(parent, environment, product, generation).contains_key(name),
{
    lemma_forbidden_first(name);
    if inherited_names().contains(name) {
        lemma_inherited_short(name);
    }
}

/// A deployment command sees nothing of its parent but the variables that are
/// inherited.
pub proof fn commands_see_what_is_listed(
    parent: Map<Seq<char>, Seq<char>>,
    environment: Seq<char>,
    product: Seq<char>,
    generation: Option<u64>,
    name: Seq<char>,
)
    requires
        child_variables(parent, environment, product, generation).contains_key(name),
    ensures
        inherited_names().contains(name) || name == "TENKAI_ENVIRONMENT"@ || name
            == "TENKAI_PRODUCT"@ || name == "COMPOSE_PROJECT_NAME"@ || name
            == "TENKAI_FENCING_GENERATION"@,
{
}

/// Why no guard can be started.
pub open spec fn guard_refusal(
    configured: Option<Seq<char>>,
    configured_is_file: bool,
    current: Seq<char>,
    found: bool,
) -> Option<Seq<char>> {
    match configured {
        Some(path) => refuse_unless(
            configured_is_file,
            "TENKAI_EXECUTOR_GUARD does not identify a file: "@ + path,
        ),
        None => refuse_unless(
            found,
            "tenkai-executor-guard was not found beside "@ + current
                + "; install both Tenkai binaries or set TENKAI_EXECUTOR_GUARD"@,
        ),
    }
}

/// The executable of the guard: the one that is configured, the current one if
/// it is the command line tool, or one that was found beside it.
pub fn guard_executable(
    configured: Option<&str>,
    configured_is_file: bool,
    current: &str,
    current_stem: &str,
    beside: Option<&str>,
) -> (result: Result<String, Error>)
    ensures
        refusal(result) == guard_refusal(
            crate::text::opt_str(configured),
            configured_is_file,
            current@,
            begins_with(current_stem@, "tenkaictl"@) || beside is Some,
        ),
        result matches Ok(path) ==> path@ == (match configured {
            Some(named) => named@,
            None => if begins_with(current_stem@, "tenkaictl"@) {
                current@
            } else {
                beside->0@
            },
        }),
{
    match configured {
        Some(path) => {
            if configured_is_file {
                return Ok(path.to_owned());
            }
            let mut message = "TENKAI_EXECUTOR_GUARD does not identify a file: ".to_owned();
            message.append(path);
            return Err(Error::new(message));
        },
        None => {},
    }
    if starts_with(current_stem, "tenkaictl") {
        return Ok(current.to_owned());
    }
    match beside {
        Some(path) => Ok(path.to_owned()),
        None => {
            let mut message = "tenkai-executor-guard was not found beside ".to_owned();
            message.append(current);
            message.append("; install both Tenkai binaries or set TENKAI_EXECUTOR_GUARD");
            Err(Error::new(message))
        },
    }
}

/// The arguments of the guard.
pub open spec fn guard_words(
    executable: Seq<char>,
    mutation: MutationCommand,
    generation: u64,
) -> Seq<Seq<char>> {
    let words = seq![
        "--lock"@,
        mutation.lock_path@,
        "--workdir"@,
        mutation.workdir@,
        "--environment"@,
        mutation.environment@,
        "--product"@,
        mutation.product@,
        "--generation"@,
        decimal(generation as nat),
        "--command"@,
        mutation.command@,
    ];
    if contains_text(executable, "tenkaictl"@) {
        seq!["__executor-guard"@] + words
    } else {
        words
    }
}

/// The arguments with which the guard of a mutation is started.
pub fn guard_arguments(executable: &str, mutation: &MutationCommand, generation: u64) -> (words: Vec<
    String,
>)
    ensures
        texts(words@) == guard_words(executable@, *mutation, generation),
{
    let mut words: Vec<String> = Vec::new();
    if contains(executable, "tenkaictl") {
        words.push("__executor-guard".to_owned());
    }
    words.push("--lock".to_owned());
    words.push(mutation.lock_path.to_owned());
    words.push("--workdir".to_owned());
    words.push(mutation.workdir.to_owned());
    words.push("--environment".to_owned());
    words.push(mutation.environment.to_owned());
    words.push("--product".to_owned());
    words.push(mutation.product.to_owned());
    words.push("--generation".to_owned());
    words.push(decimal_text(generation));
    words.push("--command".to_owned());
    words.push(mutation.command.to_owned());
    assert(texts(words@) =~= guard_words(executable@, *mutation, generation));
    words
}

/// The byte by which a guard says that it holds the fence.
pub const READY: u8 = 82;

/// The byte by which a guard is told to start.
pub const GO: u8 = 71;

/// Check what a guard said before its command starts.
pub fn check_ready(byte: u8) -> (result: Result<(), Error>)
    ensures
        refusal(result) == refuse_unless(
            byte == READY,
            "deployment command guard failed to acquire the mutation fence"@,
        ),
{
    if byte != READY {
        return Err(Error::fixed("deployment command guard failed to acquire the mutation fence"));
    }
    Ok(())
}

/// Check what a guard was told.
pub fn check_go(byte: u8) -> (result: Result<(), Error>)
    ensures
        refusal(result) == refuse_unless(
            byte == GO,
            "executor guard did not receive start authorization"@,
        ),
{
    if byte != GO {
        return Err(Error::fixed("executor guard did not receive start authorization"));
    }
    Ok(())
}

/// What happens while a guard runs.
#[derive(Debug, PartialEq, Eq)]
pub enum GuardEvent {
    /// The guard ended, with success or with a status.
    Exited(Option<String>),
    /// The time is up.
    TimedOut,
    /// The controller was interrupted.
    Interrupted,
    /// The controller was terminated.
    Terminated,
    /// The lease was refreshed, or could not be.
    Refreshed(Option<String>),
}

/// What the controller does next.
#[derive(Debug, PartialEq, Eq)]
pub enum GuardStep {
    /// Wait on.
    Wait,
    /// Stop the guard, and fail for a reason.
    Stop(String),
    /// Refresh the lease once more, and end: with success, or for a reason.
    Finish(Option<String>),
}

/// What the controller does next, as texts.
pub enum GuardStepModel {
    Wait,
    Stop(Seq<char>),
    Finish(Option<Seq<char>>),
}

impl View for GuardStep {
    type V = GuardStepModel;

    open spec fn view(&self) -> GuardStepModel {
        match *self {
            GuardStep::Wait => GuardStepModel::Wait,
            GuardStep::Stop(reason) => GuardStepModel::Stop(reason@),
            GuardStep::Finish(fault) => GuardStepModel::Finish(opt_text(fault)),
        }
    }
}

/// What the controller does on an event.
pub open spec fn guard_step(event: GuardEvent) -> GuardStepModel {
    match event {
        GuardEvent::Exited(None) => GuardStepModel::Finish(None),
        GuardEvent::Exited(Some(status)) => GuardStepModel::Finish(
            Some("deployment command exited with "@ + status@),
        ),
        GuardEvent::TimedOut => GuardStepModel::Stop(
            "deployment command exceeded the 10 minute timeout"@,
        ),
        GuardEvent::Interrupted => GuardStepModel::Stop("deployment command interrupted"@),
        GuardEvent::Terminated => GuardStepModel::Stop("deployment command terminated"@),
        GuardEvent::Refreshed(None) => GuardStepModel::Wait,
        GuardEvent::Refreshed(Some(fault)) => GuardStepModel::Stop(
            "deployment command lost its environment fence: "@ + fault@,
        ),
    }
}

/// Decide on an event while a guard runs.
pub fn on_guard_event(event: &GuardEvent) -> (step: GuardStep)
    ensures
        step@ == guard_step(*event),
{
    match event {
        GuardEvent::Exited(None) => GuardStep::Finish(None),
        GuardEvent::Exited(Some(status)) => {
            let mut reason = "deployment command exited with ".to_owned();
            reason.append(status.as_str());
            GuardStep::Finish(Some(reason))
        },
        GuardEvent::TimedOut => GuardStep::Stop(
            "deployment command exceeded the 10 minute timeout".to_owned(),
        ),
        GuardEvent::Interrupted => GuardStep::Stop("deployment command interrupted".to_owned()),
        GuardEvent::Terminated => GuardStep::Stop("deployment command terminated".to_owned()),
        GuardEvent::Refreshed(None) => GuardStep::Wait,
        GuardEvent::Refreshed(Some(fault)) => {
            let mut reason = "deployment command lost its environment fence: ".to_owned();
            reason.append(fault.as_str());
            GuardStep::Stop(reason)
        },
    }
}

/// What ends a supervised command.
#[derive(Debug, PartialEq, Eq)]
pub enum ChildEnd {
    /// It ended, with success or with a status.
    Exited(Option<String>),
    /// Its controller is gone.
    ControllerGone,
}

/// Settle a supervised command.
pub fn settle_child(end: &ChildEnd) -> (result: Result<(), Error>)
    ensures
        refusal(result) == (match *end {
            ChildEnd::Exited(None) => None,
            ChildEnd::Exited(Some(status)) => Some(
                "deployment command exited with "@ + status@,
            ),
            ChildEnd::ControllerGone => Some("deployment controller exited"@),
        }),
{
    match end {
        ChildEnd::Exited(None) => Ok(()),
        ChildEnd::Exited(Some(status)) => {
            let mut message = "deployment command exited with ".to_owned();
            message.append(status.as_str());
            Err(Error::new(message))
        },
        ChildEnd::ControllerGone => Err(Error::fixed("deployment controller exited")),
    }
}

/// A guard is only waited for while its lease is refreshed: every other event
/// ends the mutation, and success comes from a guard that ended with success.
pub proof fn lost_fences_stop_mutations(event: GuardEvent)
    ensures
        guard_step(event) is Wait <==> event == GuardEvent::Refreshed(None),
        guard_step(event) == GuardStepModel::Finish(None) <==> event == GuardEvent::Exited(None),
{
}

proof fn lemma_inherited_listed()
    ensures
        inherited_names().contains("PATH"@),
        inherited_names().contains("HOME"@),
        inherited_names().contains("USER"@),
        inherited_names().contains("LOGNAME"@),
        inherited_names().contains("LANG"@),
        inherited_names().contains("LC_ALL"@),
        inherited_names().contains("LC_CTYPE"@),
        inherited_names().contains("TMPDIR"@),
        inherited_names().contains("TMP"@),
        inherited_names().contains("TEMP"@),
        inherited_names().contains("TZ"@),
{
    let names = inherited_names();
    assert(names[0] == "PATH"@);
    assert(names[1] == "HOME"@);
    assert(names[2] == "USER"@);
    assert(names[3] == "LOGNAME"@);
    assert(names[4] == "LANG"@);
    assert(names[5] == "LC_ALL"@);
    assert(names[6] == "LC_CTYPE"@);
    assert(names[7] == "TMPDIR"@);
    assert(names[8] == "TMP"@);
    assert(names[9] == "TEMP"@);
    assert(names[10] == "TZ"@);
}

proof fn lemma_inherited_kept(
    parent: TextMap<String>,
    variables: TextMap<String>,
    environment: Seq<char>,
    product: Seq<char>,
    generation: Option<u64>,
    name: Seq<char>,
)
    requires
        text_values(variables@) == child_variables(
            text_values(parent@),
            environment,
            product,
            generation,
        ),
        inherited_names().contains(name),
    ensures
        crate::text_map::text_at(variables@, name) == crate::text_map::text_at(parent@, name),
{
    reveal_strlit("TENKAI_ENVIRONMENT");
    reveal_strlit("TENKAI_PRODUCT");
    reveal_strlit("COMPOSE_PROJECT_NAME");
    reveal_strlit("TENKAI_FENCING_GENERATION");
    lemma_inherited_short(name);
    let before = text_values(parent@);
    let after = text_values(variables@);
    assert(inherited_names().to_set().contains(name));
    assert(after.contains_key(name) == before.contains_key(name));
    if before.contains_key(name) {
        assert(after[name] == before[name]);
    }
}

/// A deployment command sees the variables that it needs of its parent as they
/// are, and its own environment, product and fence; it sees nothing else, no
/// credential among it.
pub proof fn commands_see_what_they_need(
    parent: &TextMap<String>,
    environment: &str,
    product: &str,
    generation: Option<u64>,
    variables: TextMap<String>,
    name: Seq<char>,
)
    requires
        call_ensures(
            deploy_child_environment,
            (parent, environment, product, generation),
            variables,
        ),
    ensures
        name == "PATH"@ || name == "HOME"@ || name == "USER"@ || name == "LOGNAME"@ || name
            == "LANG"@ || name == "LC_ALL"@ || name == "LC_CTYPE"@ || name == "TMPDIR"@ || name
            == "TMP"@ || name == "TEMP"@ || name == "TZ"@ ==> crate::text_map::text_at(
            variables@,
            name,
        ) == crate::text_map::text_at(parent@, name),
        crate::text_map::text_at(variables@, "TENKAI_ENVIRONMENT"@) == Some(environment@),
        crate::text_map::text_at(variables@, "TENKAI_PRODUCT"@) == Some(product@),
        generation matches Some(value) ==> crate::text_map::text_at(
            variables@,
            "TENKAI_FENCING_GENERATION"@,
        ) == Some(decimal(value as nat)),
        generation is None ==> crate::text_map::text_at(
            variables@,
            "TENKAI_FENCING_GENERATION"@,
        ) is None,
        name == "SEKAI_AUTH_TOKEN"@ || name == "TENKAI_MANAGEMENT_TOKEN"@ || name
            == "TENKAI_RUNTIME_TOKEN"@ || name == "TENKAI_RUNTIME_TOKENS"@ || name
            == "TENKAI_OUTCOME_PROVIDER_TOKEN"@ || name == "TENKAI_JWT_VERIFIER_CONFIG"@ || name
            == "TENKAI_POSTGRES_URL"@ ==> crate::text_map::text_at(variables@, name) is None,
{
    lemma_inherited_listed();
    if inherited_names().contains(name) {
        lemma_inherited_kept(*parent, variables, environment@, product@, generation, name);
    }
    let seen = text_values(variables@);
    reveal_strlit("TENKAI_ENVIRONMENT");
    reveal_strlit("TENKAI_PRODUCT");
    reveal_strlit("COMPOSE_PROJECT_NAME");
    reveal_strlit("TENKAI_FENCING_GENERATION");
    assert("TENKAI_ENVIRONMENT"@.len() == 18);
    assert("TENKAI_PRODUCT"@.len() == 14);
    assert("COMPOSE_PROJECT_NAME"@.len() == 20);
    assert("TENKAI_FENCING_GENERATION"@.len() == 25);
    assert(seen.contains_key("TENKAI_ENVIRONMENT"@));
    assert(seen["TENKAI_ENVIRONMENT"@] == environment@);
    assert(seen.contains_key("TENKAI_PRODUCT"@));
    assert(seen["TENKAI_PRODUCT"@] == product@);
    if generation is Some {
        assert(seen.contains_key("TENKAI_FENCING_GENERATION"@));
        assert(seen["TENKAI_FENCING_GENERATION"@] == decimal(generation->0 as nat));
    } else {
        if inherited_names().contains("TENKAI_FENCING_GENERATION"@) {
            lemma_inherited_short("TENKAI_FENCING_GENERATION"@);
        }
        assert(!inherited_names().to_set().contains("TENKAI_FENCING_GENERATION"@));
        assert(!seen.contains_key("TENKAI_FENCING_GENERATION"@));
    }
    let forbidden = forbidden_names();
    assert(forbidden[0] == "SEKAI_AUTH_TOKEN"@);
    assert(forbidden[1] == "TENKAI_MANAGEMENT_TOKEN"@);
    assert(forbidden[2] == "TENKAI_RUNTIME_TOKEN"@);
    assert(forbidden[3] == "TENKAI_RUNTIME_TOKENS"@);
    assert(forbidden[4] == "TENKAI_OUTCOME_PROVIDER_TOKEN"@);
    assert(forbidden[8] == "TENKAI_JWT_VERIFIER_CONFIG"@);
    assert(forbidden[9] == "TENKAI_POSTGRES_URL"@);
    if forbidden.contains(name) {
        credentials_do_not_reach_commands(
            text_values(parent@),
            environment@,
            product@,
            generation,
            name,
        );
        assert(!seen.contains_key(name));
    }
}

/// The guard that is configured is started if it is a file; without one, the
/// command line tool is its own guard, and another program needs one beside it.
pub proof fn guards_that_are_started(
    configured: Option<&str>,
    configured_is_file: bool,
    current: &str,
    current_stem: &str,
    beside: Option<&str>,
    result: Result<String, Error>,
)
    requires
        call_ensures(
            guard_executable,
            (configured, configured_is_file, current, current_stem, beside),
            result,
        ),
    ensures
        configured is Some ==> (result is Ok <==> configured_is_file) && (result is Ok
            ==> result->Ok_0@ == configured->0@),
        configured is None && begins_with(current_stem@, "tenkaictl"@) ==> (result matches Ok(path)
            && path@ == current@),
        configured is None && !begins_with(current_stem@, "tenkaictl"@) ==> (result is Ok
            <==> beside is Some) && (result is Ok ==> result->Ok_0@ == beside->0@),
{
}

/// A guard is told the lock, the directory, the environment, the product, the
/// fencing generation and the command of its mutation.
pub proof fn guards_are_told_their_mutation(
    executable: &str,
    mutation: &MutationCommand,
    generation: u64,
    words: Vec<String>,
)
    requires
        call_ensures(guard_arguments, (executable, mutation, generation), words),
    ensures
        ({
            let own = contains_text(executable@, "tenkaictl"@);
            let at: int = if own {
                1
            } else {
                0
            };
            &&& words@.len() == at + 12
            &&& own ==> words@[0]@ == "__executor-guard"@
            &&& words@[at]@ == "--lock"@ && words@[at + 1]@ == mutation.lock_path@
            &&& words@[at + 2]@ == "--workdir"@ && words@[at + 3]@ == mutation.workdir@
            &&& words@[at + 4]@ == "--environment"@ && words@[at + 5]@ == mutation.environment@
            &&& words@[at + 6]@ == "--product"@ && words@[at + 7]@ == mutation.product@
            &&& words@[at + 8]@ == "--generation"@ && words@[at + 9]@ == decimal(
                generation as nat,
            )
            &&& words@[at + 10]@ == "--command"@ && words@[at + 11]@ == mutation.command@
        }),
{
    let told = texts(words@);
    assert(told.len() == words@.len());
    assert(forall|i: int| 0 <= i < words@.len() ==> told[i] == (#[trigger] words@[i])@);
}

/// A mutation goes on only while its lease is refreshed. It succeeds only if its
/// guard ended with success; a lost fence, a timeout and a signal stop it.
pub proof fn mutations_that_go_on(event: &GuardEvent, step: GuardStep)
    requires
        call_ensures(on_guard_event, (event,), step),
    ensures
        step is Wait <==> *event == GuardEvent::Refreshed(None),
        (step matches GuardStep::Finish(fault) && fault is None) <==> *event == GuardEvent::Exited(
            None,
        ),
        *event is Exited ==> step is Finish,
        *event is TimedOut || *event is Interrupted || *event is Terminated ==> step is Stop,
        (*event matches GuardEvent::Refreshed(fault) && fault is Some) ==> step is Stop,
{
}

/// A supervised command succeeded if and only if it ended with success while its
/// controller was there.
pub proof fn commands_that_succeeded(end: &ChildEnd, result: Result<(), Error>)
    requires
        call_ensures(settle_child, (end,), result),
    ensures
        result is Ok <==> *end == ChildEnd::Exited(None),
{
}

/// A guard that does not say that it holds the fence, and a guard that was not
/// told to start, are refused.
pub proof fn guards_and_controllers_agree(
    byte: u8,
    ready: Result<(), Error>,
    go: Result<(), Error>,
)
    requires
        call_ensures(check_ready, (byte,), ready),
        call_ensures(check_go, (byte,), go),
    ensures
        ready is Ok <==> byte == 'R' as u8,
        go is Ok <==> byte == 'G' as u8,
{
}

/// A command inherits its paths, its user, its language and its places for
/// temporary files, and no other variable.
pub proof fn inherited_variables_are_harmless(names: Vec<String>, at: int)
    requires
        call_ensures(inherited_variables, (), names),
        0 <= at < names@.len(),
    ensures
        names@[at]@ == "PATH"@ || names@[at]@ == "HOME"@ || names@[at]@ == "USER"@ || names@[at]@
            == "LOGNAME"@ || names@[at]@ == "LANG"@ || names@[at]@ == "LC_ALL"@ || names@[at]@
            == "LC_CTYPE"@ || names@[at]@ == "TMPDIR"@ || names@[at]@ == "TMP"@ || names@[at]@
            == "TEMP"@ || names@[at]@ == "TZ"@,
        texts(names@).contains("PATH"@),
        texts(names@).contains("HOME"@),
        texts(names@).contains("TZ"@),
{
    let list = texts(names@);
    assert(list.len() == 11);
    assert(list[at] == names@[at]@);
    assert(list[0] == "PATH"@ && list[1] == "HOME"@ && list[10] == "TZ"@);
}

} // verus!
