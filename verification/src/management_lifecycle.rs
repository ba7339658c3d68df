//! Admission of remote management-lifecycle requests.
//!
//! Publish, promote, subscribe, plan, approve, apply, rollback and recall are
//! admitted here, before any host acts on them.
use crate::auth_context::PrincipalKind;
use crate::error::{first_refusal, refusal, refuse_unless, Error};
use crate::text::{blank, copy_opt, decimal, decimal_text, opt_str, opt_text, quote, quoted, same};
use vstd::prelude::*;

verus! {

/// Version of the management-lifecycle requests.
pub const MANAGEMENT_LIFECYCLE_API_VERSION: u32 = 1;

/// Name of the management-lifecycle contract.
pub const MANAGEMENT_LIFECYCLE_CONTRACT: &'static str = "tenkai.management-lifecycle.v1";

/// What a request asks for.
#[derive(Debug, Clone, Copy, PartialEq, Eq, Structural)]
pub enum ManagementLifecycleOperation {
    Publish,
    Promote,
    Subscribe,
    Plan,
    Approve,
    Apply,
    Rollback,
    Recall,
}

impl ManagementLifecycleOperation {
    /// The name of an operation.
    pub open spec fn word(self) -> Seq<char> {
        match self {
            ManagementLifecycleOperation::Publish => "publish"@,
            ManagementLifecycleOperation::Promote => "promote"@,
            ManagementLifecycleOperation::Subscribe => "subscribe"@,
            ManagementLifecycleOperation::Plan => "plan"@,
            ManagementLifecycleOperation::Approve => "approve"@,
            ManagementLifecycleOperation::Apply => "apply"@,
            ManagementLifecycleOperation::Rollback => "rollback"@,
            ManagementLifecycleOperation::Recall => "recall"@,
        }
    }

    /// The operation acts on the catalog, on no environment.
    pub open spec fn catalog_wide(self) -> bool {
        self is Publish || self is Promote || self is Recall
    }

    /// The name of an operation.
    pub fn as_str(self) -> (name: &'static str)
        ensures
            name@ == self.word(),
    {
        match self {
            ManagementLifecycleOperation::Publish => "publish",
            ManagementLifecycleOperation::Promote => "promote",
            ManagementLifecycleOperation::Subscribe => "subscribe",
            ManagementLifecycleOperation::Plan => "plan",
            ManagementLifecycleOperation::Approve => "approve",
            ManagementLifecycleOperation::Apply => "apply",
            ManagementLifecycleOperation::Rollback => "rollback",
            ManagementLifecycleOperation::Recall => "recall",
        }
    }

    /// The operation acts on the catalog: a request names no environment, and
    /// no credential of one environment can call it.
    pub fn is_catalog_wide(self) -> (answer: bool)
        ensures
            answer == self.catalog_wide(),
    {
        match self {
            ManagementLifecycleOperation::Publish => true,
            ManagementLifecycleOperation::Promote => true,
            ManagementLifecycleOperation::Recall => true,
            _ => false,
        }
    }

    /// A request names an environment.
    pub fn requires_environment(self) -> (answer: bool)
        ensures
            answer == !self.catalog_wide(),
    {
        !self.is_catalog_wide()
    }

    /// A request names the generation that it expects.
    pub fn requires_expected_generation(self) -> (answer: bool)
        ensures
            answer == !self.catalog_wide(),
    {
        match self {
            ManagementLifecycleOperation::Subscribe => true,
            ManagementLifecycleOperation::Plan => true,
            ManagementLifecycleOperation::Approve => true,
            ManagementLifecycleOperation::Apply => true,
            ManagementLifecycleOperation::Rollback => true,
            _ => false,
        }
    }
}

/// The header of a request.
#[derive(Debug, PartialEq, Eq)]
pub struct ManagementLifecycleEnvelope {
    pub version: u32,
    pub operation: String,
    pub environment: Option<String>,
    pub expected_generation: Option<u64>,
}

/// A request that was admitted.
#[derive(Debug, PartialEq, Eq)]
pub struct AdmittedManagementLifecycle {
    pub operation: ManagementLifecycleOperation,
    pub environment: Option<String>,
    pub expected_generation: Option<u64>,
}

/// Why a version is refused.
pub open spec fn lifecycle_version_refusal(version: u32) -> Option<Seq<char>> {
    refuse_unless(
        version == MANAGEMENT_LIFECYCLE_API_VERSION,
        "unsupported management lifecycle API version "@ + decimal(version as nat)
            + "; expected "@ + decimal(MANAGEMENT_LIFECYCLE_API_VERSION as nat),
    )
}

/// Require the version of the requests.
pub fn require_management_lifecycle_api_version(version: u32) -> (result: Result<(), Error>)
    ensures
        refusal(result) == lifecycle_version_refusal(version),
{
    if version != MANAGEMENT_LIFECYCLE_API_VERSION {
        let mut message = "unsupported management lifecycle API version ".to_owned();
        message.append(decimal_text(version as u64).as_str());
        message.append("; expected ");
        message.append(decimal_text(MANAGEMENT_LIFECYCLE_API_VERSION as u64).as_str());
        return Err(Error::new(message));
    }
    Ok(())
}

/// The operation of a name.
pub open spec fn operation_named(name: Seq<char>) -> Option<ManagementLifecycleOperation> {
    if name == "publish"@ {
        Some(ManagementLifecycleOperation::Publish)
    } else if name == "promote"@ {
        Some(ManagementLifecycleOperation::Promote)
    } else if name == "subscribe"@ {
        Some(ManagementLifecycleOperation::Subscribe)
    } else if name == "plan"@ {
        Some(ManagementLifecycleOperation::Plan)
    } else if name == "approve"@ {
        Some(ManagementLifecycleOperation::Approve)
    } else if name == "apply"@ {
        Some(ManagementLifecycleOperation::Apply)
    } else if name == "rollback"@ {
        Some(ManagementLifecycleOperation::Rollback)
    } else if name == "recall"@ {
        Some(ManagementLifecycleOperation::Recall)
    } else {
        None
    }
}

/// Why a name is refused.
pub open spec fn operation_refusal(name: Seq<char>) -> Option<Seq<char>> {
    refuse_unless(
        operation_named(name) is Some,
        "unknown management lifecycle operation "@ + quoted(name),
    )
}

/// The operation of a name. The vocabulary is closed.
pub fn parse_management_lifecycle_operation(name: &str) -> (result: Result<
    ManagementLifecycleOperation,
    Error,
>)
    ensures
        refusal(result) == operation_refusal(name@),
        result matches Ok(operation) ==> operation_named(name@) == Some(operation),
{
    if same(name, "publish") {
        Ok(ManagementLifecycleOperation::Publish)
    } else if same(name, "promote") {
        Ok(ManagementLifecycleOperation::Promote)
    } else if same(name, "subscribe") {
        Ok(ManagementLifecycleOperation::Subscribe)
    } else if same(name, "plan") {
        Ok(ManagementLifecycleOperation::Plan)
    } else if same(name, "approve") {
        Ok(ManagementLifecycleOperation::Approve)
    } else if same(name, "apply") {
        Ok(ManagementLifecycleOperation::Apply)
    } else if same(name, "rollback") {
        Ok(ManagementLifecycleOperation::Rollback)
    } else if same(name, "recall") {
        Ok(ManagementLifecycleOperation::Recall)
    } else {
        let mut message = "unknown management lifecycle operation ".to_owned();
        message.append(quote(name).as_str());
        Err(Error::new(message))
    }
}

/// Why a credential may not call an operation.
pub open spec fn scope_refusal(
    kind: PrincipalKind,
    granted: Option<Seq<char>>,
    operation: ManagementLifecycleOperation,
    requested: Option<Seq<char>>,
) -> Option<Seq<char>> {
    if kind == PrincipalKind::Runtime {
        Some("runtime credentials cannot call management lifecycle operations"@)
    } else if granted is None {
        None
    } else if operation.catalog_wide() {
        Some(
            "environment-scoped credentials cannot call catalog-wide management operation "@
                + operation.word(),
        )
    } else if requested is None {
        Some(
            "management operation "@ + operation.word() + " requires environment "@ + granted->0,
        )
    } else {
        refuse_unless(
            requested == granted,
            "environment-scoped credentials cannot act on another environment"@,
        )
    }
}

/// Refuse credentials of runtimes, and credentials of one environment that
/// reach beyond it.
pub fn authorize_management_lifecycle_scope(
    kind: PrincipalKind,
    granted_environment: Option<&str>,
    operation: ManagementLifecycleOperation,
    request_environment: Option<&str>,
) -> (result: Result<(), Error>)
    ensures
        refusal(result) == scope_refusal(
            kind,
            opt_str(granted_environment),
            operation,
            opt_str(request_environment),
        ),
{
    if kind == PrincipalKind::Runtime {
        return Err(
            Error::fixed("runtime credentials cannot call management lifecycle operations"),
        );
    }
    match granted_environment {
        None => Ok(()),
        Some(granted) => {
            if operation.is_catalog_wide() {
                let mut message =
                    "environment-scoped credentials cannot call catalog-wide management operation ".to_owned();
                message.append(operation.as_str());
                return Err(Error::new(message));
            }
            match request_environment {
                None => {
                    let mut message = "management operation ".to_owned();
                    message.append(operation.as_str());
                    message.append(" requires environment ");
                    message.append(granted);
                    Err(Error::new(message))
                },
                Some(requested) => {
                    if same(requested, granted) {
                        Ok(())
                    } else {
                        Err(
                            Error::fixed(
                                "environment-scoped credentials cannot act on another environment",
                            ),
                        )
                    }
                },
            }
        },
    }
}

/// Why the fields of a request do not go with its operation.
pub open spec fn fields_refusal(
    operation: ManagementLifecycleOperation,
    environment: Option<Seq<char>>,
    generation: Option<u64>,
) -> Option<Seq<char>> {
    let head = "management operation "@ + operation.word();
    if !operation.catalog_wide() && (environment is None || blank(environment->0)) {
        Some(head + " requires environment"@)
    } else if operation.catalog_wide() && environment is Some {
        Some(head + " is catalog-wide and forbids environment"@)
    } else if !operation.catalog_wide() && generation is None {
        Some(head + " requires expected_generation"@)
    } else if operation.catalog_wide() && generation is Some {
        Some(head + " forbids expected_generation"@)
    } else {
        None
    }
}

fn about(operation: ManagementLifecycleOperation, fault: &str) -> (error: Error)
    ensures
        error@ == "management operation "@ + operation.word() + fault@,
{
    let mut message = "management operation ".to_owned();
    message.append(operation.as_str());
    message.append(fault);
    Error::new(message)
}

fn check_fields(operation: ManagementLifecycleOperation, envelope: &ManagementLifecycleEnvelope) -> (result:
    Result<(), Error>)
    ensures
        refusal(result) == fields_refusal(
            operation,
            opt_text(envelope.environment),
            envelope.expected_generation,
        ),
{
    if operation.requires_environment() {
        match &envelope.environment {
            None => return Err(about(operation, " requires environment")),
            Some(environment) => {
                if environment.as_str().trim().unicode_len() == 0 {
                    return Err(about(operation, " requires environment"));
                }
            },
        }
    } else if envelope.environment.is_some() {
        return Err(about(operation, " is catalog-wide and forbids environment"));
    }
    if operation.requires_expected_generation() && envelope.expected_generation.is_none() {
        return Err(about(operation, " requires expected_generation"));
    }
    if !operation.requires_expected_generation() && envelope.expected_generation.is_some() {
        return Err(about(operation, " forbids expected_generation"));
    }
    Ok(())
}

/// Why a request is refused.
pub open spec fn lifecycle_refusal(
    envelope: ManagementLifecycleEnvelope,
    kind: PrincipalKind,
    granted: Option<Seq<char>>,
) -> Option<Seq<char>> {
    let operation = operation_named(envelope.operation@)->0;
    first_refusal(
        lifecycle_version_refusal(envelope.version),
        first_refusal(
            operation_refusal(envelope.operation@),
            first_refusal(
                fields_refusal(
                    operation,
                    opt_text(envelope.environment),
                    envelope.expected_generation,
                ),
                scope_refusal(kind, granted, operation, opt_text(envelope.environment)),
            ),
        ),
    )
}

/// Admit a request by its version, its operation, its fields and the scope of
/// the credential.
pub fn admit_management_lifecycle(
    envelope: &ManagementLifecycleEnvelope,
    kind: PrincipalKind,
    granted_environment: Option<&str>,
) -> (result: Result<AdmittedManagementLifecycle, Error>)
    ensures
        refusal(result) == lifecycle_refusal(*envelope, kind, opt_str(granted_environment)),
        result matches Ok(admitted) ==> {
            &&& operation_named(envelope.operation@) == Some(admitted.operation)
            &&& opt_text(admitted.environment) == opt_text(envelope.environment)
            &&& admitted.expected_generation == envelope.expected_generation
        },
{
    match require_management_lifecycle_api_version(envelope.version) {
        Err(error) => return Err(error),
        Ok(_) => {},
    }
    let operation = match parse_management_lifecycle_operation(&envelope.operation) {
        Err(error) => return Err(error),
        Ok(named) => named,
    };
    match check_fields(operation, envelope) {
        Err(error) => return Err(error),
        Ok(_) => {},
    }
    let requested = match &envelope.environment {
        None => None,
        Some(environment) => Some(environment.as_str()),
    };
    match authorize_management_lifecycle_scope(kind, granted_environment, operation, requested) {
        Err(error) => return Err(error),
        Ok(_) => {},
    }
    Ok(
        AdmittedManagementLifecycle {
            operation,
            environment: copy_opt(&envelope.environment),
            expected_generation: envelope.expected_generation,
        },
    )
}

/// An operation is found under its own name, and under no other.
pub proof fn names_are_the_operations(operation: ManagementLifecycleOperation, name: Seq<char>)
    ensures
        operation_named(name) == Some(operation) <==> name == operation.word(),
{
    reveal_strlit("publish");
    reveal_strlit("promote");
    reveal_strlit("subscribe");
    reveal_strlit("plan");
    reveal_strlit("approve");
    reveal_strlit("apply");
    reveal_strlit("rollback");
    reveal_strlit("recall");
    assert("publish"@[1] != "promote"@[1]);
    assert("publish"@[1] != "plan"@[1]);
    assert("promote"@[1] != "plan"@[1]);
    assert("approve"@.len() != "apply"@.len());
    assert("rollback"@.len() != "recall"@.len());
    assert("publish"@[0] != "subscribe"@[0]);
    assert("publish"@[0] != "approve"@[0]);
    assert("publish"@[0] != "apply"@[0]);
    assert("publish"@[0] != "rollback"@[0]);
    assert("publish"@[0] != "recall"@[0]);
    assert("promote"@[0] != "subscribe"@[0]);
    assert("promote"@[0] != "approve"@[0]);
    assert("promote"@[0] != "apply"@[0]);
    assert("promote"@[0] != "rollback"@[0]);
    assert("promote"@[0] != "recall"@[0]);
    assert("plan"@[0] != "subscribe"@[0]);
    assert("plan"@[0] != "approve"@[0]);
    assert("plan"@[0] != "apply"@[0]);
    assert("plan"@[0] != "rollback"@[0]);
    assert("plan"@[0] != "recall"@[0]);
    assert("subscribe"@[0] != "approve"@[0]);
    assert("subscribe"@[0] != "apply"@[0]);
    assert("subscribe"@[0] != "rollback"@[0]);
    assert("subscribe"@[0] != "recall"@[0]);
    assert("approve"@[0] != "rollback"@[0]);
    assert("approve"@[0] != "recall"@[0]);
    assert("apply"@[0] != "rollback"@[0]);
    assert("apply"@[0] != "recall"@[0]);
}

/// No credential of a runtime is admitted, whatever it asks for.
pub proof fn runtimes_are_not_admitted(
    envelope: ManagementLifecycleEnvelope,
    granted: Option<Seq<char>>,
)
    ensures
        lifecycle_refusal(envelope, PrincipalKind::Runtime, granted) is Some,
{
}

/// A credential of one environment acts on that environment alone, and never
/// on the catalog.
pub proof fn scoped_credentials_stay_in_scope(
    envelope: ManagementLifecycleEnvelope,
    kind: PrincipalKind,
    granted: Seq<char>,
)
    requires
        lifecycle_refusal(envelope, kind, Some(granted)) is None,
    ensures
        opt_text(envelope.environment) == Some(granted),
        !operation_named(envelope.operation@)->0.catalog_wide(),
{
}

/// An admitted request names an environment and a generation where its
/// operation acts on an environment, and neither where it acts on the catalog.
pub proof fn admitted_requests_are_complete(
    envelope: ManagementLifecycleEnvelope,
    kind: PrincipalKind,
    granted: Option<Seq<char>>,
)
    requires
        lifecycle_refusal(envelope, kind, granted) is None,
    ensures
        ({
            let bound = !operation_named(envelope.operation@)->0.catalog_wide();
            &&& envelope.environment is Some == bound
            &&& envelope.expected_generation is Some == bound
        }),
{
}

/// A name is read as the operation that is shown by it, and no other name is.
pub proof fn operations_are_read_by_their_names(
    operation: ManagementLifecycleOperation,
    shown: &'static str,
    name: &str,
    result: Result<ManagementLifecycleOperation, Error>,
)
    requires
        call_ensures(ManagementLifecycleOperation::as_str, (operation,), shown),
        call_ensures(parse_management_lifecycle_operation, (name,), result),
    ensures
        name@ == shown@ <==> result == Ok::<ManagementLifecycleOperation, Error>(operation),
{
    names_are_the_operations(operation, name@);
}

/// Publishing, promoting and recalling act on the catalog; everything else acts
/// on an environment, which its request names with the generation that it
/// expects.
pub proof fn operations_on_the_catalog(
    operation: ManagementLifecycleOperation,
    wide: bool,
    environment: bool,
    generation: bool,
)
    requires
        call_ensures(ManagementLifecycleOperation::is_catalog_wide, (operation,), wide),
        call_ensures(ManagementLifecycleOperation::requires_environment, (operation,), environment),
        call_ensures(
            ManagementLifecycleOperation::requires_expected_generation,
            (operation,),
            generation,
        ),
    ensures
        wide <==> operation == ManagementLifecycleOperation::Publish || operation
            == ManagementLifecycleOperation::Promote || operation
            == ManagementLifecycleOperation::Recall,
        environment == !wide,
        generation == !wide,
{
}

/// A credential may call an operation if and only if it is no runtime's and,
/// where it is of one environment, the operation acts on that environment.
pub proof fn callable_operations(
    kind: PrincipalKind,
    granted: Option<&str>,
    operation: ManagementLifecycleOperation,
    requested: Option<&str>,
    wide: bool,
    result: Result<(), Error>,
)
    requires
        call_ensures(
            authorize_management_lifecycle_scope,
            (kind, granted, operation, requested),
            result,
        ),
        call_ensures(ManagementLifecycleOperation::is_catalog_wide, (operation,), wide),
    ensures
        result is Ok <==> kind != PrincipalKind::Runtime && (granted is None || (!wide
            && requested is Some && requested->0@ == granted->0@)),
{
}

/// A request is let in if and only if it is of the first version, names an
/// operation, names an environment and a generation exactly where the operation
/// acts on an environment, and comes with a credential that may call it. What is
/// let in is what was asked for.
pub proof fn requests_that_are_let_in(
    envelope: &ManagementLifecycleEnvelope,
    kind: PrincipalKind,
    granted: Option<&str>,
    result: Result<AdmittedManagementLifecycle, Error>,
)
    requires
        call_ensures(admit_management_lifecycle, (envelope, kind, granted), result),
    ensures
        result is Ok <==> {
            let operation = operation_named(envelope.operation@);
            let wide = operation == Some(ManagementLifecycleOperation::Publish) || operation
                == Some(ManagementLifecycleOperation::Promote) || operation == Some(
                ManagementLifecycleOperation::Recall,
            );
            &&& envelope.version == 1
            &&& operation is Some
            &&& wide ==> envelope.environment is None && envelope.expected_generation is None
            &&& !wide ==> envelope.environment is Some && !blank(envelope.environment->0@)
                && envelope.expected_generation is Some
            &&& kind != PrincipalKind::Runtime
            &&& granted is Some ==> !wide && envelope.environment->0@ == granted->0@
        },
        result matches Ok(taken) ==> {
            &&& taken.operation.word() == envelope.operation@
            &&& opt_text(taken.environment) == opt_text(envelope.environment)
            &&& taken.expected_generation == envelope.expected_generation
        },
{
    if result is Ok {
        names_are_the_operations(result->Ok_0.operation, envelope.operation@);
    }
}

/// A version of the lifecycle API is served where it is the known one.
pub proof fn served_lifecycle_versions(version: u32, result: Result<(), Error>)
    requires
        call_ensures(require_management_lifecycle_api_version, (version,), result),
    ensures
        result is Ok <==> version == 1,
{
}

} // verus!
