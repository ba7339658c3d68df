//! Management operations: who is let in, what is audited and how failures are
//! classified.
use crate::auth_context::{AuthError, AuthMode, DeliveryCapability};
use crate::text::{contains, contains_text, split, split_on, texts};
use vstd::prelude::*;

verus! {

/// Why an operation failed, by what the caller is told.
#[derive(Debug, PartialEq, Eq)]
pub enum ManagementError {
    Unauthorized(String),
    Forbidden(String),
    NotFound(String),
    Unavailable(String),
    Internal(String),
}

/// Why an operation failed, as texts.
pub enum Failure {
    Unauthorized(Seq<char>),
    Forbidden(Seq<char>),
    NotFound(Seq<char>),
    Unavailable(Seq<char>),
    Internal(Seq<char>),
}

impl View for ManagementError {
    type V = Failure;

    open spec fn view(&self) -> Failure {
        match *self {
            ManagementError::Unauthorized(text) => Failure::Unauthorized(text@),
            ManagementError::Forbidden(text) => Failure::Forbidden(text@),
            ManagementError::NotFound(text) => Failure::NotFound(text@),
            ManagementError::Unavailable(text) => Failure::Unavailable(text@),
            ManagementError::Internal(text) => Failure::Internal(text@),
        }
    }
}

/// What a failure says.
pub open spec fn failure_text(failure: Failure) -> Seq<char> {
    match failure {
        Failure::Unauthorized(text) => text,
        Failure::Forbidden(text) => text,
        Failure::NotFound(text) => text,
        Failure::Unavailable(text) => text,
        Failure::Internal(text) => text,
    }
}

/// Why a result is a failure.
pub open spec fn failure<T>(result: Result<T, ManagementError>) -> Option<Failure> {
    match result {
        Ok(_) => None,
        Err(error) => Some(error@),
    }
}

impl ManagementError {
    /// What the error says.
    pub fn to_string(&self) -> (text: String)
        ensures
            text@ == failure_text(self@),
    {
        match self {
            ManagementError::Unauthorized(text) => text.clone(),
            ManagementError::Forbidden(text) => text.clone(),
            ManagementError::NotFound(text) => text.clone(),
            ManagementError::Unavailable(text) => text.clone(),
            ManagementError::Internal(text) => text.clone(),
        }
    }
}

/// Who called: the principal, whether it acts for a tenant, and what it may
/// do.
#[derive(Debug, PartialEq, Eq)]
pub struct Caller {
    pub principal: String,
    pub tenant: Option<String>,
    pub capabilities: Vec<DeliveryCapability>,
}

/// How an authentication came out, where it did not for either known reason.
#[derive(Debug, PartialEq, Eq)]
pub enum AuthFault {
    Known(AuthError),
    Other(String),
}

/// Settle an authentication. What the caller is told does not say what was
/// wrong with the credential.
pub fn settle_authentication(mode: AuthMode, outcome: Result<Caller, AuthFault>) -> (result: Result<
    Caller,
    ManagementError,
>)
    ensures
        failure(result) == (match outcome {
            Ok(caller) => if mode == AuthMode::Community && caller.tenant is Some {
                Some(Failure::Internal("community auth stack produced tenant context"@))
            } else {
                None
            },
            Err(AuthFault::Known(AuthError::InvalidCredential(_))) => Some(
                Failure::Unauthorized("invalid management credential"@),
            ),
            Err(_) => Some(Failure::Forbidden("invalid management credential"@)),
        }),
        result matches Ok(caller) ==> outcome == Ok::<Caller, AuthFault>(caller),
{
    match outcome {
        Ok(caller) => {
            if mode == AuthMode::Community && caller.tenant.is_some() {
                return Err(
                    ManagementError::Internal(
                        "community auth stack produced tenant context".to_owned(),
                    ),
                );
            }
            Ok(caller)
        },
        Err(AuthFault::Known(AuthError::InvalidCredential(_))) => Err(
            ManagementError::Unauthorized("invalid management credential".to_owned()),
        ),
        Err(_) => Err(ManagementError::Forbidden("invalid management credential".to_owned())),
    }
}

/// Require a capability of a caller.
pub fn require_capability(caller: &Caller, required: DeliveryCapability) -> (result: Result<
    (),
    ManagementError,
>)
    ensures
        failure(result) == (if caller.capabilities@.contains(required) {
            None
        } else {
            Some(Failure::Forbidden("insufficient delivery capability"@))
        }),
{
    let mut i: usize = 0;
    while i < caller.capabilities.len()
        invariant
            i <= caller.capabilities.len(),
            forall|k: int| 0 <= k < i ==> caller.capabilities@[k] != required,
        decreases caller.capabilities.len() - i,
    {
        if caller.capabilities[i] == required {
            assert(caller.capabilities@.contains(required));
            return Ok(());
        }
        i = i + 1;
    }
    Err(ManagementError::Forbidden("insufficient delivery capability".to_owned()))
}

/// Where an operation is dispatched to.
#[derive(Debug, Clone, Copy, PartialEq, Eq, Structural)]
pub enum Dispatch {
    /// The environments of the tenant.
    Tenant,
    /// All environments.
    Host,
}

/// Decide on a read: the capability, then where it goes. A host of tenants
/// whose store is not there cannot serve it.
pub fn authorize_read(caller: &Caller, tenant_mode: bool, tenant_store: bool) -> (result: Result<
    Dispatch,
    ManagementError,
>)
    ensures
        failure(result) == (if !caller.capabilities@.contains(DeliveryCapability::Read) {
            Some(Failure::Forbidden("insufficient delivery capability"@))
        } else if tenant_mode && !tenant_store {
            Some(Failure::Unavailable("tenant store unavailable"@))
        } else {
            None
        }),
        result matches Ok(dispatch) ==> (dispatch is Tenant) == tenant_mode,
{
    match require_capability(caller, DeliveryCapability::Read) {
        Err(error) => return Err(error),
        Ok(_) => {},
    }
    if !tenant_mode {
        return Ok(Dispatch::Host);
    }
    if !tenant_store {
        return Err(ManagementError::Unavailable("tenant store unavailable".to_owned()));
    }
    Ok(Dispatch::Tenant)
}

/// Decide on a reconciliation: the capability, the tenant, then where it goes.
pub fn authorize_reconcile(caller: &Caller, tenant_mode: bool, tenant_store: bool) -> (result: Result<
    Dispatch,
    ManagementError,
>)
    ensures
        failure(result) == (if !caller.capabilities@.contains(DeliveryCapability::Management) {
            Some(Failure::Forbidden("insufficient delivery capability"@))
        } else if tenant_mode && caller.tenant is None {
            Some(Failure::Forbidden("unauthenticated"@))
        } else if tenant_mode && !tenant_store {
            Some(Failure::Unavailable("tenant store unavailable"@))
        } else {
            None
        }),
        result matches Ok(dispatch) ==> (dispatch is Tenant) == tenant_mode,
{
    match require_capability(caller, DeliveryCapability::Management) {
        Err(error) => return Err(error),
        Ok(_) => {},
    }
    if !tenant_mode {
        return Ok(Dispatch::Host);
    }
    if caller.tenant.is_none() {
        return Err(ManagementError::Forbidden("unauthenticated".to_owned()));
    }
    if !tenant_store {
        return Err(ManagementError::Unavailable("tenant store unavailable".to_owned()));
    }
    Ok(Dispatch::Tenant)
}

/// What is audited before a reconciliation.
pub const RECONCILE_REQUESTED: &'static str = "reconcile.requested";

/// What is audited after a reconciliation: its failure, where it failed or an
/// environment did.
pub fn reconcile_outcome(failures: Option<usize>) -> (operation: &'static str)
    ensures
        operation@ == (if failures == Some(0usize) {
            "reconcile.completed"@
        } else {
            "reconcile.failed"@
        }),
{
    match failures {
        Some(count) => {
            if count == 0 {
                "reconcile.completed"
            } else {
                "reconcile.failed"
            }
        },
        None => "reconcile.failed",
    }
}

/// What an operation came to, as it is audited: the last part of its name.
pub open spec fn audited_outcome(operation: Seq<char>) -> Seq<char> {
    split_on(operation, '.').last()
}

/// One entry of the audit log.
#[derive(Debug, PartialEq, Eq)]
pub struct AuditEntry {
    pub id: String,
    pub occurred_at: i64,
    pub principal: String,
    pub operation: String,
    pub resource: String,
    pub outcome: String,
}

/// The audit entry of an operation on all resources.
pub fn audit_entry(id: &str, occurred_at: i64, principal: &str, operation: &str) -> (entry:
    AuditEntry)
    ensures
        entry.id@ == id@,
        entry.occurred_at == occurred_at,
        entry.principal@ == principal@,
        entry.operation@ == operation@,
        entry.resource@ == "*"@,
        entry.outcome@ == audited_outcome(operation@),
{
    let parts = split(operation, '.');
    let last = parts.len() - 1;
    assert(texts(parts@).last() == parts@[last as int]@);
    AuditEntry {
        id: id.to_owned(),
        occurred_at,
        principal: principal.to_owned(),
        operation: operation.to_owned(),
        resource: "*".to_owned(),
        outcome: parts[last].clone(),
    }
}

/// The failure of an audit.
pub fn audit_failed(fault: &str) -> (error: ManagementError)
    ensures
        error@ == Failure::Unavailable(fault@),
{
    ManagementError::Unavailable(fault.to_owned())
}

/// Settle a reconciliation by what it came to and by what the audit of that
/// came to. A failure that cannot be audited says both.
pub fn settle_reconcile<T>(
    outcome: Result<T, ManagementError>,
    audit: Result<(), ManagementError>,
) -> (result: Result<T, ManagementError>)
    ensures
        failure(result) == (match (outcome, audit) {
            (Ok(_), Ok(_)) => None,
            (Ok(_), Err(fault)) => Some(fault@),
            (Err(error), Ok(_)) => Some(error@),
            (Err(error), Err(fault)) => Some(
                Failure::Unavailable(
                    "reconciliation failed: "@ + failure_text(error@)
                        + "; recording failure audit also failed: "@ + failure_text(fault@),
                ),
            ),
        }),
        result matches Ok(report) ==> outcome == Ok::<T, ManagementError>(report),
{
    match outcome {
        Ok(report) => match audit {
            Ok(_) => Ok(report),
            Err(fault) => Err(fault),
        },
        Err(error) => match audit {
            Ok(_) => Err(error),
            Err(fault) => {
                let mut message = "reconciliation failed: ".to_owned();
                message.append(error.to_string().as_str());
                message.append("; recording failure audit also failed: ");
                message.append(fault.to_string().as_str());
                Err(ManagementError::Unavailable(message))
            },
        },
    }
}

/// Why an operation on the environments of a tenant failed.
#[derive(Debug, PartialEq, Eq)]
pub enum TenantEnvironmentError {
    StoreUnavailable,
    NotFound,
    Denied(String),
    Internal(String),
}

/// Classify the failure of an operation on the environments of a tenant. What
/// is not found is answered as any denial is.
pub fn map_tenant_error(error: TenantEnvironmentError, denial: &str) -> (result: ManagementError)
    ensures
        result@ == (match error {
            TenantEnvironmentError::StoreUnavailable => Failure::Unavailable(
                "tenant store unavailable"@,
            ),
            TenantEnvironmentError::NotFound => Failure::NotFound(denial@),
            TenantEnvironmentError::Denied(message) => Failure::Forbidden(message@),
            TenantEnvironmentError::Internal(message) => Failure::Internal(message@),
        }),
{
    match error {
        TenantEnvironmentError::StoreUnavailable => ManagementError::Unavailable(
            "tenant store unavailable".to_owned(),
        ),
        TenantEnvironmentError::NotFound => ManagementError::NotFound(denial.to_owned()),
        TenantEnvironmentError::Denied(message) => ManagementError::Forbidden(message),
        TenantEnvironmentError::Internal(message) => ManagementError::Internal(message),
    }
}

/// Classify the failure of an operation on an environment, by what it says.
pub fn map_environment_error(message: String) -> (result: ManagementError)
    ensures
        result@ == (if contains_text(message@, "not registered"@) {
            Failure::NotFound(message@)
        } else {
            Failure::Internal(message@)
        }),
{
    if contains(&message, "not registered") {
        ManagementError::NotFound(message)
    } else {
        ManagementError::Internal(message)
    }
}

/// A caller may do what one of its capabilities is for, and nothing else.
pub proof fn capabilities_are_required(
    caller: &Caller,
    required: DeliveryCapability,
    result: Result<(), ManagementError>,
)
    requires
        call_ensures(require_capability, (caller, required), result),
    ensures
        result is Ok <==> exists|i: int|
            0 <= i < caller.capabilities@.len() && #[trigger] caller.capabilities@[i] == required,
        result matches Err(error) ==> error is Forbidden,
{
    if caller.capabilities@.contains(required) {
        let i = choose|i: int|
            0 <= i < caller.capabilities@.len() && caller.capabilities@[i] == required;
        assert(caller.capabilities@[i] == required);
    }
}

/// An authentication that failed tells only that it failed, as unauthorized where
/// the credential was invalid; one that succeeded gives its caller, who acts for
/// no tenant on a community host.
pub proof fn settled_authentications(
    mode: AuthMode,
    outcome: Result<Caller, AuthFault>,
    result: Result<Caller, ManagementError>,
)
    requires
        call_ensures(settle_authentication, (mode, outcome), result),
    ensures
        result is Ok <==> outcome is Ok && !(mode == AuthMode::Community
            && outcome->Ok_0.tenant is Some),
        result matches Ok(caller) ==> outcome == Ok::<Caller, AuthFault>(caller),
        outcome is Err ==> (result is Err && failure_text(result->Err_0@)
            == "invalid management credential"@),
        outcome is Err ==> (result->Err_0 is Unauthorized <==> (outcome->Err_0 is Known
            && outcome->Err_0->Known_0 is InvalidCredential)),
{
}

/// A read is served to a caller with the capability to read, and goes to the
/// environments of its tenant on a host of tenants whose store is there.
pub proof fn served_reads(
    caller: &Caller,
    tenant_mode: bool,
    tenant_store: bool,
    result: Result<Dispatch, ManagementError>,
)
    requires
        call_ensures(authorize_read, (caller, tenant_mode, tenant_store), result),
    ensures
        result is Ok <==> caller.capabilities@.contains(DeliveryCapability::Read) && (!tenant_mode
            || tenant_store),
        !caller.capabilities@.contains(DeliveryCapability::Read) ==> result is Err
            && result->Err_0 is Forbidden,
        result matches Ok(dispatch) ==> (dispatch == Dispatch::Tenant <==> tenant_mode),
{
}

/// A reconciliation is served to a caller with the capability to manage, and goes
/// to the environments of its tenant on a host of tenants whose store is there.
pub proof fn served_reconciliations(
    caller: &Caller,
    tenant_mode: bool,
    tenant_store: bool,
    result: Result<Dispatch, ManagementError>,
)
    requires
        call_ensures(authorize_reconcile, (caller, tenant_mode, tenant_store), result),
    ensures
        result is Ok <==> caller.capabilities@.contains(DeliveryCapability::Management) && (
        !tenant_mode || (caller.tenant is Some && tenant_store)),
        !caller.capabilities@.contains(DeliveryCapability::Management) || (tenant_mode
            && caller.tenant is None) ==> result is Err && result->Err_0 is Forbidden,
        result matches Ok(dispatch) ==> (dispatch == Dispatch::Tenant <==> tenant_mode),
{
}

/// A reconciliation is audited as completed if and only if it ran and no
/// environment failed.
pub proof fn audited_reconciliations(failures: Option<usize>, operation: &'static str)
    requires
        call_ensures(reconcile_outcome, (failures,), operation),
    ensures
        failures == Some(0usize) ==> operation@ == "reconcile.completed"@,
        failures != Some(0usize) ==> operation@ == "reconcile.failed"@,
{
}

/// A reconciliation succeeded for its caller if and only if it succeeded and its
/// audit was recorded.
pub proof fn settled_reconciliations<T>(
    outcome: Result<T, ManagementError>,
    audit: Result<(), ManagementError>,
    result: Result<T, ManagementError>,
)
    requires
        call_ensures(settle_reconcile::<T>, (outcome, audit), result),
    ensures
        result is Ok <==> outcome is Ok && audit is Ok,
        result is Ok ==> result->Ok_0 == outcome->Ok_0,
        outcome is Ok && audit is Err ==> result->Err_0@ == audit->Err_0@,
        outcome is Err && audit is Ok ==> result->Err_0@ == outcome->Err_0@,
        outcome is Err && audit is Err ==> result->Err_0 is Unavailable,
{
}

/// Failures keep their kind: what is missing is not found, what is denied is
/// forbidden, and a store that is away is unavailable.
pub proof fn failures_keep_their_kind(
    error: TenantEnvironmentError,
    denial: &str,
    result: ManagementError,
)
    requires
        call_ensures(map_tenant_error, (error, denial), result),
    ensures
        error is StoreUnavailable <==> result is Unavailable,
        error is NotFound <==> result is NotFound,
        error is Denied <==> result is Forbidden,
        error is Internal <==> result is Internal,
        error is NotFound ==> failure_text(result@) == denial@,
{
}

/// An environment that is not registered is not found; other failures are
/// internal.
pub proof fn unregistered_environments_are_not_found(message: String, result: ManagementError)
    requires
        call_ensures(map_environment_error, (message,), result),
    ensures
        result is NotFound <==> contains_text(message@, "not registered"@),
        result is NotFound || result is Internal,
        failure_text(result@) == message@,
{
}

} // verus!
