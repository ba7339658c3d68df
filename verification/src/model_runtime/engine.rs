//! Inference engines: how a candidate is started, probed and stopped.
use crate::error::{first_refusal, refusal, refuse_unless, Error};
use crate::manifest::ModelHealthSection;
use crate::text::{
    ascii_lower, begins_with, contains, contains_text, decimal, decimal_text, opt_text, parse_i64,
    quote, quoted, same, signed_value, starts_with, strip_prefix, texts, trimmed,
};
use vstd::prelude::*;

verus! {

/// The request to start a candidate engine for one generation.
#[derive(Debug, PartialEq, Eq)]
pub struct EngineStartRequest {
    pub product_name: String,
    pub product_version: String,
    pub weights_path: Option<String>,
    pub port: u16,
    /// Loopback, for the reference engines.
    pub bind_host: String,
    pub engine: String,
    pub health_endpoint: String,
    pub generation_id: String,
}

/// What a start request says.
pub struct StartModel {
    pub product_name: Seq<char>,
    pub product_version: Seq<char>,
    pub weights_path: Option<Seq<char>>,
    pub port: u16,
    pub bind_host: Seq<char>,
    pub engine: Seq<char>,
    pub health_endpoint: Seq<char>,
    pub generation_id: Seq<char>,
}

impl View for EngineStartRequest {
    type V = StartModel;

    open spec fn view(&self) -> StartModel {
        StartModel {
            product_name: self.product_name@,
            product_version: self.product_version@,
            weights_path: opt_text(self.weights_path),
            port: self.port,
            bind_host: self.bind_host@,
            engine: self.engine@,
            health_endpoint: self.health_endpoint@,
            generation_id: self.generation_id@,
        }
    }
}

/// A started engine.
#[derive(Debug, PartialEq, Eq)]
pub struct EngineHandle {
    pub generation_id: String,
    pub port: u16,
    pub bind_host: String,
    /// Private to the engine, never a secret.
    pub marker: String,
}

/// What a handle says.
pub struct HandleModel {
    pub generation_id: Seq<char>,
    pub port: u16,
    pub bind_host: Seq<char>,
    pub marker: Seq<char>,
}

impl View for EngineHandle {
    type V = HandleModel;

    open spec fn view(&self) -> HandleModel {
        HandleModel {
            generation_id: self.generation_id@,
            port: self.port,
            bind_host: self.bind_host@,
            marker: self.marker@,
        }
    }
}

impl EngineHandle {
    /// A copy of the handle.
    pub fn copy(&self) -> (copy: EngineHandle)
        ensures
            copy@ == self@,
    {
        EngineHandle {
            generation_id: self.generation_id.clone(),
            port: self.port,
            bind_host: self.bind_host.clone(),
            marker: self.marker.clone(),
        }
    }
}

/// Control of an inference engine.
pub trait InferenceEngineProcess: Send + Sync {
    /// Start a candidate.
    fn start_candidate(&self, request: &EngineStartRequest) -> Result<EngineHandle, Error>;

    /// Probe a candidate.
    fn smoke(&self, handle: &EngineHandle, health: &ModelHealthSection) -> Result<(), Error>;

    /// Stop an engine.
    fn stop(&self, handle: &EngineHandle) -> Result<(), Error>;
}

/// A host is the loopback of the machine.
pub open spec fn loopback_host(host: Seq<char>) -> bool {
    host == "127.0.0.1"@ || host == "::1"@ || host == "localhost"@
}

/// Why an engine may not bind to a host and a port.
pub open spec fn bind_refusal(host: Seq<char>, port: u16) -> Option<Seq<char>> {
    if port == 0 {
        Some("model runtime port must not be zero"@)
    } else {
        refuse_unless(
            loopback_host(trimmed(host)),
            "reference model engine must bind loopback only, got host "@ + quoted(trimmed(host)),
        )
    }
}

/// Require that an engine binds to loopback.
pub fn require_loopback_bind(host: &str, port: u16) -> (result: Result<(), Error>)
    ensures
        refusal(result) == bind_refusal(host@, port),
{
    if port == 0 {
        return Err(Error::fixed("model runtime port must not be zero"));
    }
    let inner = host.trim();
    if !same(inner, "127.0.0.1") && !same(inner, "::1") && !same(inner, "localhost") {
        let mut message =
            "reference model engine must bind loopback only, got host ".to_owned();
        message.append(quote(inner).as_str());
        return Err(Error::new(message));
    }
    Ok(())
}

/// An endpoint is plain HTTP on the loopback of the machine.
pub open spec fn loopback_endpoint(endpoint: Seq<char>) -> bool {
    begins_with(endpoint, "http://127.0.0.1"@) || begins_with(endpoint, "http://localhost"@)
        || begins_with(endpoint, "http://[::1]"@)
}

/// Why a health endpoint is refused.
pub open spec fn endpoint_refusal(endpoint: Seq<char>) -> Option<Seq<char>> {
    refuse_unless(
        loopback_endpoint(trimmed(endpoint)),
        "reference model engine health endpoint must use loopback HTTP, got "@ + quoted(
            trimmed(endpoint),
        ),
    )
}

/// Require a health endpoint on loopback.
pub fn require_loopback_health_endpoint(endpoint: &str) -> (result: Result<(), Error>)
    ensures
        refusal(result) == endpoint_refusal(endpoint@),
{
    let inner = endpoint.trim();
    if !(starts_with(inner, "http://127.0.0.1") || starts_with(inner, "http://localhost")
        || starts_with(inner, "http://[::1]")) {
        let mut message =
            "reference model engine health endpoint must use loopback HTTP, got ".to_owned();
        message.append(quote(inner).as_str());
        return Err(Error::new(message));
    }
    Ok(())
}

/// The host to bind to for a health endpoint.
pub open spec fn bind_host(endpoint: Seq<char>) -> Seq<char> {
    if contains_text(endpoint, "[::1]"@) {
        "::1"@
    } else {
        "127.0.0.1"@
    }
}

/// The host to bind to for a health endpoint.
pub fn bind_host_from_health_endpoint(endpoint: &str) -> (result: Result<String, Error>)
    ensures
        refusal(result) == endpoint_refusal(endpoint@),
        result matches Ok(host) ==> host@ == bind_host(endpoint@),
{
    match require_loopback_health_endpoint(endpoint) {
        Err(error) => Err(error),
        Ok(_) => {
            if contains(endpoint, "[::1]") {
                Ok("::1".to_owned())
            } else {
                Ok("127.0.0.1".to_owned())
            }
        },
    }
}

/// A deterministic engine that opens no sockets and starts no processes, with
/// the lifecycle of a real one.
#[derive(Debug, Clone, Copy, PartialEq, Eq, Structural)]
pub struct FakeInferenceEngine {
    /// Fail the probe after a start.
    pub fail_smoke: bool,
    /// Fail the start.
    pub fail_start: bool,
}

impl Default for FakeInferenceEngine {
    /// An engine that does not fail.
    fn default() -> (engine: FakeInferenceEngine)
        ensures
            !engine.fail_smoke,
            !engine.fail_start,
    {
        FakeInferenceEngine { fail_smoke: false, fail_start: false }
    }
}

/// Why the fake engine does not start a candidate.
pub open spec fn fake_start_refusal(engine: FakeInferenceEngine, request: StartModel) -> Option<
    Seq<char>,
> {
    first_refusal(
        bind_refusal(request.bind_host, request.port),
        first_refusal(
            refuse_unless(
                !engine.fail_start,
                "fake engine refused to start candidate generation "@ + request.generation_id,
            ),
            refuse_unless(
                request.engine == "llama.cpp"@,
                "reference plugin supports runtime.engine=llama.cpp only, got "@ + request.engine,
            ),
        ),
    )
}

/// Why the probe of the fake engine fails.
pub open spec fn fake_smoke_refusal(
    engine: FakeInferenceEngine,
    generation_id: Seq<char>,
    endpoint: Seq<char>,
) -> Option<Seq<char>> {
    first_refusal(
        endpoint_refusal(endpoint),
        refuse_unless(
            !engine.fail_smoke,
            "fake engine smoke failed for generation "@ + generation_id + " at "@ + endpoint,
        ),
    )
}

impl InferenceEngineProcess for FakeInferenceEngine {
    fn start_candidate(&self, request: &EngineStartRequest) -> (result: Result<EngineHandle, Error>)
        ensures
            refusal(result) == fake_start_refusal(*self, request@),
            result matches Ok(handle) ==> handle@ == (HandleModel {
                generation_id: request@.generation_id,
                port: request@.port,
                bind_host: request@.bind_host,
                marker: "fake:"@ + request@.generation_id,
            }),
    {
        match require_loopback_bind(&request.bind_host, request.port) {
            Err(error) => return Err(error),
            Ok(_) => {},
        }
        if self.fail_start {
            let mut message = "fake engine refused to start candidate generation ".to_owned();
            message.append(request.generation_id.as_str());
            return Err(Error::new(message));
        }
        if !same(&request.engine, "llama.cpp") {
            let mut message =
                "reference plugin supports runtime.engine=llama.cpp only, got ".to_owned();
            message.append(request.engine.as_str());
            return Err(Error::new(message));
        }
        let mut marker = "fake:".to_owned();
        marker.append(request.generation_id.as_str());
        Ok(
            EngineHandle {
                generation_id: request.generation_id.clone(),
                port: request.port,
                bind_host: request.bind_host.clone(),
                marker,
            },
        )
    }

    fn smoke(&self, handle: &EngineHandle, health: &ModelHealthSection) -> (result: Result<
        (),
        Error,
    >)
        ensures
            refusal(result) == fake_smoke_refusal(
                *self,
                handle@.generation_id,
                health.endpoint@,
            ),
    {
        match require_loopback_health_endpoint(&health.endpoint) {
            Err(error) => return Err(error),
            Ok(_) => {},
        }
        if self.fail_smoke {
            let mut message = "fake engine smoke failed for generation ".to_owned();
            message.append(handle.generation_id.as_str());
            message.append(" at ");
            message.append(health.endpoint.as_str());
            return Err(Error::new(message));
        }
        Ok(())
    }

    fn stop(&self, handle: &EngineHandle) -> (result: Result<(), Error>)
        ensures
            result is Ok,
    {
        Ok(())
    }
}

/// Launches the llama.cpp server, an external binary, on loopback.
#[derive(Debug, PartialEq, Eq)]
pub struct LlamaCppProcessLauncher {
    pub binary: String,
}

/// What a health probe brought.
#[derive(Debug, PartialEq, Eq)]
pub enum Probe {
    /// The endpoint answered with success.
    Success,
    /// The endpoint answered with another status.
    Status(String),
    /// The endpoint did not answer.
    Failed(String),
}

/// Why the launcher does not start a candidate.
pub open spec fn launch_refusal(request: StartModel) -> Option<Seq<char>> {
    first_refusal(
        bind_refusal(request.bind_host, request.port),
        first_refusal(
            refuse_unless(
                request.engine == "llama.cpp"@,
                "llama.cpp launcher only supports runtime.engine=llama.cpp, got "@
                    + request.engine,
            ),
            refuse_unless(
                request.weights_path is Some,
                "llama.cpp launcher requires verified weights path"@,
            ),
        ),
    )
}

impl LlamaCppProcessLauncher {
    /// The launcher of a configured binary, or of `llama-server`.
    pub fn configured(server: Option<&str>) -> (launcher: LlamaCppProcessLauncher)
        ensures
            launcher.binary@ == (match server {
                Some(binary) => binary@,
                None => "llama-server"@,
            }),
    {
        match server {
            Some(binary) => LlamaCppProcessLauncher { binary: binary.to_owned() },
            None => LlamaCppProcessLauncher { binary: "llama-server".to_owned() },
        }
    }

    /// The arguments with which the server is started.
    pub fn arguments(request: &EngineStartRequest) -> (result: Result<Vec<String>, Error>)
        ensures
            refusal(result) == launch_refusal(request@),
            result matches Ok(list) ==> texts(list@) == seq![
                "--host"@,
                request@.bind_host,
                "--port"@,
                decimal(request@.port as nat),
                "--model"@,
                request@.weights_path->0,
            ],
    {
        match require_loopback_bind(&request.bind_host, request.port) {
            Err(error) => return Err(error),
            Ok(_) => {},
        }
        if !same(&request.engine, "llama.cpp") {
            let mut message =
                "llama.cpp launcher only supports runtime.engine=llama.cpp, got ".to_owned();
            message.append(request.engine.as_str());
            return Err(Error::new(message));
        }
        match &request.weights_path {
            None => Err(Error::fixed("llama.cpp launcher requires verified weights path")),
            Some(weights) => {
                let mut list: Vec<String> = Vec::new();
                list.push("--host".to_owned());
                list.push(request.bind_host.clone());
                list.push("--port".to_owned());
                list.push(decimal_text(request.port as u64));
                list.push("--model".to_owned());
                list.push(weights.clone());
                assert(texts(list@) =~= seq![
                    "--host"@,
                    request@.bind_host,
                    "--port"@,
                    decimal(request@.port as nat),
                    "--model"@,
                    request@.weights_path->0,
                ]);
                Ok(list)
            },
        }
    }

    /// The handle of a started server.
    pub fn started(request: &EngineStartRequest, pid: u32) -> (handle: EngineHandle)
        ensures
            handle@ == (HandleModel {
                generation_id: request@.generation_id,
                port: request@.port,
                bind_host: request@.bind_host,
                marker: "pid:"@ + decimal(pid as nat),
            }),
    {
        let mut marker = "pid:".to_owned();
        marker.append(decimal_text(pid as u64).as_str());
        EngineHandle {
            generation_id: request.generation_id.clone(),
            port: request.port,
            bind_host: request.bind_host.clone(),
            marker,
        }
    }

    /// The error where the binary cannot be started.
    pub fn not_started(&self) -> (error: Error)
        ensures
            error@ == "starting llama.cpp candidate via "@ + self.binary@
                + " (set TENKAI_LLAMA_SERVER or use FakeInferenceEngine)"@,
    {
        let mut message = "starting llama.cpp candidate via ".to_owned();
        message.append(self.binary.as_str());
        message.append(" (set TENKAI_LLAMA_SERVER or use FakeInferenceEngine)");
        Error::new(message)
    }

    /// For how many seconds one probe waits, at most.
    pub fn probe_seconds(health: &ModelHealthSection) -> (seconds: u64)
        ensures
            seconds == (if health.max_startup_seconds < 1 {
                1
            } else if health.max_startup_seconds > 60 {
                60
            } else {
                health.max_startup_seconds as int
            }),
    {
        if health.max_startup_seconds < 1 {
            1
        } else if health.max_startup_seconds > 60 {
            60
        } else {
            health.max_startup_seconds as u64
        }
    }

    /// For how many seconds probes are repeated, at most.
    pub fn startup_seconds(health: &ModelHealthSection) -> (seconds: u64)
        ensures
            seconds == (if health.max_startup_seconds < 1 {
                1
            } else {
                health.max_startup_seconds as int
            }),
    {
        if health.max_startup_seconds < 1 {
            1
        } else {
            health.max_startup_seconds as u64
        }
    }

    /// What a probe says of why the server is not up, if it is not.
    pub fn probe_fault(health: &ModelHealthSection, probe: &Probe) -> (fault: Option<String>)
        ensures
            opt_text(fault) == (match *probe {
                Probe::Success => None,
                Probe::Status(status) => Some(
                    "health endpoint "@ + health.endpoint@ + " returned "@ + status@,
                ),
                Probe::Failed(reason) => Some(reason@),
            }),
    {
        match probe {
            Probe::Success => None,
            Probe::Status(status) => {
                let mut text = "health endpoint ".to_owned();
                text.append(health.endpoint.as_str());
                text.append(" returned ");
                text.append(status.as_str());
                Some(text)
            },
            Probe::Failed(reason) => Some(reason.clone()),
        }
    }

    /// The error where no probe succeeded in time.
    pub fn not_up(handle: &EngineHandle, health: &ModelHealthSection, fault: Option<&str>) -> (error:
        Error)
        ensures
            error@ == "llama.cpp smoke failed for generation "@ + handle@.generation_id + " at "@
                + health.endpoint@ + ": "@ + (match fault {
                Some(text) => text@,
                None => "health probe did not run"@,
            }),
    {
        let mut message = "llama.cpp smoke failed for generation ".to_owned();
        message.append(handle.generation_id.as_str());
        message.append(" at ");
        message.append(health.endpoint.as_str());
        message.append(": ");
        match fault {
            Some(text) => {
                message.append(text);
            },
            None => {
                message.append("health probe did not run");
            },
        }
        Error::new(message)
    }

    /// The process to stop for a handle.
    pub fn stop_target(handle: &EngineHandle) -> (pid: Option<i32>)
        ensures
            pid == process_of(handle@.marker),
    {
        match strip_prefix(&handle.marker, "pid:") {
            None => None,
            Some(number) => match parse_i64(number) {
                None => None,
                Some(value) => {
                    if -2147483648 <= value && value <= 2147483647 {
                        Some(value as i32)
                    } else {
                        None
                    }
                },
            },
        }
    }
}

/// The process that a marker names.
pub open spec fn process_of(marker: Seq<char>) -> Option<i32> {
    let value = signed_value(marker.skip("pid:"@.len() as int));
    if begins_with(marker, "pid:"@) && value is Some && i32::MIN <= value->0 <= i32::MAX {
        Some(value->0 as i32)
    } else {
        None
    }
}

/// A flag is set: `1`, or `true` in any case.
pub open spec fn flag_set(value: Seq<char>) -> bool {
    value == "1"@ || value.map_values(|c: char| ascii_lower(c)) == "true"@
}

/// The host runs the real server: a binary is configured, or a flag asks for
/// it.
pub fn uses_real_engine(server_configured: bool, flag: Option<&str>) -> (answer: bool)
    ensures
        answer == (server_configured || (flag is Some && flag_set(flag->0@))),
{
    if server_configured {
        return true;
    }
    match flag {
        None => false,
        Some(value) => same(value, "1") || same(value.to_ascii_lowercase().as_str(), "true"),
    }
}

/// An engine may bind to the loopback of the machine alone, on a port.
pub proof fn engines_bind_to_loopback(host: &str, port: u16, result: Result<(), Error>)
    requires
        call_ensures(require_loopback_bind, (host, port), result),
    ensures
        result is Ok <==> port > 0 && (trimmed(host@) == "127.0.0.1"@ || trimmed(host@) == "::1"@
            || trimmed(host@) == "localhost"@),
{
}

/// A health endpoint is plain HTTP on loopback, and the host to bind to is the
/// loopback address of its family.
pub proof fn health_endpoints_are_on_loopback(endpoint: &str, result: Result<String, Error>)
    requires
        call_ensures(bind_host_from_health_endpoint, (endpoint,), result),
    ensures
        result is Ok <==> begins_with(trimmed(endpoint@), "http://127.0.0.1"@) || begins_with(
            trimmed(endpoint@),
            "http://localhost"@,
        ) || begins_with(trimmed(endpoint@), "http://[::1]"@),
        result matches Ok(host) ==> {
            &&& contains_text(endpoint@, "[::1]"@) ==> host@ == "::1"@
            &&& !contains_text(endpoint@, "[::1]"@) ==> host@ == "127.0.0.1"@
        },
{
}

/// An endpoint is accepted exactly where a host to bind to can be told.
pub proof fn endpoint_check_agrees_with_the_host(
    endpoint: &str,
    checked: Result<(), Error>,
    host: Result<String, Error>,
)
    requires
        call_ensures(require_loopback_health_endpoint, (endpoint,), checked),
        call_ensures(bind_host_from_health_endpoint, (endpoint,), host),
    ensures
        checked is Ok <==> host is Ok,
        checked is Err ==> checked->Err_0@ == host->Err_0@,
{
}

/// The fake engine starts what a real one would, unless it is told to fail,
/// and hands back where it runs.
pub proof fn fake_engine_starts(
    engine: &FakeInferenceEngine,
    request: &EngineStartRequest,
    bound: Result<(), Error>,
    host: &str,
    result: Result<EngineHandle, Error>,
)
    requires
        call_ensures(FakeInferenceEngine::start_candidate, (engine, request), result),
        host@ == request.bind_host@,
        call_ensures(require_loopback_bind, (host, request.port), bound),
    ensures
        result is Ok <==> bound is Ok && !engine.fail_start && request.engine@ == "llama.cpp"@,
        result matches Ok(handle) ==> {
            &&& handle.generation_id@ == request.generation_id@
            &&& handle.port == request.port
            &&& handle.bind_host@ == request.bind_host@
        },
{
}

/// The fake engine is found up on loopback, unless it is told to fail; it can
/// always be stopped.
pub proof fn fake_engine_is_probed(
    engine: &FakeInferenceEngine,
    handle: &EngineHandle,
    health: &ModelHealthSection,
    endpoint: &str,
    checked: Result<(), Error>,
    probed: Result<(), Error>,
    stopped: Result<(), Error>,
)
    requires
        call_ensures(FakeInferenceEngine::smoke, (engine, handle, health), probed),
        call_ensures(FakeInferenceEngine::stop, (engine, handle), stopped),
        endpoint@ == health.endpoint@,
        call_ensures(require_loopback_health_endpoint, (endpoint,), checked),
    ensures
        probed is Ok <==> checked is Ok && !engine.fail_smoke,
        stopped is Ok,
{
}

/// The server is started on the requested host and port with the requested
/// weights, on loopback, and not without weights.
pub proof fn server_arguments_name_what_is_requested(
    request: &EngineStartRequest,
    result: Result<Vec<String>, Error>,
)
    requires
        call_ensures(LlamaCppProcessLauncher::arguments, (request,), result),
    ensures
        result is Ok <==> request.port > 0 && (trimmed(request.bind_host@) == "127.0.0.1"@
            || trimmed(request.bind_host@) == "::1"@ || trimmed(request.bind_host@)
            == "localhost"@) && request.engine@ == "llama.cpp"@ && request.weights_path is Some,
        result matches Ok(list) ==> {
            &&& list@.len() == 6
            &&& list@[0]@ == "--host"@ && list@[1]@ == request.bind_host@
            &&& list@[2]@ == "--port"@ && list@[3]@ == decimal(request.port as nat)
            &&& list@[4]@ == "--model"@ && list@[5]@ == request.weights_path->0@
        },
{
    if result is Ok {
        let list = result->Ok_0;
        let all = texts(list@);
        assert(all.len() == 6);
        assert(all[0] == list@[0]@ && all[1] == list@[1]@ && all[2] == list@[2]@);
        assert(all[3] == list@[3]@ && all[4] == list@[4]@ && all[5] == list@[5]@);
    }
}

/// The process that is stopped for a handle is the one that was started for
/// it.
pub proof fn started_process_is_stopped(
    request: &EngineStartRequest,
    pid: u32,
    handle: EngineHandle,
    target: Option<i32>,
)
    requires
        call_ensures(LlamaCppProcessLauncher::started, (request, pid), handle),
        call_ensures(LlamaCppProcessLauncher::stop_target, (&handle,), target),
    ensures
        pid <= i32::MAX ==> target is Some && target->0 == pid,
        pid > i32::MAX ==> target is None,
        handle.generation_id@ == request.generation_id@,
        handle.port == request.port,
        handle.bind_host@ == request.bind_host@,
{
    let marker = handle@.marker;
    let number = decimal(pid as nat);
    assert(marker == "pid:"@ + number);
    assert(marker.skip("pid:"@.len() as int) =~= number);
    assert(marker.take("pid:"@.len() as int) =~= "pid:"@);
    crate::text::lemma_decimal_int_reads_back(pid as int);
}

/// A handle of the fake engine names no process to stop.
pub proof fn fake_engine_has_no_process(
    engine: &FakeInferenceEngine,
    request: &EngineStartRequest,
    result: Result<EngineHandle, Error>,
    handle: &EngineHandle,
    target: Option<i32>,
)
    requires
        call_ensures(FakeInferenceEngine::start_candidate, (engine, request), result),
        result == Ok::<EngineHandle, Error>(*handle),
        call_ensures(LlamaCppProcessLauncher::stop_target, (handle,), target),
    ensures
        target is None,
{
    reveal_strlit("fake:");
    reveal_strlit("pid:");
    let marker = handle@.marker;
    assert(marker == "fake:"@ + request@.generation_id);
    assert(marker[0] == 'f');
    if begins_with(marker, "pid:"@) {
        assert(marker.take(4)[0] == marker[0]);
    }
}

/// A probe waits for a second at least and for a minute at most, and never
/// longer than the probes are repeated.
pub proof fn probes_are_bounded(health: &ModelHealthSection, one: u64, all: u64)
    requires
        call_ensures(LlamaCppProcessLauncher::probe_seconds, (health,), one),
        call_ensures(LlamaCppProcessLauncher::startup_seconds, (health,), all),
    ensures
        1 <= one <= 60,
        one <= all,
        1 <= health.max_startup_seconds <= 60 ==> one == health.max_startup_seconds,
        health.max_startup_seconds >= 1 ==> all == health.max_startup_seconds,
        health.max_startup_seconds == 0 ==> one == 1 && all == 1,
        health.max_startup_seconds > 60 ==> one == 60,
{
}

/// A probe has no fault exactly where the endpoint answered with success.
pub proof fn success_has_no_fault(
    health: &ModelHealthSection,
    probe: &Probe,
    fault: Option<String>,
)
    requires
        call_ensures(LlamaCppProcessLauncher::probe_fault, (health, probe), fault),
    ensures
        fault is None <==> probe is Success,
        probe matches Probe::Failed(reason) ==> fault->0@ == reason@,
{
}

/// The real server runs where a binary is configured or a flag says so, and
/// not by a flag with another value.
pub proof fn real_engine_is_asked_for(configured: bool, flag: Option<&str>, answer: bool)
    requires
        call_ensures(uses_real_engine, (configured, flag), answer),
    ensures
        configured ==> answer,
        flag is Some && (flag->0@ == "1"@ || flag->0@ == "true"@) ==> answer,
        !configured && flag is None ==> !answer,
        !configured && flag is Some && flag->0@.len() != 1 && flag->0@.len() != 4 ==> !answer,
{
    reveal_strlit("1");
    reveal_strlit("true");
    if flag is Some {
        let low = flag->0@.map_values(|c: char| ascii_lower(c));
        assert(low.len() == flag->0@.len());
        assert("1"@.len() == 1 && "true"@.len() == 4);
        if flag->0@ == "true"@ {
            assert(low =~= "true"@);
        }
    }
}

/// The launcher runs the configured binary, and one of its own name without.
pub proof fn configured_binary_is_launched(
    server: Option<&str>,
    launcher: LlamaCppProcessLauncher,
)
    requires
        call_ensures(LlamaCppProcessLauncher::configured, (server,), launcher),
    ensures
        server is Some ==> launcher.binary@ == server->0@,
        server is None ==> launcher.binary@ == "llama-server"@,
{
}

} // verus!
