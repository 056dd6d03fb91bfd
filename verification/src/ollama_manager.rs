//! The lifecycle of the local model service, as far as it is decided here:
//! whether it may be started, on which port it is looked for, what a probe of
//! its port means, what its status is, and how long it is waited for.
//! Starting and stopping the process, sending the requests and sleeping is the
//! caller's part: each function here takes what the caller found out and says
//! what to do next.
//!
//! Whether an answer's status code is a success is asked of `reqwest`, through
//! one small function whose contract is trusted and not proved.

use vstd::prelude::*;
use vstd::string::StringExecFns;
use crate::text::text_view;
use crate::text::text_views;

verus! {

/// The port on which the service is expected.
pub const DEFAULT_PORT: u16 = 11434;

/// Seconds that a process is given to come up before its port is probed.
pub const START_GRACE_SECS: u64 = 2;

/// Seconds after which a probe of a port is given up.
pub const PROBE_TIMEOUT_SECS: u64 = 2;

/// Seconds after which a request for the list of models is given up.
pub const FETCH_TIMEOUT_SECS: u64 = 5;

/// Milliseconds between two looks at the service while it is waited for.
pub const POLL_INTERVAL_MILLIS: u64 = 500;

/// Nanoseconds in a second.
pub const NANOS_PER_SEC: u128 = 1_000_000_000;

/// What is known of the model service.
#[derive(Debug)]
pub struct OllamaStatus {
    pub running: bool,
    pub port: u16,
    pub version: Option<String>,
    pub models: Vec<String>,
}

/// The status of the service as a mathematical value.
pub struct StatusView {
    pub running: bool,
    pub port: u16,
    pub version: Option<Seq<char>>,
    pub models: Seq<Seq<char>>,
}

impl View for OllamaStatus {
    type V = StatusView;

    open spec fn view(&self) -> StatusView {
        StatusView {
            running: self.running,
            port: self.port,
            version: text_view(self.version),
            models: text_views(self.models@),
        }
    }
}

/// What a probe of the service's port gave, as a mathematical value: whether
/// the service answered, or why the probe broke down.
pub open spec fn probe_view(probe: Result<bool, String>) -> Result<bool, Seq<char>> {
    match probe {
        Ok(answered) => Ok(answered),
        Err(reason) => Err(reason@),
    }
}

/// What a request to the service gave, as a mathematical value: the status
/// code of the answer, or why there was none.
pub open spec fn reply_view(reply: Result<u16, String>) -> Result<u16, Seq<char>> {
    match reply {
        Ok(code) => Ok(code),
        Err(reason) => Err(reason@),
    }
}

/// What listing the models gave, as a mathematical value: their names, or why
/// they could not be listed.
pub open spec fn listing_view(listing: Result<Vec<String>, String>) -> Result<
    Seq<Seq<char>>,
    Seq<char>,
> {
    match listing {
        Ok(names) => Ok(text_views(names@)),
        Err(reason) => Err(reason@),
    }
}

/// The status code stands for a success: it lies in 200 to 299.
pub open spec fn success_code(code: u16) -> bool {
    200 <= code <= 299
}

/// Asks `reqwest::StatusCode::is_success` of the status with the code `code`.
///
/// Trusted: the answer is whether the code lies in 200 to 299. A number that
/// `StatusCode::from_u16` refuses lies below 100 or above 999, and is no
/// success.
#[verifier::external_body]
fn is_success(code: u16) -> (success: bool)
    ensures
        success == success_code(code),
{
    match reqwest::StatusCode::from_u16(code) {
        Ok(status) => status.is_success(),
        Err(_) => false,
    }
}

/// What a probe of the service's port means: the service answers if the
/// request was answered with a success; a request without an answer is a
/// service that does not answer, and no error.
pub open spec fn probe_of(reply: Result<u16, Seq<char>>) -> Result<bool, Seq<char>> {
    match reply {
        Ok(code) => Ok(success_code(code)),
        Err(_) => Ok(false),
    }
}

/// The ports on which the service is looked for, in this order.
pub open spec fn common_ports() -> Seq<u16> {
    seq![11434u16, 11435u16, 11436u16]
}

/// The first of the common ports, from the one at `from` on, that answered, if
/// `answers[i]` tells whether the common port `i` did.
pub open spec fn first_answering(answers: Seq<bool>, from: int) -> Option<u16>
    decreases common_ports().len() - from,
{
    if from < 0 || from >= common_ports().len() || from >= answers.len() {
        None
    } else if answers[from] {
        Some(common_ports()[from])
    } else {
        first_answering(answers, from + 1)
    }
}

/// What the caller has to do next while the service's port is looked for.
#[derive(Clone, Copy, Debug, PartialEq, Eq, Structural)]
pub enum DetectStep {
    /// Probe this port, and come back with one more answer.
    Probe(u16),
    /// The service answers on this port.
    Found(u16),
    /// The service answers on none of the common ports.
    NotFound,
}

/// One step of looking for the service's port, given whether each of the
/// common ports that were probed so far answered: the first that answered is
/// the service's; while none has, the next one is probed, until none is left.
pub open spec fn detect_step(answers: Seq<bool>) -> DetectStep {
    match first_answering(answers, 0) {
        Some(port) => DetectStep::Found(port),
        None => if answers.len() < common_ports().len() {
            DetectStep::Probe(common_ports()[answers.len() as int])
        } else {
            DetectStep::NotFound
        },
    }
}

/// An event while the service's status is being found out.
#[derive(Debug)]
pub enum StatusEvent {
    /// The service's port was looked for, and found or not.
    Detected(Option<u16>),
    /// This port was probed.
    Probed(u16, Result<bool, String>),
    /// The models of the service on this port were listed, or could not be.
    Listed(u16, Result<Vec<String>, String>),
}

/// What the caller has to do next while the service's status is being found out.
#[derive(Debug)]
pub enum StatusStep {
    /// Probe this port.
    Probe(u16),
    /// List the models of the service on this port.
    ListModels(u16),
    /// This is the status.
    Finished(OllamaStatus),
}

/// A status event as a mathematical value.
pub enum StatusEventView {
    Detected(Option<u16>),
    Probed(u16, Result<bool, Seq<char>>),
    Listed(u16, Result<Seq<Seq<char>>, Seq<char>>),
}

/// A status step as a mathematical value.
pub enum StatusStepView {
    Probe(u16),
    ListModels(u16),
    Finished(StatusView),
}

impl View for StatusEvent {
    type V = StatusEventView;

    open spec fn view(&self) -> StatusEventView {
        match self {
            StatusEvent::Detected(found) => StatusEventView::Detected(*found),
            StatusEvent::Probed(port, probe) => StatusEventView::Probed(*port, probe_view(*probe)),
            StatusEvent::Listed(port, listing) => StatusEventView::Listed(
                *port,
                listing_view(*listing),
            ),
        }
    }
}

impl View for StatusStep {
    type V = StatusStepView;

    open spec fn view(&self) -> StatusStepView {
        match self {
            StatusStep::Probe(port) => StatusStepView::Probe(*port),
            StatusStep::ListModels(port) => StatusStepView::ListModels(*port),
            StatusStep::Finished(status) => StatusStepView::Finished(status@),
        }
    }
}

/// One step of finding out the service's status.
///
/// The port that is probed is the one on which the service was detected, or
/// the expected one where it was detected on none. A service that answers is
/// running, and its models are listed; where they cannot be listed it is
/// reported without any. One that does not answer is not running. A probe
/// that broke down gives no status.
pub open spec fn status_step(default_port: u16, event: StatusEventView) -> Result<
    StatusStepView,
    Seq<char>,
> {
    match event {
        StatusEventView::Detected(Some(port)) => Ok(StatusStepView::Probe(port)),
        StatusEventView::Detected(None) => Ok(StatusStepView::Probe(default_port)),
        StatusEventView::Probed(port, Ok(true)) => Ok(StatusStepView::ListModels(port)),
        StatusEventView::Probed(port, Ok(false)) => Ok(
            StatusStepView::Finished(
                StatusView { running: false, port, version: None, models: Seq::empty() },
            ),
        ),
        StatusEventView::Probed(_, Err(reason)) => Err("Failed to check status: "@ + reason),
        StatusEventView::Listed(port, listing) => Ok(
            StatusStepView::Finished(
                StatusView {
                    running: true,
                    port,
                    version: Some("0.1.0"@),
                    models: match listing {
                        Ok(names) => names,
                        Err(_) => Seq::empty(),
                    },
                },
            ),
        ),
    }
}

/// The view of what a status step returned.
pub open spec fn status_result_view(result: Result<StatusStep, String>) -> Result<
    StatusStepView,
    Seq<char>,
> {
    match result {
        Ok(step) => Ok(step@),
        Err(reason) => Err(reason@),
    }
}

/// An event while the models are being listed.
#[derive(Debug)]
pub enum FetchEvent {
    /// The request was answered with this status code.
    Answered(u16),
    /// The request was not answered, for the reason given.
    RequestFailed(String),
    /// The answer's body was read and names these models.
    Listed(Vec<String>),
    /// The answer's body could not be read as a list of models.
    ParseFailed(String),
}

/// What the caller has to do next while the models are being listed.
#[derive(Debug)]
pub enum FetchStep {
    /// Read the answer's body as a list of models.
    ReadBody,
    /// The list is complete.
    Finished(Vec<String>),
}

/// A fetch event as a mathematical value.
pub enum FetchEventView {
    Answered(u16),
    RequestFailed(Seq<char>),
    Listed(Seq<Seq<char>>),
    ParseFailed(Seq<char>),
}

/// A fetch step as a mathematical value.
pub enum FetchStepView {
    ReadBody,
    Finished(Seq<Seq<char>>),
}

impl View for FetchEvent {
    type V = FetchEventView;

    open spec fn view(&self) -> FetchEventView {
        match self {
            FetchEvent::Answered(code) => FetchEventView::Answered(*code),
            FetchEvent::RequestFailed(reason) => FetchEventView::RequestFailed(reason@),
            FetchEvent::Listed(names) => FetchEventView::Listed(text_views(names@)),
            FetchEvent::ParseFailed(reason) => FetchEventView::ParseFailed(reason@),
        }
    }
}

impl View for FetchStep {
    type V = FetchStepView;

    open spec fn view(&self) -> FetchStepView {
        match self {
            FetchStep::ReadBody => FetchStepView::ReadBody,
            FetchStep::Finished(names) => FetchStepView::Finished(text_views(names@)),
        }
    }
}

/// One step of listing the models. The body of an answer is read only if the
/// answer is a success; any other answer stands for an empty list. A request
/// without an answer and a body that cannot be read are errors.
pub open spec fn fetch_step(event: FetchEventView) -> Result<FetchStepView, Seq<char>> {
    match event {
        FetchEventView::Answered(code) => if success_code(code) {
            Ok(FetchStepView::ReadBody)
        } else {
            Ok(FetchStepView::Finished(Seq::empty()))
        },
        FetchEventView::RequestFailed(reason) => Err("Request failed: "@ + reason),
        FetchEventView::Listed(names) => Ok(FetchStepView::Finished(names)),
        FetchEventView::ParseFailed(reason) => Err("Failed to parse response: "@ + reason),
    }
}

/// The view of what a fetch step returned.
pub open spec fn fetch_result_view(result: Result<FetchStep, String>) -> Result<
    FetchStepView,
    Seq<char>,
> {
    match result {
        Ok(step) => Ok(step@),
        Err(reason) => Err(reason@),
    }
}

/// An event while the service is being started.
#[derive(Debug)]
pub enum StartEvent {
    /// The caller asks for the service to be started.
    Request,
    /// The process was started.
    Spawned,
    /// The process could not be started, for the reason given.
    SpawnFailed(String),
    /// The port was probed after the process had time to come up.
    Probed(Result<bool, String>),
}

/// What the caller has to do next while the service is being started.
#[derive(Clone, Copy, Debug, PartialEq, Eq, Structural)]
pub enum StartStep {
    /// Start the process.
    Spawn,
    /// Wait for so many seconds, then probe this port.
    Probe { after_secs: u64, port: u16 },
    /// The service is up.
    Ready,
}

/// A start event as a mathematical value.
pub enum StartEventView {
    Request,
    Spawned,
    SpawnFailed(Seq<char>),
    Probed(Result<bool, Seq<char>>),
}

impl View for StartEvent {
    type V = StartEventView;

    open spec fn view(&self) -> StartEventView {
        match self {
            StartEvent::Request => StartEventView::Request,
            StartEvent::Spawned => StartEventView::Spawned,
            StartEvent::SpawnFailed(reason) => StartEventView::SpawnFailed(reason@),
            StartEvent::Probed(probe) => StartEventView::Probed(probe_view(*probe)),
        }
    }
}

/// The manager's state: whether it holds a process that it started, and the
/// port on which the service is expected.
pub struct ManagerView {
    pub holds_process: bool,
    pub default_port: u16,
}

/// One step of starting the service: the next state, and what the caller has
/// to do or the reason why the start failed.
///
/// A request is refused while a process is held. Once the process is started
/// it is held, and the expected port is to be probed after two seconds. A
/// probe that is answered ends the start; one that is not answered, or that
/// broke down, makes the manager let go of the process.
pub open spec fn start_step(state: ManagerView, event: StartEventView) -> (
    ManagerView,
    Result<StartStep, Seq<char>>,
) {
    match event {
        StartEventView::Request => if state.holds_process {
            (state, Err("Ollama is already running"@))
        } else {
            (state, Ok(StartStep::Spawn))
        },
        StartEventView::Spawned => (
            ManagerView { holds_process: true, ..state },
            Ok(StartStep::Probe { after_secs: START_GRACE_SECS, port: state.default_port }),
        ),
        StartEventView::SpawnFailed(reason) => (state, Err("Failed to start Ollama: "@ + reason)),
        StartEventView::Probed(Ok(true)) => (state, Ok(StartStep::Ready)),
        StartEventView::Probed(Ok(false)) => (
            ManagerView { holds_process: false, ..state },
            Err("Ollama failed to start"@),
        ),
        StartEventView::Probed(Err(reason)) => (
            ManagerView { holds_process: false, ..state },
            Err("Failed to verify Ollama: "@ + reason),
        ),
    }
}

/// The view of what a start step returned.
pub open spec fn start_result_view(result: Result<StartStep, String>) -> Result<
    StartStep,
    Seq<char>,
> {
    match result {
        Ok(step) => Ok(step),
        Err(reason) => Err(reason@),
    }
}

/// What the caller has to do next while it waits for the service.
#[derive(Clone, Copy, Debug, PartialEq, Eq, Structural)]
pub enum WaitStep {
    /// Ask for the service's status, and come back with whether it runs.
    Check,
    /// Sleep for so many milliseconds, and come back without a status.
    Sleep(u64),
    /// The wait is over: the service runs, or the time is up.
    Finished(bool),
}

/// One step of waiting for the service, `elapsed_nanos` after the wait began
/// and with the status that was checked last, if one was checked since the
/// last sleep. A service that runs ends the wait; one that does not is waited
/// for; without a status, the status is checked while the time is not up.
pub open spec fn wait_step(timeout_secs: u64, elapsed_nanos: u128, running: Option<bool>) -> WaitStep {
    match running {
        Some(true) => WaitStep::Finished(true),
        Some(false) => WaitStep::Sleep(POLL_INTERVAL_MILLIS),
        None => if elapsed_nanos < timeout_secs * NANOS_PER_SEC {
            WaitStep::Check
        } else {
            WaitStep::Finished(false)
        },
    }
}

/// The manager of the local model service.
pub struct OllamaManager {
    holds_process: bool,
    default_port: u16,
}

impl View for OllamaManager {
    type V = ManagerView;

    closed spec fn view(&self) -> ManagerView {
        ManagerView { holds_process: self.holds_process, default_port: self.default_port }
    }
}

impl OllamaManager {
    /// A manager that holds no process and expects the service on port 11434.
    pub fn new() -> (manager: Self)
        ensures
            manager@ == (ManagerView { holds_process: false, default_port: 11434 }),
    {
        OllamaManager { holds_process: false, default_port: DEFAULT_PORT }
    }

    /// The port on which the service is expected.
    pub fn default_port(&self) -> (port: u16)
        ensures
            port == self@.default_port,
    {
        self.default_port
    }

    /// One step of starting the service; see [`start_step`].
    pub fn start(&mut self, event: StartEvent) -> (result: Result<StartStep, String>)
        ensures
            (final(self)@, start_result_view(result)) == start_step(old(self)@, event@),
    {
        match event {
            StartEvent::Request => {
                if self.holds_process {
                    Err("Ollama is already running".to_string())
                } else {
                    Ok(StartStep::Spawn)
                }
            },
            StartEvent::Spawned => {
                self.holds_process = true;
                Ok(StartStep::Probe { after_secs: START_GRACE_SECS, port: self.default_port })
            },
            StartEvent::SpawnFailed(reason) => Err(
                "Failed to start Ollama: ".to_string().concat(reason.as_str()),
            ),
            StartEvent::Probed(Ok(true)) => Ok(StartStep::Ready),
            StartEvent::Probed(Ok(false)) => {
                self.holds_process = false;
                Err("Ollama failed to start".to_string())
            },
            StartEvent::Probed(Err(reason)) => {
                self.holds_process = false;
                Err("Failed to verify Ollama: ".to_string().concat(reason.as_str()))
            },
        }
    }

    /// Lets go of the process. Tells whether one was held, which the caller
    /// then has to end.
    pub fn stop(&mut self) -> (held: bool)
        ensures
            held == old(self)@.holds_process,
            final(self)@ == (ManagerView { holds_process: false, ..old(self)@ }),
    {
        let held = self.holds_process;
        self.holds_process = false;
        held
    }

    /// One step of looking for the service's port; see [`detect_step`].
    /// `answers[i]` tells whether the common port `i` answered; answers beyond
    /// the common ports do not count.
    pub fn detect_port(&self, answers: &Vec<bool>) -> (step: DetectStep)
        ensures
            step == detect_step(answers@),
    {
        let ports: [u16; 3] = [11434, 11435, 11436];
        let mut i: usize = 0;
        while i < 3 && i < answers.len() && !answers[i]
            invariant
                i <= 3,
                ports@ == common_ports(),
                first_answering(answers@, i as int) == first_answering(answers@, 0),
            decreases 3 - i,
        {
            i += 1;
        }
        if i < 3 && i < answers.len() {
            DetectStep::Found(ports[i])
        } else if answers.len() < 3 {
            DetectStep::Probe(ports[answers.len()])
        } else {
            DetectStep::NotFound
        }
    }

    /// What a probe of the service's port means, given what the request to it
    /// gave; see [`probe_of`].
    pub fn check_port(reply: Result<u16, String>) -> (probe: Result<bool, String>)
        ensures
            probe_view(probe) == probe_of(reply_view(reply)),
    {
        match reply {
            Ok(code) => Ok(is_success(code)),
            Err(_) => Ok(false),
        }
    }

    /// One step of listing the models; see [`fetch_step`].
    pub fn fetch_models(event: FetchEvent) -> (result: Result<FetchStep, String>)
        ensures
            fetch_result_view(result) == fetch_step(event@),
    {
        match event {
            FetchEvent::Answered(code) => {
                if is_success(code) {
                    Ok(FetchStep::ReadBody)
                } else {
                    proof {
                        assert(text_views(Seq::<String>::empty()) =~= Seq::<Seq<char>>::empty());
                    }
                    Ok(FetchStep::Finished(Vec::new()))
                }
            },
            FetchEvent::RequestFailed(reason) => Err(
                "Request failed: ".to_string().concat(reason.as_str()),
            ),
            FetchEvent::Listed(names) => Ok(FetchStep::Finished(names)),
            FetchEvent::ParseFailed(reason) => Err(
                "Failed to parse response: ".to_string().concat(reason.as_str()),
            ),
        }
    }

    /// One step of finding out the service's status; see [`status_step`].
    pub fn check_status(&self, event: StatusEvent) -> (result: Result<StatusStep, String>)
        ensures
            status_result_view(result) == status_step(self@.default_port, event@),
    {
        proof {
            assert(text_views(Seq::<String>::empty()) =~= Seq::<Seq<char>>::empty());
        }
        match event {
            StatusEvent::Detected(Some(port)) => Ok(StatusStep::Probe(port)),
            StatusEvent::Detected(None) => Ok(StatusStep::Probe(self.default_port)),
            StatusEvent::Probed(port, Ok(true)) => Ok(StatusStep::ListModels(port)),
            StatusEvent::Probed(port, Ok(false)) => Ok(
                StatusStep::Finished(
                    OllamaStatus { running: false, port, version: None, models: Vec::new() },
                ),
            ),
            StatusEvent::Probed(_, Err(reason)) => Err(
                "Failed to check status: ".to_string().concat(reason.as_str()),
            ),
            StatusEvent::Listed(port, listing) => {
                let models = match listing {
                    Ok(names) => names,
                    Err(_) => Vec::new(),
                };
                Ok(
                    StatusStep::Finished(
                        OllamaStatus {
                            running: true,
                            port,
                            version: Some("0.1.0".to_string()),
                            models,
                        },
                    ),
                )
            },
        }
    }

    /// One step of waiting for the service; see [`wait_step`].
    pub fn wait_for_ready(&self, timeout_secs: u64, elapsed_nanos: u128, running: Option<bool>) -> (step:
        WaitStep)
        ensures
            step == wait_step(timeout_secs, elapsed_nanos, running),
    {
        match running {
            Some(true) => WaitStep::Finished(true),
            Some(false) => WaitStep::Sleep(POLL_INTERVAL_MILLIS),
            None => {
                let limit: u128 = timeout_secs as u128 * NANOS_PER_SEC;
                if elapsed_nanos < limit {
                    WaitStep::Check
                } else {
                    WaitStep::Finished(false)
                }
            },
        }
    }
}

impl Default for OllamaManager {
    fn default() -> (manager: Self)
        ensures
            manager@ == (ManagerView { holds_process: false, default_port: 11434 }),
    {
        OllamaManager::new()
    }
}

} // verus!
