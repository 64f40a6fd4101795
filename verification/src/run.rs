//! The course of the backend, from its first socket to its last clean-up.
use vstd::prelude::*;

verus! {

/// How long the event loop waits for events in one turn, in milliseconds.
pub const DISPATCH_TIMEOUT_MS: u64 = 16;

/// How long a key is held until it repeats, in milliseconds.
pub const REPEAT_DELAY_MS: i32 = 200;

/// How often a key repeats in a second.
pub const REPEAT_RATE: i32 = 25;

/// The width of the one output that all devices show.
pub const SCREEN_WIDTH: u32 = 1920;

/// The height of the one output that all devices show.
pub const SCREEN_HEIGHT: u32 = 1080;

/// How often the output is refreshed, in thousandths of a hertz.
pub const SCREEN_REFRESH: i32 = 60_000;

/// A resolution, with its refresh rate in thousandths of a hertz.
#[derive(Clone, Copy, Debug, PartialEq, Eq, Structural)]
pub struct Mode {
    pub width: i32,
    pub height: i32,
    pub refresh: i32,
}

/// What the session and the event loop know the parts of the backend by.
#[derive(Clone, Copy, Debug, PartialEq, Eq, Structural)]
pub struct Tokens {
    /// What the session knows the devices by.
    pub udev_session: u64,
    /// What the session knows the input by.
    pub input_session: u64,
    /// The input, as a source of the event loop.
    pub input_source: u64,
    /// The session, as a source of the event loop.
    pub session_source: u64,
    /// The messages of udev, as a source of the event loop.
    pub udev_source: u64,
}

/// How far the backend has got: each variant but the last waits for one reply.
#[derive(Debug, PartialEq, Eq)]
pub enum RunStage {
    AddingSocket,
    Advertising,
    InitializingState,
    OpeningSession,
    RegisteringUdev,
    FindingPrimaryGpu { udev_session: u64 },
    OpeningUdev { udev_session: u64, primary_gpu: Option<String> },
    CreatingHandler { udev_session: u64 },
    CreatingSeat { udev_session: u64 },
    CreatingOutput { udev_session: u64 },
    RegisteringInput { udev_session: u64 },
    BindingInput { udev_session: u64, input_session: u64 },
    BindingSession { udev_session: u64, input_session: u64, input_source: u64 },
    ListingDevices { udev_session: u64, input_session: u64, input_source: u64, session_source: u64 },
    AddingDevices {
        udev_session: u64,
        input_session: u64,
        input_source: u64,
        session_source: u64,
        devices: Vec<(u64, String)>,
        /// The device that is being added.
        current: usize,
    },
    BindingUdev { udev_session: u64, input_session: u64, input_source: u64, session_source: u64 },
    CheckingRunning { tokens: Tokens },
    Dispatching { tokens: Tokens },
    Stopping { tokens: Tokens },
    FlushingClients { tokens: Tokens },
    RefreshingWindows { tokens: Tokens },
    ClearingWindows { tokens: Tokens },
    UnbindingSession { tokens: Tokens },
    UnregisteringInput { tokens: Tokens },
    UnregisteringUdev { tokens: Tokens },
    RemovingInput { tokens: Tokens },
    RemovingUdev { tokens: Tokens },
    Exited,
}

impl RunStage {
    /// While devices are added, there is one that is being added.
    pub open spec fn wf(self) -> bool {
        self matches RunStage::AddingDevices { devices, current, .. } ==> current < devices@.len()
    }
}

/// What the outside world replies.
pub enum RunEvent {
    /// What was asked for is done.
    Done,
    /// Clients can connect to the socket of this name.
    SocketAdded(String),
    /// Whether there is a session.
    SessionOpened(bool),
    /// What the session knows the part by.
    Registered(u64),
    /// The path of the primary GPU, if there is one, or a failure to find out.
    PrimaryGpuFound(Result<Option<String>, ()>),
    /// Whether udev can be listened to.
    UdevOpened(bool),
    /// The part is this source of the event loop now.
    Bound(u64),
    /// The devices there are, each with its number and its path.
    DevicesListed(Vec<(u64, String)>),
    /// Whether the compositor is to go on.
    Running(bool),
    /// Whether the event loop could be dispatched.
    Dispatched(bool),
}

/// What is to be done next.
#[derive(Debug, PartialEq, Eq)]
pub enum RunAction {
    /// Open a socket for clients. Reply: `SocketAdded`.
    AddSocket,
    /// Set the environment variable `variable` to `value`.
    SetVariable { variable: &'static str, value: String },
    /// Set up the state of the compositor.
    InitState,
    /// Open a session. Reply: `SessionOpened`.
    OpenSession,
    /// Let the session know of the devices. Reply: `Registered`.
    RegisterUdev,
    /// Find the primary GPU of the seat. Reply: `PrimaryGpuFound`.
    FindPrimaryGpu,
    /// Listen to udev. Reply: `UdevOpened`.
    OpenUdev,
    /// Set up the backend of the devices.
    CreateHandler { primary_gpu: Option<String> },
    /// Set up the seat, with a pointer and with a keyboard that repeats keys.
    CreateSeat { repeat_delay: i32, repeat_rate: i32 },
    /// Set up the output, with `mode` as its current and its preferred mode. Nothing is known
    /// of its subpixels.
    CreateOutput {
        name: &'static str,
        make: &'static str,
        model: &'static str,
        physical_size: (i32, i32),
        mode: Mode,
    },
    /// Let the session know of the input. Reply: `Registered`.
    RegisterInput,
    /// Make the input a source of the event loop, for a screen of this size. Reply: `Bound`.
    BindInput { screen_size: (u32, u32) },
    /// Make the session a source of the event loop. Reply: `Bound`.
    BindSession,
    /// List the devices there are. Reply: `DevicesListed`.
    ListDevices,
    /// Add this device.
    AddDevice { device_id: u64, path: String },
    /// Make the messages of udev a source of the event loop. Reply: `Bound`.
    BindUdev,
    /// Find out whether to go on. Reply: `Running`.
    CheckRunning,
    /// Dispatch the event loop once. Reply: `Dispatched`.
    Dispatch { timeout_ms: u64 },
    /// Let the compositor stop.
    StopRunning,
    /// Send the clients what is there for them.
    FlushClients,
    /// Forget the windows that are gone.
    RefreshWindows,
    /// Forget all windows.
    ClearWindows,
    /// Take the session out of the event loop.
    UnbindSession { source: u64 },
    /// Let the session forget a part.
    Unregister { id: u64 },
    /// Take a source out of the event loop.
    RemoveSource { source: u64 },
    /// The backend is done, or could not be set up.
    Exit { result: Result<(), ()> },
    /// Nothing: the reply was not the one that is waited for.
    Wait,
}

/// The device `current` of `devices` is the next one to add, if there is one.
pub open spec fn next_device(
    udev_session: u64,
    input_session: u64,
    input_source: u64,
    session_source: u64,
    devices: Vec<(u64, String)>,
    current: usize,
) -> (RunStage, RunAction) {
    if current < devices@.len() {
        (
            RunStage::AddingDevices {
                udev_session,
                input_session,
                input_source,
                session_source,
                devices,
                current,
            },
            RunAction::AddDevice {
                device_id: devices@[current as int].0,
                path: devices@[current as int].1,
            },
        )
    } else {
        (
            RunStage::BindingUdev { udev_session, input_session, input_source, session_source },
            RunAction::BindUdev,
        )
    }
}

/// The backend gets the reply `event`. A reply that it does not wait for changes nothing.
pub open spec fn run_step(stage: RunStage, event: RunEvent) -> (RunStage, RunAction) {
    match (stage, event) {
        (RunStage::AddingSocket, RunEvent::SocketAdded(name)) => (
            RunStage::Advertising,
            RunAction::SetVariable { variable: "WAYLAND_DISPLAY", value: name },
        ),
        (RunStage::Advertising, RunEvent::Done) => (
            RunStage::InitializingState,
            RunAction::InitState,
        ),
        (RunStage::InitializingState, RunEvent::Done) => (
            RunStage::OpeningSession,
            RunAction::OpenSession,
        ),
        // Without a session there is nothing to run.
        (RunStage::OpeningSession, RunEvent::SessionOpened(opened)) => if opened {
            (RunStage::RegisteringUdev, RunAction::RegisterUdev)
        } else {
            (RunStage::Exited, RunAction::Exit { result: Err(()) })
        },
        (RunStage::RegisteringUdev, RunEvent::Registered(udev_session)) => (
            RunStage::FindingPrimaryGpu { udev_session },
            RunAction::FindPrimaryGpu,
        ),
        // A primary GPU that cannot be found is none.
        (RunStage::FindingPrimaryGpu { udev_session }, RunEvent::PrimaryGpuFound(found)) => (
            RunStage::OpeningUdev {
                udev_session,
                primary_gpu: match found {
                    Ok(primary_gpu) => primary_gpu,
                    Err(_) => None,
                },
            },
            RunAction::OpenUdev,
        ),
        // Nor is there anything to run without udev.
        (
            RunStage::OpeningUdev { udev_session, primary_gpu },
            RunEvent::UdevOpened(opened),
        ) => if opened {
            (RunStage::CreatingHandler { udev_session }, RunAction::CreateHandler { primary_gpu })
        } else {
            (RunStage::Exited, RunAction::Exit { result: Err(()) })
        },
        (RunStage::CreatingHandler { udev_session }, RunEvent::Done) => (
            RunStage::CreatingSeat { udev_session },
            RunAction::CreateSeat { repeat_delay: REPEAT_DELAY_MS, repeat_rate: REPEAT_RATE },
        ),
        (RunStage::CreatingSeat { udev_session }, RunEvent::Done) => (
            RunStage::CreatingOutput { udev_session },
            RunAction::CreateOutput {
                name: "Drm",
                make: "Smithay",
                model: "Generic DRM",
                physical_size: (0, 0),
                mode: Mode {
                    width: SCREEN_WIDTH as i32,
                    height: SCREEN_HEIGHT as i32,
                    refresh: SCREEN_REFRESH,
                },
            },
        ),
        (RunStage::CreatingOutput { udev_session }, RunEvent::Done) => (
            RunStage::RegisteringInput { udev_session },
            RunAction::RegisterInput,
        ),
        (RunStage::RegisteringInput { udev_session }, RunEvent::Registered(input_session)) => (
            RunStage::BindingInput { udev_session, input_session },
            RunAction::BindInput { screen_size: (SCREEN_WIDTH, SCREEN_HEIGHT) },
        ),
        (
            RunStage::BindingInput { udev_session, input_session },
            RunEvent::Bound(input_source),
        ) => (
            RunStage::BindingSession { udev_session, input_session, input_source },
            RunAction::BindSession,
        ),
        (
            RunStage::BindingSession { udev_session, input_session, input_source },
            RunEvent::Bound(session_source),
        ) => (
            RunStage::ListingDevices { udev_session, input_session, input_source, session_source },
            RunAction::ListDevices,
        ),
        // The devices that are there come first, then those that udev announces.
        (
            RunStage::ListingDevices { udev_session, input_session, input_source, session_source },
            RunEvent::DevicesListed(devices),
        ) => next_device(udev_session, input_session, input_source, session_source, devices, 0),
        (
            RunStage::AddingDevices {
                udev_session,
                input_session,
                input_source,
                session_source,
                devices,
                current,
            },
            RunEvent::Done,
        ) => next_device(
            udev_session,
            input_session,
            input_source,
            session_source,
            devices,
            (current + 1) as usize,
        ),
        (
            RunStage::BindingUdev { udev_session, input_session, input_source, session_source },
            RunEvent::Bound(udev_source),
        ) => (
            RunStage::CheckingRunning {
                tokens: Tokens {
                    udev_session,
                    input_session,
                    input_source,
                    session_source,
                    udev_source,
                },
            },
            RunAction::CheckRunning,
        ),
        // The loop.
        (RunStage::CheckingRunning { tokens }, RunEvent::Running(running)) => if running {
            (
                RunStage::Dispatching { tokens },
                RunAction::Dispatch { timeout_ms: DISPATCH_TIMEOUT_MS },
            )
        } else {
            (RunStage::ClearingWindows { tokens }, RunAction::ClearWindows)
        },
        (RunStage::Dispatching { tokens }, RunEvent::Dispatched(dispatched)) => if dispatched {
            (RunStage::FlushingClients { tokens }, RunAction::FlushClients)
        } else {
            (RunStage::Stopping { tokens }, RunAction::StopRunning)
        },
        (RunStage::Stopping { tokens }, RunEvent::Done) => (
            RunStage::CheckingRunning { tokens },
            RunAction::CheckRunning,
        ),
        (RunStage::FlushingClients { tokens }, RunEvent::Done) => (
            RunStage::RefreshingWindows { tokens },
            RunAction::RefreshWindows,
        ),
        (RunStage::RefreshingWindows { tokens }, RunEvent::Done) => (
            RunStage::CheckingRunning { tokens },
            RunAction::CheckRunning,
        ),
        // The clean-up.
        (RunStage::ClearingWindows { tokens }, RunEvent::Done) => (
            RunStage::UnbindingSession { tokens },
            RunAction::UnbindSession { source: tokens.session_source },
        ),
        (RunStage::UnbindingSession { tokens }, RunEvent::Done) => (
            RunStage::UnregisteringInput { tokens },
            RunAction::Unregister { id: tokens.input_session },
        ),
        (RunStage::UnregisteringInput { tokens }, RunEvent::Done) => (
            RunStage::UnregisteringUdev { tokens },
            RunAction::Unregister { id: tokens.udev_session },
        ),
        (RunStage::UnregisteringUdev { tokens }, RunEvent::Done) => (
            RunStage::RemovingInput { tokens },
            RunAction::RemoveSource { source: tokens.input_source },
        ),
        (RunStage::RemovingInput { tokens }, RunEvent::Done) => (
            RunStage::RemovingUdev { tokens },
            RunAction::RemoveSource { source: tokens.udev_source },
        ),
        (RunStage::RemovingUdev { tokens }, RunEvent::Done) => (
            RunStage::Exited,
            RunAction::Exit { result: Ok(()) },
        ),
        (stage, _) => (stage, RunAction::Wait),
    }
}

/// The first thing to do.
pub open spec fn run_start() -> (RunStage, RunAction) {
    (RunStage::AddingSocket, RunAction::AddSocket)
}

impl RunStage {
    /// How a run starts.
    pub fn start() -> (step: (RunStage, RunAction))
        ensures
            step == run_start(),
            step.0.wf(),
    {
        (RunStage::AddingSocket, RunAction::AddSocket)
    }
}

/// Goes on with the device `current` of `devices`.
fn add_next_device(
    udev_session: u64,
    input_session: u64,
    input_source: u64,
    session_source: u64,
    devices: Vec<(u64, String)>,
    current: usize,
) -> (step: (RunStage, RunAction))
    ensures
        step == next_device(
            udev_session,
            input_session,
            input_source,
            session_source,
            devices,
            current,
        ),
        step.0.wf(),
{
    if current < devices.len() {
        let device_id = devices[current].0;
        let path = devices[current].1.clone();
        (
            RunStage::AddingDevices {
                udev_session,
                input_session,
                input_source,
                session_source,
                devices,
                current,
            },
            RunAction::AddDevice { device_id, path },
        )
    } else {
        (
            RunStage::BindingUdev { udev_session, input_session, input_source, session_source },
            RunAction::BindUdev,
        )
    }
}

/// Runs the backend by one step: `event` is the reply to what was to be done before. A reply
/// that `stage` does not wait for changes nothing.
pub fn run_udev(stage: RunStage, event: RunEvent) -> (step: (RunStage, RunAction))
    requires
        stage.wf(),
    ensures
        step == run_step(stage, event),
        step.0.wf(),
{
    match (stage, event) {
        (RunStage::AddingSocket, RunEvent::SocketAdded(name)) => (
            RunStage::Advertising,
            RunAction::SetVariable { variable: "WAYLAND_DISPLAY", value: name },
        ),
        (RunStage::Advertising, RunEvent::Done) => (
            RunStage::InitializingState,
            RunAction::InitState,
        ),
        (RunStage::InitializingState, RunEvent::Done) => (
            RunStage::OpeningSession,
            RunAction::OpenSession,
        ),
        (RunStage::OpeningSession, RunEvent::SessionOpened(opened)) => if opened {
            (RunStage::RegisteringUdev, RunAction::RegisterUdev)
        } else {
            (RunStage::Exited, RunAction::Exit { result: Err(()) })
        },
        (RunStage::RegisteringUdev, RunEvent::Registered(udev_session)) => (
            RunStage::FindingPrimaryGpu { udev_session },
            RunAction::FindPrimaryGpu,
        ),
        (RunStage::FindingPrimaryGpu { udev_session }, RunEvent::PrimaryGpuFound(found)) => (
            RunStage::OpeningUdev {
                udev_session,
                primary_gpu: match found {
                    Ok(primary_gpu) => primary_gpu,
                    Err(_) => None,
                },
            },
            RunAction::OpenUdev,
        ),
        (
            RunStage::OpeningUdev { udev_session, primary_gpu },
            RunEvent::UdevOpened(opened),
        ) => if opened {
            (RunStage::CreatingHandler { udev_session }, RunAction::CreateHandler { primary_gpu })
        } else {
            (RunStage::Exited, RunAction::Exit { result: Err(()) })
        },
        (RunStage::CreatingHandler { udev_session }, RunEvent::Done) => (
            RunStage::CreatingSeat { udev_session },
            RunAction::CreateSeat { repeat_delay: REPEAT_DELAY_MS, repeat_rate: REPEAT_RATE },
        ),
        (RunStage::CreatingSeat { udev_session }, RunEvent::Done) => (
            RunStage::CreatingOutput { udev_session },
            RunAction::CreateOutput {
                name: "Drm",
                make: "Smithay",
                model: "Generic DRM",
                physical_size: (0, 0),
                mode: Mode {
                    width: SCREEN_WIDTH as i32,
                    height: SCREEN_HEIGHT as i32,
                    refresh: SCREEN_REFRESH,
                },
            },
        ),
        (RunStage::CreatingOutput { udev_session }, RunEvent::Done) => (
            RunStage::RegisteringInput { udev_session },
            RunAction::RegisterInput,
        ),
        (RunStage::RegisteringInput { udev_session }, RunEvent::Registered(input_session)) => (
            RunStage::BindingInput { udev_session, input_session },
            RunAction::BindInput { screen_size: (SCREEN_WIDTH, SCREEN_HEIGHT) },
        ),
        (
            RunStage::BindingInput { udev_session, input_session },
            RunEvent::Bound(input_source),
        ) => (
            RunStage::BindingSession { udev_session, input_session, input_source },
            RunAction::BindSession,
        ),
        (
            RunStage::BindingSession { udev_session, input_session, input_source },
            RunEvent::Bound(session_source),
        ) => (
            RunStage::ListingDevices { udev_session, input_session, input_source, session_source },
            RunAction::ListDevices,
        ),
        (
            RunStage::ListingDevices { udev_session, input_session, input_source, session_source },
            RunEvent::DevicesListed(devices),
        ) => add_next_device(udev_session, input_session, input_source, session_source, devices, 0),
        (
            RunStage::AddingDevices {
                udev_session,
                input_session,
                input_source,
                session_source,
                devices,
                current,
            },
            RunEvent::Done,
        ) => {
            assert(current < devices.len());
            add_next_device(
                udev_session,
                input_session,
                input_source,
                session_source,
                devices,
                current + 1,
            )
        },
        (
            RunStage::BindingUdev { udev_session, input_session, input_source, session_source },
            RunEvent::Bound(udev_source),
        ) => (
            RunStage::CheckingRunning {
                tokens: Tokens {
                    udev_session,
                    input_session,
                    input_source,
                    session_source,
                    udev_source,
                },
            },
            RunAction::CheckRunning,
        ),
        (RunStage::CheckingRunning { tokens }, RunEvent::Running(running)) => if running {
            (
                RunStage::Dispatching { tokens },
                RunAction::Dispatch { timeout_ms: DISPATCH_TIMEOUT_MS },
            )
        } else {
            (RunStage::ClearingWindows { tokens }, RunAction::ClearWindows)
        },
        (RunStage::Dispatching { tokens }, RunEvent::Dispatched(dispatched)) => if dispatched {
            (RunStage::FlushingClients { tokens }, RunAction::FlushClients)
        } else {
            (RunStage::Stopping { tokens }, RunAction::StopRunning)
        },
        (RunStage::Stopping { tokens }, RunEvent::Done) => (
            RunStage::CheckingRunning { tokens },
            RunAction::CheckRunning,
        ),
        (RunStage::FlushingClients { tokens }, RunEvent::Done) => (
            RunStage::RefreshingWindows { tokens },
            RunAction::RefreshWindows,
        ),
        (RunStage::RefreshingWindows { tokens }, RunEvent::Done) => (
            RunStage::CheckingRunning { tokens },
            RunAction::CheckRunning,
        ),
        (RunStage::ClearingWindows { tokens }, RunEvent::Done) => (
            RunStage::UnbindingSession { tokens },
            RunAction::UnbindSession { source: tokens.session_source },
        ),
        (RunStage::UnbindingSession { tokens }, RunEvent::Done) => (
            RunStage::UnregisteringInput { tokens },
            RunAction::Unregister { id: tokens.input_session },
        ),
        (RunStage::UnregisteringInput { tokens }, RunEvent::Done) => (
            RunStage::UnregisteringUdev { tokens },
            RunAction::Unregister { id: tokens.udev_session },
        ),
        (RunStage::UnregisteringUdev { tokens }, RunEvent::Done) => (
            RunStage::RemovingInput { tokens },
            RunAction::RemoveSource { source: tokens.input_source },
        ),
        (RunStage::RemovingInput { tokens }, RunEvent::Done) => (
            RunStage::RemovingUdev { tokens },
            RunAction::RemoveSource { source: tokens.udev_source },
        ),
        (RunStage::RemovingUdev { tokens }, RunEvent::Done) => (
            RunStage::Exited,
            RunAction::Exit { result: Ok(()) },
        ),
        (stage, _) => (stage, RunAction::Wait),
    }
}

}
