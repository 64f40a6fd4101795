//! What holds of a run of the backend as a whole.
use vstd::prelude::*;

use crate::run::{
    next_device, run_start, run_step, Mode, RunAction, RunEvent, RunStage, Tokens,
};

verus! {

/// The backend gets the replies `events`, one after the other: where it stands then, and what was
/// to be done after each reply.
pub open spec fn course(stage: RunStage, events: Seq<RunEvent>) -> (RunStage, Seq<RunAction>)
    decreases events.len(),
{
    if events.len() == 0 {
        (stage, Seq::empty())
    } else {
        let before = course(stage, events.drop_last());
        let step = run_step(before.0, events.last());
        (step.0, before.1.push(step.1))
    }
}

proof fn lemma_one_more(stage: RunStage, events: Seq<RunEvent>, event: RunEvent)
    ensures
        ({
            let before = course(stage, events);
            let step = run_step(before.0, event);
            course(stage, events.push(event)) == (step.0, before.1.push(step.1))
        }),
{
    assert(events.push(event).drop_last() == events);
}

/// The replies while the backend is set up without a failure, up to the list of the devices.
pub open spec fn startup_events(
    name: String,
    found: Result<Option<String>, ()>,
    tokens: Tokens,
    devices: Vec<(u64, String)>,
) -> Seq<RunEvent> {
    seq![
        RunEvent::SocketAdded(name),
        RunEvent::Done,
        RunEvent::Done,
        RunEvent::SessionOpened(true),
        RunEvent::Registered(tokens.udev_session),
        RunEvent::PrimaryGpuFound(found),
        RunEvent::UdevOpened(true),
        RunEvent::Done,
        RunEvent::Done,
        RunEvent::Done,
        RunEvent::Registered(tokens.input_session),
        RunEvent::Bound(tokens.input_source),
        RunEvent::Bound(tokens.session_source),
        RunEvent::DevicesListed(devices),
    ]
}

/// The replies while the first `n` devices are added.
pub open spec fn device_events(n: nat) -> Seq<RunEvent> {
    Seq::new(n, |i: int| RunEvent::Done)
}

/// The additions of `devices`, in the order in which they are listed.
pub open spec fn device_actions(devices: Seq<(u64, String)>) -> Seq<RunAction> {
    devices.map_values(
        |device: (u64, String)| RunAction::AddDevice { device_id: device.0, path: device.1 },
    )
}

/// What is done in the course of that, after the socket was opened.
pub open spec fn startup_actions(name: String, found: Result<Option<String>, ()>) -> Seq<RunAction> {
    seq![
        RunAction::SetVariable { variable: "WAYLAND_DISPLAY", value: name },
        RunAction::InitState,
        RunAction::OpenSession,
        RunAction::RegisterUdev,
        RunAction::FindPrimaryGpu,
        RunAction::OpenUdev,
        RunAction::CreateHandler {
            primary_gpu: match found {
                Ok(primary_gpu) => primary_gpu,
                Err(_) => None,
            },
        },
        RunAction::CreateSeat { repeat_delay: 200, repeat_rate: 25 },
        RunAction::CreateOutput {
            name: "Drm",
            make: "Smithay",
            model: "Generic DRM",
            physical_size: (0, 0),
            mode: Mode { width: 1920, height: 1080, refresh: 60_000 },
        },
        RunAction::RegisterInput,
        RunAction::BindInput { screen_size: (1920, 1080) },
        RunAction::BindSession,
        RunAction::ListDevices,
    ]
}

proof fn lemma_startup(
    name: String,
    found: Result<Option<String>, ()>,
    tokens: Tokens,
    devices: Vec<(u64, String)>,
)
    ensures
        ({
            let end = course(run_start().0, startup_events(name, found, tokens, devices));
            let first = next_device(
                tokens.udev_session,
                tokens.input_session,
                tokens.input_source,
                tokens.session_source,
                devices,
                0,
            );
            &&& end.0 == first.0
            &&& end.1 == startup_actions(name, found).push(first.1)
        }),
{
    let start = run_start().0;
    let e0 = Seq::<RunEvent>::empty();
    let e1 = e0.push(RunEvent::SocketAdded(name));
    let e2 = e1.push(RunEvent::Done);
    let e3 = e2.push(RunEvent::Done);
    let e4 = e3.push(RunEvent::SessionOpened(true));
    let e5 = e4.push(RunEvent::Registered(tokens.udev_session));
    let e6 = e5.push(RunEvent::PrimaryGpuFound(found));
    let e7 = e6.push(RunEvent::UdevOpened(true));
    let e8 = e7.push(RunEvent::Done);
    let e9 = e8.push(RunEvent::Done);
    let e10 = e9.push(RunEvent::Done);
    let e11 = e10.push(RunEvent::Registered(tokens.input_session));
    let e12 = e11.push(RunEvent::Bound(tokens.input_source));
    let e13 = e12.push(RunEvent::Bound(tokens.session_source));
    lemma_one_more(start, e0, RunEvent::SocketAdded(name));
    lemma_one_more(start, e1, RunEvent::Done);
    lemma_one_more(start, e2, RunEvent::Done);
    lemma_one_more(start, e3, RunEvent::SessionOpened(true));
    lemma_one_more(start, e4, RunEvent::Registered(tokens.udev_session));
    lemma_one_more(start, e5, RunEvent::PrimaryGpuFound(found));
    lemma_one_more(start, e6, RunEvent::UdevOpened(true));
    lemma_one_more(start, e7, RunEvent::Done);
    lemma_one_more(start, e8, RunEvent::Done);
    lemma_one_more(start, e9, RunEvent::Done);
    lemma_one_more(start, e10, RunEvent::Registered(tokens.input_session));
    lemma_one_more(start, e11, RunEvent::Bound(tokens.input_source));
    lemma_one_more(start, e12, RunEvent::Bound(tokens.session_source));
    lemma_one_more(start, e13, RunEvent::DevicesListed(devices));
    assert(startup_events(name, found, tokens, devices) == e13.push(
        RunEvent::DevicesListed(devices),
    ));
}

proof fn lemma_devices(
    name: String,
    found: Result<Option<String>, ()>,
    tokens: Tokens,
    devices: Vec<(u64, String)>,
    n: nat,
)
    requires
        n <= devices@.len() <= usize::MAX,
    ensures
        ({
            let end = course(
                run_start().0,
                startup_events(name, found, tokens, devices) + device_events(n),
            );
            let next = next_device(
                tokens.udev_session,
                tokens.input_session,
                tokens.input_source,
                tokens.session_source,
                devices,
                n as usize,
            );
            &&& end.0 == next.0
            &&& end.1 == (startup_actions(name, found) + device_actions(
                devices@.take(n as int),
            )).push(next.1)
        }),
    decreases n,
{
    let start = run_start().0;
    let startup = startup_events(name, found, tokens, devices);
    let actions = startup_actions(name, found);
    if n == 0 {
        lemma_startup(name, found, tokens, devices);
        assert(startup + device_events(0) == startup);
        assert(actions + device_actions(devices@.take(0)) == actions);
    } else {
        let before = (n - 1) as nat;
        lemma_devices(name, found, tokens, devices, before);
        lemma_one_more(start, startup + device_events(before), RunEvent::Done);
        assert(startup + device_events(n) == (startup + device_events(before)).push(
            RunEvent::Done,
        ));
        assert(actions + device_actions(devices@.take(n as int)) == (actions + device_actions(
            devices@.take(before as int),
        )).push(
            RunAction::AddDevice {
                device_id: devices@[before as int].0,
                path: devices@[before as int].1,
            },
        ));
    }
}

/// A backend that can be set up adds each device that is listed once, in the order of the list,
/// before it hears of others, and then enters its loop. It knows its parts by what they were
/// registered as, and the primary GPU by the path that was found, or by none.
pub proof fn startup_leads_to_the_loop(
    name: String,
    found: Result<Option<String>, ()>,
    tokens: Tokens,
    devices: Vec<(u64, String)>,
)
    requires
        devices@.len() <= usize::MAX,
    ensures
        run_start() == (RunStage::AddingSocket, RunAction::AddSocket),
        course(
            run_start().0,
            (startup_events(name, found, tokens, devices) + device_events(devices@.len())).push(
                RunEvent::Bound(tokens.udev_source),
            ),
        ) == (
            RunStage::CheckingRunning { tokens },
            (startup_actions(name, found) + device_actions(devices@)).push(
                RunAction::BindUdev,
            ).push(RunAction::CheckRunning),
        ),
{
    let startup = startup_events(name, found, tokens, devices);
    lemma_devices(name, found, tokens, devices, devices@.len());
    lemma_one_more(
        run_start().0,
        startup + device_events(devices@.len()),
        RunEvent::Bound(tokens.udev_source),
    );
    assert(devices@.take(devices@.len() as int) == devices@);
}

/// A run fails if and only if there is no session, or udev cannot be listened to. Either way it
/// ends at once.
pub proof fn only_the_session_and_udev_can_fail(stage: RunStage, event: RunEvent)
    ensures
        run_step(stage, event).1 == (RunAction::Exit { result: Err(()) }) <==> (match stage {
            RunStage::OpeningSession => event == RunEvent::SessionOpened(false),
            RunStage::OpeningUdev { .. } => event == RunEvent::UdevOpened(false),
            _ => false,
        }),
        run_step(stage, event).1 is Exit ==> run_step(stage, event).0 is Exited,
        run_step(stage, event).1 == (RunAction::Exit { result: Ok(()) }) <==> stage is RemovingUdev
            && event is Done,
{
}

/// Whether `event` is a reply to what was asked for last.
pub open spec fn answers(event: RunEvent, stage: RunStage) -> bool {
    match event {
        RunEvent::SocketAdded(_) => stage is AddingSocket,
        RunEvent::SessionOpened(_) => stage is OpeningSession,
        RunEvent::Registered(_) => stage is RegisteringUdev || stage is RegisteringInput,
        RunEvent::PrimaryGpuFound(_) => stage is FindingPrimaryGpu,
        RunEvent::UdevOpened(_) => stage is OpeningUdev,
        RunEvent::Bound(_) => stage is BindingInput || stage is BindingSession
            || stage is BindingUdev,
        RunEvent::DevicesListed(_) => stage is ListingDevices,
        RunEvent::Running(_) => stage is CheckingRunning,
        RunEvent::Dispatched(_) => stage is Dispatching,
        RunEvent::Done => match stage {
            RunStage::AddingSocket => false,
            RunStage::OpeningSession => false,
            RunStage::RegisteringUdev => false,
            RunStage::FindingPrimaryGpu { .. } => false,
            RunStage::OpeningUdev { .. } => false,
            RunStage::RegisteringInput { .. } => false,
            RunStage::BindingInput { .. } => false,
            RunStage::BindingSession { .. } => false,
            RunStage::ListingDevices { .. } => false,
            RunStage::BindingUdev { .. } => false,
            RunStage::CheckingRunning { .. } => false,
            RunStage::Dispatching { .. } => false,
            RunStage::Exited => false,
            _ => true,
        },
    }
}

/// A reply that was not asked for changes nothing. One that was asked for leads on.
pub proof fn other_replies_change_nothing(stage: RunStage, event: RunEvent)
    ensures
        !answers(event, stage) ==> run_step(stage, event) == (stage, RunAction::Wait),
        answers(event, stage) ==> !(run_step(stage, event).1 is Wait),
{
}

/// Whether `action` comes before the backend has anything but a session.
pub open spec fn is_preliminary(action: RunAction) -> bool {
    match action {
        RunAction::SetVariable { .. } => true,
        RunAction::InitState => true,
        RunAction::OpenSession => true,
        RunAction::RegisterUdev => true,
        RunAction::FindPrimaryGpu => true,
        RunAction::OpenUdev => true,
        RunAction::Wait => true,
        _ => false,
    }
}

/// Whether udev was not listened to yet.
spec fn is_early(stage: RunStage) -> bool {
    match stage {
        RunStage::AddingSocket => true,
        RunStage::Advertising => true,
        RunStage::InitializingState => true,
        RunStage::OpeningSession => true,
        RunStage::RegisteringUdev => true,
        RunStage::FindingPrimaryGpu { .. } => true,
        RunStage::OpeningUdev { .. } => true,
        _ => false,
    }
}

proof fn lemma_early_actions(events: Seq<RunEvent>)
    ensures
        ({
            let end = course(run_start().0, events);
            let failure = RunAction::Exit { result: Err(()) };
            &&& is_early(end.0) ==> forall|i: int|
                0 <= i < end.1.len() ==> is_preliminary(#[trigger] end.1[i])
            &&& end.1.contains(failure) ==> end.0 is Exited && forall|i: int|
                0 <= i < end.1.len() ==> is_preliminary(#[trigger] end.1[i]) || end.1[i] == failure
        }),
    decreases events.len(),
{
    if events.len() > 0 {
        let failure = RunAction::Exit { result: Err(()) };
        let before = course(run_start().0, events.drop_last());
        let end = course(run_start().0, events);
        lemma_early_actions(events.drop_last());
        only_the_session_and_udev_can_fail(before.0, events.last());
        if end.1.contains(failure) && end.1.last() != failure {
            let i = choose|i: int| 0 <= i < end.1.len() && end.1[i] == failure;
            assert(before.1[i] == failure);
        }
    }
}

/// A run that fails has until then only told where its socket is, set up its state, opened its
/// session and registered with it, and looked for the primary GPU and for udev. It had no device,
/// no seat, no output, no input, and no source in the event loop.
pub proof fn failed_runs_end_early(events: Seq<RunEvent>, i: int)
    requires
        course(run_start().0, events).1.contains(RunAction::Exit { result: Err(()) }),
        0 <= i < course(run_start().0, events).1.len(),
    ensures
        ({
            let action = course(run_start().0, events).1[i];
            is_preliminary(action) || action == (RunAction::Exit { result: Err(()) })
        }),
{
    lemma_early_actions(events);
}

/// In each turn of the loop, events are dispatched for a moment, then the clients get what is
/// there for them and the windows that are gone are forgotten. If events cannot be dispatched,
/// the compositor is told to stop instead. Then it is asked whether to go on.
pub proof fn turns_of_the_loop(tokens: Tokens)
    ensures
        course(
            RunStage::CheckingRunning { tokens },
            seq![
                RunEvent::Running(true),
                RunEvent::Dispatched(true),
                RunEvent::Done,
                RunEvent::Done,
            ],
        ) == (
            RunStage::CheckingRunning { tokens },
            seq![
                RunAction::Dispatch { timeout_ms: 16 },
                RunAction::FlushClients,
                RunAction::RefreshWindows,
                RunAction::CheckRunning,
            ],
        ),
        course(
            RunStage::CheckingRunning { tokens },
            seq![RunEvent::Running(true), RunEvent::Dispatched(false), RunEvent::Done],
        ) == (
            RunStage::CheckingRunning { tokens },
            seq![
                RunAction::Dispatch { timeout_ms: 16 },
                RunAction::StopRunning,
                RunAction::CheckRunning,
            ],
        ),
{
    let stage = RunStage::CheckingRunning { tokens };
    let none = Seq::<RunEvent>::empty();
    let running = none.push(RunEvent::Running(true));
    let dispatched = running.push(RunEvent::Dispatched(true));
    let flushed = dispatched.push(RunEvent::Done);
    let failed = running.push(RunEvent::Dispatched(false));
    lemma_one_more(stage, none, RunEvent::Running(true));
    lemma_one_more(stage, running, RunEvent::Dispatched(true));
    lemma_one_more(stage, dispatched, RunEvent::Done);
    lemma_one_more(stage, flushed, RunEvent::Done);
    lemma_one_more(stage, running, RunEvent::Dispatched(false));
    lemma_one_more(stage, failed, RunEvent::Done);
    assert(seq![
        RunEvent::Running(true),
        RunEvent::Dispatched(true),
        RunEvent::Done,
        RunEvent::Done,
    ] == flushed.push(RunEvent::Done));
    assert(seq![RunEvent::Running(true), RunEvent::Dispatched(false), RunEvent::Done]
        == failed.push(RunEvent::Done));
}

/// The replies while the backend cleans up.
pub open spec fn cleanup_events() -> Seq<RunEvent> {
    seq![
        RunEvent::Running(false),
        RunEvent::Done,
        RunEvent::Done,
        RunEvent::Done,
        RunEvent::Done,
        RunEvent::Done,
        RunEvent::Done,
    ]
}

/// A backend that is to stop forgets its windows, takes the session out of the event loop and
/// unregisters from it, takes its other sources out as well, and succeeds.
pub proof fn cleanup_undoes_the_startup(tokens: Tokens)
    ensures
        course(RunStage::CheckingRunning { tokens }, cleanup_events()) == (
            RunStage::Exited,
            seq![
                RunAction::ClearWindows,
                RunAction::UnbindSession { source: tokens.session_source },
                RunAction::Unregister { id: tokens.input_session },
                RunAction::Unregister { id: tokens.udev_session },
                RunAction::RemoveSource { source: tokens.input_source },
                RunAction::RemoveSource { source: tokens.udev_source },
                RunAction::Exit { result: Ok(()) },
            ],
        ),
{
    let stage = RunStage::CheckingRunning { tokens };
    let e0 = Seq::<RunEvent>::empty();
    let e1 = e0.push(RunEvent::Running(false));
    let e2 = e1.push(RunEvent::Done);
    let e3 = e2.push(RunEvent::Done);
    let e4 = e3.push(RunEvent::Done);
    let e5 = e4.push(RunEvent::Done);
    let e6 = e5.push(RunEvent::Done);
    lemma_one_more(stage, e0, RunEvent::Running(false));
    lemma_one_more(stage, e1, RunEvent::Done);
    lemma_one_more(stage, e2, RunEvent::Done);
    lemma_one_more(stage, e3, RunEvent::Done);
    lemma_one_more(stage, e4, RunEvent::Done);
    lemma_one_more(stage, e5, RunEvent::Done);
    lemma_one_more(stage, e6, RunEvent::Done);
    assert(cleanup_events() == e6.push(RunEvent::Done));
}

/// What the session and the event loop know the parts of a running backend by.
pub open spec fn tokens_of(stage: RunStage) -> Option<Tokens> {
    match stage {
        RunStage::CheckingRunning { tokens } => Some(tokens),
        RunStage::Dispatching { tokens } => Some(tokens),
        RunStage::Stopping { tokens } => Some(tokens),
        RunStage::FlushingClients { tokens } => Some(tokens),
        RunStage::RefreshingWindows { tokens } => Some(tokens),
        RunStage::ClearingWindows { tokens } => Some(tokens),
        RunStage::UnbindingSession { tokens } => Some(tokens),
        RunStage::UnregisteringInput { tokens } => Some(tokens),
        RunStage::UnregisteringUdev { tokens } => Some(tokens),
        RunStage::RemovingInput { tokens } => Some(tokens),
        RunStage::RemovingUdev { tokens } => Some(tokens),
        _ => None,
    }
}

/// However long the backend runs, it cleans up what it has set up: what its parts are known by
/// does not change until it has exited, and after that nothing happens any more.
pub proof fn tokens_last_until_the_exit(stage: RunStage, events: Seq<RunEvent>)
    requires
        tokens_of(stage) is Some || stage is Exited,
    ensures
        tokens_of(course(stage, events).0) == tokens_of(stage) || course(stage, events).0 is Exited,
        stage is Exited ==> course(stage, events).0 is Exited && forall|i: int|
            0 <= i < events.len() ==> #[trigger] course(stage, events).1[i] == RunAction::Wait,
        course(stage, events).1.len() == events.len(),
    decreases events.len(),
{
    if events.len() > 0 {
        tokens_last_until_the_exit(stage, events.drop_last());
    }
}

}
