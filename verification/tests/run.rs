use anvil_udev::run::{run_udev, Mode, RunAction, RunEvent, RunStage, Tokens};

const TOKENS: Tokens = Tokens {
    udev_session: 20,
    input_session: 21,
    input_source: 22,
    session_source: 23,
    udev_source: 24,
};

/// Gives the replies to the backend, and collects what was to be done after each of them.
fn course(stage: RunStage, events: Vec<RunEvent>) -> (RunStage, Vec<RunAction>) {
    let mut stage = stage;
    let mut actions = Vec::new();
    for event in events {
        let (next, action) = run_udev(stage, event);
        stage = next;
        actions.push(action);
    }
    (stage, actions)
}

/// The replies up to the list of the devices.
fn startup(found: Result<Option<String>, ()>, devices: Vec<(u64, String)>) -> Vec<RunEvent> {
    vec![
        RunEvent::SocketAdded("wayland-0".to_string()),
        RunEvent::Done,
        RunEvent::Done,
        RunEvent::SessionOpened(true),
        RunEvent::Registered(20),
        RunEvent::PrimaryGpuFound(found),
        RunEvent::UdevOpened(true),
        RunEvent::Done,
        RunEvent::Done,
        RunEvent::Done,
        RunEvent::Registered(21),
        RunEvent::Bound(22),
        RunEvent::Bound(23),
        RunEvent::DevicesListed(devices),
    ]
}

fn gpu() -> Option<String> {
    Some("/dev/dri/card0".to_string())
}

#[test]
fn a_run_sets_up_everything_before_its_loop() {
    let devices =
        vec![(226, "/dev/dri/card0".to_string()), (227, "/dev/dri/card1".to_string())];
    let (stage, action) = RunStage::start();
    assert_eq!(action, RunAction::AddSocket);
    let mut events = startup(Ok(gpu()), devices);
    events.push(RunEvent::Done);
    events.push(RunEvent::Done);
    events.push(RunEvent::Bound(24));
    let (stage, actions) = course(stage, events);
    assert_eq!(stage, RunStage::CheckingRunning { tokens: TOKENS });
    assert_eq!(
        actions,
        vec![
            RunAction::SetVariable {
                variable: "WAYLAND_DISPLAY",
                value: "wayland-0".to_string(),
            },
            RunAction::InitState,
            RunAction::OpenSession,
            RunAction::RegisterUdev,
            RunAction::FindPrimaryGpu,
            RunAction::OpenUdev,
            RunAction::CreateHandler { primary_gpu: gpu() },
            RunAction::CreateSeat { repeat_delay: 200, repeat_rate: 25 },
            RunAction::CreateOutput {
                name: "Drm",
                make: "Smithay",
                model: "Generic DRM",
                physical_size: (0, 0),
                mode: Mode { width: 1920, height: 1080, refresh: 60_000 },
            },
            RunAction::RegisterInput,
            RunAction::BindInput { screen_size: (1920, 1080) },
            RunAction::BindSession,
            RunAction::ListDevices,
            RunAction::AddDevice { device_id: 226, path: "/dev/dri/card0".to_string() },
            RunAction::AddDevice { device_id: 227, path: "/dev/dri/card1".to_string() },
            RunAction::BindUdev,
            RunAction::CheckRunning,
        ]
    );
}

#[test]
fn a_run_starts_without_devices() {
    let mut events = startup(Ok(gpu()), vec![]);
    events.push(RunEvent::Bound(24));
    let (stage, actions) = course(RunStage::start().0, events);
    assert_eq!(stage, RunStage::CheckingRunning { tokens: TOKENS });
    assert_eq!(actions[13..], vec![RunAction::BindUdev, RunAction::CheckRunning][..]);
}

#[test]
fn a_primary_gpu_that_cannot_be_found_is_none() {
    for found in vec![Ok(None), Err(())] {
        let (_, actions) = course(RunStage::start().0, startup(found, vec![]));
        assert_eq!(actions[6], RunAction::CreateHandler { primary_gpu: None });
    }
}

#[test]
fn a_run_fails_without_a_session() {
    let mut events = startup(Ok(gpu()), vec![]);
    events.truncate(3);
    events.push(RunEvent::SessionOpened(false));
    let (stage, actions) = course(RunStage::start().0, events);
    assert_eq!(stage, RunStage::Exited);
    assert_eq!(actions.last(), Some(&RunAction::Exit { result: Err(()) }));
}

#[test]
fn a_run_fails_without_udev() {
    let mut events = startup(Ok(gpu()), vec![]);
    events.truncate(6);
    events.push(RunEvent::UdevOpened(false));
    let (stage, actions) = course(RunStage::start().0, events);
    assert_eq!(stage, RunStage::Exited);
    assert_eq!(
        actions[1..6],
        vec![
            RunAction::InitState,
            RunAction::OpenSession,
            RunAction::RegisterUdev,
            RunAction::FindPrimaryGpu,
            RunAction::OpenUdev,
        ][..]
    );
    assert_eq!(actions.len(), 7);
    assert_eq!(actions.last(), Some(&RunAction::Exit { result: Err(()) }));
}

#[test]
fn a_turn_of_the_loop_serves_the_clients() {
    let stage = RunStage::CheckingRunning { tokens: TOKENS };
    let (stage, actions) = course(
        stage,
        vec![
            RunEvent::Running(true),
            RunEvent::Dispatched(true),
            RunEvent::Done,
            RunEvent::Done,
        ],
    );
    assert_eq!(stage, RunStage::CheckingRunning { tokens: TOKENS });
    assert_eq!(
        actions,
        vec![
            RunAction::Dispatch { timeout_ms: 16 },
            RunAction::FlushClients,
            RunAction::RefreshWindows,
            RunAction::CheckRunning,
        ]
    );
}

#[test]
fn a_failed_dispatch_stops_the_loop() {
    let stage = RunStage::CheckingRunning { tokens: TOKENS };
    let (stage, actions) = course(
        stage,
        vec![RunEvent::Running(true), RunEvent::Dispatched(false), RunEvent::Done],
    );
    assert_eq!(stage, RunStage::CheckingRunning { tokens: TOKENS });
    assert_eq!(
        actions,
        vec![
            RunAction::Dispatch { timeout_ms: 16 },
            RunAction::StopRunning,
            RunAction::CheckRunning,
        ]
    );
}

#[test]
fn the_clean_up_undoes_the_set_up() {
    let stage = RunStage::CheckingRunning { tokens: TOKENS };
    let (stage, actions) = course(
        stage,
        vec![
            RunEvent::Running(false),
            RunEvent::Done,
            RunEvent::Done,
            RunEvent::Done,
            RunEvent::Done,
            RunEvent::Done,
            RunEvent::Done,
        ],
    );
    assert_eq!(stage, RunStage::Exited);
    assert_eq!(
        actions,
        vec![
            RunAction::ClearWindows,
            RunAction::UnbindSession { source: 23 },
            RunAction::Unregister { id: 21 },
            RunAction::Unregister { id: 20 },
            RunAction::RemoveSource { source: 22 },
            RunAction::RemoveSource { source: 24 },
            RunAction::Exit { result: Ok(()) },
        ]
    );
}

#[test]
fn nothing_happens_after_the_exit() {
    let (stage, actions) = course(
        RunStage::Exited,
        vec![RunEvent::Done, RunEvent::Running(true), RunEvent::Bound(3)],
    );
    assert_eq!(stage, RunStage::Exited);
    assert_eq!(actions, vec![RunAction::Wait, RunAction::Wait, RunAction::Wait]);
}

#[test]
fn an_unexpected_reply_changes_nothing() {
    let (stage, action) = run_udev(RunStage::AddingSocket, RunEvent::Done);
    assert_eq!(stage, RunStage::AddingSocket);
    assert_eq!(action, RunAction::Wait);
}
