use anvil_udev::connectors::{ConnectorInfo, EncoderInfo, SurfacePlan};
use anvil_udev::handler::{UdevEvent, UdevHandlerImpl};
use anvil_udev::render::{CursorImageStatus, DrmHandlerImpl, DrmRendererSessionListener, RenderCall};
use anvil_udev::session::{OpenFlags, SessionFd};
use anvil_udev::task::{DeviceAction, DeviceEvent, DeviceTask};
use drm::control::connector::State;

type Task = DeviceTask<u8>;
type Action = DeviceAction<u8>;
type Event = DeviceEvent<u8>;

const LOOP: u64 = 1;

fn handler(egl: bool) -> UdevHandlerImpl {
    UdevHandlerImpl::new(Some("/dev/dri/card0".to_string()), egl, LOOP)
}

fn path(text: &str) -> Option<String> {
    Some(text.to_string())
}

/// Gives the replies to the work, and collects what was to be done after each of them.
fn converse(handler: &mut UdevHandlerImpl, task: Task, events: Vec<Event>) -> (Task, Vec<Action>) {
    let mut task = task;
    let mut actions = Vec::new();
    for event in events {
        let (next, action) = handler.advance(task, event);
        task = next;
        actions.push(action);
    }
    (task, actions)
}

/// Connectors from 1 on, each with an encoder of its own from 11 on.
fn connectors(n: u32) -> Event {
    DeviceEvent::ConnectorsRead(
        (1..=n)
            .map(|handle| ConnectorInfo {
                handle,
                state: State::Connected,
                modes: vec![9],
                encoders: vec![Some(10 + handle)],
            })
            .collect(),
    )
}

/// The encoder of one of these connectors, which can use the CRTCs from 100 to 109.
fn encoder() -> Event {
    DeviceEvent::EncodersRead(vec![Some(EncoderInfo { possible_crtcs: (100..110).collect() })])
}

/// The replies while `drawers` get a surface each, on a connector of its own.
fn scanned(drawers: Vec<u64>) -> Vec<Event> {
    let mut events = vec![connectors(drawers.len() as u32)];
    for drawer in drawers {
        events.push(encoder());
        events.push(DeviceEvent::SurfaceCreated(drawer));
    }
    events
}

fn create(crtc: u32, connector: u32) -> Action {
    DeviceAction::CreateSurface { surface: SurfacePlan { crtc, connector, mode: Some(9) } }
}

/// Adds a device with the number `device` at `at`, with a surface for each of `drawers`.
fn add(handler: &mut UdevHandlerImpl, device: u64, at: &str, drawers: Vec<u64>) -> Vec<Action> {
    let (task, action) = handler.device_added(device, at.to_string());
    let mut actions = vec![action];
    let mut events = vec![
        DeviceEvent::Opened(Some(5)),
        DeviceEvent::DrmCreated(true),
        DeviceEvent::GbmCreated(true),
        DeviceEvent::EglCreated(true),
        DeviceEvent::Identified(path(at)),
    ];
    if at == "/dev/dri/card0" {
        events.push(DeviceEvent::DisplayBound(Some(77)));
    }
    events.extend(scanned(drawers));
    events.push(DeviceEvent::Registered(1000 + device));
    events.push(DeviceEvent::HandlerSet);
    events.push(DeviceEvent::Registered(2000 + device));
    events.push(DeviceEvent::IdRead(device));
    events.push(DeviceEvent::SourceBound(3000 + device));
    events.push(DeviceEvent::SurfacesStarted);
    let (task, more) = converse(handler, task, events);
    assert!(matches!(task, DeviceTask::Done));
    actions.extend(more);
    actions
}

fn surfaces(handler: &UdevHandlerImpl, renderer: usize) -> Vec<(u32, u64)> {
    let mut surfaces = handler.renderer(renderer).unwrap().surfaces();
    surfaces.sort();
    surfaces
}

#[test]
fn a_new_device_is_opened_by_the_session() {
    let mut handler = handler(true);
    let (task, action) = handler.device_added::<u8>(226, "/dev/dri/card0".to_string());
    assert!(matches!(task, DeviceTask::Opening));
    let flags = OpenFlags {
        read_write: true,
        close_on_exec: true,
        no_ctty: true,
        non_blocking: true,
    };
    assert_eq!(action, DeviceAction::Open { path: "/dev/dri/card0".to_string(), flags });
}

#[test]
fn an_addition_goes_through_all_steps() {
    let mut handler = handler(true);
    let actions = add(&mut handler, 226, "/dev/dri/card0", vec![50, 51]);
    assert_eq!(
        actions[1..],
        vec![
            DeviceAction::CreateDrm { fd: SessionFd::new(5), disable_connectors: true },
            DeviceAction::CreateGbm,
            DeviceAction::CreateEgl,
            DeviceAction::Identify,
            DeviceAction::BindDisplay,
            DeviceAction::ReadConnectors { device: None },
            DeviceAction::ReadEncoders { handles: vec![11] },
            create(100, 1),
            DeviceAction::ReadEncoders { handles: vec![12] },
            create(101, 2),
            DeviceAction::RegisterListener {
                listener: DrmRendererSessionListener { renderer: 0, loop_handle: LOOP },
            },
            DeviceAction::SetHandler {
                handler: DrmHandlerImpl { renderer: 0, loop_handle: LOOP },
            },
            DeviceAction::RegisterDevice,
            DeviceAction::ReadId,
            DeviceAction::BindSource,
            DeviceAction::StartSurfaces { renderer: 0, hotspot: (2, 2) },
            DeviceAction::Finish,
        ][..]
    );
    assert_eq!(surfaces(&handler, 0), vec![(100, 50), (101, 51)]);
    assert_eq!(handler.egl_buffer_reader(), Some(77));
    assert!(handler.renderer(1).is_none());
}

#[test]
fn a_device_that_cannot_be_set_up_is_skipped() {
    let replies: Vec<Vec<Event>> = vec![
        vec![DeviceEvent::Opened(None)],
        vec![DeviceEvent::Opened(Some(5)), DeviceEvent::DrmCreated(false)],
        vec![
            DeviceEvent::Opened(Some(5)),
            DeviceEvent::DrmCreated(true),
            DeviceEvent::GbmCreated(false),
        ],
        vec![
            DeviceEvent::Opened(Some(5)),
            DeviceEvent::DrmCreated(true),
            DeviceEvent::GbmCreated(true),
            DeviceEvent::EglCreated(false),
        ],
    ];
    for events in replies {
        let mut handler = handler(true);
        let (task, _) = handler.device_added(226, "/dev/dri/card0".to_string());
        let (task, actions) = converse(&mut handler, task, events);
        assert!(matches!(task, DeviceTask::Done));
        assert_eq!(actions.last(), Some(&DeviceAction::Finish));
        assert!(handler.renderer(0).is_none());
        assert_eq!(handler.egl_buffer_reader(), None);
        let (task, action) = handler.device_changed::<u8>(226);
        assert!(matches!(task, DeviceTask::Done));
        assert_eq!(action, DeviceAction::Finish);
    }
}

#[test]
fn without_acceleration_a_device_is_not_identified() {
    let mut handler = handler(false);
    let (task, _) = handler.device_added(226, "/dev/dri/card0".to_string());
    let (task, actions) = converse(
        &mut handler,
        task,
        vec![
            DeviceEvent::Opened(Some(5)),
            DeviceEvent::DrmCreated(true),
            DeviceEvent::GbmCreated(true),
            DeviceEvent::EglCreated(true),
        ],
    );
    assert!(matches!(task, DeviceTask::ReadingConnectors { .. }));
    assert_eq!(actions.last(), Some(&DeviceAction::ReadConnectors { device: None }));
}

#[test]
fn the_display_is_bound_to_the_primary_gpu_only() {
    let mut handler = handler(true);
    let actions = add(&mut handler, 227, "/dev/dri/card1", vec![50]);
    assert!(!actions.contains(&DeviceAction::BindDisplay));
    assert_eq!(handler.egl_buffer_reader(), None);
    let actions = add(&mut handler, 226, "/dev/dri/card0", vec![51]);
    assert!(actions.contains(&DeviceAction::BindDisplay));
    assert_eq!(handler.egl_buffer_reader(), Some(77));
}

#[test]
fn a_device_without_a_path_is_primary_where_no_gpu_is() {
    let events = || -> Vec<Event> {
        vec![
            DeviceEvent::Opened(Some(5)),
            DeviceEvent::DrmCreated(true),
            DeviceEvent::GbmCreated(true),
            DeviceEvent::EglCreated(true),
            DeviceEvent::Identified(None),
        ]
    };
    let mut none = UdevHandlerImpl::new(None, true, LOOP);
    let (task, _) = none.device_added(226, "/dev/dri/card0".to_string());
    let (_, actions) = converse(&mut none, task, events());
    assert_eq!(actions.last(), Some(&DeviceAction::BindDisplay));
    let mut some = handler(true);
    let (task, _) = some.device_added(226, "/dev/dri/card0".to_string());
    let (_, actions) = converse(&mut some, task, events());
    assert_eq!(actions.last(), Some(&DeviceAction::ReadConnectors { device: None }));
}

#[test]
fn a_display_that_cannot_be_bound_has_no_reader() {
    let mut handler = handler(true);
    add(&mut handler, 226, "/dev/dri/card0", vec![]);
    assert_eq!(handler.egl_buffer_reader(), Some(77));
    let (task, _) = handler.device_added(226, "/dev/dri/card0".to_string());
    converse(
        &mut handler,
        task,
        vec![
            DeviceEvent::Opened(Some(5)),
            DeviceEvent::DrmCreated(true),
            DeviceEvent::GbmCreated(true),
            DeviceEvent::EglCreated(true),
            DeviceEvent::Identified(path("/dev/dri/card0")),
            DeviceEvent::DisplayBound(None),
        ],
    );
    assert_eq!(handler.egl_buffer_reader(), None);
}

#[test]
fn a_device_without_monitors_is_kept() {
    let mut handler = handler(true);
    let actions = add(&mut handler, 227, "/dev/dri/card1", vec![]);
    assert!(actions.contains(&DeviceAction::StartSurfaces { renderer: 0, hotspot: (2, 2) }));
    assert!(surfaces(&handler, 0).is_empty());
    let (task, _) = handler.device_changed::<u8>(227);
    assert!(matches!(task, DeviceTask::ReadingConnectors { .. }));
}

#[test]
fn a_device_is_kept_under_its_own_number() {
    let mut handler = handler(false);
    let (task, _) = handler.device_added(1, "/dev/dri/card1".to_string());
    converse(
        &mut handler,
        task,
        vec![
            DeviceEvent::Opened(Some(5)),
            DeviceEvent::DrmCreated(true),
            DeviceEvent::GbmCreated(true),
            DeviceEvent::EglCreated(true),
            connectors(0),
            DeviceEvent::Registered(30),
            DeviceEvent::HandlerSet,
            DeviceEvent::Registered(31),
            DeviceEvent::IdRead(2),
            DeviceEvent::SourceBound(32),
            DeviceEvent::SurfacesStarted,
        ],
    );
    assert_eq!(handler.device_removed::<u8>(1).1, DeviceAction::Finish);
    assert_eq!(handler.device_removed::<u8>(2).1, DeviceAction::RemoveSource { source: 32 });
}

#[test]
fn a_change_makes_new_surfaces() {
    let mut handler = handler(true);
    add(&mut handler, 226, "/dev/dri/card0", vec![50]);
    add(&mut handler, 227, "/dev/dri/card1", vec![60, 61]);
    let (task, action) = handler.device_changed(226);
    assert_eq!(action, DeviceAction::ReadConnectors { device: Some(3226) });
    let (task, actions) = converse(
        &mut handler,
        task,
        vec![
            connectors(2),
            encoder(),
            DeviceEvent::SurfaceCreated(70),
            encoder(),
            DeviceEvent::SurfaceCreated(71),
            DeviceEvent::SurfacesStarted,
        ],
    );
    assert!(matches!(task, DeviceTask::Done));
    assert_eq!(
        actions,
        vec![
            DeviceAction::ReadEncoders { handles: vec![11] },
            create(100, 1),
            DeviceAction::ReadEncoders { handles: vec![12] },
            create(101, 2),
            DeviceAction::StartSurfaces { renderer: 0, hotspot: (2, 2) },
            DeviceAction::Finish,
        ]
    );
    assert_eq!(surfaces(&handler, 0), vec![(100, 70), (101, 71)]);
    assert_eq!(surfaces(&handler, 1), vec![(100, 60), (101, 61)]);
    assert_eq!(handler.egl_buffer_reader(), Some(77));
}

#[test]
fn a_change_can_take_all_surfaces_away() {
    let mut handler = handler(true);
    add(&mut handler, 226, "/dev/dri/card0", vec![50]);
    let (task, _) = handler.device_changed(226);
    assert_eq!(surfaces(&handler, 0), vec![(100, 50)]);
    let (task, actions) = converse(&mut handler, task, vec![connectors(0)]);
    assert_eq!(
        actions.last(),
        Some(&DeviceAction::StartSurfaces { renderer: 0, hotspot: (2, 2) })
    );
    let (task, actions) = converse(&mut handler, task, vec![DeviceEvent::SurfacesStarted]);
    assert!(matches!(task, DeviceTask::Done));
    assert_eq!(actions, vec![DeviceAction::Finish]);
    assert!(surfaces(&handler, 0).is_empty());
}

#[test]
fn messages_about_unknown_devices_are_ignored() {
    let mut handler = handler(true);
    add(&mut handler, 226, "/dev/dri/card0", vec![50]);
    assert_eq!(handler.device_changed::<u8>(227).1, DeviceAction::Finish);
    assert_eq!(handler.device_removed::<u8>(227).1, DeviceAction::Finish);
    assert_eq!(surfaces(&handler, 0), vec![(100, 50)]);
    assert_eq!(handler.egl_buffer_reader(), Some(77));
}

#[test]
fn a_removal_undoes_an_addition() {
    let mut handler = handler(true);
    add(&mut handler, 227, "/dev/dri/card1", vec![60]);
    add(&mut handler, 226, "/dev/dri/card0", vec![50]);
    let (task, action) = handler.device_removed(226);
    assert_eq!(action, DeviceAction::RemoveSource { source: 3226 });
    assert!(surfaces(&handler, 1).is_empty());
    assert_eq!(handler.egl_buffer_reader(), Some(77));
    let (task, actions) = converse(
        &mut handler,
        task,
        vec![DeviceEvent::SourceRemoved(path("/dev/dri/card0"))],
    );
    assert!(matches!(task, DeviceTask::Done));
    assert_eq!(actions, vec![DeviceAction::Unregister { id: 2226, restart_id: 1226 }]);
    assert_eq!(handler.egl_buffer_reader(), None);
    assert_eq!(surfaces(&handler, 0), vec![(100, 60)]);
    assert_eq!(handler.device_removed::<u8>(226).1, DeviceAction::Finish);
    assert_eq!(handler.device_removed::<u8>(227).1, DeviceAction::RemoveSource { source: 3227 });
}

#[test]
fn another_gpu_leaves_the_reader_alone() {
    let mut handler = handler(true);
    add(&mut handler, 226, "/dev/dri/card0", vec![50]);
    add(&mut handler, 227, "/dev/dri/card1", vec![60]);
    let (task, _) = handler.device_removed(227);
    converse(&mut handler, task, vec![DeviceEvent::SourceRemoved(path("/dev/dri/card1"))]);
    assert_eq!(handler.egl_buffer_reader(), Some(77));
}

#[test]
fn nothing_is_rendered_for_a_device_that_has_gone() {
    let mut handler = handler(true);
    add(&mut handler, 226, "/dev/dri/card0", vec![50]);
    let call = RenderCall { crtc: 100, timer: None, evt_handle: Some(LOOP) };
    let mut status = CursorImageStatus::Default;
    let before = handler.renderer(0).unwrap().render(&call, None, &mut status);
    assert_eq!(before.unwrap().drawer, 50);
    let _ = handler.device_removed::<u8>(226);
    assert!(handler.renderer(0).unwrap().render(&call, None, &mut status).is_none());
    assert!(handler.renderer(0).unwrap().render_all(Some(LOOP)).is_empty());
}

#[test]
fn a_device_that_comes_twice_gets_another_renderer() {
    let mut handler = handler(true);
    add(&mut handler, 226, "/dev/dri/card0", vec![50]);
    add(&mut handler, 226, "/dev/dri/card0", vec![51]);
    assert_eq!(surfaces(&handler, 0), vec![(100, 50)]);
    assert_eq!(surfaces(&handler, 1), vec![(100, 51)]);
    let _ = handler.device_removed::<u8>(226);
    assert_eq!(surfaces(&handler, 0), vec![(100, 50)]);
    assert!(surfaces(&handler, 1).is_empty());
}

#[test]
fn messages_of_udev_reach_their_device() {
    let mut handler = handler(true);
    add(&mut handler, 226, "/dev/dri/card0", vec![50]);
    let (task, action) = handler
        .udev_event::<u8>(UdevEvent::Added { device_id: 227, path: "/dev/dri/card1".to_string() });
    assert!(matches!(task, DeviceTask::Opening));
    assert!(matches!(action, DeviceAction::Open { path, .. } if path == "/dev/dri/card1"));
    let (_, action) = handler.udev_event::<u8>(UdevEvent::Changed { device_id: 226 });
    assert_eq!(action, DeviceAction::ReadConnectors { device: Some(3226) });
    let (_, action) = handler.udev_event::<u8>(UdevEvent::Changed { device_id: 227 });
    assert_eq!(action, DeviceAction::Finish);
    let (_, action) = handler.udev_event::<u8>(UdevEvent::Removed { device_id: 226 });
    assert_eq!(action, DeviceAction::RemoveSource { source: 3226 });
}

#[test]
fn an_unexpected_reply_is_waited_out() {
    let mut handler = handler(true);
    let (task, _) = handler.device_added::<u8>(226, "/dev/dri/card0".to_string());
    let (task, action) = handler.advance(task, DeviceEvent::HandlerSet);
    assert!(matches!(task, DeviceTask::Opening));
    assert_eq!(action, DeviceAction::Wait);
    let (task, action) = handler.advance(task, DeviceEvent::Opened(None));
    assert_eq!(action, DeviceAction::Finish);
    let (task, action) = handler.advance(task, DeviceEvent::Opened(Some(5)));
    assert!(matches!(task, DeviceTask::Done));
    assert_eq!(action, DeviceAction::Wait);
}

#[test]
fn a_device_is_kept_only_once_its_surfaces_were_started() {
    let mut handler = handler(false);
    let (task, _) = handler.device_added(227, "/dev/dri/card1".to_string());
    let (task, actions) = converse(
        &mut handler,
        task,
        vec![
            DeviceEvent::Opened(Some(5)),
            DeviceEvent::DrmCreated(true),
            DeviceEvent::GbmCreated(true),
            DeviceEvent::EglCreated(true),
            connectors(1),
            encoder(),
            DeviceEvent::SurfaceCreated(50),
            DeviceEvent::Registered(30),
            DeviceEvent::HandlerSet,
            DeviceEvent::Registered(31),
            DeviceEvent::IdRead(227),
            DeviceEvent::SourceBound(32),
        ],
    );
    assert_eq!(
        actions.last(),
        Some(&DeviceAction::StartSurfaces { renderer: 0, hotspot: (2, 2) })
    );
    assert_eq!(surfaces(&handler, 0), vec![(100, 50)]);
    assert_eq!(handler.device_changed::<u8>(227).1, DeviceAction::Finish);
    let (task, actions) = converse(&mut handler, task, vec![DeviceEvent::SurfacesStarted]);
    assert!(matches!(task, DeviceTask::Done));
    assert_eq!(actions, vec![DeviceAction::Finish]);
    assert_eq!(
        handler.device_changed::<u8>(227).1,
        DeviceAction::ReadConnectors { device: Some(32) }
    );
}

/// Two connectors, of which only the first lists a mode.
fn connectors_without_mode() -> Event {
    DeviceEvent::ConnectorsRead(vec![
        ConnectorInfo {
            handle: 1,
            state: State::Connected,
            modes: vec![9],
            encoders: vec![Some(11)],
        },
        ConnectorInfo {
            handle: 2,
            state: State::Connected,
            modes: vec![],
            encoders: vec![Some(12)],
        },
    ])
}

#[test]
fn with_acceleration_a_surface_needs_a_mode() {
    let mut handler = handler(true);
    add(&mut handler, 226, "/dev/dri/card0", vec![50]);
    let (task, _) = handler.device_changed(226);
    let (task, actions) = converse(
        &mut handler,
        task,
        vec![
            connectors_without_mode(),
            encoder(),
            DeviceEvent::SurfaceCreated(70),
            encoder(),
        ],
    );
    assert!(matches!(task, DeviceTask::Done));
    assert_eq!(
        actions,
        vec![
            DeviceAction::ReadEncoders { handles: vec![11] },
            create(100, 1),
            DeviceAction::ReadEncoders { handles: vec![12] },
            DeviceAction::FailWithoutMode { connector: 2 },
        ]
    );
    assert_eq!(surfaces(&handler, 0), vec![(100, 50)]);
}

#[test]
fn a_missing_mode_does_not_matter_where_no_crtc_is_free() {
    let mut handler = handler(true);
    add(&mut handler, 226, "/dev/dri/card0", vec![50]);
    let (task, _) = handler.device_changed(226);
    let busy = || DeviceEvent::EncodersRead(vec![Some(EncoderInfo { possible_crtcs: vec![100] })]);
    let (task, _) = converse(
        &mut handler,
        task,
        vec![
            connectors_without_mode(),
            busy(),
            DeviceEvent::SurfaceCreated(70),
            busy(),
            DeviceEvent::SurfacesStarted,
        ],
    );
    assert!(matches!(task, DeviceTask::Done));
    assert_eq!(surfaces(&handler, 0), vec![(100, 70)]);
}

#[test]
fn without_acceleration_a_surface_needs_no_mode() {
    let mut handler = handler(false);
    let (task, _) = handler.device_added(227, "/dev/dri/card1".to_string());
    let (_, actions) = converse(
        &mut handler,
        task,
        vec![
            DeviceEvent::Opened(Some(5)),
            DeviceEvent::DrmCreated(true),
            DeviceEvent::GbmCreated(true),
            DeviceEvent::EglCreated(true),
            connectors_without_mode(),
            encoder(),
            DeviceEvent::SurfaceCreated(70),
            encoder(),
        ],
    );
    assert_eq!(
        actions.last(),
        Some(&DeviceAction::CreateSurface {
            surface: SurfacePlan { crtc: 101, connector: 2, mode: None },
        })
    );
}

#[test]
fn drawers_in_use_are_those_of_the_surfaces() {
    let mut handler = handler(true);
    assert!(handler.drawers_in_use().is_empty());
    add(&mut handler, 226, "/dev/dri/card0", vec![50]);
    add(&mut handler, 227, "/dev/dri/card1", vec![60, 61]);
    let mut drawers = handler.drawers_in_use();
    drawers.sort();
    assert_eq!(drawers, vec![50, 60, 61]);
    let _ = handler.device_removed::<u8>(227);
    assert_eq!(handler.drawers_in_use(), vec![50]);
}

#[test]
fn registrations_are_those_of_the_devices_that_are_kept() {
    let mut handler = handler(true);
    let mut registered = Vec::new();
    let mut sources = Vec::new();
    for device in vec![226, 227, 228] {
        let actions = add(&mut handler, device, "/dev/dri/card1", vec![device]);
        for action in actions {
            match action {
                DeviceAction::RegisterListener { .. } => registered.push(1000 + device),
                DeviceAction::RegisterDevice => registered.push(2000 + device),
                DeviceAction::BindSource => sources.push(3000 + device),
                _ => {}
            }
        }
    }
    for device in vec![227, 229, 226] {
        let (task, action) = handler.device_removed(device);
        if let DeviceAction::RemoveSource { source } = action {
            sources.retain(|held| *held != source);
            let events = vec![DeviceEvent::SourceRemoved(path("/dev/dri/card1"))];
            for action in converse(&mut handler, task, events).1 {
                if let DeviceAction::Unregister { id, restart_id } = action {
                    registered.retain(|held| *held != id && *held != restart_id);
                }
            }
        }
    }
    assert_eq!(registered, vec![1228, 2228]);
    assert_eq!(sources, vec![3228]);
}

#[test]
fn a_connector_without_readable_encoders_gets_no_surface() {
    let mut handler = handler(true);
    add(&mut handler, 226, "/dev/dri/card0", vec![50]);
    let (task, _) = handler.device_changed(226);
    let (task, actions) = converse(
        &mut handler,
        task,
        vec![
            connectors(2),
            DeviceEvent::EncodersRead(vec![None]),
            encoder(),
            DeviceEvent::SurfaceCreated(70),
            DeviceEvent::SurfacesStarted,
        ],
    );
    assert!(matches!(task, DeviceTask::Done));
    assert_eq!(
        actions[..3],
        vec![
            DeviceAction::ReadEncoders { handles: vec![11] },
            DeviceAction::ReadEncoders { handles: vec![12] },
            create(100, 2),
        ][..]
    );
    assert_eq!(surfaces(&handler, 0), vec![(100, 70)]);
}
