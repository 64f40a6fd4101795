use anvil_udev::render::{
    ClientSurface, CursorImageStatus, DrmError, DrmHandlerImpl, DrmRenderer,
    DrmRendererSessionListener, FrameAction, FrameError, IdleRender, RenderCall, RenderOp,
    RETRY_DELAY_MS,
};
use drm::SystemError;
use nix::errno::Errno;

const VBLANK: RenderCall = RenderCall { crtc: 100, timer: None, evt_handle: Some(1) };
const TIMER: RenderCall = RenderCall { crtc: 100, timer: Some(6), evt_handle: None };

fn renderer() -> DrmRenderer {
    let mut renderer = DrmRenderer::new();
    renderer.insert(100, 7);
    renderer.insert(101, 8);
    renderer
}

fn denied() -> FrameError {
    FrameError::TemporaryFailure(Some(DrmError::Access { source: SystemError::PermissionDenied }))
}

#[test]
fn a_frame_shows_the_windows() {
    let mut status = CursorImageStatus::Default;
    let frame = renderer().render(&VBLANK, None, &mut status).unwrap();
    assert_eq!(frame.drawer, 7);
    assert_eq!(
        frame.ops,
        vec![RenderOp::MoveCursor, RenderOp::Clear, RenderOp::DrawWindows, RenderOp::Finish]
    );
    assert_eq!(status, CursorImageStatus::Default);
}

#[test]
fn a_frame_shows_what_is_at_the_pointer_on_top() {
    let mut status = CursorImageStatus::Image(ClientSurface { id: 41, alive: true });
    let icon = Some(ClientSurface { id: 40, alive: true });
    let call = RenderCall { crtc: 101, timer: None, evt_handle: Some(1) };
    let frame = renderer().render(&call, icon, &mut status).unwrap();
    assert_eq!(frame.drawer, 8);
    assert_eq!(
        frame.ops,
        vec![
            RenderOp::MoveCursor,
            RenderOp::Clear,
            RenderOp::DrawWindows,
            RenderOp::DrawDndIcon(40),
            RenderOp::DrawCursor(41),
            RenderOp::Finish,
        ]
    );
    assert_eq!(status, CursorImageStatus::Image(ClientSurface { id: 41, alive: true }));
}

#[test]
fn surfaces_that_are_gone_are_not_drawn() {
    let mut status = CursorImageStatus::Image(ClientSurface { id: 41, alive: false });
    let icon = Some(ClientSurface { id: 40, alive: false });
    let frame = renderer().render(&VBLANK, icon, &mut status).unwrap();
    assert_eq!(
        frame.ops,
        vec![RenderOp::MoveCursor, RenderOp::Clear, RenderOp::DrawWindows, RenderOp::Finish]
    );
    assert_eq!(status, CursorImageStatus::Default);
}

#[test]
fn a_hidden_pointer_stays_hidden() {
    let mut status = CursorImageStatus::Hidden;
    let frame = renderer().render(&VBLANK, None, &mut status).unwrap();
    assert_eq!(frame.ops.len(), 4);
    assert_eq!(status, CursorImageStatus::Hidden);
}

#[test]
fn nothing_is_drawn_on_a_crtc_without_a_surface() {
    let dead = CursorImageStatus::Image(ClientSurface { id: 41, alive: false });
    let mut status = dead;
    let call = RenderCall { crtc: 102, timer: None, evt_handle: Some(1) };
    assert!(renderer().render(&call, None, &mut status).is_none());
    assert!(DrmRenderer::new().render(&VBLANK, None, &mut status).is_none());
    assert_eq!(status, dead);
}

#[test]
fn a_later_drawer_replaces_an_earlier_one() {
    let mut renderer = renderer();
    renderer.insert(100, 9);
    let mut status = CursorImageStatus::Default;
    assert_eq!(renderer.render(&VBLANK, None, &mut status).unwrap().drawer, 9);
    let mut surfaces = renderer.surfaces();
    surfaces.sort();
    assert_eq!(surfaces, vec![(100, 9), (101, 8)]);
}

#[test]
fn everything_is_rendered_once() {
    let mut calls = renderer().render_all(Some(1));
    calls.sort_by_key(|call| call.crtc);
    assert_eq!(
        calls,
        vec![
            RenderCall { crtc: 100, timer: None, evt_handle: Some(1) },
            RenderCall { crtc: 101, timer: None, evt_handle: Some(1) },
        ]
    );
    assert!(DrmRenderer::new().render_all(Some(1)).is_empty());
    assert!(renderer().render_all(None).iter().all(|call| call.evt_handle.is_none()));
}

#[test]
fn a_finished_frame_is_announced_twice() {
    assert_eq!(
        DrmRenderer::frame_finished(&VBLANK, &Ok(())),
        FrameAction::SendFrames { rounds: 2 }
    );
    let call = RenderCall { crtc: 100, timer: None, evt_handle: None };
    assert_eq!(
        DrmRenderer::frame_finished(&call, &Ok(())),
        FrameAction::SendFrames { rounds: 2 }
    );
}

#[test]
fn a_failed_frame_that_comes_back_by_itself_is_abandoned() {
    let inactive = FrameError::TemporaryFailure(Some(DrmError::DeviceInactive));
    for error in vec![FrameError::AlreadySwapped, inactive, denied()] {
        assert_eq!(DrmRenderer::frame_finished(&VBLANK, &Err(error)), FrameAction::Abandon);
    }
    let call = RenderCall { crtc: 100, timer: None, evt_handle: None };
    assert_eq!(DrmRenderer::frame_finished(&call, &Err(denied())), FrameAction::Abandon);
}

#[test]
fn other_temporary_failures_are_retried() {
    let sources = vec![
        SystemError::InvalidFileDescriptor,
        SystemError::MemoryFault,
        SystemError::InvalidArgument,
        SystemError::InvalidFileType,
        SystemError::Unknown { errno: Errno::EBUSY },
    ];
    let mut errors = vec![
        FrameError::TemporaryFailure(None),
        FrameError::TemporaryFailure(Some(DrmError::Other)),
    ];
    for source in sources {
        errors.push(FrameError::TemporaryFailure(Some(DrmError::Access { source })));
    }
    for error in errors {
        assert_eq!(
            DrmRenderer::frame_finished(&VBLANK, &Err(error)),
            FrameAction::InsertTimer { evt_handle: 1, crtc: 100, delay_ms: 16 }
        );
    }
}

#[test]
fn only_passing_failures_are_worth_another_try() {
    assert!(DrmRenderer::reschedule(&FrameError::TemporaryFailure(None)));
    assert!(!DrmRenderer::reschedule(&FrameError::AlreadySwapped));
    assert!(!DrmRenderer::reschedule(&FrameError::ContextLost));
    assert!(!DrmRenderer::reschedule(&denied()));
}

#[test]
fn a_refused_access_is_told_by_its_error_number() {
    let refused = DrmError::Access { source: SystemError::from(Errno::EACCES) };
    let busy = DrmError::Access { source: SystemError::from(Errno::EBUSY) };
    assert_eq!(
        DrmRenderer::frame_finished(&TIMER, &Err(FrameError::TemporaryFailure(Some(refused)))),
        FrameAction::Abandon
    );
    assert_eq!(
        DrmRenderer::frame_finished(&TIMER, &Err(FrameError::TemporaryFailure(Some(busy)))),
        FrameAction::AddTimeout { timer: 6, crtc: 100, delay_ms: 16 }
    );
}

#[test]
fn retries_stay_on_their_timer() {
    assert_eq!(RETRY_DELAY_MS, 16);
    let call = DrmRenderer::timer_fired(false, 100, 6).unwrap();
    assert_eq!(call, TIMER);
    assert_eq!(
        DrmRenderer::frame_finished(&call, &Err(FrameError::TemporaryFailure(None))),
        FrameAction::AddTimeout { timer: 6, crtc: 100, delay_ms: 16 }
    );
    let both = RenderCall { crtc: 100, timer: Some(6), evt_handle: Some(1) };
    assert_eq!(
        DrmRenderer::frame_finished(&both, &Err(FrameError::TemporaryFailure(None))),
        FrameAction::AddTimeout { timer: 6, crtc: 100, delay_ms: 16 }
    );
}

#[test]
fn a_timer_asks_for_nothing_once_its_renderer_was_dropped() {
    assert_eq!(DrmRenderer::timer_fired(true, 100, 6), None);
}

#[test]
fn a_vertical_blank_asks_for_the_next_frame() {
    let mut handler = DrmHandlerImpl { renderer: 3, loop_handle: 1 };
    assert_eq!(handler.vblank(100), VBLANK);
    assert_eq!(handler, DrmHandlerImpl { renderer: 3, loop_handle: 1 });
}

#[test]
fn an_activated_session_renders_everything_later() {
    let mut listener = DrmRendererSessionListener { renderer: 3, loop_handle: 1 };
    let work = Some(IdleRender { renderer: 3, evt_handle: Some(1) });
    assert_eq!(listener.pause(None), None);
    assert_eq!(listener.pause(Some((226, 0))), None);
    assert_eq!(listener.activate(None), work);
    assert_eq!(listener.activate(Some((226, 0, Some(5)))), work);
    assert_eq!(listener, DrmRendererSessionListener { renderer: 3, loop_handle: 1 });
}
