//! What a frame shows, and what follows when it is finished.
use vstd::prelude::*;
use std::collections::HashMap;
use vstd::std_specs::iter::IteratorSpec;

use drm::SystemError;
use nix::errno::Errno;

verus! {

broadcast use vstd::std_specs::hash::group_hash_axioms;

/// The error number that `nix` reports.
#[verifier::external_type_specification]
#[verifier::external_body]
pub struct ExErrno(Errno);

/// The error of a system call that `drm` reports. All of its variants are visible to proofs.
#[verifier::external_type_specification]
pub struct ExSystemError(SystemError);

/// How long a frame that failed for the moment waits for its next try, in milliseconds:
/// the time of one frame at a refresh rate of 60 Hz.
pub const RETRY_DELAY_MS: u64 = 1000 / 60;

/// A surface that belongs to a client, and whether the client still keeps it.
#[derive(Clone, Copy, Debug, PartialEq, Eq, Structural)]
pub struct ClientSurface {
    pub id: u64,
    pub alive: bool,
}

/// What the pointer looks like.
#[derive(Clone, Copy, Debug, PartialEq, Eq, Structural)]
pub enum CursorImageStatus {
    /// The pointer is not shown.
    Hidden,
    /// The compositor shows an image of its own.
    Default,
    /// A client draws the pointer.
    Image(ClientSurface),
}

/// One step of drawing a frame.
#[derive(Clone, Copy, Debug, PartialEq, Eq, Structural)]
pub enum RenderOp {
    /// Move the hardware cursor to the pointer.
    MoveCursor,
    /// Fill the frame with the background.
    Clear,
    /// Draw the windows.
    DrawWindows,
    /// Draw the icon of the drag-and-drop operation, at the pointer.
    DrawDndIcon(u64),
    /// Draw the pointer of a client.
    DrawCursor(u64),
    /// Hand the frame to the monitor.
    Finish,
}

/// A frame to draw.
pub struct Frame {
    /// What draws it.
    pub drawer: u64,
    /// The steps, in order.
    pub ops: Vec<RenderOp>,
}

/// A request to render on `crtc`.
#[derive(Clone, Copy, Debug, PartialEq, Eq, Structural)]
pub struct RenderCall {
    pub crtc: u32,
    /// The timer that asks, if one does.
    pub timer: Option<u64>,
    /// The event loop that can hold a new timer, if it is at hand.
    pub evt_handle: Option<u64>,
}

impl RenderCall {
    /// Whether a failed frame can be tried again later.
    pub open spec fn can_retry(self) -> bool {
        self.timer is Some || self.evt_handle is Some
    }
}

/// The error of a DRM device.
pub enum DrmError {
    /// The session holds the device back.
    DeviceInactive,
    /// The device refused an access.
    Access { source: SystemError },
    /// Anything else.
    Other,
}

/// Why a frame could not be finished.
pub enum FrameError {
    /// The buffers were swapped before.
    AlreadySwapped,
    /// It failed for the moment: with an error of the device, or with a foreign one.
    TemporaryFailure(Option<DrmError>),
    /// The rendering context is gone.
    ContextLost,
}

/// What to do once a frame is finished.
#[derive(Clone, Copy, Debug, PartialEq, Eq, Structural)]
pub enum FrameAction {
    /// Tell the clients to draw their next frame, `rounds` times, with a new serial each time.
    SendFrames { rounds: u32 },
    /// Nothing: another event brings the next frame.
    Abandon,
    /// Let `timer` ask for `crtc` again after `delay_ms`.
    AddTimeout { timer: u64, crtc: u32, delay_ms: u64 },
    /// Create a timer that asks for `crtc` again after `delay_ms`, and add it to the event loop.
    InsertTimer { evt_handle: u64, crtc: u32, delay_ms: u64 },
}

/// `status` once a client surface that is gone no longer counts.
pub open spec fn refreshed(status: CursorImageStatus) -> CursorImageStatus {
    match status {
        CursorImageStatus::Image(surface) if !surface.alive => CursorImageStatus::Default,
        _ => status,
    }
}

/// The steps of a frame.
pub open spec fn frame_ops(
    dnd_icon: Option<ClientSurface>,
    cursor_status: CursorImageStatus,
) -> Seq<RenderOp> {
    seq![RenderOp::MoveCursor, RenderOp::Clear, RenderOp::DrawWindows] + (match dnd_icon {
        Some(icon) if icon.alive => seq![RenderOp::DrawDndIcon(icon.id)],
        _ => seq![],
    }) + (match refreshed(cursor_status) {
        CursorImageStatus::Image(surface) => seq![RenderOp::DrawCursor(surface.id)],
        _ => seq![],
    }) + seq![RenderOp::Finish]
}

/// Whether a frame that failed with `error` is worth another try.
pub open spec fn worth_retrying(error: FrameError) -> bool {
    match error {
        FrameError::TemporaryFailure(Some(DrmError::DeviceInactive)) => false,
        FrameError::TemporaryFailure(Some(DrmError::Access { source })) => {
            !(source is PermissionDenied)
        },
        FrameError::TemporaryFailure(_) => true,
        _ => false,
    }
}

/// What follows a frame that was drawn for `call`.
pub open spec fn frame_action(call: RenderCall, result: Result<(), FrameError>) -> FrameAction {
    match result {
        Ok(_) => FrameAction::SendFrames { rounds: 2 },
        Err(error) => if !worth_retrying(error) {
            FrameAction::Abandon
        } else {
            match call.timer {
                Some(timer) => FrameAction::AddTimeout {
                    timer,
                    crtc: call.crtc,
                    delay_ms: RETRY_DELAY_MS,
                },
                None => FrameAction::InsertTimer {
                    evt_handle: call.evt_handle->0,
                    crtc: call.crtc,
                    delay_ms: RETRY_DELAY_MS,
                },
            }
        },
    }
}

/// The surfaces of one device, and what draws on each: its model maps CRTCs to drawers.
pub struct DrmRenderer {
    backends: HashMap<u32, u64>,
}

impl View for DrmRenderer {
    type V = Map<u32, u64>;

    closed spec fn view(&self) -> Map<u32, u64> {
        self.backends@
    }
}

impl DrmRenderer {
    /// A renderer without surfaces.
    pub fn new() -> (renderer: Self)
        ensures
            renderer@ == Map::<u32, u64>::empty(),
    {
        DrmRenderer { backends: HashMap::new() }
    }

    /// Lets `drawer` draw on `crtc`.
    pub fn insert(&mut self, crtc: u32, drawer: u64)
        ensures
            final(self)@ == old(self)@.insert(crtc, drawer),
    {
        self.backends.insert(crtc, drawer);
    }

    /// The surfaces, each as its CRTC and its drawer, in no particular order.
    pub fn surfaces(&self) -> (surfaces: Vec<(u32, u64)>)
        ensures
            surfaces@.len() == self@.dom().len(),
            forall|i: int, j: int|
                0 <= i < j < surfaces@.len() ==> (#[trigger] surfaces@[i]).0 != (
                #[trigger] surfaces@[j]).0,
            forall|crtc: u32, drawer: u64| #[trigger]
                surfaces@.contains((crtc, drawer)) <==> self@.contains_pair(crtc, drawer),
    {
        let mut surfaces: Vec<(u32, u64)> = Vec::new();
        for entry in it: self.backends.iter()
            invariant
                surfaces@ == it.seq().take(it.index() as int).unref(),
        {
            surfaces.push((*entry.0, *entry.1));
        }
        proof {
            let all = vstd::std_specs::hash::spec_hash_map_iter(&self.backends).remaining();
            assert(surfaces@ == all.unref());
            assert(all.no_duplicates());
            assert forall|i: int, j: int| 0 <= i < j < surfaces@.len() implies (
            #[trigger] surfaces@[i]).0 != (#[trigger] surfaces@[j]).0 by {
                assert(self@[*all[i].0] == *all[i].1);
                assert(self@[*all[j].0] == *all[j].1);
                assert(all[i] != all[j]);
            }
            assert forall|crtc: u32, drawer: u64|
                #[trigger] surfaces@.contains((crtc, drawer)) == self@.contains_pair(crtc, drawer) by {
                if surfaces@.contains((crtc, drawer)) {
                    let i = choose|i: int| 0 <= i < surfaces@.len() && surfaces@[i] == (crtc, drawer);
                    assert(self@.contains_key(*all[i].0));
                    assert(self@[*all[i].0] == *all[i].1);
                }
                if self@.contains_pair(crtc, drawer) {
                    assert(self@.contains_key(crtc));
                    let i = choose|i: int| 0 <= i < all.len() && all[i] == (&crtc, &self@[crtc]);
                    assert(surfaces@[i] == (crtc, drawer));
                }
            }
        }
        surfaces
    }

    /// One call for each surface, in no particular order.
    pub fn render_all(&self, evt_handle: Option<u64>) -> (calls: Vec<RenderCall>)
        ensures
            calls@.len() == self@.dom().len(),
            forall|i: int|
                0 <= i < calls@.len() ==> {
                    &&& self@.contains_key((#[trigger] calls@[i]).crtc)
                    &&& calls@[i].timer is None
                    &&& calls@[i].evt_handle == evt_handle
                },
            forall|i: int, j: int|
                0 <= i < j < calls@.len() ==> (#[trigger] calls@[i]).crtc != (
                #[trigger] calls@[j]).crtc,
            forall|crtc: u32| #[trigger]
                self@.contains_key(crtc) ==> calls@.contains(
                    RenderCall { crtc, timer: None, evt_handle },
                ),
    {
        let surfaces = self.surfaces();
        let mut calls: Vec<RenderCall> = Vec::new();
        for i in 0..surfaces.len()
            invariant
                calls@.len() == i,
                forall|k: int|
                    0 <= k < i ==> #[trigger] calls@[k] == (RenderCall {
                        crtc: surfaces@[k].0,
                        timer: None,
                        evt_handle,
                    }),
        {
            calls.push(RenderCall { crtc: surfaces[i].0, timer: None, evt_handle });
        }
        proof {
            assert forall|i: int| 0 <= i < calls@.len() implies self@.contains_key(
                (#[trigger] calls@[i]).crtc,
            ) by {
                assert(surfaces@.contains((surfaces@[i].0, surfaces@[i].1)));
            }
            assert forall|crtc: u32| #[trigger] self@.contains_key(crtc) implies calls@.contains(
                RenderCall { crtc, timer: None, evt_handle },
            ) by {
                assert(surfaces@.contains((crtc, self@[crtc])));
                let i = choose|i: int|
                    0 <= i < surfaces@.len() && surfaces@[i] == (crtc, self@[crtc]);
                assert(calls@[i] == RenderCall { crtc, timer: None, evt_handle });
            }
        }
        calls
    }

    /// The frame to draw for `call`: none if no surface shows on its CRTC. A pointer whose
    /// client surface is gone falls back to the default one.
    pub fn render(
        &self,
        call: &RenderCall,
        dnd_icon: Option<ClientSurface>,
        cursor_status: &mut CursorImageStatus,
    ) -> (frame: Option<Frame>)
        ensures
            frame is Some <==> self@.contains_key(call.crtc),
            frame matches Some(frame) ==> {
                &&& frame.drawer == self@[call.crtc]
                &&& frame.ops@ == frame_ops(dnd_icon, *old(cursor_status))
                &&& *final(cursor_status) == refreshed(*old(cursor_status))
            },
            frame is None ==> *final(cursor_status) == *old(cursor_status),
    {
        let drawer = match self.backends.get(&call.crtc) {
            Some(drawer) => *drawer,
            None => return None,
        };
        let mut ops: Vec<RenderOp> = Vec::new();
        ops.push(RenderOp::MoveCursor);
        ops.push(RenderOp::Clear);
        ops.push(RenderOp::DrawWindows);
        if let Some(icon) = dnd_icon {
            if icon.alive {
                ops.push(RenderOp::DrawDndIcon(icon.id));
            }
        }
        let mut reset: bool = false;
        if let CursorImageStatus::Image(surface) = *cursor_status {
            reset = !surface.alive;
        }
        if reset {
            *cursor_status = CursorImageStatus::Default;
        }
        if let CursorImageStatus::Image(surface) = *cursor_status {
            ops.push(RenderOp::DrawCursor(surface.id));
        }
        ops.push(RenderOp::Finish);
        Some(Frame { drawer, ops })
    }

    /// Whether a frame that failed with `error` is to be tried again.
    pub fn reschedule(error: &FrameError) -> (again: bool)
        ensures
            again == worth_retrying(*error),
    {
        match error {
            FrameError::AlreadySwapped => false,
            FrameError::TemporaryFailure(cause) => match cause {
                Some(DrmError::DeviceInactive) => false,
                Some(DrmError::Access { source }) => match source {
                    SystemError::PermissionDenied => false,
                    _ => true,
                },
                _ => true,
            },
            FrameError::ContextLost => false,
        }
    }

    /// What follows the frame that was drawn for `call` and finished with `result`. A lost
    /// context cannot be answered, nor can a frame be tried again without a timer or an
    /// event loop.
    pub fn frame_finished(call: &RenderCall, result: &Result<(), FrameError>) -> (action:
        FrameAction)
        requires
            *result matches Err(error) ==> !(error is ContextLost) && (worth_retrying(error)
                ==> call.can_retry()),
        ensures
            action == frame_action(*call, *result),
    {
        match result {
            Ok(_) => FrameAction::SendFrames { rounds: 2 },
            Err(error) => if !Self::reschedule(error) {
                FrameAction::Abandon
            } else {
                match (call.timer, call.evt_handle) {
                    (Some(timer), _) => FrameAction::AddTimeout {
                        timer,
                        crtc: call.crtc,
                        delay_ms: RETRY_DELAY_MS,
                    },
                    (None, Some(evt_handle)) => FrameAction::InsertTimer {
                        evt_handle,
                        crtc: call.crtc,
                        delay_ms: RETRY_DELAY_MS,
                    },
                    (None, None) => vstd::pervasive::unreached(),
                }
            },
        }
    }

    /// What `timer` asks for when it fires for `crtc`: nothing if the renderer was dropped.
    pub fn timer_fired(dropped: bool, crtc: u32, timer: u64) -> (call: Option<RenderCall>)
        ensures
            call == timer_call(dropped, crtc, timer),
    {
        if dropped {
            None
        } else {
            Some(RenderCall { crtc, timer: Some(timer), evt_handle: None })
        }
    }
}

/// What `timer` asks for when it fires for `crtc`.
pub open spec fn timer_call(dropped: bool, crtc: u32, timer: u64) -> Option<RenderCall> {
    if dropped {
        None
    } else {
        Some(RenderCall { crtc, timer: Some(timer), evt_handle: None })
    }
}

/// Receives the events of one device.
#[derive(Clone, Copy, Debug, PartialEq, Eq, Structural)]
pub struct DrmHandlerImpl {
    /// The number of the renderer that draws for the device.
    pub renderer: usize,
    /// The event loop.
    pub loop_handle: u64,
}

/// What a vertical blank of `crtc` asks for.
pub open spec fn vblank_call(handler: DrmHandlerImpl, crtc: u32) -> RenderCall {
    RenderCall { crtc, timer: None, evt_handle: Some(handler.loop_handle) }
}

impl DrmHandlerImpl {
    /// A vertical blank of `crtc` asks for its next frame.
    pub fn vblank(&mut self, crtc: u32) -> (call: RenderCall)
        ensures
            call == vblank_call(*old(self), crtc),
            *final(self) == *old(self),
    {
        RenderCall { crtc, timer: None, evt_handle: Some(self.loop_handle) }
    }
}

/// Hears when the session is paused and activated again.
#[derive(Clone, Copy, Debug, PartialEq, Eq, Structural)]
pub struct DrmRendererSessionListener {
    /// The number of the renderer that draws for the device.
    pub renderer: usize,
    /// The event loop.
    pub loop_handle: u64,
}

/// Work for the moment when the event loop has nothing else to do: all surfaces of
/// `renderer` are rendered, with `evt_handle` at hand.
#[derive(Clone, Copy, Debug, PartialEq, Eq, Structural)]
pub struct IdleRender {
    pub renderer: usize,
    pub evt_handle: Option<u64>,
}

impl DrmRendererSessionListener {
    /// A pause asks for nothing.
    pub fn pause(&mut self, device: Option<(u32, u32)>) -> (work: Option<IdleRender>)
        ensures
            work is None,
            *final(self) == *old(self),
    {
        None
    }

    /// After an activation everything is rendered, but only once all session handling is done.
    pub fn activate(&mut self, device: Option<(u32, u32, Option<i32>)>) -> (work: Option<
        IdleRender,
    >)
        ensures
            work == Some(
                (IdleRender {
                    renderer: old(self).renderer,
                    evt_handle: Some(old(self).loop_handle),
                }),
            ),
            *final(self) == *old(self),
    {
        Some(IdleRender { renderer: self.renderer, evt_handle: Some(self.loop_handle) })
    }
}

/// A frame draws no client surface that is gone, and takes no step twice.
pub proof fn frames_show_live_surfaces_only(
    dnd_icon: Option<ClientSurface>,
    cursor_status: CursorImageStatus,
    i: int,
)
    requires
        0 <= i < frame_ops(dnd_icon, cursor_status).len(),
    ensures
        match frame_ops(dnd_icon, cursor_status)[i] {
            RenderOp::DrawDndIcon(id) => dnd_icon == Some(ClientSurface { id, alive: true }),
            RenderOp::DrawCursor(id) => cursor_status == CursorImageStatus::Image(
                ClientSurface { id, alive: true },
            ),
            _ => true,
        },
        forall|j: int|
            0 <= j < frame_ops(dnd_icon, cursor_status).len() && i != j ==> frame_ops(
                dnd_icon,
                cursor_status,
            )[i] != #[trigger] frame_ops(dnd_icon, cursor_status)[j],
{
}

/// What is alive is drawn: a frame holds the pointer of a client exactly if the client still keeps
/// it, and the icon of a drag-and-drop operation exactly if that is still kept. Neither depends on
/// the other.
pub proof fn frames_show_all_live_surfaces(
    dnd_icon: Option<ClientSurface>,
    cursor_status: CursorImageStatus,
    id: u64,
)
    ensures
        frame_ops(dnd_icon, cursor_status).contains(RenderOp::DrawCursor(id)) <==> cursor_status
            == CursorImageStatus::Image(ClientSurface { id, alive: true }),
        frame_ops(dnd_icon, cursor_status).contains(RenderOp::DrawDndIcon(id)) <==> dnd_icon
            == Some(ClientSurface { id, alive: true }),
{
    let ops = frame_ops(dnd_icon, cursor_status);
    if dnd_icon == Some(ClientSurface { id, alive: true }) {
        assert(ops[3] == RenderOp::DrawDndIcon(id));
    }
    if cursor_status == CursorImageStatus::Image(ClientSurface { id, alive: true }) {
        assert(ops[ops.len() - 2] == RenderOp::DrawCursor(id));
    }
}

/// Every frame starts with the background under the windows. The icon of a drag-and-drop
/// operation comes on top of them, and the pointer on top of all. The frame is finished last.
pub proof fn frames_are_drawn_back_to_front(
    dnd_icon: Option<ClientSurface>,
    cursor_status: CursorImageStatus,
)
    ensures
        ({
            let ops = frame_ops(dnd_icon, cursor_status);
            &&& ops.len() >= 4
            &&& ops[0] == RenderOp::MoveCursor
            &&& ops[1] == RenderOp::Clear
            &&& ops[2] == RenderOp::DrawWindows
            &&& ops.last() == RenderOp::Finish
            &&& forall|i: int|
                3 <= i < ops.len() - 1 ==> (#[trigger] ops[i] is DrawDndIcon && i == 3) || (
                ops[i] is DrawCursor && i == ops.len() - 2)
        }),
{
}

/// After a frame the pointer is never a client surface that is gone: such a one gives way to the
/// default pointer. Any other pointer stays, and rendering again changes nothing more.
pub proof fn dead_cursors_do_not_last(cursor_status: CursorImageStatus)
    ensures
        refreshed(cursor_status) matches CursorImageStatus::Image(surface) ==> surface.alive,
        refreshed(refreshed(cursor_status)) == refreshed(cursor_status),
        !(cursor_status is Image) ==> refreshed(cursor_status) == cursor_status,
        cursor_status matches CursorImageStatus::Image(surface) ==> refreshed(cursor_status) == (
        if surface.alive {
            cursor_status
        } else {
            CursorImageStatus::Default
        }),
{
}

/// Whatever asks for a frame, a vertical blank, an activated session or a timer, the frame can
/// be tried again if it fails: the contract of [`DrmRenderer::frame_finished`] asks for no more
/// than a context that is not lost.
pub proof fn every_call_can_retry(
    handler: DrmHandlerImpl,
    listener: DrmRendererSessionListener,
    crtc: u32,
    timer: u64,
)
    ensures
        vblank_call(handler, crtc).can_retry(),
        (RenderCall { crtc, timer: None, evt_handle: Some(listener.loop_handle) }).can_retry(),
        timer_call(false, crtc, timer) matches Some(call) && call.can_retry(),
{
}

/// However often a frame fails, it is retried on one timer: the first failure after a vertical
/// blank leads to a timer for the same CRTC, and the calls that this timer makes never lead to
/// another one.
pub proof fn retries_share_one_timer(
    handler: DrmHandlerImpl,
    crtc: u32,
    timer: u64,
    error: FrameError,
)
    requires
        worth_retrying(error),
    ensures
        frame_action(vblank_call(handler, crtc), Err(error)) == (FrameAction::InsertTimer {
            evt_handle: handler.loop_handle,
            crtc,
            delay_ms: 16,
        }),
        timer_call(false, crtc, timer) matches Some(call) && frame_action(call, Err(error))
            == (FrameAction::AddTimeout { timer, crtc, delay_ms: 16 }),
{
}

/// A failed frame is worth another try exactly if it failed for the moment, unless the session
/// holds the device back or the device has denied its permission: then another event brings the
/// next frame.
pub proof fn passing_failures_are_worth_a_retry(error: FrameError)
    ensures
        worth_retrying(error) <==> {
            &&& error is TemporaryFailure
            &&& !(error matches FrameError::TemporaryFailure(Some(cause))
                && cause is DeviceInactive)
            &&& !(error matches FrameError::TemporaryFailure(Some(DrmError::Access { source }))
                && source is PermissionDenied)
        },
{
}

/// Whoever has asked for a frame that failed: if it is worth another try, the timer that asked
/// tries again after a frame's time, or else a new one in the event loop at hand, on the same
/// CRTC. If it is not, nothing is done.
pub proof fn failed_frames_are_retried_or_abandoned(call: RenderCall, error: FrameError)
    ensures
        !worth_retrying(error) ==> frame_action(call, Err(error)) is Abandon,
        worth_retrying(error) ==> (call.timer matches Some(timer) ==> frame_action(
            call,
            Err(error),
        ) == (FrameAction::AddTimeout { timer, crtc: call.crtc, delay_ms: 16 })),
        worth_retrying(error) && call.timer is None ==> (call.evt_handle matches Some(evt_handle)
            ==> frame_action(call, Err(error)) == (FrameAction::InsertTimer {
            evt_handle,
            crtc: call.crtc,
            delay_ms: 16,
        })),
{
}

/// A vertical blank asks for a frame on its CRTC, with the event loop at hand. A timer asks for one
/// on the CRTC that it was set for, unless its renderer was dropped.
pub proof fn calls_are_for_the_crtc_in_question(
    handler: DrmHandlerImpl,
    crtc: u32,
    timer: u64,
    dropped: bool,
)
    ensures
        vblank_call(handler, crtc).crtc == crtc,
        vblank_call(handler, crtc).timer is None,
        vblank_call(handler, crtc).evt_handle == Some(handler.loop_handle),
        timer_call(dropped, crtc, timer) is None <==> dropped,
        timer_call(dropped, crtc, timer) matches Some(call) ==> call.crtc == crtc && call.timer
            == Some(timer) && call.evt_handle is None,
{
}

/// Clients hear of a frame exactly when it was finished, whoever has asked for it: they are told
/// twice to draw their next one.
pub proof fn clients_hear_of_finished_frames_only(call: RenderCall, result: Result<(), FrameError>)
    ensures
        frame_action(call, result) is SendFrames <==> result is Ok,
        result is Ok ==> frame_action(call, result) == (FrameAction::SendFrames { rounds: 2 }),
{
}

}
