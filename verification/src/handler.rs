//! The devices that the backend keeps, and how they come, change and go.
use vstd::prelude::*;
use std::collections::HashMap;

use crate::connectors::{encoder_views, next_encoders, scan_plan, SurfacePlan};
use crate::paths::{is_primary, names_primary, path_text};
use crate::render::{DrmHandlerImpl, DrmRenderer, DrmRendererSessionListener};
use crate::session::{OpenFlags, SessionFd};
use crate::task::{
    ActionView, BackendData, DeviceAction, DeviceEvent, DeviceTask, EventView, Scan, ScanView,
    Target, TaskView,
};

verus! {

broadcast use vstd::std_specs::hash::group_hash_axioms;

/// A message of udev.
pub enum UdevEvent {
    /// A device has come, at `path`.
    Added { device_id: u64, path: String },
    /// Something has changed about a device: a monitor was plugged in or out.
    Changed { device_id: u64 },
    /// A device has gone.
    Removed { device_id: u64 },
}

/// How a device is opened.
pub open spec fn device_flags() -> OpenFlags {
    OpenFlags { read_write: true, close_on_exec: true, no_ctty: true, non_blocking: true }
}

/// The hot spot of the pointer image: the pixel that points.
pub open spec fn hotspot() -> (u32, u32) {
    (2, 2)
}

/// The model of a [`UdevHandlerImpl`].
#[verifier::ext_equal]
pub struct HandlerView {
    /// The path of the GPU that speeds up the display.
    pub primary_gpu: Option<Seq<char>>,
    /// Whether there is hardware acceleration at all.
    pub egl: bool,
    /// The event loop.
    pub loop_handle: u64,
    /// What reads the buffers of clients.
    pub egl_buffer_reader: Option<u64>,
    /// The surfaces of each renderer there ever was: which drawer draws on which CRTC.
    pub renderers: Seq<Map<u32, u64>>,
    /// The devices, by their numbers.
    pub backends: Map<u64, BackendData>,
}

impl HandlerView {
    /// Every device has a renderer, and no two devices share one.
    pub open spec fn wf(self) -> bool {
        &&& self.renderers.len() <= usize::MAX
        &&& forall|device: u64| #[trigger]
            self.backends.contains_key(device) ==> self.backends[device].surfaces
                < self.renderers.len()
        &&& forall|device: u64, other: u64|
            #![trigger self.backends.contains_key(device), self.backends.contains_key(other)]
            self.backends.contains_key(device) && self.backends.contains_key(other) && device
                != other ==> self.backends[device].surfaces != self.backends[other].surfaces
    }

    /// Whether `renderer` exists and belongs to no device yet.
    pub open spec fn is_spare(self, renderer: usize) -> bool {
        &&& renderer < self.renderers.len()
        &&& forall|device: u64| #[trigger]
            self.backends.contains_key(device) ==> self.backends[device].surfaces != renderer
    }

    /// Whether what a scan for `target` finds has a place.
    pub open spec fn has_target(self, target: Target) -> bool {
        target matches Target::Changed { renderer } ==> renderer < self.renderers.len()
    }

    /// Whether `task` is about renderers that exist.
    pub open spec fn admits<M>(self, task: TaskView<M>) -> bool {
        match task {
            TaskView::ReadingConnectors { target } => self.has_target(target),
            TaskView::ReadingEncoders { scan } => self.has_target(scan.target),
            TaskView::CreatingSurfaces { scan } => self.has_target(scan.target) && 0 <= scan.created
                < scan.plan.len(),
            TaskView::RegisteringListener { renderer } => self.is_spare(renderer),
            TaskView::SettingHandler { renderer, .. } => self.is_spare(renderer),
            TaskView::RegisteringDevice { renderer, .. } => self.is_spare(renderer),
            TaskView::ReadingId { renderer, .. } => self.is_spare(renderer),
            TaskView::BindingSource { renderer, .. } => self.is_spare(renderer),
            TaskView::StartingSurfaces { renderer, .. } => self.is_spare(renderer),
            _ => true,
        }
    }

    /// Whether the device at the canonical path `path` is the primary GPU.
    pub open spec fn is_primary(self, path: Option<Seq<char>>) -> bool {
        self.egl && names_primary(path, self.primary_gpu)
    }
}

/// Whether `drawer` draws on a surface of one of `renderers`.
pub open spec fn draws(renderers: Seq<Map<u32, u64>>, drawer: u64) -> bool {
    exists|i: int, crtc: u32|
        0 <= i < renderers.len() && #[trigger] renderers[i].contains_pair(crtc, drawer)
}

proof fn lemma_draws_one_more(renderers: Seq<Map<u32, u64>>, i: int, drawer: u64)
    requires
        0 <= i < renderers.len(),
    ensures
        draws(renderers.take(i + 1), drawer) <==> draws(renderers.take(i), drawer) || exists|
            crtc: u32,
        | #[trigger] renderers[i].contains_pair(crtc, drawer),
{
    let before = renderers.take(i);
    let with_own = renderers.take(i + 1);
    if draws(before, drawer) {
        let (k, crtc) = choose|k: int, crtc: u32|
            0 <= k < before.len() && #[trigger] before[k].contains_pair(crtc, drawer);
        assert(with_own[k].contains_pair(crtc, drawer));
    }
    if exists|crtc: u32| #[trigger] renderers[i].contains_pair(crtc, drawer) {
        let crtc = choose|crtc: u32| #[trigger] renderers[i].contains_pair(crtc, drawer);
        assert(with_own[i].contains_pair(crtc, drawer));
    }
    if draws(with_own, drawer) {
        let (k, crtc) = choose|k: int, crtc: u32|
            0 <= k < with_own.len() && #[trigger] with_own[k].contains_pair(crtc, drawer);
        if k < i {
            assert(before[k].contains_pair(crtc, drawer));
        } else {
            assert(renderers[i].contains_pair(crtc, drawer));
        }
    }
}

proof fn lemma_contains_after_push(s: Seq<u64>, new: u64)
    ensures
        forall|x: u64| #[trigger] s.push(new).contains(x) <==> s.contains(x) || x == new,
{
    assert forall|x: u64| #[trigger] s.push(new).contains(x) <==> s.contains(x) || x == new by {
        if s.contains(x) {
            let i = choose|i: int| 0 <= i < s.len() && s[i] == x;
            assert(s.push(new)[i] == x);
        }
        assert(s.push(new)[s.len() as int] == new);
    }
}

/// Where the work on a device stands after a step: the backend, the task, and what to do next.
pub type Step<M> = (HandlerView, TaskView<M>, ActionView<M>);

/// A device is added at `path`.
pub open spec fn added<M>(handler: HandlerView, path: Seq<char>) -> Step<M> {
    (handler, TaskView::Opening, ActionView::Open { path, flags: device_flags() })
}

/// Something has changed about `device`: its surfaces are made anew.
pub open spec fn changed<M>(handler: HandlerView, device: u64) -> Step<M> {
    if handler.backends.contains_key(device) {
        let backend = handler.backends[device];
        (
            handler,
            TaskView::ReadingConnectors { target: Target::Changed { renderer: backend.surfaces } },
            ActionView::ReadConnectors { device: Some(backend.event_source) },
        )
    } else {
        (handler, TaskView::Done, ActionView::Finish)
    }
}

/// `device` has gone: its surfaces are dropped.
pub open spec fn removed<M>(handler: HandlerView, device: u64) -> Step<M> {
    if handler.backends.contains_key(device) {
        let backend = handler.backends[device];
        (
            HandlerView {
                renderers: handler.renderers.update(backend.surfaces as int, Map::empty()),
                backends: handler.backends.remove(device),
                ..handler
            },
            TaskView::RemovingSource { backend },
            ActionView::RemoveSource { source: backend.event_source },
        )
    } else {
        (handler, TaskView::Done, ActionView::Finish)
    }
}

/// All surfaces of a scan for `target` exist: a new device gets a renderer of its own, which
/// the session hears of first; a device that was there starts with them at once.
pub open spec fn surfaces_ready<M>(
    handler: HandlerView,
    target: Target,
    surfaces: Map<u32, u64>,
) -> Step<M> {
    match target {
        Target::Added => {
            let renderer = handler.renderers.len() as usize;
            (
                HandlerView { renderers: handler.renderers.push(surfaces), ..handler },
                TaskView::RegisteringListener { renderer },
                ActionView::RegisterListener {
                    listener: DrmRendererSessionListener {
                        renderer,
                        loop_handle: handler.loop_handle,
                    },
                },
            )
        },
        Target::Changed { renderer } => (
            HandlerView {
                renderers: handler.renderers.update(renderer as int, surfaces),
                ..handler
            },
            TaskView::RestartingSurfaces,
            ActionView::StartSurfaces { renderer, hotspot: hotspot() },
        ),
    }
}

/// Whether `surface` cannot be created for want of a mode: one is needed for hardware
/// acceleration only.
pub open spec fn lacks_mode<M>(handler: HandlerView, surface: SurfacePlan<M>) -> bool {
    handler.egl && surface.mode is None
}

/// `scan` goes on: with the next surface that is planned, or else with the encoders of the next
/// connector, or else it is done. The work ends where a surface cannot be created.
pub open spec fn next_in_scan<M>(handler: HandlerView, scan: ScanView<M>) -> Step<M> {
    if scan.created < scan.plan.len() {
        let surface = scan.plan[scan.created];
        if lacks_mode(handler, surface) {
            (
                handler,
                TaskView::Done,
                ActionView::FailWithoutMode { connector: surface.connector },
            )
        } else {
            (
                handler,
                TaskView::CreatingSurfaces { scan },
                ActionView::CreateSurface { surface },
            )
        }
    } else {
        match next_encoders(scan.connectors, scan.encoders.len()) {
            Some(handles) => (
                handler,
                TaskView::ReadingEncoders { scan },
                ActionView::ReadEncoders { handles },
            ),
            None => surfaces_ready(handler, scan.target, scan.surfaces),
        }
    }
}

/// `scan` goes on once the encoders of its next connector were read.
pub open spec fn encoders_read<M>(
    handler: HandlerView,
    scan: ScanView<M>,
    read: Seq<Option<Seq<u32>>>,
) -> Step<M> {
    let encoders = scan.encoders.push(read);
    next_in_scan(
        handler,
        ScanView { encoders, plan: scan_plan(scan.connectors, encoders), ..scan },
    )
}

/// `scan` goes on once `drawer` draws on its next surface.
pub open spec fn surface_created<M>(
    handler: HandlerView,
    scan: ScanView<M>,
    drawer: u64,
) -> Step<M> {
    next_in_scan(
        handler,
        ScanView {
            created: scan.created + 1,
            surfaces: scan.surfaces.insert(scan.plan[scan.created].crtc, drawer),
            ..scan
        },
    )
}

/// `task` gets the reply `event`. A reply that it does not wait for changes nothing.
pub open spec fn advanced<M>(
    handler: HandlerView,
    task: TaskView<M>,
    event: EventView<M>,
) -> Step<M> {
    match (task, event) {
        // A device that cannot be opened or set up is skipped.
        (TaskView::Opening, EventView::Opened(fd)) => match fd {
            Some(fd) => (
                handler,
                TaskView::CreatingDrm,
                ActionView::CreateDrm { fd, disable_connectors: true },
            ),
            None => (handler, TaskView::Done, ActionView::Finish),
        },
        (TaskView::CreatingDrm, EventView::DrmCreated(created)) => if created {
            (handler, TaskView::CreatingGbm, ActionView::CreateGbm)
        } else {
            (handler, TaskView::Done, ActionView::Finish)
        },
        (TaskView::CreatingGbm, EventView::GbmCreated(created)) => if created {
            (handler, TaskView::CreatingEgl, ActionView::CreateEgl)
        } else {
            (handler, TaskView::Done, ActionView::Finish)
        },
        (TaskView::CreatingEgl, EventView::EglCreated(created)) => if !created {
            (handler, TaskView::Done, ActionView::Finish)
        } else if handler.egl {
            (handler, TaskView::Identifying, ActionView::Identify)
        } else {
            (
                handler,
                TaskView::ReadingConnectors { target: Target::Added },
                ActionView::ReadConnectors { device: None },
            )
        },
        // The primary GPU speeds up the display.
        (TaskView::Identifying, EventView::Identified(path)) => if handler.is_primary(path) {
            (handler, TaskView::BindingDisplay, ActionView::BindDisplay)
        } else {
            (
                handler,
                TaskView::ReadingConnectors { target: Target::Added },
                ActionView::ReadConnectors { device: None },
            )
        },
        (TaskView::BindingDisplay, EventView::DisplayBound(reader)) => (
            HandlerView { egl_buffer_reader: reader, ..handler },
            TaskView::ReadingConnectors { target: Target::Added },
            ActionView::ReadConnectors { device: None },
        ),
        // The scan goes from connector to connector: their encoders, then their surfaces.
        (
            TaskView::ReadingConnectors { target },
            EventView::ConnectorsRead(connectors),
        ) => next_in_scan(
            handler,
            ScanView {
                target,
                connectors,
                encoders: Seq::empty(),
                plan: Seq::empty(),
                created: 0,
                surfaces: Map::empty(),
            },
        ),
        (TaskView::ReadingEncoders { scan }, EventView::EncodersRead(read)) => encoders_read(
            handler,
            scan,
            read,
        ),
        (TaskView::CreatingSurfaces { scan }, EventView::SurfaceCreated(drawer)) => surface_created(
            handler,
            scan,
            drawer,
        ),
        // A new device is registered, and kept once its surfaces were started.
        (TaskView::RegisteringListener { renderer }, EventView::Registered(restart_id)) => (
            handler,
            TaskView::SettingHandler { renderer, restart_id },
            ActionView::SetHandler {
                handler: DrmHandlerImpl { renderer, loop_handle: handler.loop_handle },
            },
        ),
        (TaskView::SettingHandler { renderer, restart_id }, EventView::HandlerSet) => (
            handler,
            TaskView::RegisteringDevice { renderer, restart_id },
            ActionView::RegisterDevice,
        ),
        (TaskView::RegisteringDevice { renderer, restart_id }, EventView::Registered(id)) => (
            handler,
            TaskView::ReadingId { renderer, restart_id, id },
            ActionView::ReadId,
        ),
        (TaskView::ReadingId { renderer, restart_id, id }, EventView::IdRead(device_id)) => (
            handler,
            TaskView::BindingSource { renderer, restart_id, id, device_id },
            ActionView::BindSource,
        ),
        (
            TaskView::BindingSource { renderer, restart_id, id, device_id },
            EventView::SourceBound(event_source),
        ) => (
            handler,
            TaskView::StartingSurfaces { renderer, restart_id, id, device_id, event_source },
            ActionView::StartSurfaces { renderer, hotspot: hotspot() },
        ),
        (
            TaskView::StartingSurfaces { renderer, restart_id, id, device_id, event_source },
            EventView::SurfacesStarted,
        ) => (
            HandlerView {
                backends: handler.backends.insert(
                    device_id,
                    BackendData { id, restart_id, event_source, surfaces: renderer },
                ),
                ..handler
            },
            TaskView::Done,
            ActionView::Finish,
        ),
        (TaskView::RestartingSurfaces, EventView::SurfacesStarted) => (
            handler,
            TaskView::Done,
            ActionView::Finish,
        ),
        // A device that has gone is forgotten, and so is its help with the display.
        (TaskView::RemovingSource { backend }, EventView::SourceRemoved(path)) => (
            HandlerView {
                egl_buffer_reader: if handler.is_primary(path) {
                    None
                } else {
                    handler.egl_buffer_reader
                },
                ..handler
            },
            TaskView::Done,
            ActionView::Unregister { id: backend.id, restart_id: backend.restart_id },
        ),
        _ => (handler, task, ActionView::Wait),
    }
}

/// The devices that the backend keeps.
pub struct UdevHandlerImpl {
    primary_gpu: Option<String>,
    egl: bool,
    loop_handle: u64,
    egl_buffer_reader: Option<u64>,
    renderers: Vec<DrmRenderer>,
    backends: HashMap<u64, BackendData>,
}

impl View for UdevHandlerImpl {
    type V = HandlerView;

    closed spec fn view(&self) -> HandlerView {
        HandlerView {
            primary_gpu: path_text(self.primary_gpu),
            egl: self.egl,
            loop_handle: self.loop_handle,
            egl_buffer_reader: self.egl_buffer_reader,
            renderers: self.renderers@.map_values(|renderer: DrmRenderer| renderer@),
            backends: self.backends@,
        }
    }
}

impl UdevHandlerImpl {
    /// A backend without devices. `primary_gpu` is the path of the GPU that speeds up the
    /// display, where `egl` allows for it, and `loop_handle` is the event loop.
    pub fn new(primary_gpu: Option<String>, egl: bool, loop_handle: u64) -> (handler: Self)
        ensures
            handler@ == (HandlerView {
                primary_gpu: path_text(primary_gpu),
                egl,
                loop_handle,
                egl_buffer_reader: None,
                renderers: Seq::empty(),
                backends: Map::empty(),
            }),
            handler@.wf(),
    {
        let handler = UdevHandlerImpl {
            primary_gpu,
            egl,
            loop_handle,
            egl_buffer_reader: None,
            renderers: Vec::new(),
            backends: HashMap::new(),
        };
        proof {
            assert(handler@.renderers == Seq::<Map<u32, u64>>::empty());
        }
        handler
    }

    /// A device is added at `path`. The number under which udev announces it does not matter.
    pub fn device_added<M: Copy>(&mut self, device: u64, path: String) -> (step: (
        DeviceTask<M>,
        DeviceAction<M>,
    ))
        requires
            old(self)@.wf(),
        ensures
            (final(self)@, step.0@, step.1@) == added::<M>(old(self)@, path@),
            final(self)@.wf(),
            final(self)@.admits(step.0@),
    {
        (
            DeviceTask::Opening,
            DeviceAction::Open {
                path,
                flags: OpenFlags {
                    read_write: true,
                    close_on_exec: true,
                    no_ctty: true,
                    non_blocking: true,
                },
            },
        )
    }

    /// Something has changed about `device`: it is scanned again, if the backend keeps it.
    pub fn device_changed<M: Copy>(&mut self, device: u64) -> (step: (
        DeviceTask<M>,
        DeviceAction<M>,
    ))
        requires
            old(self)@.wf(),
        ensures
            (final(self)@, step.0@, step.1@) == changed::<M>(old(self)@, device),
            final(self)@.wf(),
            final(self)@.admits(step.0@),
    {
        match self.backends.get(&device) {
            Some(backend) => (
                DeviceTask::ReadingConnectors {
                    target: Target::Changed { renderer: backend.surfaces },
                },
                DeviceAction::ReadConnectors { device: Some(backend.event_source) },
            ),
            None => (DeviceTask::Done, DeviceAction::Finish),
        }
    }

    /// `device` has gone: if the backend keeps it, it is forgotten, and its surfaces are dropped.
    pub fn device_removed<M: Copy>(&mut self, device: u64) -> (step: (
        DeviceTask<M>,
        DeviceAction<M>,
    ))
        requires
            old(self)@.wf(),
        ensures
            (final(self)@, step.0@, step.1@) == removed::<M>(old(self)@, device),
            final(self)@.wf(),
            final(self)@.admits(step.0@),
    {
        match self.backends.remove(&device) {
            Some(backend) => {
                self.replace_surfaces(backend.surfaces, DrmRenderer::new());
                (
                    DeviceTask::RemovingSource { backend },
                    DeviceAction::RemoveSource { source: backend.event_source },
                )
            },
            None => {
                proof {
                    assert(self.backends@ == old(self).backends@);
                }
                (DeviceTask::Done, DeviceAction::Finish)
            },
        }
    }

    /// Handles a message of udev.
    pub fn udev_event<M: Copy>(&mut self, event: UdevEvent) -> (step: (
        DeviceTask<M>,
        DeviceAction<M>,
    ))
        requires
            old(self)@.wf(),
        ensures
            (final(self)@, step.0@, step.1@) == (match event {
                UdevEvent::Added { path, .. } => added::<M>(old(self)@, path@),
                UdevEvent::Changed { device_id } => changed::<M>(old(self)@, device_id),
                UdevEvent::Removed { device_id } => removed::<M>(old(self)@, device_id),
            }),
            final(self)@.wf(),
            final(self)@.admits(step.0@),
    {
        match event {
            UdevEvent::Added { device_id, path } => self.device_added(device_id, path),
            UdevEvent::Changed { device_id } => self.device_changed(device_id),
            UdevEvent::Removed { device_id } => self.device_removed(device_id),
        }
    }

    /// The renderer with the number `renderer`.
    pub fn renderer(&self, renderer: usize) -> (found: Option<&DrmRenderer>)
        ensures
            match found {
                Some(found) => renderer < self@.renderers.len() && found@
                    == self@.renderers[renderer as int],
                None => renderer >= self@.renderers.len(),
            },
    {
        if renderer < self.renderers.len() {
            Some(&self.renderers[renderer])
        } else {
            None
        }
    }

    /// What reads the buffers of clients.
    pub fn egl_buffer_reader(&self) -> (reader: Option<u64>)
        ensures
            reader == self@.egl_buffer_reader,
    {
        self.egl_buffer_reader
    }

    /// The drawers of all surfaces there are. Any other drawer draws on nothing any more.
    pub fn drawers_in_use(&self) -> (drawers: Vec<u64>)
        ensures
            forall|drawer: u64| #[trigger]
                drawers@.contains(drawer) <==> draws(self@.renderers, drawer),
    {
        let mut drawers: Vec<u64> = Vec::new();
        for i in 0..self.renderers.len()
            invariant
                forall|drawer: u64| #[trigger]
                    drawers@.contains(drawer) <==> draws(self@.renderers.take(i as int), drawer),
        {
            let surfaces = self.renderers[i].surfaces();
            let ghost before = drawers@;
            for j in 0..surfaces.len()
                invariant
                    forall|drawer: u64| #[trigger]
                        drawers@.contains(drawer) <==> before.contains(drawer) || exists|k: int|
                            0 <= k < j && (#[trigger] surfaces@[k]).1 == drawer,
            {
                let ghost so_far = drawers@;
                drawers.push(surfaces[j].1);
                proof {
                    lemma_contains_after_push(so_far, surfaces@[j as int].1);
                }
            }
            proof {
                assert forall|drawer: u64| #[trigger] drawers@.contains(drawer) <==> draws(
                    self@.renderers.take(i + 1),
                    drawer,
                ) by {
                    lemma_draws_one_more(self@.renderers, i as int, drawer);
                    let own = self@.renderers[i as int];
                    assert(own == self.renderers@[i as int]@);
                    if exists|k: int| 0 <= k < surfaces@.len() && (#[trigger] surfaces@[k]).1 == drawer {
                        let k = choose|k: int|
                            0 <= k < surfaces@.len() && (#[trigger] surfaces@[k]).1 == drawer;
                        assert(surfaces@.contains((surfaces@[k].0, drawer)));
                        assert(own.contains_pair(surfaces@[k].0, drawer));
                    }
                    if exists|crtc: u32| #[trigger] own.contains_pair(crtc, drawer) {
                        let crtc = choose|crtc: u32| #[trigger] own.contains_pair(crtc, drawer);
                        assert(surfaces@.contains((crtc, drawer)));
                        let k = choose|k: int|
                            0 <= k < surfaces@.len() && surfaces@[k] == (crtc, drawer);
                        assert(surfaces@[k].1 == drawer);
                    }
                }
            }
        }
        proof {
            assert(self@.renderers.take(self@.renderers.len() as int) == self@.renderers);
        }
        drawers
    }

    /// Puts `surfaces` in the place of those of `renderer`.
    fn replace_surfaces(&mut self, renderer: usize, surfaces: DrmRenderer)
        requires
            renderer < old(self)@.renderers.len(),
        ensures
            final(self)@ == (HandlerView {
                renderers: old(self)@.renderers.update(renderer as int, surfaces@),
                ..old(self)@
            }),
    {
        self.renderers.set(renderer, surfaces);
        proof {
            assert(self@.renderers == old(self)@.renderers.update(renderer as int, surfaces@));
        }
    }

    /// Goes on once all surfaces of a scan exist.
    fn surfaces_ready<M: Copy>(&mut self, target: Target, surfaces: DrmRenderer) -> (step: (
        DeviceTask<M>,
        DeviceAction<M>,
    ))
        requires
            old(self)@.wf(),
            old(self)@.has_target(target),
        ensures
            (final(self)@, step.0@, step.1@) == surfaces_ready::<M>(
                old(self)@,
                target,
                surfaces@,
            ),
            final(self)@.renderers.len() <= usize::MAX,
    {
        match target {
            Target::Added => {
                let renderer = self.renderers.len();
                self.renderers.push(surfaces);
                proof {
                    assert(self@.renderers == old(self)@.renderers.push(surfaces@));
                    assert(self.renderers.len() == self@.renderers.len());
                }
                (
                    DeviceTask::RegisteringListener { renderer },
                    DeviceAction::RegisterListener {
                        listener: DrmRendererSessionListener {
                            renderer,
                            loop_handle: self.loop_handle,
                        },
                    },
                )
            },
            Target::Changed { renderer } => {
                self.replace_surfaces(renderer, surfaces);
                (
                    DeviceTask::RestartingSurfaces,
                    DeviceAction::StartSurfaces { renderer, hotspot: (2, 2) },
                )
            },
        }
    }

    /// Goes on with `scan`.
    fn next_in_scan<M: Copy>(&mut self, scan: Scan<M>) -> (step: (DeviceTask<M>, DeviceAction<M>))
        requires
            old(self)@.wf(),
            old(self)@.has_target(scan.target),
        ensures
            (final(self)@, step.0@, step.1@) == next_in_scan(old(self)@, scan@),
            final(self)@.renderers.len() <= usize::MAX,
    {
        if scan.created < scan.plan.len() {
            let next = &scan.plan[scan.created];
            if self.egl && next.mode.is_none() {
                return (
                    DeviceTask::Done,
                    DeviceAction::FailWithoutMode { connector: next.connector },
                );
            }
            let surface = SurfacePlan {
                crtc: next.crtc,
                connector: next.connector,
                mode: next.mode,
            };
            (DeviceTask::CreatingSurfaces { scan }, DeviceAction::CreateSurface { surface })
        } else {
            match Self::encoders_to_read(&scan.connectors, scan.encoders.len()) {
                Some(handles) => (
                    DeviceTask::ReadingEncoders { scan },
                    DeviceAction::ReadEncoders { handles },
                ),
                None => self.surfaces_ready(scan.target, scan.surfaces),
            }
        }
    }

    /// Goes on with `task` once the outside world has replied with `event`. A reply that the
    /// task does not wait for changes nothing.
    pub fn advance<M: Copy>(&mut self, task: DeviceTask<M>, event: DeviceEvent<M>) -> (step: (
        DeviceTask<M>,
        DeviceAction<M>,
    ))
        requires
            old(self)@.wf(),
            old(self)@.admits(task@),
        ensures
            (final(self)@, step.0@, step.1@) == advanced(old(self)@, task@, event@),
            final(self)@.wf(),
            final(self)@.admits(step.0@),
    {
        match (task, event) {
            (DeviceTask::Opening, DeviceEvent::Opened(fd)) => match fd {
                Some(fd) => (
                    DeviceTask::CreatingDrm,
                    DeviceAction::CreateDrm { fd: SessionFd::new(fd), disable_connectors: true },
                ),
                None => (DeviceTask::Done, DeviceAction::Finish),
            },
            (DeviceTask::CreatingDrm, DeviceEvent::DrmCreated(created)) => if created {
                (DeviceTask::CreatingGbm, DeviceAction::CreateGbm)
            } else {
                (DeviceTask::Done, DeviceAction::Finish)
            },
            (DeviceTask::CreatingGbm, DeviceEvent::GbmCreated(created)) => if created {
                (DeviceTask::CreatingEgl, DeviceAction::CreateEgl)
            } else {
                (DeviceTask::Done, DeviceAction::Finish)
            },
            (DeviceTask::CreatingEgl, DeviceEvent::EglCreated(created)) => if !created {
                (DeviceTask::Done, DeviceAction::Finish)
            } else if self.egl {
                (DeviceTask::Identifying, DeviceAction::Identify)
            } else {
                (
                    DeviceTask::ReadingConnectors { target: Target::Added },
                    DeviceAction::ReadConnectors { device: None },
                )
            },
            (DeviceTask::Identifying, DeviceEvent::Identified(path)) => if self.egl && is_primary(
                &path,
                &self.primary_gpu,
            ) {
                (DeviceTask::BindingDisplay, DeviceAction::BindDisplay)
            } else {
                (
                    DeviceTask::ReadingConnectors { target: Target::Added },
                    DeviceAction::ReadConnectors { device: None },
                )
            },
            (DeviceTask::BindingDisplay, DeviceEvent::DisplayBound(reader)) => {
                self.egl_buffer_reader = reader;
                (
                    DeviceTask::ReadingConnectors { target: Target::Added },
                    DeviceAction::ReadConnectors { device: None },
                )
            },
            (
                DeviceTask::ReadingConnectors { target },
                DeviceEvent::ConnectorsRead(connectors),
            ) => {
                let scan = Scan {
                    target,
                    connectors,
                    encoders: Vec::new(),
                    plan: Vec::new(),
                    created: 0,
                    surfaces: DrmRenderer::new(),
                };
                proof {
                    assert(scan@.encoders == Seq::<Seq<Option<Seq<u32>>>>::empty());
                }
                self.next_in_scan(scan)
            },
            (DeviceTask::ReadingEncoders { scan }, DeviceEvent::EncodersRead(read)) => {
                let mut scan = scan;
                let ghost before = scan@;
                let ghost list = encoder_views(read@);
                scan.encoders.push(read);
                scan.plan = Self::scan_connectors(&scan.connectors, &scan.encoders);
                proof {
                    assert(scan@.encoders == before.encoders.push(list));
                }
                self.next_in_scan(scan)
            },
            (DeviceTask::CreatingSurfaces { scan }, DeviceEvent::SurfaceCreated(drawer)) => {
                let mut scan = scan;
                assert(scan.created < scan.plan.len());
                let crtc = scan.plan[scan.created].crtc;
                scan.surfaces.insert(crtc, drawer);
                scan.created += 1;
                self.next_in_scan(scan)
            },
            (DeviceTask::RegisteringListener { renderer }, DeviceEvent::Registered(restart_id)) => (
                DeviceTask::SettingHandler { renderer, restart_id },
                DeviceAction::SetHandler {
                    handler: DrmHandlerImpl { renderer, loop_handle: self.loop_handle },
                },
            ),
            (DeviceTask::SettingHandler { renderer, restart_id }, DeviceEvent::HandlerSet) => (
                DeviceTask::RegisteringDevice { renderer, restart_id },
                DeviceAction::RegisterDevice,
            ),
            (
                DeviceTask::RegisteringDevice { renderer, restart_id },
                DeviceEvent::Registered(id),
            ) => (DeviceTask::ReadingId { renderer, restart_id, id }, DeviceAction::ReadId),
            (
                DeviceTask::ReadingId { renderer, restart_id, id },
                DeviceEvent::IdRead(device_id),
            ) => (
                DeviceTask::BindingSource { renderer, restart_id, id, device_id },
                DeviceAction::BindSource,
            ),
            (
                DeviceTask::BindingSource { renderer, restart_id, id, device_id },
                DeviceEvent::SourceBound(event_source),
            ) => (
                DeviceTask::StartingSurfaces { renderer, restart_id, id, device_id, event_source },
                DeviceAction::StartSurfaces { renderer, hotspot: (2, 2) },
            ),
            (
                DeviceTask::StartingSurfaces { renderer, restart_id, id, device_id, event_source },
                DeviceEvent::SurfacesStarted,
            ) => {
                self.backends.insert(
                    device_id,
                    BackendData { id, restart_id, event_source, surfaces: renderer },
                );
                (DeviceTask::Done, DeviceAction::Finish)
            },
            (DeviceTask::RestartingSurfaces, DeviceEvent::SurfacesStarted) => (
                DeviceTask::Done,
                DeviceAction::Finish,
            ),
            (DeviceTask::RemovingSource { backend }, DeviceEvent::SourceRemoved(path)) => {
                if self.egl && is_primary(&path, &self.primary_gpu) {
                    self.egl_buffer_reader = None;
                }
                (
                    DeviceTask::Done,
                    DeviceAction::Unregister { id: backend.id, restart_id: backend.restart_id },
                )
            },
            (task, _) => (task, DeviceAction::Wait),
        }
    }
}

}
