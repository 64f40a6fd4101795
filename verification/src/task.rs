//! The work on a device: how far it has got, what it waits for, what it asks for.
use vstd::prelude::*;

use crate::connectors::{
    connector_views, encoder_lists, encoder_views, ConnectorInfo, ConnectorView, EncoderInfo,
    SurfacePlan,
};
use crate::paths::path_text;
use crate::render::{DrmHandlerImpl, DrmRenderer, DrmRendererSessionListener};
use crate::session::{OpenFlags, SessionFd};

verus! {

/// What the backend keeps of a device.
#[derive(Clone, Copy, Debug, PartialEq, Eq, Structural)]
pub struct BackendData {
    /// What the session knows the device by.
    pub id: u64,
    /// What the session knows the listener by that renders after an activation.
    pub restart_id: u64,
    /// The device, as a source of the event loop.
    pub event_source: u64,
    /// The number of the renderer that holds the surfaces of the device.
    pub surfaces: usize,
}

/// The device that a scan is for.
#[derive(Clone, Copy, Debug, PartialEq, Eq, Structural)]
pub enum Target {
    /// One that is being added.
    Added,
    /// One that the backend keeps, with its surfaces in `renderer`.
    Changed { renderer: usize },
}

/// A scan, as far as it has got.
pub struct Scan<M> {
    pub target: Target,
    pub connectors: Vec<ConnectorInfo<M>>,
    /// The encoders of the connected connectors, one connector after the other, as far as they
    /// were read.
    pub encoders: Vec<Vec<Option<EncoderInfo>>>,
    /// The surfaces that are planned for these connectors.
    pub plan: Vec<SurfacePlan<M>>,
    /// How many surfaces of the plan exist.
    pub created: usize,
    /// Those surfaces.
    pub surfaces: DrmRenderer,
}

/// The model of a [`Scan`].
#[verifier::ext_equal]
pub struct ScanView<M> {
    pub target: Target,
    pub connectors: Seq<ConnectorView<M>>,
    pub encoders: Seq<Seq<Option<Seq<u32>>>>,
    pub plan: Seq<SurfacePlan<M>>,
    pub created: int,
    pub surfaces: Map<u32, u64>,
}

impl<M> View for Scan<M> {
    type V = ScanView<M>;

    open spec fn view(&self) -> ScanView<M> {
        ScanView {
            target: self.target,
            connectors: connector_views(self.connectors@),
            encoders: encoder_lists(self.encoders@),
            plan: self.plan@,
            created: self.created as int,
            surfaces: self.surfaces@,
        }
    }
}

/// How far the work on a device has got: each variant waits for one reply.
pub enum DeviceTask<M> {
    Opening,
    CreatingDrm,
    CreatingGbm,
    CreatingEgl,
    Identifying,
    BindingDisplay,
    ReadingConnectors { target: Target },
    ReadingEncoders { scan: Scan<M> },
    CreatingSurfaces { scan: Scan<M> },
    RegisteringListener { renderer: usize },
    SettingHandler { renderer: usize, restart_id: u64 },
    RegisteringDevice { renderer: usize, restart_id: u64 },
    ReadingId { renderer: usize, restart_id: u64, id: u64 },
    BindingSource { renderer: usize, restart_id: u64, id: u64, device_id: u64 },
    StartingSurfaces {
        renderer: usize,
        restart_id: u64,
        id: u64,
        device_id: u64,
        event_source: u64,
    },
    RestartingSurfaces,
    RemovingSource { backend: BackendData },
    Done,
}

/// What the outside world replies.
pub enum DeviceEvent<M> {
    /// The session has opened the device, as this file descriptor, or refused to.
    Opened(Option<i32>),
    /// Whether there is a DRM device.
    DrmCreated(bool),
    /// Whether there is a buffer manager for it.
    GbmCreated(bool),
    /// Whether there is a rendering device for that.
    EglCreated(bool),
    /// The canonical path of the device, if it has one.
    Identified(Option<String>),
    /// What reads the buffers of clients from now on, if the display could be bound.
    DisplayBound(Option<u64>),
    /// The connectors of the device.
    ConnectorsRead(Vec<ConnectorInfo<M>>),
    /// The encoders that were asked for, in order: none where one could not be read.
    EncodersRead(Vec<Option<EncoderInfo>>),
    /// What draws on the new surface.
    SurfaceCreated(u64),
    /// What the session knows the listener or the device by.
    Registered(u64),
    /// The handler is in place.
    HandlerSet,
    /// The number of the device.
    IdRead(u64),
    /// The device is a source of the event loop now.
    SourceBound(u64),
    /// All surfaces have their pointer image, and their first frames are scheduled.
    SurfacesStarted,
    /// The device is no source of the event loop any more. It had this canonical path.
    SourceRemoved(Option<String>),
}

/// What is to be done next.
#[derive(Debug, PartialEq, Eq)]
pub enum DeviceAction<M> {
    /// Let the session open `path`. Reply: `Opened`.
    Open { path: String, flags: OpenFlags },
    /// Create a DRM device, with its connectors disabled at first. Reply: `DrmCreated`.
    CreateDrm { fd: SessionFd, disable_connectors: bool },
    /// Create a buffer manager for it. Reply: `GbmCreated`.
    CreateGbm,
    /// Create a rendering device for that. Reply: `EglCreated`.
    CreateEgl,
    /// Find the canonical path. Reply: `Identified`.
    Identify,
    /// Let the device speed up the display. Reply: `DisplayBound`.
    BindDisplay,
    /// Read the connectors of the new device, or of the one that is the source `device`.
    /// Reply: `ConnectorsRead`.
    ReadConnectors { device: Option<u64> },
    /// Read these encoders of that device, which are those of one connector.
    /// Reply: `EncodersRead`.
    ReadEncoders { handles: Vec<u32> },
    /// Create a surface on that device, with something to draw on it. Reply: `SurfaceCreated`.
    CreateSurface { surface: SurfacePlan<M> },
    /// Register a listener with the session. Reply: `Registered`.
    RegisterListener { listener: DrmRendererSessionListener },
    /// Let `handler` receive the events of the device. Reply: `HandlerSet`.
    SetHandler { handler: DrmHandlerImpl },
    /// Register the device with the session. Reply: `Registered`.
    RegisterDevice,
    /// Read the number of the device. Reply: `IdRead`.
    ReadId,
    /// Make the device a source of the event loop. Reply: `SourceBound`.
    BindSource,
    /// Nothing more: a surface on `connector` needs a mode, and the connector lists none.
    FailWithoutMode { connector: u32 },
    /// Give each surface of the renderer the pointer image, then schedule its first frame.
    /// Reply: `SurfacesStarted`.
    StartSurfaces { renderer: usize, hotspot: (u32, u32) },
    /// Take the source out of the event loop. Reply: `SourceRemoved`.
    RemoveSource { source: u64 },
    /// Let the session forget the device, then its listener.
    Unregister { id: u64, restart_id: u64 },
    /// Nothing: the work is done.
    Finish,
    /// Nothing: the reply was not the one that is waited for.
    Wait,
}

/// The model of a [`DeviceTask`].
#[verifier::ext_equal]
pub enum TaskView<M> {
    Opening,
    CreatingDrm,
    CreatingGbm,
    CreatingEgl,
    Identifying,
    BindingDisplay,
    ReadingConnectors { target: Target },
    ReadingEncoders { scan: ScanView<M> },
    CreatingSurfaces { scan: ScanView<M> },
    RegisteringListener { renderer: usize },
    SettingHandler { renderer: usize, restart_id: u64 },
    RegisteringDevice { renderer: usize, restart_id: u64 },
    ReadingId { renderer: usize, restart_id: u64, id: u64 },
    BindingSource { renderer: usize, restart_id: u64, id: u64, device_id: u64 },
    StartingSurfaces {
        renderer: usize,
        restart_id: u64,
        id: u64,
        device_id: u64,
        event_source: u64,
    },
    RestartingSurfaces,
    RemovingSource { backend: BackendData },
    Done,
}

impl<M> View for DeviceTask<M> {
    type V = TaskView<M>;

    open spec fn view(&self) -> TaskView<M> {
        match *self {
            DeviceTask::Opening => TaskView::Opening,
            DeviceTask::CreatingDrm => TaskView::CreatingDrm,
            DeviceTask::CreatingGbm => TaskView::CreatingGbm,
            DeviceTask::CreatingEgl => TaskView::CreatingEgl,
            DeviceTask::Identifying => TaskView::Identifying,
            DeviceTask::BindingDisplay => TaskView::BindingDisplay,
            DeviceTask::ReadingConnectors { target } => TaskView::ReadingConnectors { target },
            DeviceTask::ReadingEncoders { scan } => TaskView::ReadingEncoders { scan: scan@ },
            DeviceTask::CreatingSurfaces { scan } => TaskView::CreatingSurfaces { scan: scan@ },
            DeviceTask::RegisteringListener { renderer } => TaskView::RegisteringListener {
                renderer,
            },
            DeviceTask::SettingHandler { renderer, restart_id } => TaskView::SettingHandler {
                renderer,
                restart_id,
            },
            DeviceTask::RegisteringDevice { renderer, restart_id } => {
                TaskView::RegisteringDevice { renderer, restart_id }
            },
            DeviceTask::ReadingId { renderer, restart_id, id } => TaskView::ReadingId {
                renderer,
                restart_id,
                id,
            },
            DeviceTask::BindingSource { renderer, restart_id, id, device_id } => {
                TaskView::BindingSource { renderer, restart_id, id, device_id }
            },
            DeviceTask::StartingSurfaces { renderer, restart_id, id, device_id, event_source } => {
                TaskView::StartingSurfaces { renderer, restart_id, id, device_id, event_source }
            },
            DeviceTask::RestartingSurfaces => TaskView::RestartingSurfaces,
            DeviceTask::RemovingSource { backend } => TaskView::RemovingSource { backend },
            DeviceTask::Done => TaskView::Done,
        }
    }
}

/// The model of a [`DeviceEvent`].
#[verifier::ext_equal]
pub enum EventView<M> {
    Opened(Option<i32>),
    DrmCreated(bool),
    GbmCreated(bool),
    EglCreated(bool),
    Identified(Option<Seq<char>>),
    DisplayBound(Option<u64>),
    ConnectorsRead(Seq<ConnectorView<M>>),
    EncodersRead(Seq<Option<Seq<u32>>>),
    SurfaceCreated(u64),
    Registered(u64),
    HandlerSet,
    IdRead(u64),
    SourceBound(u64),
    SurfacesStarted,
    SourceRemoved(Option<Seq<char>>),
}

impl<M> View for DeviceEvent<M> {
    type V = EventView<M>;

    open spec fn view(&self) -> EventView<M> {
        match *self {
            DeviceEvent::Opened(fd) => EventView::Opened(fd),
            DeviceEvent::DrmCreated(created) => EventView::DrmCreated(created),
            DeviceEvent::GbmCreated(created) => EventView::GbmCreated(created),
            DeviceEvent::EglCreated(created) => EventView::EglCreated(created),
            DeviceEvent::Identified(path) => EventView::Identified(path_text(path)),
            DeviceEvent::DisplayBound(reader) => EventView::DisplayBound(reader),
            DeviceEvent::ConnectorsRead(connectors) => EventView::ConnectorsRead(
                connector_views(connectors@),
            ),
            DeviceEvent::EncodersRead(encoders) => EventView::EncodersRead(
                encoder_views(encoders@),
            ),
            DeviceEvent::SurfaceCreated(drawer) => EventView::SurfaceCreated(drawer),
            DeviceEvent::Registered(id) => EventView::Registered(id),
            DeviceEvent::HandlerSet => EventView::HandlerSet,
            DeviceEvent::IdRead(id) => EventView::IdRead(id),
            DeviceEvent::SourceBound(source) => EventView::SourceBound(source),
            DeviceEvent::SurfacesStarted => EventView::SurfacesStarted,
            DeviceEvent::SourceRemoved(path) => EventView::SourceRemoved(path_text(path)),
        }
    }
}

/// The model of a [`DeviceAction`].
#[verifier::ext_equal]
pub enum ActionView<M> {
    Open { path: Seq<char>, flags: OpenFlags },
    CreateDrm { fd: i32, disable_connectors: bool },
    CreateGbm,
    CreateEgl,
    Identify,
    BindDisplay,
    ReadConnectors { device: Option<u64> },
    ReadEncoders { handles: Seq<u32> },
    CreateSurface { surface: SurfacePlan<M> },
    RegisterListener { listener: DrmRendererSessionListener },
    SetHandler { handler: DrmHandlerImpl },
    RegisterDevice,
    ReadId,
    BindSource,
    FailWithoutMode { connector: u32 },
    StartSurfaces { renderer: usize, hotspot: (u32, u32) },
    RemoveSource { source: u64 },
    Unregister { id: u64, restart_id: u64 },
    Finish,
    Wait,
}

impl<M> View for DeviceAction<M> {
    type V = ActionView<M>;

    open spec fn view(&self) -> ActionView<M> {
        match *self {
            DeviceAction::Open { path, flags } => ActionView::Open { path: path@, flags },
            DeviceAction::CreateDrm { fd, disable_connectors } => ActionView::CreateDrm {
                fd: fd@,
                disable_connectors,
            },
            DeviceAction::CreateGbm => ActionView::CreateGbm,
            DeviceAction::CreateEgl => ActionView::CreateEgl,
            DeviceAction::Identify => ActionView::Identify,
            DeviceAction::BindDisplay => ActionView::BindDisplay,
            DeviceAction::ReadConnectors { device } => ActionView::ReadConnectors { device },
            DeviceAction::ReadEncoders { handles } => ActionView::ReadEncoders {
                handles: handles@,
            },
            DeviceAction::CreateSurface { surface } => ActionView::CreateSurface { surface },
            DeviceAction::RegisterListener { listener } => ActionView::RegisterListener {
                listener,
            },
            DeviceAction::SetHandler { handler } => ActionView::SetHandler { handler },
            DeviceAction::RegisterDevice => ActionView::RegisterDevice,
            DeviceAction::ReadId => ActionView::ReadId,
            DeviceAction::BindSource => ActionView::BindSource,
            DeviceAction::FailWithoutMode { connector } => ActionView::FailWithoutMode {
                connector,
            },
            DeviceAction::StartSurfaces { renderer, hotspot } => ActionView::StartSurfaces {
                renderer,
                hotspot,
            },
            DeviceAction::RemoveSource { source } => ActionView::RemoveSource { source },
            DeviceAction::Unregister { id, restart_id } => ActionView::Unregister {
                id,
                restart_id,
            },
            DeviceAction::Finish => ActionView::Finish,
            DeviceAction::Wait => ActionView::Wait,
        }
    }
}

/// The model of a reply is the reply: the same file descriptor, paths, connectors, encoders and
/// numbers.
pub proof fn replies_are_modelled_as_they_come<M>(event: DeviceEvent<M>)
    ensures
        ({
            match (event, event@) {
                (DeviceEvent::Opened(fd), EventView::Opened(model)) => fd == model,
                (DeviceEvent::DrmCreated(yes), EventView::DrmCreated(model)) => yes == model,
                (DeviceEvent::GbmCreated(yes), EventView::GbmCreated(model)) => yes == model,
                (DeviceEvent::EglCreated(yes), EventView::EglCreated(model)) => yes == model,
                (DeviceEvent::Identified(path), EventView::Identified(model)) => match path {
                    Some(path) => model == Some(path@),
                    None => model is None,
                },
                (DeviceEvent::DisplayBound(reader), EventView::DisplayBound(model)) => reader
                    == model,
                (
                    DeviceEvent::ConnectorsRead(connectors),
                    EventView::ConnectorsRead(model),
                ) => model.len() == connectors@.len() && forall|i: int|
                    0 <= i < model.len() ==> #[trigger] model[i] == connectors@[i]@,
                (DeviceEvent::EncodersRead(encoders), EventView::EncodersRead(model)) => model.len()
                    == encoders@.len() && forall|i: int|
                    0 <= i < model.len() ==> match encoders@[i] {
                        Some(encoder) => #[trigger] model[i] == Some(encoder.possible_crtcs@),
                        None => model[i] is None,
                    },
                (DeviceEvent::SurfaceCreated(drawer), EventView::SurfaceCreated(model)) => drawer
                    == model,
                (DeviceEvent::Registered(id), EventView::Registered(model)) => id == model,
                (DeviceEvent::HandlerSet, EventView::HandlerSet) => true,
                (DeviceEvent::IdRead(id), EventView::IdRead(model)) => id == model,
                (DeviceEvent::SourceBound(source), EventView::SourceBound(model)) => source
                    == model,
                (DeviceEvent::SurfacesStarted, EventView::SurfacesStarted) => true,
                (DeviceEvent::SourceRemoved(path), EventView::SourceRemoved(model)) => match path {
                    Some(path) => model == Some(path@),
                    None => model is None,
                },
                _ => false,
            }
        }),
{
}

/// The model of what is to be done is what is to be done: on the same paths, devices, handles and
/// numbers.
pub proof fn actions_are_modelled_as_they_are<M>(action: DeviceAction<M>)
    ensures
        ({
            match (action, action@) {
                (
                    DeviceAction::Open { path, flags },
                    ActionView::Open { path: text, flags: model },
                ) => text == path@ && model == flags,
                (
                    DeviceAction::CreateDrm { fd, disable_connectors },
                    ActionView::CreateDrm { fd: number, disable_connectors: model },
                ) => number == fd@ && model == disable_connectors,
                (DeviceAction::CreateGbm, ActionView::CreateGbm) => true,
                (DeviceAction::CreateEgl, ActionView::CreateEgl) => true,
                (DeviceAction::Identify, ActionView::Identify) => true,
                (DeviceAction::BindDisplay, ActionView::BindDisplay) => true,
                (
                    DeviceAction::ReadConnectors { device },
                    ActionView::ReadConnectors { device: model },
                ) => model == device,
                (
                    DeviceAction::ReadEncoders { handles },
                    ActionView::ReadEncoders { handles: model },
                ) => model == handles@,
                (
                    DeviceAction::CreateSurface { surface },
                    ActionView::CreateSurface { surface: model },
                ) => model == surface,
                (
                    DeviceAction::RegisterListener { listener },
                    ActionView::RegisterListener { listener: model },
                ) => model == listener,
                (
                    DeviceAction::SetHandler { handler },
                    ActionView::SetHandler { handler: model },
                ) => model == handler,
                (DeviceAction::RegisterDevice, ActionView::RegisterDevice) => true,
                (DeviceAction::ReadId, ActionView::ReadId) => true,
                (DeviceAction::BindSource, ActionView::BindSource) => true,
                (
                    DeviceAction::FailWithoutMode { connector },
                    ActionView::FailWithoutMode { connector: model },
                ) => model == connector,
                (
                    DeviceAction::StartSurfaces { renderer, hotspot },
                    ActionView::StartSurfaces { renderer: number, hotspot: model },
                ) => number == renderer && model == hotspot,
                (
                    DeviceAction::RemoveSource { source },
                    ActionView::RemoveSource { source: model },
                ) => model == source,
                (
                    DeviceAction::Unregister { id, restart_id },
                    ActionView::Unregister { id: first, restart_id: second },
                ) => first == id && second == restart_id,
                (DeviceAction::Finish, ActionView::Finish) => true,
                (DeviceAction::Wait, ActionView::Wait) => true,
                _ => false,
            }
        }),
{
}

/// The model of a scan shows all that the scan holds: its target, its connectors, the encoders
/// that were read, and what was planned and created.
pub proof fn scans_are_modelled_as_they_are<M>(scan: Scan<M>)
    ensures
        scan@.target == scan.target,
        scan@.connectors.len() == scan.connectors@.len(),
        forall|i: int|
            0 <= i < scan.connectors@.len() ==> #[trigger] scan@.connectors[i]
                == scan.connectors@[i]@,
        scan@.encoders == encoder_lists(scan.encoders@),
        scan@.plan == scan.plan@,
        scan@.created == scan.created,
        scan@.surfaces == scan.surfaces@,
{
}

/// The model of a task shows all that the task waits with.
pub proof fn tasks_are_modelled_as_they_are<M>(task: DeviceTask<M>)
    ensures
        ({
            match (task, task@) {
                (DeviceTask::Opening, TaskView::Opening) => true,
                (DeviceTask::CreatingDrm, TaskView::CreatingDrm) => true,
                (DeviceTask::CreatingGbm, TaskView::CreatingGbm) => true,
                (DeviceTask::CreatingEgl, TaskView::CreatingEgl) => true,
                (DeviceTask::Identifying, TaskView::Identifying) => true,
                (DeviceTask::BindingDisplay, TaskView::BindingDisplay) => true,
                (
                    DeviceTask::ReadingConnectors { target },
                    TaskView::ReadingConnectors { target: model },
                ) => model == target,
                (
                    DeviceTask::ReadingEncoders { scan },
                    TaskView::ReadingEncoders { scan: model },
                ) => model == scan@,
                (
                    DeviceTask::CreatingSurfaces { scan },
                    TaskView::CreatingSurfaces { scan: model },
                ) => model == scan@,
                (
                    DeviceTask::RegisteringListener { renderer },
                    TaskView::RegisteringListener { renderer: r },
                ) => r == renderer,
                (
                    DeviceTask::SettingHandler { renderer, restart_id },
                    TaskView::SettingHandler { renderer: r, restart_id: a },
                ) => (r, a) == (renderer, restart_id),
                (
                    DeviceTask::RegisteringDevice { renderer, restart_id },
                    TaskView::RegisteringDevice { renderer: r, restart_id: a },
                ) => (r, a) == (renderer, restart_id),
                (
                    DeviceTask::ReadingId { renderer, restart_id, id },
                    TaskView::ReadingId { renderer: r, restart_id: a, id: b },
                ) => (r, a, b) == (renderer, restart_id, id),
                (
                    DeviceTask::BindingSource { renderer, restart_id, id, device_id },
                    TaskView::BindingSource { renderer: r, restart_id: a, id: b, device_id: c },
                ) => (r, a, b, c) == (renderer, restart_id, id, device_id),
                (
                    DeviceTask::StartingSurfaces { renderer, restart_id, id, device_id, event_source },
                    TaskView::StartingSurfaces {
                        renderer: r,
                        restart_id: a,
                        id: b,
                        device_id: c,
                        event_source: d,
                    },
                ) => (r, a, b, c, d) == (renderer, restart_id, id, device_id, event_source),
                (DeviceTask::RestartingSurfaces, TaskView::RestartingSurfaces) => true,
                (
                    DeviceTask::RemovingSource { backend },
                    TaskView::RemovingSource { backend: model },
                ) => model == backend,
                (DeviceTask::Done, TaskView::Done) => true,
                _ => false,
            }
        }),
{
}

}
