//! What holds of the work on devices as a whole.
use vstd::prelude::*;
use vstd::multiset::Multiset;

use crate::connectors::{
    connected, encoder_handles, planned, scan_goes_on_from_what_was_read,
    scan_keeps_to_what_is_offered, scan_plan, scan_plans_nothing_without_encoders,
    scan_uses_each_crtc_once, ConnectorView, SurfacePlan,
};
use crate::handler::{
    added, advanced, changed, draws, lacks_mode, next_in_scan, removed, HandlerView,
};
use crate::paths::components;
use crate::render::{DrmHandlerImpl, DrmRendererSessionListener};
use crate::session::OpenFlags;
use crate::task::{ActionView, BackendData, EventView, ScanView, Target, TaskView};

verus! {

/// Where the work on a device stands after some replies: the backend, the task, and what was to
/// be done after each reply.
pub type Conversation<M> = (HandlerView, TaskView<M>, Seq<ActionView<M>>);

/// `task` gets the replies `events`, one after the other.
pub open spec fn conversation<M>(
    handler: HandlerView,
    task: TaskView<M>,
    events: Seq<EventView<M>>,
) -> Conversation<M>
    decreases events.len(),
{
    if events.len() == 0 {
        (handler, task, Seq::empty())
    } else {
        let before = conversation(handler, task, events.drop_last());
        let step = advanced(before.0, before.1, events.last());
        (step.0, step.1, before.2.push(step.2))
    }
}

proof fn lemma_one_more<M>(
    handler: HandlerView,
    task: TaskView<M>,
    events: Seq<EventView<M>>,
    event: EventView<M>,
)
    ensures
        ({
            let before = conversation(handler, task, events);
            let step = advanced(before.0, before.1, event);
            conversation(handler, task, events.push(event)) == (
                step.0,
                step.1,
                before.2.push(step.2),
            )
        }),
{
    assert(events.push(event).drop_last() == events);
}

proof fn lemma_in_turn<M>(
    handler: HandlerView,
    task: TaskView<M>,
    first: Seq<EventView<M>>,
    second: Seq<EventView<M>>,
)
    ensures
        ({
            let halfway = conversation(handler, task, first);
            let end = conversation(halfway.0, halfway.1, second);
            conversation(handler, task, first + second) == (end.0, end.1, halfway.2 + end.2)
        }),
    decreases second.len(),
{
    let halfway = conversation(handler, task, first);
    if second.len() == 0 {
        assert(first + second == first);
        assert(halfway.2 + Seq::<ActionView<M>>::empty() == halfway.2);
    } else {
        let rest = second.drop_last();
        lemma_in_turn(handler, task, first, rest);
        assert((first + second).drop_last() == first + rest);
        let end = conversation(halfway.0, halfway.1, rest);
        let step = advanced(end.0, end.1, second.last());
        assert(halfway.2 + end.2.push(step.2) == (halfway.2 + end.2).push(step.2));
    }
}

/// Whether the device at the canonical path `path` is the one that speeds up the display: that of
/// the primary GPU, where there is acceleration at all. Without a primary GPU it is a device
/// without a path.
pub open spec fn is_primary_gpu(handler: HandlerView, path: Option<Seq<char>>) -> bool {
    &&& handler.egl
    &&& match (path, handler.primary_gpu) {
        (Some(path), Some(primary_gpu)) => components(path) == components(primary_gpu),
        (None, None) => true,
        _ => false,
    }
}

/// The replies while a new device is set up without a failure: `fd` is its descriptor, `path` its
/// canonical path, and `reader` what it offers to read the buffers of clients with.
pub open spec fn setup_events<M>(
    handler: HandlerView,
    fd: i32,
    path: Option<Seq<char>>,
    reader: Option<u64>,
) -> Seq<EventView<M>> {
    let created = seq![
        EventView::Opened(Some(fd)),
        EventView::DrmCreated(true),
        EventView::GbmCreated(true),
        EventView::EglCreated(true),
    ];
    if !handler.egl {
        created
    } else if !is_primary_gpu(handler, path) {
        created.push(EventView::Identified(path))
    } else {
        created.push(EventView::Identified(path)).push(EventView::DisplayBound(reader))
    }
}

/// What is done in the course of that, after the device was opened.
pub open spec fn setup_actions<M>(handler: HandlerView, fd: i32, path: Option<Seq<char>>) -> Seq<
    ActionView<M>,
> {
    let created = seq![
        ActionView::CreateDrm { fd, disable_connectors: true },
        ActionView::CreateGbm,
        ActionView::CreateEgl,
    ];
    let read = ActionView::ReadConnectors { device: None };
    if !handler.egl {
        created.push(read)
    } else if !is_primary_gpu(handler, path) {
        created.push(ActionView::Identify).push(read)
    } else {
        created.push(ActionView::Identify).push(ActionView::BindDisplay).push(read)
    }
}

/// The replies while `drawers` draw on the surfaces that are planned.
pub open spec fn surface_events<M>(drawers: Seq<u64>) -> Seq<EventView<M>> {
    drawers.map_values(|drawer: u64| EventView::<M>::SurfaceCreated(drawer))
}

/// The surfaces of `plan`, of which the first ones are drawn by `drawers`.
pub open spec fn drawn<M>(plan: Seq<SurfacePlan<M>>, drawers: Seq<u64>) -> Map<u32, u64>
    decreases drawers.len(),
{
    if drawers.len() == 0 {
        Map::empty()
    } else {
        drawn(plan, drawers.drop_last()).insert(plan[drawers.len() - 1].crtc, drawers.last())
    }
}

/// Whether every surface of `plan` can be created: with acceleration, each needs a mode.
pub open spec fn modes_suffice<M>(handler: HandlerView, plan: Seq<SurfacePlan<M>>) -> bool {
    forall|i: int| 0 <= i < plan.len() && handler.egl ==> (#[trigger] plan[i]).mode is Some
}

/// How many surfaces are planned before the encoders of the last connector are read.
pub open spec fn planned_before<M>(
    connectors: Seq<ConnectorView<M>>,
    encoders: Seq<Seq<Option<Seq<u32>>>>,
) -> int {
    scan_plan(connectors, encoders.drop_last()).len() as int
}

/// The replies while a device is scanned: `encoders` are those of its connected connectors, and
/// `drawers` draw on the surfaces that are planned for them.
pub open spec fn scan_events<M>(
    connectors: Seq<ConnectorView<M>>,
    encoders: Seq<Seq<Option<Seq<u32>>>>,
    drawers: Seq<u64>,
) -> Seq<EventView<M>>
    decreases encoders.len(),
{
    if encoders.len() == 0 {
        seq![EventView::ConnectorsRead(connectors)]
    } else {
        let before = planned_before(connectors, encoders);
        scan_events(connectors, encoders.drop_last(), drawers.take(before)).push(
            EventView::EncodersRead(encoders.last()),
        ) + surface_events(drawers.skip(before))
    }
}

/// What is done in the course of that, up to the last surface: for one connector after the other,
/// its encoders are read, and then its surfaces are created.
pub open spec fn scan_actions<M>(
    connectors: Seq<ConnectorView<M>>,
    encoders: Seq<Seq<Option<Seq<u32>>>>,
) -> Seq<ActionView<M>>
    decreases encoders.len(),
{
    if encoders.len() == 0 {
        Seq::empty()
    } else {
        let before = planned_before(connectors, encoders);
        scan_actions(connectors, encoders.drop_last()).push(
            ActionView::ReadEncoders {
                handles: encoder_handles(connected(connectors)[encoders.len() - 1]),
            },
        ) + creations(scan_plan(connectors, encoders).skip(before))
    }
}

/// The creation of `surfaces`, one after the other.
pub open spec fn creations<M>(surfaces: Seq<SurfacePlan<M>>) -> Seq<ActionView<M>> {
    surfaces.map_values(|surface: SurfacePlan<M>| ActionView::CreateSurface { surface })
}

/// The replies while a new device is registered: the listener as `restart_id`, the device as
/// `id`, with the number `device_id` and the source `event_source`. The start of its surfaces is
/// the last of them.
pub open spec fn registration_events<M>(
    restart_id: u64,
    id: u64,
    device_id: u64,
    event_source: u64,
) -> Seq<EventView<M>> {
    seq![
        EventView::Registered(restart_id),
        EventView::HandlerSet,
        EventView::Registered(id),
        EventView::IdRead(device_id),
        EventView::SourceBound(event_source),
        EventView::SurfacesStarted,
    ]
}

/// What is done in the course of that.
pub open spec fn registration_actions<M>(renderer: usize, loop_handle: u64) -> Seq<ActionView<M>> {
    seq![
        ActionView::SetHandler { handler: DrmHandlerImpl { renderer, loop_handle } },
        ActionView::RegisterDevice,
        ActionView::ReadId,
        ActionView::BindSource,
        ActionView::StartSurfaces { renderer, hotspot: (2, 2) },
        ActionView::Finish,
    ]
}

proof fn lemma_setup<M>(
    handler: HandlerView,
    fd: i32,
    path: Option<Seq<char>>,
    reader: Option<u64>,
)
    ensures
        conversation::<M>(
            handler,
            TaskView::Opening,
            setup_events(handler, fd, path, reader),
        ) == (
            HandlerView {
                egl_buffer_reader: if is_primary_gpu(handler, path) {
                    reader
                } else {
                    handler.egl_buffer_reader
                },
                ..handler
            },
            TaskView::<M>::ReadingConnectors { target: Target::Added },
            setup_actions::<M>(handler, fd, path),
        ),
{
    let task = TaskView::<M>::Opening;
    let none = Seq::<EventView<M>>::empty();
    let opened = none.push(EventView::Opened(Some(fd)));
    let drm = opened.push(EventView::DrmCreated(true));
    let gbm = drm.push(EventView::GbmCreated(true));
    let egl = gbm.push(EventView::EglCreated(true));
    lemma_one_more(handler, task, none, EventView::Opened(Some(fd)));
    lemma_one_more(handler, task, opened, EventView::DrmCreated(true));
    lemma_one_more(handler, task, drm, EventView::GbmCreated(true));
    lemma_one_more(handler, task, gbm, EventView::EglCreated(true));
    let events = setup_events::<M>(handler, fd, path, reader);
    if !handler.egl {
        assert(events == egl);
    } else {
        let identified = egl.push(EventView::Identified(path));
        lemma_one_more(handler, task, egl, EventView::Identified(path));
        if !is_primary_gpu(handler, path) {
            assert(events == identified);
        } else {
            lemma_one_more(handler, task, identified, EventView::DisplayBound(reader));
            assert(events == identified.push(EventView::DisplayBound(reader)));
        }
    }
    assert(conversation::<M>(handler, task, events).2 == setup_actions::<M>(handler, fd, path));
}

/// What is drawn on the first surfaces depends on these alone.
proof fn lemma_drawn_prefix<M>(
    first: Seq<SurfacePlan<M>>,
    plan: Seq<SurfacePlan<M>>,
    drawers: Seq<u64>,
)
    requires
        first.is_prefix_of(plan),
        drawers.len() <= first.len(),
    ensures
        drawn(first, drawers) == drawn(plan, drawers),
    decreases drawers.len(),
{
    if drawers.len() > 0 {
        lemma_drawn_prefix(first, plan, drawers.drop_last());
        assert(first[drawers.len() - 1] == plan.subrange(0, first.len() as int)[drawers.len() - 1]);
    }
}

/// `scan`, once `drawers` draw on its first surfaces.
spec fn scan_with<M>(scan: ScanView<M>, drawers: Seq<u64>) -> ScanView<M> {
    ScanView { created: drawers.len() as int, surfaces: drawn(scan.plan, drawers), ..scan }
}

/// The surfaces of a plan are created one by one.
proof fn lemma_surfaces<M>(handler: HandlerView, scan: ScanView<M>, drawers: Seq<u64>, before: int)
    requires
        0 <= before <= drawers.len() <= scan.plan.len(),
        modes_suffice(handler, scan.plan.take(drawers.len() as int)),
    ensures
        ({
            let first = next_in_scan(handler, scan_with(scan, drawers.take(before)));
            let next = next_in_scan(handler, scan_with(scan, drawers));
            let end = conversation(first.0, first.1, surface_events::<M>(drawers.skip(before)));
            &&& end.0 == next.0
            &&& end.1 == next.1
            &&& seq![first.2] + end.2 == creations(
                scan.plan.subrange(before, drawers.len() as int),
            ).push(next.2)
        }),
    decreases drawers.len() - before,
{
    let first = next_in_scan(handler, scan_with(scan, drawers.take(before)));
    if drawers.len() == before {
        assert(drawers.take(before) == drawers);
        assert(surface_events::<M>(drawers.skip(before)) == Seq::<EventView<M>>::empty());
        assert(seq![first.2] + Seq::<ActionView<M>>::empty() == creations(
            scan.plan.subrange(before, before),
        ).push(first.2));
    } else {
        let rest = drawers.drop_last();
        let n = rest.len() as int;
        let creatable = scan.plan.take(n + 1);
        assert(scan.plan.take(n) == creatable.drop_last());
        assert(!lacks_mode(handler, creatable[n]));
        lemma_surfaces(handler, scan, rest, before);
        assert(rest.take(before) == drawers.take(before));
        let events = surface_events::<M>(rest.skip(before));
        lemma_one_more(first.0, first.1, events, EventView::SurfaceCreated(drawers.last()));
        assert(surface_events::<M>(drawers.skip(before)) == events.push(
            EventView::SurfaceCreated(drawers.last()),
        ));
        let halfway = conversation(first.0, first.1, events);
        let end = conversation(first.0, first.1, surface_events::<M>(drawers.skip(before)));
        let next = next_in_scan(handler, scan_with(scan, drawers));
        assert(seq![first.2] + end.2 == (seq![first.2] + halfway.2).push(next.2));
        assert(creations(scan.plan.subrange(before, n + 1)) == creations(
            scan.plan.subrange(before, n),
        ).push(ActionView::CreateSurface { surface: scan.plan[n] }));
    }
}

/// The scan of `connectors` for `target`, once `encoders` were read and `drawers` draw on the
/// first of the surfaces that are planned.
spec fn scan_at<M>(
    target: Target,
    connectors: Seq<ConnectorView<M>>,
    encoders: Seq<Seq<Option<Seq<u32>>>>,
    drawers: Seq<u64>,
) -> ScanView<M> {
    let plan = scan_plan(connectors, encoders);
    ScanView {
        target,
        connectors,
        encoders,
        plan,
        created: drawers.len() as int,
        surfaces: drawn(plan, drawers),
    }
}

/// The encoders of the last connector are read, and the surfaces that `drawers` draw on beyond the
/// earlier ones are created.
proof fn lemma_last_connector<M>(
    handler: HandlerView,
    target: Target,
    connectors: Seq<ConnectorView<M>>,
    encoders: Seq<Seq<Option<Seq<u32>>>>,
    drawers: Seq<u64>,
)
    requires
        0 < encoders.len() <= connected(connectors).len(),
        planned_before(connectors, encoders) <= drawers.len() <= scan_plan(
            connectors,
            encoders,
        ).len(),
        modes_suffice(handler, scan_plan(connectors, encoders).take(drawers.len() as int)),
    ensures
        ({
            let before = planned_before(connectors, encoders);
            let plan = scan_plan(connectors, encoders);
            let next = next_in_scan(handler, scan_at(target, connectors, encoders, drawers));
            conversation(
                handler,
                TaskView::ReadingConnectors { target },
                scan_events(connectors, encoders, drawers),
            ) == (
                next.0,
                next.1,
                (scan_actions(connectors, encoders.drop_last()).push(
                    ActionView::ReadEncoders {
                        handles: encoder_handles(connected(connectors)[encoders.len() - 1]),
                    },
                ) + creations(plan.subrange(before, drawers.len() as int))).push(next.2),
            )
        }),
    decreases encoders.len(), 1int,
{
    let task = TaskView::<M>::ReadingConnectors { target };
    let rest = encoders.drop_last();
    let before = planned_before(connectors, encoders);
    let plan = scan_plan(connectors, encoders);
    let earlier = scan_plan(connectors, rest);
    let first_drawers = drawers.take(before);
    scan_goes_on_from_what_was_read(connectors, encoders, encoders.len() - 1);
    assert(encoders.take(encoders.len() - 1) == rest);
    assert forall|i: int| 0 <= i < earlier.len() implies !lacks_mode(
        handler,
        #[trigger] earlier[i],
    ) by {
        assert(earlier[i] == plan.subrange(0, earlier.len() as int)[i]);
        assert(!lacks_mode(handler, plan.take(drawers.len() as int)[i]));
    }
    lemma_scan(handler, target, connectors, rest, first_drawers);
    let events = scan_events(connectors, rest, first_drawers);
    let read = events.push(EventView::EncodersRead(encoders.last()));
    lemma_one_more(handler, task, events, EventView::EncodersRead(encoders.last()));
    lemma_drawn_prefix(earlier, plan, first_drawers);
    let scan = scan_at(target, connectors, encoders, drawers);
    let first = next_in_scan(handler, scan_with(scan, first_drawers));
    assert(rest.push(encoders.last()) == encoders);
    lemma_surfaces(handler, scan, drawers, before);
    lemma_in_turn(handler, task, read, surface_events::<M>(drawers.skip(before)));
    let halfway = conversation(handler, task, read);
    let end = conversation(first.0, first.1, surface_events::<M>(drawers.skip(before)));
    let handles = encoder_handles(connected(connectors)[encoders.len() - 1]);
    let asked = scan_actions(connectors, rest).push(ActionView::ReadEncoders { handles });
    assert(halfway.2 == asked.push(first.2));
    assert(halfway.2 + end.2 == asked + (seq![first.2] + end.2));
    let next = next_in_scan(handler, scan);
    let created = creations(plan.subrange(before, drawers.len() as int));
    assert(asked + created.push(next.2) == (asked + created).push(next.2));
}

proof fn lemma_scan<M>(
    handler: HandlerView,
    target: Target,
    connectors: Seq<ConnectorView<M>>,
    encoders: Seq<Seq<Option<Seq<u32>>>>,
    drawers: Seq<u64>,
)
    requires
        encoders.len() <= connected(connectors).len(),
        drawers.len() == scan_plan(connectors, encoders).len(),
        modes_suffice(handler, scan_plan(connectors, encoders)),
    ensures
        ({
            let next = next_in_scan(handler, scan_at(target, connectors, encoders, drawers));
            conversation(
                handler,
                TaskView::ReadingConnectors { target },
                scan_events(connectors, encoders, drawers),
            ) == (next.0, next.1, scan_actions(connectors, encoders).push(next.2))
        }),
    decreases encoders.len(), 2int,
{
    let task = TaskView::<M>::ReadingConnectors { target };
    let plan = scan_plan(connectors, encoders);
    if encoders.len() == 0 {
        let none = Seq::<EventView<M>>::empty();
        scan_plans_nothing_without_encoders(connectors, Seq::empty(), Seq::empty());
        assert(encoders == Seq::<Seq<Option<Seq<u32>>>>::empty());
        assert(plan == Seq::<SurfacePlan<M>>::empty());
        lemma_one_more(handler, task, none, EventView::ConnectorsRead(connectors));
        assert(none.push(EventView::ConnectorsRead(connectors)) == scan_events(
            connectors,
            encoders,
            drawers,
        ));
    } else {
        assert(plan.take(plan.len() as int) == plan);
        scan_goes_on_from_what_was_read(connectors, encoders, encoders.len() - 1);
        assert(encoders.take(encoders.len() - 1) == encoders.drop_last());
        lemma_last_connector(handler, target, connectors, encoders, drawers);
        let before = planned_before(connectors, encoders);
        assert(plan.subrange(before, drawers.len() as int) == plan.skip(before));
    }
}

proof fn lemma_registration<M>(
    handler: HandlerView,
    renderer: usize,
    restart_id: u64,
    id: u64,
    device_id: u64,
    event_source: u64,
)
    ensures
        conversation::<M>(
            handler,
            TaskView::RegisteringListener { renderer },
            registration_events(restart_id, id, device_id, event_source),
        ) == (
            HandlerView {
                backends: handler.backends.insert(
                    device_id,
                    BackendData { id, restart_id, event_source, surfaces: renderer },
                ),
                ..handler
            },
            TaskView::<M>::Done,
            registration_actions::<M>(renderer, handler.loop_handle),
        ),
{
    let task = TaskView::<M>::RegisteringListener { renderer };
    let none = Seq::<EventView<M>>::empty();
    let heard = none.push(EventView::Registered(restart_id));
    let set = heard.push(EventView::HandlerSet);
    let known = set.push(EventView::Registered(id));
    let read = known.push(EventView::IdRead(device_id));
    lemma_one_more(handler, task, none, EventView::Registered(restart_id));
    lemma_one_more(handler, task, heard, EventView::HandlerSet);
    lemma_one_more(handler, task, set, EventView::Registered(id));
    lemma_one_more(handler, task, known, EventView::IdRead(device_id));
    lemma_one_more(handler, task, read, EventView::SourceBound(event_source));
    let bound = read.push(EventView::SourceBound(event_source));
    lemma_one_more(handler, task, bound, EventView::SurfacesStarted);
    let events = registration_events::<M>(restart_id, id, device_id, event_source);
    assert(events == bound.push(EventView::SurfacesStarted));
    assert(conversation::<M>(handler, task, events).2 == registration_actions::<M>(
        renderer,
        handler.loop_handle,
    ));
}

/// The replies while a device is added without a failure.
pub open spec fn addition_events<M>(
    handler: HandlerView,
    fd: i32,
    path: Option<Seq<char>>,
    reader: Option<u64>,
    connectors: Seq<ConnectorView<M>>,
    encoders: Seq<Seq<Option<Seq<u32>>>>,
    drawers: Seq<u64>,
    restart_id: u64,
    id: u64,
    device_id: u64,
    event_source: u64,
) -> Seq<EventView<M>> {
    setup_events(handler, fd, path, reader) + scan_events(connectors, encoders, drawers)
        + registration_events(restart_id, id, device_id, event_source)
}

/// What is done in the course of that, after the device was opened.
pub open spec fn addition_actions<M>(
    handler: HandlerView,
    fd: i32,
    path: Option<Seq<char>>,
    connectors: Seq<ConnectorView<M>>,
    encoders: Seq<Seq<Option<Seq<u32>>>>,
) -> Seq<ActionView<M>> {
    let renderer = handler.renderers.len() as usize;
    let loop_handle = handler.loop_handle;
    setup_actions(handler, fd, path) + scan_actions(connectors, encoders).push(
        ActionView::RegisterListener {
            listener: DrmRendererSessionListener { renderer, loop_handle },
        },
    ) + registration_actions(renderer, loop_handle)
}

/// A device that can be set up is kept under its own number, with what it was registered as and
/// with a renderer of its own that holds the surfaces of the scan. Nothing else changes, except
/// that the primary GPU provides what reads the buffers of clients.
pub proof fn addition_keeps_the_device<M>(
    handler: HandlerView,
    fd: i32,
    path: Option<Seq<char>>,
    reader: Option<u64>,
    connectors: Seq<ConnectorView<M>>,
    encoders: Seq<Seq<Option<Seq<u32>>>>,
    drawers: Seq<u64>,
    restart_id: u64,
    id: u64,
    device_id: u64,
    event_source: u64,
)
    requires
        encoders.len() == connected(connectors).len(),
        drawers.len() == scan_plan(connectors, encoders).len(),
        modes_suffice(handler, scan_plan(connectors, encoders)),
    ensures
        conversation(
            handler,
            TaskView::Opening,
            addition_events(
                handler,
                fd,
                path,
                reader,
                connectors,
                encoders,
                drawers,
                restart_id,
                id,
                device_id,
                event_source,
            ),
        ) == (
            HandlerView {
                egl_buffer_reader: if is_primary_gpu(handler, path) {
                    reader
                } else {
                    handler.egl_buffer_reader
                },
                renderers: handler.renderers.push(drawn(scan_plan(connectors, encoders), drawers)),
                backends: handler.backends.insert(
                    device_id,
                    BackendData {
                        id,
                        restart_id,
                        event_source,
                        surfaces: handler.renderers.len() as usize,
                    },
                ),
                ..handler
            },
            TaskView::<M>::Done,
            addition_actions(handler, fd, path, connectors, encoders),
        ),
{
    let opening = TaskView::<M>::Opening;
    let setup = setup_events::<M>(handler, fd, path, reader);
    let scan = scan_events(connectors, encoders, drawers);
    let registration = registration_events::<M>(restart_id, id, device_id, event_source);
    lemma_setup::<M>(handler, fd, path, reader);
    let ready = conversation(handler, opening, setup);
    lemma_scan(ready.0, Target::Added, connectors, encoders, drawers);
    lemma_in_turn(handler, opening, setup, scan);
    let scanned = conversation(handler, opening, setup + scan);
    let renderer = handler.renderers.len() as usize;
    lemma_registration::<M>(scanned.0, renderer, restart_id, id, device_id, event_source);
    lemma_in_turn(handler, opening, setup + scan, registration);
}

/// A device is kept last: only when all of its surfaces were started does the backend know it.
/// Until then it keeps the devices that it kept before.
pub proof fn devices_are_kept_last<M>(
    handler: HandlerView,
    task: TaskView<M>,
    event: EventView<M>,
)
    requires
        advanced(handler, task, event).0.backends != handler.backends,
    ensures
        event is SurfacesStarted,
        task matches TaskView::StartingSurfaces {
            renderer,
            restart_id,
            id,
            device_id,
            event_source,
        } && advanced(handler, task, event) == (
            HandlerView {
                backends: handler.backends.insert(
                    device_id,
                    BackendData { id, restart_id, event_source, surfaces: renderer },
                ),
                ..handler
            },
            TaskView::<M>::Done,
            ActionView::<M>::Finish,
        ),
{
}

/// Where there is acceleration and the next surface has no mode, the work ends: after the surfaces
/// that are planned before it, and with the backend as it was. `encoders` are those that were read
/// then.
pub proof fn missing_modes_end_the_work<M>(
    handler: HandlerView,
    target: Target,
    connectors: Seq<ConnectorView<M>>,
    encoders: Seq<Seq<Option<Seq<u32>>>>,
    drawers: Seq<u64>,
)
    requires
        0 < encoders.len() <= connected(connectors).len(),
        ({
            let plan = scan_plan(connectors, encoders);
            let n = drawers.len() as int;
            &&& planned_before(connectors, encoders) <= n < plan.len()
            &&& modes_suffice(handler, plan.take(n))
            &&& handler.egl
            &&& plan[n].mode is None
        }),
    ensures
        ({
            let plan = scan_plan(connectors, encoders);
            let n = drawers.len() as int;
            let end = conversation(
                handler,
                TaskView::ReadingConnectors { target },
                scan_events(connectors, encoders, drawers),
            );
            let read = ActionView::<M>::ReadEncoders {
                handles: encoder_handles(connected(connectors)[encoders.len() - 1]),
            };
            &&& end.0 == handler
            &&& end.1 == TaskView::<M>::Done
            &&& end.2 == (scan_actions(connectors, encoders.drop_last()).push(read) + creations(
                plan.subrange(planned_before(connectors, encoders), n),
            )).push(ActionView::FailWithoutMode { connector: plan[n].connector })
        }),
{
    lemma_last_connector(handler, target, connectors, encoders, drawers);
}

/// A surface that has a mode is always created, and without acceleration so is one that has none:
/// only a surface without a mode ends the work, where there is acceleration, when its turn has
/// come. Nothing else of the backend matters.
pub proof fn only_missing_modes_end_a_scan<M>(
    handler: HandlerView,
    task: TaskView<M>,
    event: EventView<M>,
)
    ensures
        advanced(handler, task, event).2 is FailWithoutMode <==> handler.egl && match (task, event) {
            (TaskView::ReadingEncoders { scan }, EventView::EncodersRead(read)) => {
                let plan = scan_plan(scan.connectors, scan.encoders.push(read));
                scan.created < plan.len() && plan[scan.created].mode is None
            },
            (TaskView::CreatingSurfaces { scan }, EventView::SurfaceCreated(_)) => {
                scan.created + 1 < scan.plan.len() && scan.plan[scan.created + 1].mode is None
            },
            _ => false,
        },
{
}

/// Where the connector of a surface lists modes, the surface has one: in a scan of connectors that
/// all list some, no work ends for want of one.
pub proof fn listed_modes_suffice<M>(
    handler: HandlerView,
    connectors: Seq<ConnectorView<M>>,
    encoders: Seq<Seq<Option<Seq<u32>>>>,
)
    requires
        forall|i: int|
            0 <= i < connectors.len() && connectors[i].state is Connected ==> (
            #[trigger] connectors[i]).modes.len() > 0,
    ensures
        modes_suffice(handler, scan_plan(connectors, encoders)),
{
    let plan = scan_plan(connectors, encoders);
    assert forall|i: int| 0 <= i < plan.len() implies (#[trigger] plan[i]).mode is Some by {
        scan_keeps_to_what_is_offered(connectors, encoders, i);
        let (k, e) = choose|k: int, e: int|
            #![trigger encoders[k][e]]
            {
                let connector = connected(connectors)[k];
                &&& 0 <= k < connected(connectors).len()
                &&& connectors.contains(connector)
                &&& connector.state is Connected
                &&& connector.handle == plan[i].connector
                &&& connector.modes.len() == 0 ==> plan[i].mode is None
                &&& connector.modes.len() > 0 ==> plan[i].mode == Some(connector.modes[0])
                &&& k < encoders.len()
                &&& 0 <= e < encoders[k].len()
                &&& encoders[k][e] is Some
                &&& encoders[k][e]->0.contains(plan[i].crtc)
            };
        let connector = connected(connectors)[k];
        let at = choose|at: int| 0 <= at < connectors.len() && connectors[at] == connector;
        assert(connectors[at].modes.len() > 0);
    }
}

/// Adding a device leaves the backend as it is, whatever it keeps, and asks the session to open
/// exactly the path that was announced: for reading and writing, not to be inherited, never as the
/// controlling terminal, and without waiting.
pub proof fn additions_open_the_announced_path<M>(handler: HandlerView, path: Seq<char>)
    ensures
        added::<M>(handler, path).0 == handler,
        added::<M>(handler, path).1 == TaskView::<M>::Opening,
        added::<M>(handler, path).2 == (ActionView::<M>::Open {
            path,
            flags: OpenFlags {
                read_write: true,
                close_on_exec: true,
                no_ctty: true,
                non_blocking: true,
            },
        }),
{
}

/// Whether `event` is a reply to what was asked for last.
pub open spec fn answers<M>(event: EventView<M>, task: TaskView<M>) -> bool {
    match event {
        EventView::Opened(_) => task is Opening,
        EventView::DrmCreated(_) => task is CreatingDrm,
        EventView::GbmCreated(_) => task is CreatingGbm,
        EventView::EglCreated(_) => task is CreatingEgl,
        EventView::Identified(_) => task is Identifying,
        EventView::DisplayBound(_) => task is BindingDisplay,
        EventView::ConnectorsRead(_) => task is ReadingConnectors,
        EventView::EncodersRead(_) => task is ReadingEncoders,
        EventView::SurfaceCreated(_) => task is CreatingSurfaces,
        EventView::Registered(_) => task is RegisteringListener || task is RegisteringDevice,
        EventView::HandlerSet => task is SettingHandler,
        EventView::IdRead(_) => task is ReadingId,
        EventView::SourceBound(_) => task is BindingSource,
        EventView::SurfacesStarted => task is StartingSurfaces || task is RestartingSurfaces,
        EventView::SourceRemoved(_) => task is RemovingSource,
    }
}

/// A reply that was not asked for changes nothing. One that was asked for leads on.
pub proof fn other_replies_change_nothing<M>(
    handler: HandlerView,
    task: TaskView<M>,
    event: EventView<M>,
)
    ensures
        !answers(event, task) ==> advanced(handler, task, event) == (
            handler,
            task,
            ActionView::<M>::Wait,
        ),
        answers(event, task) ==> !(advanced(handler, task, event).2 is Wait),
{
}

/// No two devices of a backend share a renderer, and each has one that exists.
pub proof fn devices_have_renderers_of_their_own(handler: HandlerView, device: u64, other: u64)
    requires
        handler.wf(),
        handler.backends.contains_key(device),
        handler.backends.contains_key(other),
    ensures
        handler.backends[device].surfaces < handler.renderers.len(),
        handler.backends[device].surfaces == handler.backends[other].surfaces ==> device == other,
{
}

/// A drawer is in use exactly if it draws on a CRTC of some renderer.
pub proof fn drawers_in_use_draw_somewhere(renderers: Seq<Map<u32, u64>>, drawer: u64)
    ensures
        draws(renderers, drawer) <==> exists|i: int|
            0 <= i < renderers.len() && (#[trigger] renderers[i]).values().contains(drawer),
{
    if draws(renderers, drawer) {
        let (i, crtc) = choose|i: int, crtc: u32|
            0 <= i < renderers.len() && #[trigger] renderers[i].contains_pair(crtc, drawer);
        assert(renderers[i].values().contains(drawer));
    }
    if exists|i: int|
        0 <= i < renderers.len() && (#[trigger] renderers[i]).values().contains(drawer) {
        let i = choose|i: int|
            0 <= i < renderers.len() && (#[trigger] renderers[i]).values().contains(drawer);
        let crtc = choose|crtc: u32|
            renderers[i].contains_key(crtc) && renderers[i][crtc] == drawer;
        assert(renderers[i].contains_pair(crtc, drawer));
    }
}

/// The replies while a device is set up, of which the last one is a failure: of the session to
/// open it, or of the first, second or third device that is created for it.
pub open spec fn failed_setup<M>(stage: int, fd: i32) -> Seq<EventView<M>> {
    if stage == 0 {
        seq![EventView::Opened(None)]
    } else if stage == 1 {
        seq![EventView::Opened(Some(fd)), EventView::DrmCreated(false)]
    } else if stage == 2 {
        seq![
            EventView::Opened(Some(fd)),
            EventView::DrmCreated(true),
            EventView::GbmCreated(false),
        ]
    } else {
        seq![
            EventView::Opened(Some(fd)),
            EventView::DrmCreated(true),
            EventView::GbmCreated(true),
            EventView::EglCreated(false),
        ]
    }
}

/// A device that cannot be set up is skipped: the work ends there, and the backend is as it was.
pub proof fn failed_additions_change_nothing<M>(handler: HandlerView, stage: int, fd: i32)
    requires
        0 <= stage < 4,
    ensures
        ({
            let end = conversation::<M>(handler, TaskView::Opening, failed_setup(stage, fd));
            &&& end.0 == handler
            &&& end.1 == TaskView::<M>::Done
            &&& end.2.last() == ActionView::<M>::Finish
        }),
{
    let task = TaskView::<M>::Opening;
    let none = Seq::<EventView<M>>::empty();
    let opened = none.push(EventView::Opened(Some(fd)));
    let drm = opened.push(EventView::DrmCreated(true));
    let gbm = drm.push(EventView::GbmCreated(true));
    lemma_one_more(handler, task, none, EventView::Opened(None));
    lemma_one_more(handler, task, none, EventView::Opened(Some(fd)));
    lemma_one_more(handler, task, opened, EventView::DrmCreated(false));
    lemma_one_more(handler, task, opened, EventView::DrmCreated(true));
    lemma_one_more(handler, task, drm, EventView::GbmCreated(false));
    lemma_one_more(handler, task, drm, EventView::GbmCreated(true));
    lemma_one_more(handler, task, gbm, EventView::EglCreated(false));
    let events = failed_setup::<M>(stage, fd);
    if stage == 0 {
        assert(events == none.push(EventView::Opened(None)));
    } else if stage == 1 {
        assert(events == opened.push(EventView::DrmCreated(false)));
    } else if stage == 2 {
        assert(events == drm.push(EventView::GbmCreated(false)));
    } else {
        assert(events == gbm.push(EventView::EglCreated(false)));
    }
}

/// Work that is done stays done, whatever is replied.
pub proof fn done_work_stays_done<M>(handler: HandlerView, events: Seq<EventView<M>>)
    ensures
        conversation(handler, TaskView::Done, events).0 == handler,
        conversation(handler, TaskView::Done, events).1 == TaskView::<M>::Done,
        forall|i: int|
            0 <= i < conversation(handler, TaskView::Done, events).2.len() ==> #[trigger] conversation(
                handler,
                TaskView::Done,
                events,
            ).2[i] == ActionView::<M>::Wait,
    decreases events.len(),
{
    if events.len() > 0 {
        done_work_stays_done(handler, events.drop_last());
    }
}

/// The surfaces of a scan show on exactly the CRTCs that are planned, each with the drawer that
/// was made for it.
pub proof fn surfaces_are_those_of_the_plan<M>(
    connectors: Seq<ConnectorView<M>>,
    encoders: Seq<Seq<Option<Seq<u32>>>>,
    drawers: Seq<u64>,
)
    requires
        drawers.len() == scan_plan(connectors, encoders).len(),
    ensures
        ({
            let plan = scan_plan(connectors, encoders);
            let surfaces = drawn(plan, drawers);
            &&& forall|i: int|
                0 <= i < plan.len() ==> surfaces.contains_pair(
                    (#[trigger] plan[i]).crtc,
                    drawers[i],
                )
            &&& forall|crtc: u32| #[trigger] surfaces.contains_key(crtc) <==> planned(plan, crtc)
        }),
{
    let plan = scan_plan(connectors, encoders);
    scan_uses_each_crtc_once(connectors, encoders);
    lemma_drawn(plan, drawers);
    assert forall|crtc: u32| #[trigger] drawn(plan, drawers).contains_key(crtc) <==> planned(
        plan,
        crtc,
    ) by {
        if planned(plan, crtc) {
            let i = choose|i: int| 0 <= i < plan.len() && (#[trigger] plan[i]).crtc == crtc;
            assert(drawn(plan, drawers).contains_pair(plan[i].crtc, drawers[i]));
        }
    }
}

proof fn lemma_drawn<M>(plan: Seq<SurfacePlan<M>>, drawers: Seq<u64>)
    requires
        drawers.len() <= plan.len(),
        forall|i: int, j: int|
            0 <= i < j < plan.len() ==> (#[trigger] plan[i]).crtc != (#[trigger] plan[j]).crtc,
    ensures
        forall|i: int|
            0 <= i < drawers.len() ==> drawn(plan, drawers).contains_pair(
                (#[trigger] plan[i]).crtc,
                drawers[i],
            ),
        forall|crtc: u32| #[trigger]
            drawn(plan, drawers).contains_key(crtc) ==> planned(plan, crtc),
    decreases drawers.len(),
{
    if drawers.len() > 0 {
        let rest = drawers.drop_last();
        let last = plan[drawers.len() - 1];
        lemma_drawn(plan, rest);
        assert forall|i: int| 0 <= i < drawers.len() implies drawn(plan, drawers).contains_pair(
            (#[trigger] plan[i]).crtc,
            drawers[i],
        ) by {
            if i < rest.len() {
                assert(drawn(plan, rest).contains_pair(plan[i].crtc, rest[i]));
                assert(plan[i].crtc != last.crtc);
            }
        }
        assert forall|crtc: u32| #[trigger] drawn(plan, drawers).contains_key(crtc) implies planned(
            plan,
            crtc,
        ) by {
            if crtc == last.crtc {
                assert(plan[drawers.len() - 1].crtc == crtc);
            } else {
                assert(drawn(plan, rest).contains_key(crtc));
            }
        }
    }
}

/// When something has changed about a device, its surfaces are made anew. It stays registered as
/// it was, and so does every other device, with the surfaces that it had.
pub proof fn changes_make_new_surfaces_only<M>(
    handler: HandlerView,
    device: u64,
    connectors: Seq<ConnectorView<M>>,
    encoders: Seq<Seq<Option<Seq<u32>>>>,
    drawers: Seq<u64>,
)
    requires
        handler.wf(),
        handler.backends.contains_key(device),
        encoders.len() == connected(connectors).len(),
        drawers.len() == scan_plan(connectors, encoders).len(),
        modes_suffice(handler, scan_plan(connectors, encoders)),
    ensures
        ({
            let start = changed::<M>(handler, device);
            let end = conversation(
                start.0,
                start.1,
                scan_events(connectors, encoders, drawers).push(EventView::SurfacesStarted),
            );
            let own = handler.backends[device].surfaces;
            &&& start == (
                handler,
                TaskView::<M>::ReadingConnectors { target: Target::Changed { renderer: own } },
                ActionView::<M>::ReadConnectors {
                    device: Some(handler.backends[device].event_source),
                },
            )
            &&& end.0 == HandlerView {
                renderers: handler.renderers.update(
                    own as int,
                    drawn(scan_plan(connectors, encoders), drawers),
                ),
                ..handler
            }
            &&& end.1 == TaskView::<M>::Done
            &&& end.2 == scan_actions(connectors, encoders).push(
                ActionView::StartSurfaces { renderer: own, hotspot: (2, 2) },
            ).push(ActionView::Finish)
            &&& forall|other: u64| #[trigger]
                handler.backends.contains_key(other) && other != device
                    ==> end.0.renderers[handler.backends[other].surfaces as int]
                    == handler.renderers[handler.backends[other].surfaces as int]
        }),
{
    let own = handler.backends[device].surfaces;
    let target = Target::Changed { renderer: own };
    lemma_scan(handler, target, connectors, encoders, drawers);
    lemma_one_more(
        handler,
        TaskView::<M>::ReadingConnectors { target },
        scan_events(connectors, encoders, drawers),
        EventView::SurfacesStarted,
    );
}

/// A message about a device that the backend does not keep changes nothing and asks for nothing.
pub proof fn unknown_devices_are_ignored<M>(handler: HandlerView, device: u64)
    requires
        !handler.backends.contains_key(device),
    ensures
        changed::<M>(handler, device) == (
            handler,
            TaskView::<M>::Done,
            ActionView::<M>::Finish,
        ),
        removed::<M>(handler, device) == (
            handler,
            TaskView::<M>::Done,
            ActionView::<M>::Finish,
        ),
{
}

/// When a device has gone, its source leaves the event loop, and the session forgets what it was
/// registered as. The other devices stay, with the surfaces that they had.
pub proof fn removals_leave_the_others<M>(
    handler: HandlerView,
    device: u64,
    path: Option<Seq<char>>,
)
    requires
        handler.wf(),
        handler.backends.contains_key(device),
    ensures
        ({
            let backend = handler.backends[device];
            let start = removed::<M>(handler, device);
            let end = advanced(start.0, start.1, EventView::SourceRemoved(path));
            &&& start.2 == ActionView::<M>::RemoveSource { source: backend.event_source }
            &&& end.2 == ActionView::<M>::Unregister {
                id: backend.id,
                restart_id: backend.restart_id,
            }
            &&& end.1 == TaskView::<M>::Done
            &&& end.0 == HandlerView {
                egl_buffer_reader: if is_primary_gpu(handler, path) {
                    None
                } else {
                    handler.egl_buffer_reader
                },
                renderers: handler.renderers.update(backend.surfaces as int, Map::empty()),
                backends: handler.backends.remove(device),
                ..handler
            }
            &&& end.0.backends == handler.backends.remove(device)
            &&& end.0.renderers.len() == handler.renderers.len()
            &&& forall|other: u64| #[trigger]
                handler.backends.contains_key(other) && other != device
                    ==> end.0.renderers[handler.backends[other].surfaces as int]
                    == handler.renderers[handler.backends[other].surfaces as int]
            &&& end.0.egl_buffer_reader == if is_primary_gpu(handler, path) {
                None
            } else {
                handler.egl_buffer_reader
            }
            &&& end.0.wf()
        }),
{
}

/// Nothing is rendered for a device that has gone, even if something still asks for a frame.
pub proof fn removed_devices_show_nothing<M>(handler: HandlerView, device: u64, crtc: u32)
    requires
        handler.wf(),
        handler.backends.contains_key(device),
    ensures
        !removed::<M>(handler, device).0.renderers[handler.backends[device].surfaces as int].contains_key(
            crtc,
        ),
{
}

/// A removal undoes an addition: the backend keeps the devices that it kept before, the session
/// forgets both of its registrations, the source leaves the event loop, and no surface is left.
/// The primary GPU takes its help with the display away again.
pub proof fn removal_undoes_addition<M>(
    handler: HandlerView,
    fd: i32,
    path: Option<Seq<char>>,
    reader: Option<u64>,
    connectors: Seq<ConnectorView<M>>,
    encoders: Seq<Seq<Option<Seq<u32>>>>,
    drawers: Seq<u64>,
    restart_id: u64,
    id: u64,
    device_id: u64,
    event_source: u64,
)
    requires
        handler.wf(),
        handler.renderers.len() < usize::MAX,
        !handler.backends.contains_key(device_id),
        encoders.len() == connected(connectors).len(),
        drawers.len() == scan_plan(connectors, encoders).len(),
        modes_suffice(handler, scan_plan(connectors, encoders)),
    ensures
        ({
            let with_device = conversation(
                handler,
                TaskView::Opening,
                addition_events(
                    handler,
                    fd,
                    path,
                    reader,
                    connectors,
                    encoders,
                    drawers,
                    restart_id,
                    id,
                    device_id,
                    event_source,
                ),
            ).0;
            let start = removed::<M>(with_device, device_id);
            let end = advanced(start.0, start.1, EventView::SourceRemoved(path));
            &&& start.2 == ActionView::<M>::RemoveSource { source: event_source }
            &&& end.2 == ActionView::<M>::Unregister { id, restart_id }
            &&& end.0 == HandlerView {
                egl_buffer_reader: if is_primary_gpu(handler, path) {
                    None
                } else {
                    handler.egl_buffer_reader
                },
                renderers: handler.renderers.push(Map::empty()),
                ..handler
            }
        }),
{
    addition_keeps_the_device(
        handler,
        fd,
        path,
        reader,
        connectors,
        encoders,
        drawers,
        restart_id,
        id,
        device_id,
        event_source,
    );
    let surfaces = drawn(scan_plan(connectors, encoders), drawers);
    let n = handler.renderers.len() as int;
    assert(handler.renderers.push(surfaces).update(n, Map::empty()) == handler.renderers.push(
        Map::empty(),
    ));
    let backend = BackendData { id, restart_id, event_source, surfaces: n as usize };
    assert(handler.backends.insert(device_id, backend).remove(device_id) == handler.backends);
}

/// Only the primary GPU has a say in what reads the buffers of clients: the reader changes only
/// when the display was bound to it, or when it has gone.
pub proof fn only_the_primary_gpu_reads_buffers<M>(
    handler: HandlerView,
    task: TaskView<M>,
    event: EventView<M>,
)
    requires
        advanced(handler, task, event).0.egl_buffer_reader != handler.egl_buffer_reader,
    ensures
        match event {
            EventView::DisplayBound(_) => task is BindingDisplay,
            EventView::SourceRemoved(path) => task is RemovingSource && is_primary_gpu(handler, path),
            _ => false,
        },
{
}

/// The display is bound to a device only if its canonical path is that of the primary GPU.
pub proof fn displays_bind_to_the_primary_gpu<M>(
    handler: HandlerView,
    task: TaskView<M>,
    event: EventView<M>,
)
    requires
        !(task is BindingDisplay),
        advanced(handler, task, event).1 is BindingDisplay,
    ensures
        task is Identifying,
        event matches EventView::Identified(path) && is_primary_gpu(handler, path),
        advanced(handler, task, event).2 == ActionView::<M>::BindDisplay,
{
}

/// What the session and the event loop hold for the backend, and how often it was registered and
/// unregistered.
#[verifier::ext_equal]
pub struct Ledger {
    /// What the session knows parts of the backend by.
    pub registered: Multiset<u64>,
    /// The devices, as sources of the event loop.
    pub sources: Multiset<u64>,
    pub registrations: nat,
    pub unregistrations: nat,
}

impl Ledger {
    /// Nothing is held yet.
    pub open spec fn empty() -> Ledger {
        Ledger {
            registered: Multiset::empty(),
            sources: Multiset::empty(),
            registrations: 0,
            unregistrations: 0,
        }
    }

    /// What is held once `task` has got the reply `event`: something was registered, or the
    /// device became a source.
    pub open spec fn replied<M>(self, task: TaskView<M>, event: EventView<M>) -> Ledger {
        match (task, event) {
            (TaskView::RegisteringListener { .. }, EventView::Registered(id)) => Ledger {
                registered: self.registered.insert(id),
                registrations: self.registrations + 1,
                ..self
            },
            (TaskView::RegisteringDevice { .. }, EventView::Registered(id)) => Ledger {
                registered: self.registered.insert(id),
                registrations: self.registrations + 1,
                ..self
            },
            (TaskView::BindingSource { .. }, EventView::SourceBound(source)) => Ledger {
                sources: self.sources.insert(source),
                ..self
            },
            _ => self,
        }
    }

    /// What is held once `action` was done.
    pub open spec fn done<M>(self, action: ActionView<M>) -> Ledger {
        match action {
            ActionView::RemoveSource { source } => Ledger {
                sources: self.sources.remove(source),
                ..self
            },
            ActionView::Unregister { id, restart_id } => Ledger {
                registered: self.registered.remove(id).remove(restart_id),
                unregistrations: self.unregistrations + 2,
                ..self
            },
            _ => self,
        }
    }
}

/// Where the work on a device stands, and what is held for the backend then.
pub type Account<M> = (HandlerView, TaskView<M>, Ledger);

/// `task` gets the replies `events`, one after the other.
pub open spec fn account<M>(start: Account<M>, events: Seq<EventView<M>>) -> Account<M>
    decreases events.len(),
{
    if events.len() == 0 {
        start
    } else {
        let before = account(start, events.drop_last());
        let step = advanced(before.0, before.1, events.last());
        (step.0, step.1, before.2.replied(before.1, events.last()).done(step.2))
    }
}

/// Whether, while `task` gets the replies `events`, no device is added under the number of one
/// that the backend keeps.
pub open spec fn adds_new_numbers<M>(start: Account<M>, events: Seq<EventView<M>>) -> bool
    decreases events.len(),
{
    events.len() > 0 ==> {
        let before = account(start, events.drop_last());
        &&& adds_new_numbers(start, events.drop_last())
        &&& (before.1 matches TaskView::StartingSurfaces { device_id, .. }
            ==> !before.0.backends.contains_key(device_id))
    }
}

/// A message of udev, with the replies to the work that it leads to.
pub enum Message<M> {
    Added { path: Seq<char>, replies: Seq<EventView<M>> },
    Changed { device: u64, replies: Seq<EventView<M>> },
    Removed { device: u64, replies: Seq<EventView<M>> },
}

/// The replies that come with `message`.
pub open spec fn replies<M>(message: Message<M>) -> Seq<EventView<M>> {
    match message {
        Message::Added { replies, .. } => replies,
        Message::Changed { replies, .. } => replies,
        Message::Removed { replies, .. } => replies,
    }
}

/// `message` has come, and the first thing to do about it was done.
pub open spec fn announced<M>(
    handler: HandlerView,
    ledger: Ledger,
    message: Message<M>,
) -> Account<M> {
    let step = match message {
        Message::Added { path, .. } => added::<M>(handler, path),
        Message::Changed { device, .. } => changed::<M>(handler, device),
        Message::Removed { device, .. } => removed::<M>(handler, device),
    };
    (step.0, step.1, ledger.done(step.2))
}

/// The backend handles `messages`, one after the other, starting without any registration.
pub open spec fn history<M>(handler: HandlerView, messages: Seq<Message<M>>) -> Account<M>
    decreases messages.len(),
{
    if messages.len() == 0 {
        (handler, TaskView::Done, Ledger::empty())
    } else {
        let before = history(handler, messages.drop_last());
        account(announced(before.0, before.2, messages.last()), replies(messages.last()))
    }
}

/// Whether the work that each of `messages` leads to is done before the next one comes, and no
/// device is added under the number of one that the backend keeps.
pub open spec fn all_handled<M>(handler: HandlerView, messages: Seq<Message<M>>) -> bool
    decreases messages.len(),
{
    messages.len() > 0 ==> {
        let before = history(handler, messages.drop_last());
        let start = announced(before.0, before.2, messages.last());
        &&& all_handled(handler, messages.drop_last())
        &&& adds_new_numbers(start, replies(messages.last()))
        &&& history(handler, messages).1 == TaskView::<M>::Done
    }
}

/// What the session knows the devices of `backends` and their listeners by.
pub open spec fn ids_of(backends: Map<u64, BackendData>) -> Multiset<u64>
    decreases backends.dom().len(),
    when backends.dom().finite()
{
    if backends.dom().len() == 0 {
        Multiset::empty()
    } else {
        let device = backends.dom().choose();
        ids_of(backends.remove(device)).insert(backends[device].id).insert(
            backends[device].restart_id,
        )
    }
}

/// The devices of `backends`, as sources of the event loop.
pub open spec fn sources_of(backends: Map<u64, BackendData>) -> Multiset<u64>
    decreases backends.dom().len(),
    when backends.dom().finite()
{
    if backends.dom().len() == 0 {
        Multiset::empty()
    } else {
        let device = backends.dom().choose();
        sources_of(backends.remove(device)).insert(backends[device].event_source)
    }
}

/// It does not matter in which order devices are counted.
proof fn lemma_counted_in_any_order(backends: Map<u64, BackendData>, device: u64)
    requires
        backends.dom().finite(),
        backends.contains_key(device),
    ensures
        ids_of(backends) == ids_of(backends.remove(device)).insert(backends[device].id).insert(
            backends[device].restart_id,
        ),
        sources_of(backends) == sources_of(backends.remove(device)).insert(
            backends[device].event_source,
        ),
    decreases backends.dom().len(),
{
    let first = backends.dom().choose();
    if first != device {
        let without_first = backends.remove(first);
        let without_device = backends.remove(device);
        lemma_counted_in_any_order(without_first, device);
        lemma_counted_in_any_order(without_device, first);
        assert(without_first.remove(device) == without_device.remove(first));
        let rest = without_first.remove(device);
        assert(ids_of(backends) == ids_of(rest).insert(backends[device].id).insert(
            backends[device].restart_id,
        ).insert(backends[first].id).insert(backends[first].restart_id));
        assert(ids_of(backends) == ids_of(without_device).insert(backends[device].id).insert(
            backends[device].restart_id,
        ));
        assert(sources_of(backends) == sources_of(without_device).insert(
            backends[device].event_source,
        ));
    }
}

proof fn lemma_counts(backends: Map<u64, BackendData>)
    requires
        backends.dom().finite(),
    ensures
        ids_of(backends).len() == 2 * backends.dom().len(),
        sources_of(backends).len() == backends.dom().len(),
    decreases backends.dom().len(),
{
    if backends.dom().len() > 0 {
        lemma_counts(backends.remove(backends.dom().choose()));
    }
}

/// What is registered for `task` beside the devices that the backend keeps.
spec fn ids_in_work<M>(task: TaskView<M>) -> Multiset<u64> {
    match task {
        TaskView::SettingHandler { restart_id, .. } => Multiset::singleton(restart_id),
        TaskView::RegisteringDevice { restart_id, .. } => Multiset::singleton(restart_id),
        TaskView::ReadingId { restart_id, id, .. } => Multiset::singleton(id).insert(restart_id),
        TaskView::BindingSource { restart_id, id, .. } => Multiset::singleton(id).insert(
            restart_id,
        ),
        TaskView::StartingSurfaces { restart_id, id, .. } => Multiset::singleton(id).insert(
            restart_id,
        ),
        TaskView::RemovingSource { backend } => Multiset::singleton(backend.id).insert(
            backend.restart_id,
        ),
        _ => Multiset::empty(),
    }
}

/// What is a source for `task` beside the devices that the backend keeps.
spec fn sources_in_work<M>(task: TaskView<M>) -> Multiset<u64> {
    match task {
        TaskView::StartingSurfaces { event_source, .. } => Multiset::singleton(event_source),
        _ => Multiset::empty(),
    }
}

/// Whether all that is held belongs to a device that the backend keeps, or to the work.
spec fn balanced<M>(at: Account<M>) -> bool {
    &&& at.0.backends.dom().finite()
    &&& at.2.registered == ids_of(at.0.backends).add(ids_in_work(at.1))
    &&& at.2.sources == sources_of(at.0.backends).add(sources_in_work(at.1))
    &&& at.2.registrations - at.2.unregistrations == at.2.registered.len()
}

proof fn lemma_step_balanced<M>(at: Account<M>, event: EventView<M>)
    requires
        balanced(at),
        at.1 matches TaskView::StartingSurfaces { device_id, .. }
            ==> !at.0.backends.contains_key(device_id),
    ensures
        ({
            let step = advanced(at.0, at.1, event);
            balanced((step.0, step.1, at.2.replied(at.1, event).done(step.2)))
        }),
{
    let step = advanced(at.0, at.1, event);
    let after = at.2.replied(at.1, event).done(step.2);
    match (at.1, event) {
        (
            TaskView::StartingSurfaces { renderer, restart_id, id, device_id, event_source },
            EventView::SurfacesStarted,
        ) => {
            lemma_counted_in_any_order(step.0.backends, device_id);
            assert(step.0.backends.remove(device_id) == at.0.backends);
        },
        _ => {},
    }
    assert(after.registered == ids_of(step.0.backends).add(ids_in_work(step.1)));
    assert(after.sources == sources_of(step.0.backends).add(sources_in_work(step.1)));
}

proof fn lemma_replies_balanced<M>(start: Account<M>, events: Seq<EventView<M>>)
    requires
        balanced(start),
        adds_new_numbers(start, events),
    ensures
        balanced(account(start, events)),
    decreases events.len(),
{
    if events.len() > 0 {
        lemma_replies_balanced(start, events.drop_last());
        lemma_step_balanced(account(start, events.drop_last()), events.last());
    }
}

proof fn lemma_history_balanced<M>(handler: HandlerView, messages: Seq<Message<M>>)
    requires
        handler.backends == Map::<u64, BackendData>::empty(),
        all_handled(handler, messages),
    ensures
        balanced(history(handler, messages)),
        history(handler, messages).1 == TaskView::<M>::Done,
    decreases messages.len(),
{
    if messages.len() == 0 {
        let start = history(handler, messages);
        assert(start.2.registered == ids_of(start.0.backends).add(ids_in_work(start.1)));
        assert(start.2.sources == sources_of(start.0.backends).add(sources_in_work(start.1)));
    } else {
        let message = messages.last();
        lemma_history_balanced(handler, messages.drop_last());
        let before = history(handler, messages.drop_last());
        let start = announced(before.0, before.2, message);
        if let Message::Removed { device, .. } = message {
            if before.0.backends.contains_key(device) {
                lemma_counted_in_any_order(before.0.backends, device);
            }
        }
        assert(start.2.registered == ids_of(start.0.backends).add(ids_in_work(start.1)));
        assert(start.2.sources == sources_of(start.0.backends).add(sources_in_work(start.1)));
        lemma_replies_balanced(start, replies(message));
    }
}

/// Whatever udev has announced to a backend that started without devices, the session knows it by
/// exactly what its devices and their listeners were registered as: two registrations are left
/// for each device that is kept. Each of them is one source of the event loop, and there is no
/// other.
pub proof fn registrations_are_those_of_the_devices<M>(
    handler: HandlerView,
    messages: Seq<Message<M>>,
)
    requires
        handler.backends == Map::<u64, BackendData>::empty(),
        all_handled(handler, messages),
    ensures
        ({
            let end = history(handler, messages);
            let kept = end.0.backends;
            &&& kept.dom().finite()
            &&& end.2.registrations - end.2.unregistrations == 2 * kept.dom().len()
            &&& end.2.registered == ids_of(kept)
            &&& end.2.sources == sources_of(kept)
            &&& end.2.sources.len() == kept.dom().len()
        }),
{
    lemma_history_balanced(handler, messages);
    let end = history(handler, messages);
    lemma_counts(end.0.backends);
    assert(end.2.registered == ids_of(end.0.backends));
    assert(end.2.sources == sources_of(end.0.backends));
}

}
