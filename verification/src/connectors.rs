//! Which CRTC drives which connector of a device.
use vstd::prelude::*;

use drm::control::connector::State;
use drm::control::{CrtcListFilter, ResourceHandles};

use crate::handler::UdevHandlerImpl;

verus! {

/// The connection state that `drm` reports for a connector. All of its variants
/// are visible to proofs.
#[verifier::external_type_specification]
pub struct ExState(State);

/// The resource handles that a DRM device exposes, as `drm` reads them.
#[verifier::external_type_specification]
#[verifier::external_body]
pub struct ExResourceHandles(ResourceHandles);

/// The set of CRTC slots that an encoder can be attached to, as `drm` reads it.
#[verifier::external_type_specification]
#[verifier::external_body]
pub struct ExCrtcListFilter(CrtcListFilter);

/// The CRTC handles that `resources` holds, slot by slot.
pub uninterp spec fn crtc_slots(resources: ResourceHandles) -> Seq<Option<u32>>;

/// The numbers of the slots that `filter` lets through.
pub uninterp spec fn filter_slots(filter: CrtcListFilter) -> Set<int>;

/// The handles in the slots of `slots` whose number is in `admitted`, in slot order.
pub open spec fn admitted_handles(slots: Seq<Option<u32>>, admitted: Set<int>) -> Seq<u32>
    decreases slots.len(),
{
    if slots.len() == 0 {
        Seq::empty()
    } else {
        let before = admitted_handles(slots.drop_last(), admitted);
        match slots.last() {
            Some(handle) if admitted.contains(slots.len() - 1) => before.push(handle),
            _ => before,
        }
    }
}

/// `drm::control::ResourceHandles::filter_crtcs`: the handles of the occupied CRTC
/// slots that the filter lets through, in slot order. Each handle is converted to
/// the number it stands for.
#[verifier::external_body]
fn filter_crtcs(resources: &ResourceHandles, filter: CrtcListFilter) -> (handles: Vec<u32>)
    ensures
        handles@ == admitted_handles(crtc_slots(*resources), filter_slots(filter)),
{
    resources.filter_crtcs(filter).into_iter().map(|handle| handle.into()).collect()
}

/// What a scan reads of an encoder: the CRTCs that it can be attached to, in slot order.
pub struct EncoderInfo {
    pub possible_crtcs: Vec<u32>,
}

impl View for EncoderInfo {
    type V = Seq<u32>;

    open spec fn view(&self) -> Seq<u32> {
        self.possible_crtcs@
    }
}

impl EncoderInfo {
    /// The encoder of a device with `resources` that can use the CRTCs in `possible_crtcs`.
    pub fn new(resources: &ResourceHandles, possible_crtcs: CrtcListFilter) -> (encoder: Self)
        ensures
            encoder@ == admitted_handles(crtc_slots(*resources), filter_slots(possible_crtcs)),
    {
        EncoderInfo { possible_crtcs: filter_crtcs(resources, possible_crtcs) }
    }
}

/// What a scan reads of a connector. `M` is a display mode.
pub struct ConnectorInfo<M> {
    pub handle: u32,
    pub state: State,
    /// The modes that the connector supports, in the order in which it lists them.
    pub modes: Vec<M>,
    /// The slots for the encoders that the connector can be driven by.
    pub encoders: Vec<Option<u32>>,
}

/// The model of a [`ConnectorInfo`].
#[verifier::ext_equal]
pub struct ConnectorView<M> {
    pub handle: u32,
    pub state: State,
    pub modes: Seq<M>,
    pub encoders: Seq<Option<u32>>,
}

impl<M> View for ConnectorInfo<M> {
    type V = ConnectorView<M>;

    open spec fn view(&self) -> ConnectorView<M> {
        ConnectorView {
            handle: self.handle,
            state: self.state,
            modes: self.modes@,
            encoders: self.encoders@,
        }
    }
}

/// The models of `connectors`.
pub open spec fn connector_views<M>(connectors: Seq<ConnectorInfo<M>>) -> Seq<ConnectorView<M>> {
    connectors.map_values(|connector: ConnectorInfo<M>| connector@)
}

/// The model of an encoder, if it could be read.
pub open spec fn encoder_view(encoder: Option<EncoderInfo>) -> Option<Seq<u32>> {
    match encoder {
        Some(encoder) => Some(encoder@),
        None => None,
    }
}

/// The models of the encoders of one connector.
pub open spec fn encoder_views(encoders: Seq<Option<EncoderInfo>>) -> Seq<Option<Seq<u32>>> {
    encoders.map_values(|encoder: Option<EncoderInfo>| encoder_view(encoder))
}

/// The models of the encoders of several connectors.
pub open spec fn encoder_lists(encoders: Seq<Vec<Option<EncoderInfo>>>) -> Seq<
    Seq<Option<Seq<u32>>>,
> {
    encoders.map_values(|list: Vec<Option<EncoderInfo>>| encoder_views(list@))
}

/// A surface to create: `crtc` shows it on `connector`.
#[derive(Debug, PartialEq, Eq)]
pub struct SurfacePlan<M> {
    pub crtc: u32,
    pub connector: u32,
    /// The first mode of the connector, if it lists any.
    pub mode: Option<M>,
}

/// The first mode that `connector` lists.
pub open spec fn first_mode<M>(connector: ConnectorView<M>) -> Option<M> {
    if connector.modes.len() == 0 {
        None
    } else {
        Some(connector.modes[0])
    }
}

/// The connectors that a scan looks at: those that something is connected to.
pub open spec fn connected<M>(connectors: Seq<ConnectorView<M>>) -> Seq<ConnectorView<M>> {
    connectors.filter(|connector: ConnectorView<M>| connector.state is Connected)
}

/// The encoder handles in the slots of `connector`.
pub open spec fn encoder_handles<M>(connector: ConnectorView<M>) -> Seq<u32> {
    connector.encoders.filter_map(|slot: Option<u32>| slot)
}

/// The encoders that a scan of `connectors` reads next, once it has read those of `read` connected
/// connectors: none if there is no further one.
pub open spec fn next_encoders<M>(connectors: Seq<ConnectorView<M>>, read: nat) -> Option<Seq<u32>> {
    if read < connected(connectors).len() {
        Some(encoder_handles(connected(connectors)[read as int]))
    } else {
        None
    }
}

/// One encoder of a connected connector, which asks for one of `candidates`.
pub struct Claim<M> {
    pub connector: u32,
    pub mode: Option<M>,
    pub candidates: Seq<u32>,
}

/// The claim that `connector` makes through `encoder`: none if that could not be read.
pub open spec fn encoder_claim<M>(
    connector: ConnectorView<M>,
    encoder: Option<Seq<u32>>,
) -> Option<Claim<M>> {
    match encoder {
        Some(candidates) => Some(
            Claim { connector: connector.handle, mode: first_mode(connector), candidates },
        ),
        None => None,
    }
}

/// The claims that `connector` makes, encoder by encoder.
pub open spec fn connector_claims<M>(
    connector: ConnectorView<M>,
    encoders: Seq<Option<Seq<u32>>>,
) -> Seq<Claim<M>> {
    encoders.filter_map(|encoder: Option<Seq<u32>>| encoder_claim(connector, encoder))
}

/// The claims that `connectors` make, connector by connector. `encoders` holds the encoders of
/// each, as far as they were read.
pub open spec fn claims<M>(
    connectors: Seq<ConnectorView<M>>,
    encoders: Seq<Seq<Option<Seq<u32>>>>,
) -> Seq<Claim<M>>
    decreases connectors.len(),
{
    if connectors.len() == 0 {
        Seq::empty()
    } else {
        let before = claims(connectors.drop_last(), encoders);
        let last = connectors.len() - 1;
        if last < encoders.len() {
            before + connector_claims(connectors[last], encoders[last])
        } else {
            before
        }
    }
}

/// Whether `plan` uses `crtc`.
pub open spec fn planned<M>(plan: Seq<SurfacePlan<M>>, crtc: u32) -> bool {
    exists|i: int| 0 <= i < plan.len() && (#[trigger] plan[i]).crtc == crtc
}

/// The first of `candidates` that `plan` does not use yet.
pub open spec fn first_free<M>(candidates: Seq<u32>, plan: Seq<SurfacePlan<M>>) -> Option<u32>
    decreases candidates.len(),
{
    if candidates.len() == 0 {
        None
    } else if !planned(plan, candidates[0]) {
        Some(candidates[0])
    } else {
        first_free(candidates.drop_first(), plan)
    }
}

/// `plan` after it has met `claim` as far as it can.
pub open spec fn serve<M>(plan: Seq<SurfacePlan<M>>, claim: Claim<M>) -> Seq<SurfacePlan<M>> {
    match first_free(claim.candidates, plan) {
        Some(crtc) => plan.push(
            SurfacePlan { crtc, connector: claim.connector, mode: claim.mode },
        ),
        None => plan,
    }
}

/// The plan that meets `claims` first come, first served.
pub open spec fn plan_for<M>(claims: Seq<Claim<M>>) -> Seq<SurfacePlan<M>>
    decreases claims.len(),
{
    if claims.len() == 0 {
        Seq::empty()
    } else {
        serve(plan_for(claims.drop_last()), claims.last())
    }
}

/// The surfaces that a scan of `connectors` creates, given the encoders of each connected one, as
/// far as they were read.
pub open spec fn scan_plan<M>(
    connectors: Seq<ConnectorView<M>>,
    encoders: Seq<Seq<Option<Seq<u32>>>>,
) -> Seq<SurfacePlan<M>> {
    plan_for(claims(connected(connectors), encoders))
}

/// Whether `plan` uses `crtc`.
fn is_planned<M>(plan: &Vec<SurfacePlan<M>>, crtc: u32) -> (used: bool)
    ensures
        used == planned(plan@, crtc),
{
    for i in 0..plan.len()
        invariant
            forall|k: int| 0 <= k < i ==> (#[trigger] plan@[k]).crtc != crtc,
    {
        if plan[i].crtc == crtc {
            return true;
        }
    }
    false
}

/// The first of `candidates` that `plan` does not use yet.
fn find_free<M>(candidates: &Vec<u32>, plan: &Vec<SurfacePlan<M>>) -> (free: Option<u32>)
    ensures
        free == first_free(candidates@, plan@),
{
    proof {
        assert(candidates@.skip(0) == candidates@);
    }
    for i in 0..candidates.len()
        invariant
            first_free(candidates@, plan@) == first_free(candidates@.skip(i as int), plan@),
    {
        proof {
            assert(candidates@.skip(i as int).drop_first() == candidates@.skip(i + 1));
        }
        if !is_planned(plan, candidates[i]) {
            return Some(candidates[i]);
        }
    }
    None
}

impl<M: Copy> ConnectorInfo<M> {
    /// Whether something is connected.
    fn is_connected(&self) -> (yes: bool)
        ensures
            yes == (self.state is Connected),
    {
        match self.state {
            State::Connected => true,
            _ => false,
        }
    }

    /// The handles of the encoders that this connector can be driven by, slot by slot.
    pub fn encoder_handles(&self) -> (handles: Vec<u32>)
        ensures
            handles@ == encoder_handles(self@),
    {
        broadcast use Seq::lemma_take_len;

        let mut handles: Vec<u32> = Vec::new();
        let ghost occupied = |slot: Option<u32>| slot;
        for i in 0..self.encoders.len()
            invariant
                handles@ == self.encoders@.take(i as int).filter_map(occupied),
                occupied == (|slot: Option<u32>| slot),
        {
            proof {
                self.encoders@.lemma_filter_map_take_succ(occupied, i as int);
            }
            if let Some(handle) = self.encoders[i] {
                handles.push(handle);
            }
        }
        handles
    }

    /// The first mode that this connector lists.
    fn first_mode(&self) -> (mode: Option<M>)
        ensures
            mode == first_mode(self@),
    {
        if self.modes.len() == 0 {
            None
        } else {
            Some(self.modes[0])
        }
    }
}

impl UdevHandlerImpl {
    /// The handles of the encoders that a scan of `connectors` reads next, once it has read those
    /// of `read` connected connectors: none if there is no further one.
    pub fn encoders_to_read<M: Copy>(connectors: &Vec<ConnectorInfo<M>>, read: usize) -> (handles:
        Option<Vec<u32>>)
        ensures
            match handles {
                Some(handles) => next_encoders(connector_views(connectors@), read as nat) == Some(
                    handles@,
                ),
                None => next_encoders(connector_views(connectors@), read as nat) is None,
            },
    {
        let ghost views = connector_views(connectors@);
        let mut passed: usize = 0;
        proof {
            assert(views.take(0) == Seq::<ConnectorView<M>>::empty());
        }
        for i in 0..connectors.len()
            invariant
                views == connector_views(connectors@),
                passed == connected(views.take(i as int)).len(),
                passed <= i,
                passed <= read,
        {
            proof {
                lemma_connected_one_more(views, i as int);
                lemma_connected_prefix(views, i + 1);
            }
            if connectors[i].is_connected() {
                if passed == read {
                    proof {
                        let so_far = connected(views.take(i + 1));
                        assert(so_far[passed as int] == connected(views).subrange(
                            0,
                            so_far.len() as int,
                        )[passed as int]);
                    }
                    return Some(connectors[i].encoder_handles());
                }
                passed += 1;
            }
        }
        proof {
            assert(views.take(connectors@.len() as int) == views);
        }
        None
    }

    /// Finds a CRTC for each encoder of each connected connector, in order: the first one
    /// that the encoder can use and that no surface uses yet. `encoders` holds the encoders of
    /// each connected connector, as far as they were read; one that could not be read gets no
    /// surface. This is a very naive way of finding good combinations: the problem is
    /// NP-complete.
    pub fn scan_connectors<M: Copy>(
        connectors: &Vec<ConnectorInfo<M>>,
        encoders: &Vec<Vec<Option<EncoderInfo>>>,
    ) -> (plan: Vec<SurfacePlan<M>>)
        ensures
            plan@ == scan_plan(connector_views(connectors@), encoder_lists(encoders@)),
    {
        broadcast use Seq::lemma_take_len;

        let ghost views = connector_views(connectors@);
        let ghost lists = encoder_lists(encoders@);
        let mut plan: Vec<SurfacePlan<M>> = Vec::new();
        let mut passed: usize = 0;
        proof {
            assert(views.take(0) == Seq::<ConnectorView<M>>::empty());
        }
        for i in 0..connectors.len()
            invariant
                views == connector_views(connectors@),
                lists == encoder_lists(encoders@),
                passed == connected(views.take(i as int)).len(),
                passed <= i,
                plan@ == plan_for(claims(connected(views.take(i as int)), lists)),
        {
            let connector = &connectors[i];
            let ghost before = claims(connected(views.take(i as int)), lists);
            proof {
                lemma_connected_one_more(views, i as int);
                assert(views[i as int] == connector@);
            }
            if connector.is_connected() {
                proof {
                    lemma_claims_push(connected(views.take(i as int)), lists, connector@);
                }
                if passed < encoders.len() {
                    let mode = connector.first_mode();
                    let list = &encoders[passed];
                    let ghost read = lists[passed as int];
                    let ghost of_encoder = |encoder: Option<Seq<u32>>|
                        encoder_claim(connector@, encoder);
                    proof {
                        assert(before + read.take(0).filter_map(of_encoder) == before);
                    }
                    for j in 0..list.len()
                        invariant
                            read == encoder_views(list@),
                            mode == first_mode(connector@),
                            of_encoder == (|encoder: Option<Seq<u32>>|
                                encoder_claim(connector@, encoder)),
                            plan@ == plan_for(before + read.take(j as int).filter_map(of_encoder)),
                    {
                        let ghost met = before + read.take(j as int).filter_map(of_encoder);
                        proof {
                            read.lemma_filter_map_take_succ(of_encoder, j as int);
                        }
                        if let Some(encoder) = &list[j] {
                            let ghost claim = Claim {
                                connector: connector.handle,
                                mode,
                                candidates: encoder@,
                            };
                            proof {
                                assert(before + read.take(j + 1).filter_map(of_encoder)
                                    == met.push(claim));
                                assert(met.push(claim).drop_last() == met);
                            }
                            if let Some(crtc) = find_free(&encoder.possible_crtcs, &plan) {
                                plan.push(SurfacePlan { crtc, connector: connector.handle, mode });
                            }
                        }
                    }
                    proof {
                        assert(read.take(read.len() as int) == read);
                    }
                }
                passed += 1;
            }
        }
        proof {
            assert(views.take(connectors@.len() as int) == views);
        }
        plan
    }
}

proof fn lemma_connected_one_more<M>(connectors: Seq<ConnectorView<M>>, i: int)
    requires
        0 <= i < connectors.len(),
    ensures
        connected(connectors.take(i + 1)) == if connectors[i].state is Connected {
            connected(connectors.take(i)).push(connectors[i])
        } else {
            connected(connectors.take(i))
        },
{
    reveal(Seq::filter);
    assert(connectors.take(i + 1).drop_last() == connectors.take(i));
}

/// The connected ones of the first connectors come first.
proof fn lemma_connected_prefix<M>(connectors: Seq<ConnectorView<M>>, n: int)
    requires
        0 <= n <= connectors.len(),
    ensures
        connected(connectors.take(n)).is_prefix_of(connected(connectors)),
    decreases connectors.len() - n,
{
    if n < connectors.len() {
        lemma_connected_prefix(connectors, n + 1);
        lemma_connected_one_more(connectors, n);
    } else {
        assert(connectors.take(n) == connectors);
    }
}

proof fn lemma_claims_push<M>(
    connectors: Seq<ConnectorView<M>>,
    encoders: Seq<Seq<Option<Seq<u32>>>>,
    connector: ConnectorView<M>,
)
    ensures
        claims(connectors.push(connector), encoders) == if connectors.len() < encoders.len() {
            claims(connectors, encoders) + connector_claims(
                connector,
                encoders[connectors.len() as int],
            )
        } else {
            claims(connectors, encoders)
        },
{
    assert(connectors.push(connector).drop_last() == connectors);
}

/// A free candidate is one of the candidates and not in use; there is none only if all
/// of them are in use.
proof fn lemma_first_free<M>(candidates: Seq<u32>, plan: Seq<SurfacePlan<M>>)
    ensures
        match first_free(candidates, plan) {
            Some(crtc) => candidates.contains(crtc) && !planned(plan, crtc),
            None => forall|i: int| 0 <= i < candidates.len() ==> planned(plan, #[trigger] candidates[i]),
        },
    decreases candidates.len(),
{
    if candidates.len() > 0 {
        let rest = candidates.drop_first();
        if planned(plan, candidates[0]) {
            lemma_first_free(rest, plan);
            match first_free(rest, plan) {
                Some(crtc) => {
                    let i = choose|i: int| 0 <= i < rest.len() && rest[i] == crtc;
                    assert(candidates[i + 1] == crtc);
                },
                None => {
                    assert forall|i: int| 0 <= i < candidates.len() implies planned(
                        plan,
                        #[trigger] candidates[i],
                    ) by {
                        if i > 0 {
                            assert(rest[i - 1] == candidates[i]);
                        }
                    }
                },
            }
        }
    }
}

/// What is planned for the first claims stays as it is when more claims follow.
proof fn lemma_plan_for_prefix<M>(claims: Seq<Claim<M>>, n: int)
    requires
        0 <= n <= claims.len(),
    ensures
        plan_for(claims.take(n)).is_prefix_of(plan_for(claims)),
    decreases claims.len(),
{
    if n < claims.len() {
        lemma_plan_for_prefix(claims.drop_last(), n);
        assert(claims.drop_last().take(n) == claims.take(n));
    } else {
        assert(claims.take(n) == claims);
    }
}

/// The claims of the first connectors come first.
proof fn lemma_claims_prefix<M>(
    connectors: Seq<ConnectorView<M>>,
    encoders: Seq<Seq<Option<Seq<u32>>>>,
    n: int,
)
    requires
        0 <= n <= connectors.len(),
    ensures
        claims(connectors.take(n), encoders).is_prefix_of(claims(connectors, encoders)),
    decreases connectors.len(),
{
    if n < connectors.len() {
        lemma_claims_prefix(connectors.drop_last(), encoders, n);
        assert(connectors.drop_last().take(n) == connectors.take(n));
    } else {
        assert(connectors.take(n) == connectors);
    }
}

/// The claims through the encoders that are read first come first.
proof fn lemma_claims_read_prefix<M>(
    connectors: Seq<ConnectorView<M>>,
    encoders: Seq<Seq<Option<Seq<u32>>>>,
    n: int,
)
    requires
        0 <= n <= encoders.len(),
    ensures
        claims(connectors, encoders.take(n)).is_prefix_of(claims(connectors, encoders)),
        connectors.len() <= n ==> claims(connectors, encoders.take(n)) == claims(
            connectors,
            encoders,
        ),
    decreases connectors.len(),
{
    if connectors.len() > 0 {
        lemma_claims_read_prefix(connectors.drop_last(), encoders, n);
    }
}

/// An element of a filtered and mapped sequence comes from an element of that sequence.
proof fn lemma_filter_map_source<A, B>(source: Seq<A>, f: spec_fn(A) -> Option<B>, i: int)
    requires
        0 <= i < source.filter_map(f).len(),
    ensures
        exists|k: int| 0 <= k < source.len() && f(#[trigger] source[k]) == Some(source.filter_map(f)[i]),
    decreases source.len(),
{
    let rest = source.drop_last();
    if i < rest.filter_map(f).len() {
        lemma_filter_map_source(rest, f, i);
        let k = choose|k: int| 0 <= k < rest.len() && f(#[trigger] rest[k]) == Some(rest.filter_map(f)[i]);
        assert(f(source[k]) == Some(source.filter_map(f)[i]));
    } else {
        assert(f(source[source.len() - 1]) == Some(source.filter_map(f)[i]));
    }
}

/// Whether `claim` is made by `connector` through one of `encoders`.
spec fn made_by<M>(
    claim: Claim<M>,
    connector: ConnectorView<M>,
    encoders: Seq<Option<Seq<u32>>>,
) -> bool {
    &&& claim.connector == connector.handle
    &&& claim.mode == first_mode(connector)
    &&& exists|e: int| 0 <= e < encoders.len() && #[trigger] encoders[e] == Some(claim.candidates)
}

proof fn lemma_claim_origin<M>(
    connectors: Seq<ConnectorView<M>>,
    encoders: Seq<Seq<Option<Seq<u32>>>>,
    i: int,
)
    requires
        0 <= i < claims(connectors, encoders).len(),
    ensures
        exists|k: int|
            0 <= k < connectors.len() && k < encoders.len() && made_by(
                claims(connectors, encoders)[i],
                #[trigger] connectors[k],
                encoders[k],
            ),
    decreases connectors.len(),
{
    let all = claims(connectors, encoders);
    let rest = connectors.drop_last();
    let before = claims(rest, encoders);
    if i < before.len() {
        lemma_claim_origin(rest, encoders, i);
        let k = choose|k: int|
            0 <= k < rest.len() && k < encoders.len() && made_by(
                before[i],
                #[trigger] rest[k],
                encoders[k],
            );
        assert(made_by(all[i], connectors[k], encoders[k]));
    } else {
        let last = connectors.len() - 1;
        let connector = connectors[last];
        let of_encoder = |encoder: Option<Seq<u32>>| encoder_claim(connector, encoder);
        let own = i - before.len();
        assert(all[i] == connector_claims(connector, encoders[last])[own]);
        lemma_filter_map_source(encoders[last], of_encoder, own);
        let e = choose|e: int|
            0 <= e < encoders[last].len() && of_encoder(#[trigger] encoders[last][e]) == Some(
                all[i],
            );
        assert(encoders[last][e] == Some(all[i].candidates));
        assert(made_by(all[i], connectors[last], encoders[last]));
    }
}

/// No CRTC drives two surfaces of a scan.
pub proof fn scan_uses_each_crtc_once<M>(
    connectors: Seq<ConnectorView<M>>,
    encoders: Seq<Seq<Option<Seq<u32>>>>,
)
    ensures
        forall|i: int, j: int|
            0 <= i < j < scan_plan(connectors, encoders).len() ==> (#[trigger] scan_plan(
                connectors,
                encoders,
            )[i]).crtc != (#[trigger] scan_plan(connectors, encoders)[j]).crtc,
{
    lemma_plan_for_distinct(claims(connected(connectors), encoders));
}

proof fn lemma_plan_for_distinct<M>(claims: Seq<Claim<M>>)
    ensures
        forall|i: int, j: int|
            0 <= i < j < plan_for(claims).len() ==> (#[trigger] plan_for(claims)[i]).crtc != (
            #[trigger] plan_for(claims)[j]).crtc,
    decreases claims.len(),
{
    if claims.len() > 0 {
        let before = plan_for(claims.drop_last());
        lemma_plan_for_distinct(claims.drop_last());
        lemma_first_free(claims.last().candidates, before);
        assert forall|i: int, j: int| 0 <= i < j < plan_for(claims).len() implies (
        #[trigger] plan_for(claims)[i]).crtc != (#[trigger] plan_for(claims)[j]).crtc by {
            assert(plan_for(claims)[i] == before[i]);
            if j < before.len() {
                assert(plan_for(claims)[j] == before[j]);
            }
        }
    }
}

/// Every surface of a scan shows on a connected connector, and on a CRTC that one of its encoders
/// can use. Its mode is the one that stands first in the list of the connector: it has none exactly
/// if that list is empty.
pub proof fn scan_keeps_to_what_is_offered<M>(
    connectors: Seq<ConnectorView<M>>,
    encoders: Seq<Seq<Option<Seq<u32>>>>,
    i: int,
)
    requires
        0 <= i < scan_plan(connectors, encoders).len(),
    ensures
        ({
            let surface = scan_plan(connectors, encoders)[i];
            exists|k: int, e: int|
                #![trigger encoders[k][e]]
                {
                    let connector = connected(connectors)[k];
                    &&& 0 <= k < connected(connectors).len()
                    &&& connectors.contains(connector)
                    &&& connector.state is Connected
                    &&& connector.handle == surface.connector
                    &&& connector.modes.len() == 0 ==> surface.mode is None
                    &&& connector.modes.len() > 0 ==> surface.mode == Some(connector.modes[0])
                    &&& k < encoders.len()
                    &&& 0 <= e < encoders[k].len()
                    &&& encoders[k][e] is Some
                    &&& encoders[k][e]->0.contains(surface.crtc)
                }
        }),
{
    broadcast use Seq::lemma_filter_pred, Seq::lemma_filter_contains_rev;

    let scanned = connected(connectors);
    let all = claims(scanned, encoders);
    let surface = scan_plan(connectors, encoders)[i];
    lemma_plan_for_origin(all, i);
    let c = choose|c: int|
        0 <= c < all.len() && (#[trigger] all[c]).connector == surface.connector && all[c].mode
            == surface.mode && all[c].candidates.contains(surface.crtc);
    lemma_claim_origin(scanned, encoders, c);
    let k = choose|k: int|
        0 <= k < scanned.len() && k < encoders.len() && made_by(
            all[c],
            #[trigger] scanned[k],
            encoders[k],
        );
    let e = choose|e: int|
        0 <= e < encoders[k].len() && #[trigger] encoders[k][e] == Some(all[c].candidates);
    assert(scanned.contains(scanned[k]));
    assert(encoders[k][e]->0.contains(surface.crtc));
}

proof fn lemma_plan_for_origin<M>(claims: Seq<Claim<M>>, i: int)
    requires
        0 <= i < plan_for(claims).len(),
    ensures
        exists|c: int|
            0 <= c < claims.len() && (#[trigger] claims[c]).connector == plan_for(claims)[i].connector
                && claims[c].mode == plan_for(claims)[i].mode && claims[c].candidates.contains(
                plan_for(claims)[i].crtc,
            ),
    decreases claims.len(),
{
    let rest = claims.drop_last();
    let before = plan_for(rest);
    if i < before.len() {
        lemma_plan_for_origin(rest, i);
        let c = choose|c: int|
            0 <= c < rest.len() && (#[trigger] rest[c]).connector == before[i].connector
                && rest[c].mode == before[i].mode && rest[c].candidates.contains(before[i].crtc);
        assert(claims[c] == rest[c]);
        assert(plan_for(claims)[i] == before[i]);
    } else {
        lemma_first_free(claims.last().candidates, before);
        assert(claims[claims.len() - 1] == claims.last());
    }
}

/// The connectors that come first choose first: their surfaces do not depend on the
/// connectors that follow.
pub proof fn scan_serves_in_order<M>(
    connectors: Seq<ConnectorView<M>>,
    encoders: Seq<Seq<Option<Seq<u32>>>>,
    n: int,
)
    requires
        0 <= n <= connectors.len(),
    ensures
        scan_plan(connectors.take(n), encoders).is_prefix_of(scan_plan(connectors, encoders)),
{
    let scanned = connected(connectors);
    let first = connected(connectors.take(n));
    lemma_connected_prefix(connectors, n);
    assert(scanned.take(first.len() as int) == first);
    lemma_claims_prefix(scanned, encoders, first.len() as int);
    let all = claims(scanned, encoders);
    let own = claims(first, encoders);
    lemma_plan_for_prefix(all, own.len() as int);
    assert(all.take(own.len() as int) == own);
}

/// What is planned for the connectors whose encoders were read stays as it is when those of the
/// others are read.
pub proof fn scan_goes_on_from_what_was_read<M>(
    connectors: Seq<ConnectorView<M>>,
    encoders: Seq<Seq<Option<Seq<u32>>>>,
    n: int,
)
    requires
        0 <= n <= encoders.len(),
    ensures
        scan_plan(connectors, encoders.take(n)).is_prefix_of(scan_plan(connectors, encoders)),
{
    let scanned = connected(connectors);
    let all = claims(scanned, encoders);
    let first = claims(scanned, encoders.take(n));
    lemma_claims_read_prefix(scanned, encoders, n);
    lemma_plan_for_prefix(all, first.len() as int);
    assert(all.take(first.len() as int) == first);
}

/// An encoder goes without a surface only if every CRTC that it can use was taken by the
/// encoders before it. Otherwise its surface follows theirs, on the first CRTC that is left.
pub proof fn scan_serves_every_encoder_it_can<M>(
    connectors: Seq<ConnectorView<M>>,
    encoders: Seq<Seq<Option<Seq<u32>>>>,
    i: int,
)
    requires
        0 <= i < claims(connected(connectors), encoders).len(),
    ensures
        ({
            let claim = claims(connected(connectors), encoders)[i];
            let plan = scan_plan(connectors, encoders);
            let earlier = plan_for(claims(connected(connectors), encoders).take(i));
            &&& earlier.is_prefix_of(plan)
            &&& match first_free(claim.candidates, earlier) {
                Some(crtc) => {
                    &&& earlier.len() < plan.len()
                    &&& plan[earlier.len() as int] == SurfacePlan {
                        crtc,
                        connector: claim.connector,
                        mode: claim.mode,
                    }
                },
                None => forall|k: int|
                    0 <= k < claim.candidates.len() ==> planned(
                        earlier,
                        #[trigger] claim.candidates[k],
                    ),
            }
        }),
{
    let all = claims(connected(connectors), encoders);
    let earlier = plan_for(all.take(i));
    lemma_plan_for_prefix(all, i);
    lemma_plan_for_prefix(all, i + 1);
    assert(all.take(i + 1).drop_last() == all.take(i));
    lemma_first_free(all[i].candidates, earlier);
    let with_own = plan_for(all.take(i + 1));
    assert(with_own == serve(earlier, all[i]));
    if earlier.len() < with_own.len() {
        let own = earlier.len() as int;
        assert(with_own[own] == scan_plan(connectors, encoders).subrange(
            0,
            with_own.len() as int,
        )[own]);
    }
}

/// Connectors that nothing is connected to make no difference to a scan: neither to what it reads
/// nor to what it plans.
pub proof fn scan_ignores_other_connectors<M>(
    connectors: Seq<ConnectorView<M>>,
    encoders: Seq<Seq<Option<Seq<u32>>>>,
    read: nat,
)
    ensures
        scan_plan(connected(connectors), encoders) == scan_plan(connectors, encoders),
        next_encoders(connected(connectors), read) == next_encoders(connectors, read),
{
    broadcast use Seq::lemma_filter_pred;

    lemma_filter_all(
        connected(connectors),
        |connector: ConnectorView<M>| connector.state is Connected,
    );
}

/// Encoders that could not be read make no difference to what a scan plans: it is the same as if
/// they were taken out.
pub proof fn scan_ignores_unreadable_encoders<M>(
    connectors: Seq<ConnectorView<M>>,
    encoders: Seq<Seq<Option<Seq<u32>>>>,
)
    ensures
        scan_plan(
            connectors,
            encoders.map_values(
                |list: Seq<Option<Seq<u32>>>| list.filter(|encoder: Option<Seq<u32>>| encoder is Some),
            ),
        ) == scan_plan(connectors, encoders),
{
    lemma_claims_of_readable(connected(connectors), encoders);
}

proof fn lemma_claims_of_readable<M>(
    connectors: Seq<ConnectorView<M>>,
    encoders: Seq<Seq<Option<Seq<u32>>>>,
)
    ensures
        claims(
            connectors,
            encoders.map_values(
                |list: Seq<Option<Seq<u32>>>| list.filter(|encoder: Option<Seq<u32>>| encoder is Some),
            ),
        ) == claims(connectors, encoders),
    decreases connectors.len(),
{
    if connectors.len() > 0 {
        let last = connectors.len() - 1;
        lemma_claims_of_readable(connectors.drop_last(), encoders);
        if last < encoders.len() {
            lemma_filter_map_skips(
                encoders[last],
                |encoder: Option<Seq<u32>>| encoder is Some,
                |encoder: Option<Seq<u32>>| encoder_claim(connectors[last], encoder),
            );
        }
    }
}

/// `connector` without its empty encoder slots.
pub open spec fn without_empty_slots<M>(connector: ConnectorView<M>) -> ConnectorView<M> {
    ConnectorView {
        encoders: connector.encoders.filter(|slot: Option<u32>| slot is Some),
        ..connector
    }
}

/// Empty encoder slots make no difference to a scan: neither to what it reads nor to what it
/// plans.
pub proof fn scan_ignores_empty_slots<M>(
    connectors: Seq<ConnectorView<M>>,
    encoders: Seq<Seq<Option<Seq<u32>>>>,
    read: nat,
)
    ensures
        ({
            let trimmed = connectors.map_values(
                |connector: ConnectorView<M>| without_empty_slots(connector),
            );
            &&& scan_plan(trimmed, encoders) == scan_plan(connectors, encoders)
            &&& next_encoders(trimmed, read) == next_encoders(connectors, read)
        }),
{
    let trim = |connector: ConnectorView<M>| without_empty_slots(connector);
    let scanned = connected(connectors);
    lemma_connected_after_trim(connectors);
    lemma_claims_after_trim(scanned, encoders);
    if read < scanned.len() {
        lemma_filter_map_skips(
            scanned[read as int].encoders,
            |slot: Option<u32>| slot is Some,
            |slot: Option<u32>| slot,
        );
    }
}

proof fn lemma_connected_after_trim<M>(connectors: Seq<ConnectorView<M>>)
    ensures
        ({
            let trim = |connector: ConnectorView<M>| without_empty_slots(connector);
            connected(connectors.map_values(trim)) == connected(connectors).map_values(trim)
        }),
    decreases connectors.len(),
{
    reveal(Seq::filter);
    let trim = |connector: ConnectorView<M>| without_empty_slots(connector);
    if connectors.len() > 0 {
        let rest = connectors.drop_last();
        lemma_connected_after_trim(rest);
        assert(connectors.map_values(trim).drop_last() == rest.map_values(trim));
        assert(connected(rest).push(connectors.last()).map_values(trim) == connected(
            rest,
        ).map_values(trim).push(trim(connectors.last())));
    } else {
        assert(connected(connectors.map_values(trim)) == connected(connectors).map_values(trim));
    }
}

proof fn lemma_claims_after_trim<M>(
    connectors: Seq<ConnectorView<M>>,
    encoders: Seq<Seq<Option<Seq<u32>>>>,
)
    ensures
        claims(
            connectors.map_values(|connector: ConnectorView<M>| without_empty_slots(connector)),
            encoders,
        ) == claims(connectors, encoders),
    decreases connectors.len(),
{
    let trim = |connector: ConnectorView<M>| without_empty_slots(connector);
    if connectors.len() > 0 {
        let rest = connectors.drop_last();
        let last = connectors.len() - 1;
        lemma_claims_after_trim(rest, encoders);
        assert(connectors.map_values(trim).drop_last() == rest.map_values(trim));
        if last < encoders.len() {
            lemma_filter_map_agrees(
                encoders[last],
                |encoder: Option<Seq<u32>>| encoder_claim(trim(connectors[last]), encoder),
                |encoder: Option<Seq<u32>>| encoder_claim(connectors[last], encoder),
            );
        }
    }
}

proof fn lemma_filter_all<A>(source: Seq<A>, keep: spec_fn(A) -> bool)
    requires
        forall|i: int| 0 <= i < source.len() ==> keep(#[trigger] source[i]),
    ensures
        source.filter(keep) == source,
    decreases source.len(),
{
    reveal(Seq::filter);
    if source.len() > 0 {
        let rest = source.drop_last();
        assert forall|i: int| 0 <= i < rest.len() implies keep(#[trigger] rest[i]) by {
            assert(rest[i] == source[i]);
        }
        lemma_filter_all(rest, keep);
        assert(keep(source[source.len() - 1]));
        assert(rest.push(source.last()) == source);
    }
}

proof fn lemma_filter_map_skips<A, B>(
    source: Seq<A>,
    keep: spec_fn(A) -> bool,
    f: spec_fn(A) -> Option<B>,
)
    requires
        forall|a: A| !keep(a) ==> #[trigger] f(a) is None,
    ensures
        source.filter(keep).filter_map(f) == source.filter_map(f),
    decreases source.len(),
{
    reveal(Seq::filter);
    if source.len() > 0 {
        let rest = source.drop_last();
        lemma_filter_map_skips(rest, keep, f);
        if keep(source.last()) {
            assert(rest.filter(keep).push(source.last()).drop_last() == rest.filter(keep));
        } else {
            assert(f(source.last()) is None);
        }
    } else {
        assert(source.filter(keep) == source);
    }
}

proof fn lemma_filter_map_agrees<A, B>(
    source: Seq<A>,
    f: spec_fn(A) -> Option<B>,
    g: spec_fn(A) -> Option<B>,
)
    requires
        forall|i: int| 0 <= i < source.len() ==> f(#[trigger] source[i]) == g(source[i]),
    ensures
        source.filter_map(f) == source.filter_map(g),
    decreases source.len(),
{
    if source.len() > 0 {
        lemma_filter_map_agrees(source.drop_last(), f, g);
    }
}

/// The model of a connector shows its handle, its state, its modes and its slots as they are, and
/// that of an encoder its CRTCs. Lists of them are modelled one by one.
pub proof fn models_show_what_was_read<M>(
    connector: ConnectorInfo<M>,
    encoder: EncoderInfo,
    connectors: Seq<ConnectorInfo<M>>,
    encoders: Seq<Vec<Option<EncoderInfo>>>,
)
    ensures
        connector@.handle == connector.handle,
        connector@.state == connector.state,
        connector@.modes == connector.modes@,
        connector@.encoders == connector.encoders@,
        encoder@ == encoder.possible_crtcs@,
        encoder_view(Some(encoder)) == Some(encoder.possible_crtcs@),
        encoder_view(None) is None,
        connector_views(connectors).len() == connectors.len(),
        forall|i: int|
            0 <= i < connectors.len() ==> #[trigger] connector_views(connectors)[i]
                == connectors[i]@,
        encoder_lists(encoders).len() == encoders.len(),
        forall|i: int|
            0 <= i < encoders.len() ==> (#[trigger] encoder_lists(encoders)[i]).len()
                == encoders[i]@.len(),
        forall|i: int, j: int|
            0 <= i < encoders.len() && 0 <= j < encoders[i]@.len() ==> #[trigger] encoder_lists(
                encoders,
            )[i][j] == encoder_view(encoders[i]@[j]),
{
}

/// A scan reads the encoders of every connected connector, in the order of the connectors: those
/// in its occupied slots, in the order of the slots. Then it is done.
pub proof fn scan_reads_all_connected_connectors<M>(connectors: Seq<ConnectorView<M>>, read: nat)
    ensures
        ({
            let scanned = connectors.filter(
                |connector: ConnectorView<M>| connector.state is Connected,
            );
            &&& connected(connectors) == scanned
            &&& read >= scanned.len() ==> next_encoders(connectors, read) is None
            &&& read < scanned.len() ==> (next_encoders(connectors, read) matches Some(handles)
                && handles.map_values(|handle: u32| Some(handle))
                == scanned[read as int].encoders.filter(|slot: Option<u32>| slot is Some))
        }),
{
    let scanned = connected(connectors);
    if read < scanned.len() {
        lemma_occupied_slots(scanned[read as int].encoders);
    }
}

proof fn lemma_occupied_slots(slots: Seq<Option<u32>>)
    ensures
        slots.filter_map(|slot: Option<u32>| slot).map_values(|handle: u32| Some(handle))
            == slots.filter(|slot: Option<u32>| slot is Some),
    decreases slots.len(),
{
    reveal(Seq::filter);
    let occupied = |slot: Option<u32>| slot;
    let some = |handle: u32| Some(handle);
    if slots.len() > 0 {
        let rest = slots.drop_last();
        lemma_occupied_slots(rest);
        if let Some(handle) = slots.last() {
            assert(rest.filter_map(occupied).push(handle).map_values(some) == rest.filter_map(
                occupied,
            ).map_values(some).push(Some(handle)));
        }
    } else {
        assert(slots.filter_map(occupied).map_values(some) == slots.filter(
            |slot: Option<u32>| slot is Some,
        ));
    }
}

/// A scan plans nothing before it has read an encoder. A connector without encoders, an encoder
/// that could not be read, and what is read beyond the last connected connector add nothing.
pub proof fn scan_plans_nothing_without_encoders<M>(
    connectors: Seq<ConnectorView<M>>,
    encoders: Seq<Seq<Option<Seq<u32>>>>,
    list: Seq<Option<Seq<u32>>>,
)
    ensures
        scan_plan(connectors, Seq::empty()).len() == 0,
        scan_plan(connectors, encoders.push(Seq::empty())) == scan_plan(connectors, encoders),
        scan_plan(connectors, encoders.push(list.push(None))) == scan_plan(
            connectors,
            encoders.push(list),
        ),
        encoders.len() >= connectors.filter(
            |connector: ConnectorView<M>| connector.state is Connected,
        ).len() ==> scan_plan(connectors, encoders.push(list)) == scan_plan(connectors, encoders),
{
    let scanned = connected(connectors);
    let nothing = Seq::<Option<Seq<u32>>>::empty();
    lemma_claims_unread(scanned);
    lemma_claims_read_one_more(scanned, encoders, nothing);
    lemma_claims_read_one_more(scanned, encoders, list);
    lemma_claims_read_one_more(scanned, encoders, list.push(None));
    if encoders.len() < scanned.len() {
        let connector = scanned[encoders.len() as int];
        assert(claims(scanned, encoders) + connector_claims(connector, nothing) == claims(
            scanned,
            encoders,
        ));
        assert(list.push(None).drop_last() == list);
    }
}

/// The next encoder that is read gets the first of its CRTCs that no surface of the plan uses: one
/// more surface, on the connector whose encoders are being read, in the first mode that this
/// connector lists. It gets none, and the plan stays as it is, if all of its CRTCs are in use.
pub proof fn scan_takes_the_first_free_crtc<M>(
    connectors: Seq<ConnectorView<M>>,
    encoders: Seq<Seq<Option<Seq<u32>>>>,
    list: Seq<Option<Seq<u32>>>,
    candidates: Seq<u32>,
)
    requires
        encoders.len() < connectors.filter(
            |connector: ConnectorView<M>| connector.state is Connected,
        ).len(),
    ensures
        ({
            let connector = connectors.filter(
                |connector: ConnectorView<M>| connector.state is Connected,
            )[encoders.len() as int];
            let before = scan_plan(connectors, encoders.push(list));
            let after = scan_plan(connectors, encoders.push(list.push(Some(candidates))));
            let used = before.map_values(|surface: SurfacePlan<M>| surface.crtc);
            ||| after == before && forall|i: int|
                0 <= i < candidates.len() ==> used.contains(#[trigger] candidates[i])
            ||| exists|n: int|
                {
                    &&& 0 <= n < candidates.len()
                    &&& !used.contains(#[trigger] candidates[n])
                    &&& forall|i: int| 0 <= i < n ==> used.contains(#[trigger] candidates[i])
                    &&& after.len() == before.len() + 1
                    &&& after.drop_last() == before
                    &&& after.last().crtc == candidates[n]
                    &&& after.last().connector == connector.handle
                    &&& connector.modes.len() == 0 ==> after.last().mode is None
                    &&& connector.modes.len() > 0 ==> after.last().mode == Some(connector.modes[0])
                }
        }),
{
    let scanned = connected(connectors);
    let connector = scanned[encoders.len() as int];
    let more = list.push(Some(candidates));
    let of_encoder = |encoder: Option<Seq<u32>>| encoder_claim(connector, encoder);
    let claim = Claim { connector: connector.handle, mode: first_mode(connector), candidates };
    lemma_claims_read_one_more(scanned, encoders, list);
    lemma_claims_read_one_more(scanned, encoders, more);
    assert(more.drop_last() == list);
    assert(connector_claims(connector, more) == connector_claims(connector, list).push(claim));
    let met = claims(scanned, encoders.push(list));
    assert(claims(scanned, encoders.push(more)) == met.push(claim));
    assert(met.push(claim).drop_last() == met);
    let before = scan_plan(connectors, encoders.push(list));
    let after = scan_plan(connectors, encoders.push(more));
    assert(after == serve(before, claim));
    lemma_first_free_in_order(candidates, before);
    let used = before.map_values(|surface: SurfacePlan<M>| surface.crtc);
    assert forall|crtc: u32| planned(before, crtc) <==> #[trigger] used.contains(crtc) by {
        if planned(before, crtc) {
            let i = choose|i: int| 0 <= i < before.len() && (#[trigger] before[i]).crtc == crtc;
            assert(used[i] == crtc);
        }
        if used.contains(crtc) {
            let i = choose|i: int| 0 <= i < used.len() && used[i] == crtc;
            assert(before[i].crtc == crtc);
        }
    }
    if after.len() > before.len() {
        assert(after.drop_last() == before);
    }
}

/// The first free candidate has only candidates in use before it.
proof fn lemma_first_free_in_order<M>(candidates: Seq<u32>, plan: Seq<SurfacePlan<M>>)
    ensures
        match first_free(candidates, plan) {
            Some(crtc) => exists|n: int|
                {
                    &&& 0 <= n < candidates.len()
                    &&& #[trigger] candidates[n] == crtc
                    &&& !planned(plan, crtc)
                    &&& forall|i: int| 0 <= i < n ==> planned(plan, #[trigger] candidates[i])
                },
            None => forall|i: int| 0 <= i < candidates.len() ==> planned(plan, #[trigger] candidates[i]),
        },
    decreases candidates.len(),
{
    lemma_first_free(candidates, plan);
    if candidates.len() > 0 {
        if planned(plan, candidates[0]) {
            let rest = candidates.drop_first();
            lemma_first_free_in_order(rest, plan);
            if let Some(crtc) = first_free(rest, plan) {
                let n = choose|n: int|
                    {
                        &&& 0 <= n < rest.len()
                        &&& #[trigger] rest[n] == crtc
                        &&& !planned(plan, crtc)
                        &&& forall|i: int| 0 <= i < n ==> planned(plan, #[trigger] rest[i])
                    };
                assert(candidates[n + 1] == crtc);
                assert forall|i: int| 0 <= i < n + 1 implies planned(
                    plan,
                    #[trigger] candidates[i],
                ) by {
                    if i > 0 {
                        assert(rest[i - 1] == candidates[i]);
                    }
                }
            }
        } else {
            assert(candidates[0] == first_free(candidates, plan)->0);
        }
    }
}

proof fn lemma_claims_unread<M>(connectors: Seq<ConnectorView<M>>)
    ensures
        claims(connectors, Seq::empty()) == Seq::<Claim<M>>::empty(),
    decreases connectors.len(),
{
    if connectors.len() > 0 {
        lemma_claims_unread(connectors.drop_last());
    }
}

/// Connectors whose encoders were not read make no claim.
proof fn lemma_claims_of_read<M>(
    connectors: Seq<ConnectorView<M>>,
    encoders: Seq<Seq<Option<Seq<u32>>>>,
)
    requires
        encoders.len() <= connectors.len(),
    ensures
        claims(connectors, encoders) == claims(connectors.take(encoders.len() as int), encoders),
    decreases connectors.len(),
{
    let n = encoders.len() as int;
    if n < connectors.len() {
        lemma_claims_of_read(connectors.drop_last(), encoders);
        assert(connectors.drop_last().take(n) == connectors.take(n));
    } else {
        assert(connectors.take(n) == connectors);
    }
}

/// The claims through the encoders that are read last come last.
proof fn lemma_claims_read_one_more<M>(
    connectors: Seq<ConnectorView<M>>,
    encoders: Seq<Seq<Option<Seq<u32>>>>,
    list: Seq<Option<Seq<u32>>>,
)
    ensures
        claims(connectors, encoders.push(list)) == if encoders.len() < connectors.len() {
            claims(connectors, encoders) + connector_claims(
                connectors[encoders.len() as int],
                list,
            )
        } else {
            claims(connectors, encoders)
        },
{
    let n = encoders.len() as int;
    let more = encoders.push(list);
    assert(more.take(n) == encoders);
    if n < connectors.len() {
        let read = connectors.take(n);
        lemma_claims_of_read(connectors, encoders);
        lemma_claims_of_read(connectors, more);
        lemma_claims_read_prefix(read, more, n);
        lemma_claims_push(read, more, connectors[n]);
        assert(read.push(connectors[n]) == connectors.take(n + 1));
    } else {
        lemma_claims_read_prefix(connectors, more, n);
    }
}

/// Whether `at` gives the slot of each of `handles`, in slot order: they are the handles in all
/// occupied slots of `slots` whose number is in `admitted`.
pub open spec fn come_from(
    handles: Seq<u32>,
    at: Seq<int>,
    slots: Seq<Option<u32>>,
    admitted: Set<int>,
) -> bool {
    &&& at.len() == handles.len()
    &&& forall|i: int, j: int| 0 <= i < j < at.len() ==> #[trigger] at[i] < #[trigger] at[j]
    &&& forall|i: int|
        0 <= i < at.len() ==> {
            &&& 0 <= #[trigger] at[i] < slots.len()
            &&& admitted.contains(at[i])
            &&& slots[at[i]] == Some(handles[i])
        }
    &&& forall|slot: int|
        0 <= slot < slots.len() && slots[slot] is Some && admitted.contains(slot)
            ==> #[trigger] at.contains(slot)
}

/// The CRTCs of an encoder are those in the occupied slots that its filter lets through, in slot
/// order.
pub proof fn admitted_handles_come_in_slot_order(slots: Seq<Option<u32>>, admitted: Set<int>)
    ensures
        exists|at: Seq<int>| #[trigger]
            come_from(admitted_handles(slots, admitted), at, slots, admitted),
    decreases slots.len(),
{
    let handles = admitted_handles(slots, admitted);
    if slots.len() == 0 {
        assert(come_from(handles, Seq::empty(), slots, admitted));
    } else {
        let rest = slots.drop_last();
        let last = slots.len() - 1;
        let before = admitted_handles(rest, admitted);
        admitted_handles_come_in_slot_order(rest, admitted);
        let at = choose|at: Seq<int>| #[trigger] come_from(before, at, rest, admitted);
        let all = if slots[last] is Some && admitted.contains(last) {
            at.push(last)
        } else {
            at
        };
        assert forall|slot: int|
            0 <= slot < slots.len() && slots[slot] is Some && admitted.contains(
                slot,
            ) implies #[trigger] all.contains(slot) by {
            if slot < last {
                assert(rest[slot] == slots[slot]);
                assert(at.contains(slot));
                let i = choose|i: int| 0 <= i < at.len() && at[i] == slot;
                assert(all[i] == slot);
            } else {
                assert(all[at.len() as int] == slot);
            }
        }
        assert forall|i: int| 0 <= i < all.len() implies {
            &&& 0 <= #[trigger] all[i] < slots.len()
            &&& admitted.contains(all[i])
            &&& slots[all[i]] == Some(handles[i])
        } by {
            if i < at.len() {
                assert(all[i] == at[i]);
                assert(rest[at[i]] == slots[at[i]]);
                assert(handles[i] == before[i]);
            }
        }
        assert forall|i: int, j: int| 0 <= i < j < all.len() implies #[trigger] all[i]
            < #[trigger] all[j] by {
            assert(all[i] == at[i]);
            if j < at.len() {
                assert(all[j] == at[j]);
            }
        }
        assert(come_from(handles, all, slots, admitted));
    }
}

}
