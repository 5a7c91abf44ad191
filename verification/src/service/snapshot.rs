//! A network with all that belongs to it.
use super::access::halt;
use super::calls::{
    attachments_in, endpoints_in, gateways_in, many, one, pools_in, realms_in, stopped, Answer, Log,
    NetworkService, StoreCall, StoreCallView,
};
use super::errors::{NetworkError, NetworkErrorView};
use super::gateways::{RealmPools, RealmPoolsView};
use super::networks::get_canonical_network_run;
use super::records::{
    CanonicalAddressRealmRecord, CanonicalAddressRealmRecordView, CanonicalEndpointRecord,
    CanonicalEndpointRecordView, CanonicalL3GatewayAttachmentRecord,
    CanonicalL3GatewayAttachmentRecordView, CanonicalL3GatewayRecord, CanonicalL3GatewayRecordView,
    CanonicalNetworkRecord, CanonicalNetworkRecordView,
};
use crate::model::{copy_list, same_list, views, Model};
use crate::session::Stop;
use crate::table::{id_put, put_id, ById};
use crate::text::same;
use vstd::prelude::*;

verus! {

/// The endpoints of a realm.
#[derive(Clone, Debug, PartialEq, Eq)]
pub struct RealmEndpoints {
    pub realm_id: u128,
    pub endpoints: Vec<CanonicalEndpointRecord>,
}

/// The view of [`RealmEndpoints`].
#[verifier::ext_equal]
pub struct RealmEndpointsView {
    pub realm_id: u128,
    pub endpoints: Seq<CanonicalEndpointRecordView>,
}

impl View for RealmEndpoints {
    type V = RealmEndpointsView;

    open spec fn view(&self) -> RealmEndpointsView {
        RealmEndpointsView { realm_id: self.realm_id, endpoints: views(self.endpoints@) }
    }
}

impl Model for RealmEndpoints {
    fn copy(&self) -> (r: Self) {
        RealmEndpoints { realm_id: self.realm_id, endpoints: copy_list(&self.endpoints) }
    }

    fn same_as(&self, other: &Self) -> (r: bool) {
        self.realm_id == other.realm_id && same_list(&self.endpoints, &other.endpoints)
    }
}

impl ById for RealmEndpoints {
    open spec fn id_of(v: RealmEndpointsView) -> u128 {
        v.realm_id
    }

    fn id(&self) -> (r: u128) {
        self.realm_id
    }
}

/// A gateway and those of its attachments that are about a network.
#[derive(Clone, Debug, PartialEq, Eq)]
pub struct AttachedGateway {
    pub gateway: CanonicalL3GatewayRecord,
    pub attachments: Vec<CanonicalL3GatewayAttachmentRecord>,
}

/// The view of [`AttachedGateway`].
#[verifier::ext_equal]
pub struct AttachedGatewayView {
    pub gateway: CanonicalL3GatewayRecordView,
    pub attachments: Seq<CanonicalL3GatewayAttachmentRecordView>,
}

impl View for AttachedGateway {
    type V = AttachedGatewayView;

    open spec fn view(&self) -> AttachedGatewayView {
        AttachedGatewayView { gateway: self.gateway@, attachments: views(self.attachments@) }
    }
}

/// A network with its realms, their pools and endpoints, and the gateways that realms of it are
/// attached to.
#[derive(Clone, Debug, PartialEq, Eq)]
pub struct CanonicalNetworkSnapshot {
    pub network: CanonicalNetworkRecord,
    pub realms: Vec<CanonicalAddressRealmRecord>,
    pub pools: Vec<RealmPools>,
    pub endpoints: Vec<RealmEndpoints>,
    pub l3_gateways: Vec<AttachedGateway>,
}

/// The view of [`CanonicalNetworkSnapshot`].
#[verifier::ext_equal]
pub struct CanonicalNetworkSnapshotView {
    pub network: CanonicalNetworkRecordView,
    pub realms: Seq<CanonicalAddressRealmRecordView>,
    pub pools: Seq<RealmPoolsView>,
    pub endpoints: Seq<RealmEndpointsView>,
    pub l3_gateways: Seq<AttachedGatewayView>,
}

impl View for CanonicalNetworkSnapshot {
    type V = CanonicalNetworkSnapshotView;

    open spec fn view(&self) -> CanonicalNetworkSnapshotView {
        CanonicalNetworkSnapshotView {
            network: self.network@,
            realms: views(self.realms@),
            pools: views(self.pools@),
            endpoints: views(self.endpoints@),
            l3_gateways: views(self.l3_gateways@),
        }
    }
}

/// What is known of the realms of a network.
pub type Children = (Seq<RealmPoolsView>, Seq<RealmEndpointsView>);

/// Gathers the pools and the endpoints of realms from the one at `i` on. The realms have to be
/// those of the network and of its project.
pub open spec fn children_run(
    project_id: Seq<char>,
    network: CanonicalNetworkRecordView,
    realms: Seq<CanonicalAddressRealmRecordView>,
    i: int,
    known: Children,
    t: Log,
) -> (Log, Answer<Children>)
    decreases realms.len() - i,
{
    if i < 0 || i >= realms.len() {
        (t, Ok(known))
    } else if realms[i].network_id != network.id || realms[i].project_id != network.project_id {
        (t, halt(NetworkErrorView::InvalidRequest))
    } else {
        let t1 = t.after(StoreCallView::ListPools(project_id, realms[i].id));
        match pools_in(t.reply()) {
            Err(stop) => (t1, Err(stop)),
            Ok(pools) => {
                let t2 = t1.after(StoreCallView::ListEndpoints(project_id, realms[i].id));
                match endpoints_in(t1.reply()) {
                    Err(stop) => (t2, Err(stop)),
                    Ok(endpoints) => children_run(
                        project_id,
                        network,
                        realms,
                        i + 1,
                        (
                            id_put::<RealmPools>(
                                known.0,
                                RealmPoolsView { realm_id: realms[i].id, pools },
                            ),
                            id_put::<RealmEndpoints>(
                                known.1,
                                RealmEndpointsView { realm_id: realms[i].id, endpoints },
                            ),
                        ),
                        t2,
                    ),
                }
            },
        }
    }
}

/// Whether an identifier is that of one of the realms.
pub open spec fn has_realm(realms: Seq<CanonicalAddressRealmRecordView>, id: u128) -> bool {
    exists|i: int| 0 <= i < realms.len() && (#[trigger] realms[i]).id == id
}

/// The attachments that are about realms.
pub open spec fn relevant(
    realms: Seq<CanonicalAddressRealmRecordView>,
    attachments: Seq<CanonicalL3GatewayAttachmentRecordView>,
) -> Seq<CanonicalL3GatewayAttachmentRecordView> {
    attachments.filter(|a: CanonicalL3GatewayAttachmentRecordView| has_realm(realms, a.realm_id))
}

/// Gathers the gateways that realms are attached to, from the one at `i` on.
pub open spec fn attached_gateways_run(
    project_id: Seq<char>,
    realms: Seq<CanonicalAddressRealmRecordView>,
    gateways: Seq<CanonicalL3GatewayRecordView>,
    i: int,
    known: Seq<AttachedGatewayView>,
    t: Log,
) -> (Log, Answer<Seq<AttachedGatewayView>>)
    decreases gateways.len() - i,
{
    if i < 0 || i >= gateways.len() {
        (t, Ok(known))
    } else {
        let t1 = t.after(StoreCallView::ListAttachments(project_id, gateways[i].id));
        match attachments_in(t.reply()) {
            Err(stop) => (t1, Err(stop)),
            Ok(all) => {
                let attachments = relevant(realms, all);
                attached_gateways_run(
                    project_id,
                    realms,
                    gateways,
                    i + 1,
                    if attachments.len() == 0 {
                        known
                    } else {
                        known.push(AttachedGatewayView { gateway: gateways[i], attachments })
                    },
                    t1,
                )
            },
        }
    }
}

/// Gathers the rest of a network whose realms are known.
pub open spec fn assemble_run(
    project_id: Seq<char>,
    network: CanonicalNetworkRecordView,
    realms: Seq<CanonicalAddressRealmRecordView>,
    t: Log,
) -> (Log, Answer<CanonicalNetworkSnapshotView>) {
    let (t1, children) = children_run(
        project_id,
        network,
        realms,
        0,
        (Seq::empty(), Seq::empty()),
        t,
    );
    match children {
        Err(stop) => (t1, Err(stop)),
        Ok((pools, endpoints)) => {
            let t2 = t1.after(StoreCallView::ListGateways(project_id));
            match gateways_in(t1.reply()) {
                Err(stop) => (t2, Err(stop)),
                Ok(gateways) => {
                    let (t3, attached) = attached_gateways_run(
                        project_id,
                        realms,
                        gateways,
                        0,
                        Seq::empty(),
                        t2,
                    );
                    match attached {
                        Err(stop) => (t3, Err(stop)),
                        Ok(l3_gateways) => (
                            t3,
                            Ok(
                                CanonicalNetworkSnapshotView {
                                    network,
                                    realms,
                                    pools,
                                    endpoints,
                                    l3_gateways,
                                },
                            ),
                        ),
                    }
                },
            }
        },
    }
}

/// Gathers a network with all that belongs to it. A network without realms, and a realm without
/// pools or endpoints, are as good as any.
pub open spec fn reconstruct_run(project_id: Seq<char>, network_id: u128, t: Log) -> (
    Log,
    Answer<CanonicalNetworkSnapshotView>,
) {
    let (t1, got) = get_canonical_network_run(project_id, network_id, t);
    match got {
        Err(stop) => (t1, Err(stop)),
        Ok(network) => {
            let t2 = t1.after(StoreCallView::ListRealms(project_id, network_id));
            match realms_in(t1.reply()) {
                Err(stop) => (t2, Err(stop)),
                Ok(realms) => assemble_run(project_id, network, realms, t2),
            }
        },
    }
}

fn realm_known(realms: &Vec<CanonicalAddressRealmRecord>, id: u128) -> (r: bool)
    ensures
        r == has_realm(views(realms@), id),
{
    let ghost all = views(realms@);
    for i in 0..realms.len()
        invariant
            all == views(realms@),
            forall|k: int| 0 <= k < i ==> (#[trigger] all[k]).id != id,
    {
        assert(all[i as int] == realms@[i as int]@);
        if realms[i].id == id {
            return true;
        }
    }
    false
}

fn relevant_of(
    realms: &Vec<CanonicalAddressRealmRecord>,
    attachments: &Vec<CanonicalL3GatewayAttachmentRecord>,
) -> (r: Vec<CanonicalL3GatewayAttachmentRecord>)
    ensures
        views(r@) == relevant(views(realms@), views(attachments@)),
{
    let ghost rs = views(realms@);
    let ghost all = views(attachments@);
    let ghost p = |a: CanonicalL3GatewayAttachmentRecordView| has_realm(rs, a.realm_id);
    let mut out: Vec<CanonicalL3GatewayAttachmentRecord> = Vec::new();
    proof {
        reveal(Seq::filter);
        assert(all.take(0) =~= Seq::empty());
        assert(views(out@) =~= all.take(0).filter(p));
    }
    for i in 0..attachments.len()
        invariant
            rs == views(realms@),
            all == views(attachments@),
            p == (|a: CanonicalL3GatewayAttachmentRecordView| has_realm(rs, a.realm_id)),
            views(out@) == all.take(i as int).filter(p),
    {
        let ghost so_far = views(out@);
        proof {
            assert(all[i as int] == attachments@[i as int]@);
            reveal(Seq::filter);
            assert(all.take(i + 1).drop_last() =~= all.take(i as int));
            assert(all.take(i + 1).last() == all[i as int]);
        }
        if realm_known(realms, attachments[i].realm_id) {
            out.push(attachments[i].copy());
            assert(views(out@) =~= so_far.push(all[i as int]));
        }
    }
    assert(all.take(all.len() as int) =~= all);
    out
}

/// What is known of the realms of a network, by its view.
pub open spec fn children_of(
    r: Result<(Vec<RealmPools>, Vec<RealmEndpoints>), Stop<NetworkError>>,
) -> Answer<Children> {
    match r {
        Ok((pools, endpoints)) => Ok((views(pools@), views(endpoints@))),
        Err(stop) => Err(stopped(stop)),
    }
}

impl NetworkService {
    fn children(
        &mut self,
        project_id: &str,
        network: &CanonicalNetworkRecord,
        realms: &Vec<CanonicalAddressRealmRecord>,
    ) -> (r: Result<(Vec<RealmPools>, Vec<RealmEndpoints>), Stop<NetworkError>>)
        ensures
            (final(self)@, children_of(r)) == children_run(
                project_id@,
                network@,
                views(realms@),
                0,
                (Seq::empty(), Seq::empty()),
                old(self)@,
            ),
    {
        let ghost all = views(realms@);
        let mut pools: Vec<RealmPools> = Vec::new();
        let mut endpoints: Vec<RealmEndpoints> = Vec::new();
        assert(views(pools@) =~= Seq::<RealmPoolsView>::empty());
        assert(views(endpoints@) =~= Seq::<RealmEndpointsView>::empty());
        let ghost whole = children_run(
            project_id@,
            network@,
            all,
            0,
            (Seq::empty(), Seq::empty()),
            self@,
        );
        for i in 0..realms.len()
            invariant
                all == views(realms@),
                whole == children_run(
                    project_id@,
                    network@,
                    all,
                    0,
                    (Seq::empty(), Seq::empty()),
                    old(self)@,
                ),
                whole == children_run(
                    project_id@,
                    network@,
                    all,
                    i as int,
                    (views(pools@), views(endpoints@)),
                    self@,
                ),
        {
            assert(all[i as int] == realms@[i as int]@);
            let realm = &realms[i];
            if realm.network_id != network.id || !same(
                realm.project_id.as_str(),
                network.project_id.as_str(),
            ) {
                return Err(Stop::Failed(NetworkError::InvalidRequest));
            }
            let its_pools = match self.ask_pools(
                StoreCall::ListPools(project_id.to_owned(), realm.id),
            ) {
                Err(stop) => return Err(stop),
                Ok(v) => v,
            };
            let its_endpoints = match self.ask_endpoints(
                StoreCall::ListEndpoints(project_id.to_owned(), realm.id),
            ) {
                Err(stop) => return Err(stop),
                Ok(v) => v,
            };
            put_id(&mut pools, RealmPools { realm_id: realm.id, pools: its_pools });
            put_id(
                &mut endpoints,
                RealmEndpoints { realm_id: realm.id, endpoints: its_endpoints },
            );
        }
        Ok((pools, endpoints))
    }

    fn attached_gateways(
        &mut self,
        project_id: &str,
        realms: &Vec<CanonicalAddressRealmRecord>,
        gateways: &Vec<CanonicalL3GatewayRecord>,
    ) -> (r: Result<Vec<AttachedGateway>, Stop<NetworkError>>)
        ensures
            (final(self)@, many(r)) == attached_gateways_run(
                project_id@,
                views(realms@),
                views(gateways@),
                0,
                Seq::empty(),
                old(self)@,
            ),
    {
        let ghost rs = views(realms@);
        let ghost all = views(gateways@);
        let mut out: Vec<AttachedGateway> = Vec::new();
        assert(views(out@) =~= Seq::<AttachedGatewayView>::empty());
        let ghost whole = attached_gateways_run(
            project_id@,
            rs,
            all,
            0,
            Seq::empty(),
            self@,
        );
        for i in 0..gateways.len()
            invariant
                rs == views(realms@),
                all == views(gateways@),
                whole == attached_gateways_run(
                    project_id@,
                    rs,
                    all,
                    0,
                    Seq::empty(),
                    old(self)@,
                ),
                whole == attached_gateways_run(
                    project_id@,
                    rs,
                    all,
                    i as int,
                    views(out@),
                    self@,
                ),
        {
            assert(all[i as int] == gateways@[i as int]@);
            let found = match self.ask_attachments(
                StoreCall::ListAttachments(project_id.to_owned(), gateways[i].id),
            ) {
                Err(stop) => return Err(stop),
                Ok(found) => found,
            };
            let attachments = relevant_of(realms, &found);
            assert(views(attachments@).len() == attachments@.len());
            if attachments.len() != 0 {
                let entry = AttachedGateway { gateway: gateways[i].copy(), attachments };
                let ghost so_far = views(out@);
                let ghost v = entry@;
                out.push(entry);
                assert(views(out@) =~= so_far.push(v));
            }
        }
        Ok(out)
    }

    /// Performs [`reconstruct_run`].
    pub fn reconstruct_canonical_network(&mut self, project_id: &str, network_id: u128) -> (r:
        Result<CanonicalNetworkSnapshot, Stop<NetworkError>>)
        ensures
            (final(self)@, one(r)) == reconstruct_run(project_id@, network_id, old(self)@),
    {
        let network = match self.get_canonical_network_for_project(project_id, network_id) {
            Err(stop) => return Err(stop),
            Ok(network) => network,
        };
        let realms = match self.ask_realms(
            StoreCall::ListRealms(project_id.to_owned(), network_id),
        ) {
            Err(stop) => return Err(stop),
            Ok(realms) => realms,
        };
        let (pools, endpoints): (Vec<RealmPools>, Vec<RealmEndpoints>) = match self.children(
            project_id,
            &network,
            &realms,
        ) {
            Err(stop) => return Err(stop),
            Ok(children) => children,
        };
        let gateways = match self.ask_gateways(StoreCall::ListGateways(project_id.to_owned())) {
            Err(stop) => return Err(stop),
            Ok(gateways) => gateways,
        };
        match self.attached_gateways(project_id, &realms, &gateways) {
            Err(stop) => Err(stop),
            Ok(l3_gateways) => Ok(
                CanonicalNetworkSnapshot { network, realms, pools, endpoints, l3_gateways },
            ),
        }
    }
}

// ---------------------------------------------------------------------------
// Laws
// ---------------------------------------------------------------------------

proof fn lemma_nothing_is_relevant(attachments: Seq<CanonicalL3GatewayAttachmentRecordView>)
    ensures
        relevant(Seq::empty(), attachments).len() == 0,
    decreases attachments.len(),
{
    reveal(Seq::filter);
    if attachments.len() > 0 {
        lemma_nothing_is_relevant(attachments.drop_last());
    }
}

proof fn lemma_no_gateway_is_attached(
    project_id: Seq<char>,
    gateways: Seq<CanonicalL3GatewayRecordView>,
    i: int,
    t: Log,
)
    ensures
        attached_gateways_run(project_id, Seq::empty(), gateways, i, Seq::empty(), t).1 matches Ok(
            known,
        ) ==> known.len() == 0,
    decreases gateways.len() - i,
{
    if 0 <= i < gateways.len() {
        let t1 = t.after(StoreCallView::ListAttachments(project_id, gateways[i].id));
        match attachments_in(t.reply()) {
            Err(_) => {},
            Ok(all) => {
                lemma_nothing_is_relevant(all);
                lemma_no_gateway_is_attached(project_id, gateways, i + 1, t1);
            },
        }
    }
}

/// A network without realms is a network: what is gathered of it is the network alone, and it is
/// not missed.
pub proof fn lemma_network_without_realms(project_id: Seq<char>, network_id: u128, t: Log)
    requires
        get_canonical_network_run(project_id, network_id, t).1 is Ok,
        realms_in(get_canonical_network_run(project_id, network_id, t).0.reply()) == Ok::<
            Seq<CanonicalAddressRealmRecordView>,
            Stop<NetworkErrorView>,
        >(Seq::empty()),
    ensures
        reconstruct_run(project_id, network_id, t).1 matches Ok(snapshot) ==> {
            &&& Ok::<CanonicalNetworkRecordView, Stop<NetworkErrorView>>(snapshot.network)
                == get_canonical_network_run(project_id, network_id, t).1
            &&& snapshot.realms.len() == 0
            &&& snapshot.pools.len() == 0
            &&& snapshot.endpoints.len() == 0
            &&& snapshot.l3_gateways.len() == 0
        },
        ({
            let t2 = get_canonical_network_run(project_id, network_id, t).0.after(
                StoreCallView::ListRealms(project_id, network_id),
            );
            gateways_in(t2.reply()) == Ok::<
                Seq<CanonicalL3GatewayRecordView>,
                Stop<NetworkErrorView>,
            >(Seq::empty()) ==> reconstruct_run(project_id, network_id, t).1 is Ok
        }),
{
    let t2 = get_canonical_network_run(project_id, network_id, t).0.after(
        StoreCallView::ListRealms(project_id, network_id),
    );
    match gateways_in(t2.reply()) {
        Ok(gateways) => lemma_no_gateway_is_attached(
            project_id,
            gateways,
            0,
            t2.after(StoreCallView::ListGateways(project_id)),
        ),
        Err(_) => {},
    }
}

} // verus!
