//! Opening the fabric, applying and removing plans, and observing them.
use super::backend::{FabricOutcome, LinuxFabricBackend, LinuxFabricBackendView};
use super::commands::{
    link_del, link_del_cmd, netns_del, netns_del_cmd, ns_probe, ns_probe_cmd, ns_route_flush,
    ns_route_flush_cmd,
};
use super::config::{FabricError, LinuxFabricConfig, LinuxFabricConfigView, LinuxFabricError};
use super::geneve::{ensure_geneve_run, remove_tunnels, remove_tunnels_run};
use super::naming::{is_mac, is_name, is_wireguard_key, valid_mac, valid_name, valid_wireguard_key};
use super::plan::{
    FabricPeer, FabricPeerView, NamespacedRoutedFabricPlan, NamespacedRoutedFabricPlanView,
};
use super::policy::{ensure_policy_run, policies_valid, remove_policy_run, validate_policy_plan};
use super::public::{bindings_valid, ensure_public_run, remove_public_run, validate_public_plan};
use super::realm::{ensure_realm_run, realize_routes, realize_routes_run};
use super::state::{
    EndpointTapOwnership, EndpointTapOwnershipView, FabricAttachmentOwnership,
    FabricAttachmentOwnershipView, FabricOwnership, FabricOwnershipView, GeneveOwnership,
    GeneveOwnershipView, ProviderState, ProviderStateView, RealmOwnership, RealmOwnershipView,
    STATE_VERSION,
};
use super::taps::{ensure_endpoint_taps_run, remove_taps, remove_taps_run};
use super::underlay::{configure_peers_run, ensure_fabric_run, remove_fabric_run};
use crate::ipv4::{is_loopback, is_unspecified, is_unusable_transport};
use crate::model::{views, Model};
use crate::path::{is_parent, parent_is};
use crate::session::{
    attempted, demanded, key_read, queried, run_all, CommandView, Commands, Effect, EffectView,
    Session, Stop, Trace,
};
use crate::table::{cut_id, find_id, find_name, id_cut, id_get, id_put, name_get, put_id};
use crate::text::{same, starts_with, text_starts_with, trim, trim_of};
use vstd::prelude::*;

verus! {

/// How applying or removing a plan ends.
pub type FabricResult = Result<(), Stop<FabricError>>;

/// A failure of the fabric as a failure of applying or removing a plan.
pub open spec fn lifted(r: FabricOutcome) -> FabricResult {
    match r {
        Ok(_) => Ok(()),
        Err(Stop::Pending) => Err(Stop::Pending),
        Err(Stop::Failed(e)) => Err(Stop::Failed(FabricError::Backend(e))),
    }
}

fn lift(r: FabricOutcome) -> (res: FabricResult)
    ensures
        res == lifted(r),
{
    match r {
        Ok(_) => Ok(()),
        Err(Stop::Pending) => Err(Stop::Pending),
        Err(Stop::Failed(e)) => Err(Stop::Failed(FabricError::Backend(e))),
    }
}

// ---------------------------------------------------------------------------
// Applying
// ---------------------------------------------------------------------------

/// Makes a plan durable and remembers it.
pub open spec fn persist_plan_run(
    b: LinuxFabricBackendView,
    plan: NamespacedRoutedFabricPlanView,
    t: Trace,
) -> (LinuxFabricBackendView, Trace, FabricOutcome) {
    let r = demanded(t.reply(), LinuxFabricError::Storage, LinuxFabricError::Storage);
    let next = if r is Ok {
        LinuxFabricBackendView {
            plans: id_put::<NamespacedRoutedFabricPlan>(b.plans, plan),
            ..b
        }
    } else {
        b
    };
    (next, t.after(EffectView::SavePlan), r)
}

/// Routes the endpoints on other hosts by the record of the realm.
pub open spec fn route_stage_run(
    b: LinuxFabricBackendView,
    plan: NamespacedRoutedFabricPlanView,
    t: Trace,
) -> (LinuxFabricBackendView, Trace, FabricOutcome) {
    match b.state.realm(plan.realm_id) {
        None => (b, t, Err(Stop::Failed(LinuxFabricError::CorruptState))),
        Some(own) => {
            let (t1, r1) = realize_routes_run(plan.routes, own, 0, t);
            (b, t1, r1)
        },
    }
}

/// A stage of applying a plan.
pub enum Stage {
    Fabric,
    Plan,
    Realm,
    Peers,
    Tunnels,
    Taps,
    Policy,
    Public,
    Routes,
}

/// The stages of applying a plan, in order.
pub open spec fn stages() -> Seq<Stage> {
    seq![
        Stage::Fabric,
        Stage::Plan,
        Stage::Realm,
        Stage::Peers,
        Stage::Tunnels,
        Stage::Taps,
        Stage::Policy,
        Stage::Public,
        Stage::Routes,
    ]
}

/// What a stage that changes only the record comes to.
pub open spec fn state_stage(
    b: LinuxFabricBackendView,
    x: (ProviderStateView, Trace, FabricOutcome),
) -> (LinuxFabricBackendView, Trace, FabricOutcome) {
    (b.with_state(x.0), x.1, x.2)
}

/// Performs one stage.
pub open spec fn stage_run(
    stage: Stage,
    b: LinuxFabricBackendView,
    plan: NamespacedRoutedFabricPlanView,
    t: Trace,
) -> (LinuxFabricBackendView, Trace, FabricOutcome) {
    match stage {
        Stage::Fabric => state_stage(b, ensure_fabric_run(b.config, b.state, plan, t)),
        Stage::Plan => persist_plan_run(b, plan, t),
        Stage::Realm => state_stage(b, ensure_realm_run(b.config, b.state, plan, t)),
        Stage::Peers => state_stage(b, configure_peers_run(b, t)),
        Stage::Tunnels => state_stage(b, ensure_geneve_run(b, plan, t)),
        Stage::Taps => state_stage(b, ensure_endpoint_taps_run(b.state, plan, t)),
        Stage::Policy => state_stage(b, ensure_policy_run(b.state, plan, t)),
        Stage::Public => state_stage(b, ensure_public_run(b.config, b.state, plan, t)),
        Stage::Routes => route_stage_run(b, plan, t),
    }
}

/// Performs the first `n` stages, up to the first that does not succeed.
pub open spec fn stages_run(
    n: int,
    b: LinuxFabricBackendView,
    plan: NamespacedRoutedFabricPlanView,
    t: Trace,
) -> (LinuxFabricBackendView, Trace, FabricOutcome)
    decreases n,
{
    if n <= 0 {
        (b, t, Ok(()))
    } else {
        let (b1, t1, r1) = stages_run(n - 1, b, plan, t);
        if r1 is Err {
            (b1, t1, r1)
        } else {
            stage_run(stages()[n - 1], b1, plan, t1)
        }
    }
}

/// Whether a plan is accepted for realization.
pub open spec fn plan_acceptable(plan: NamespacedRoutedFabricPlanView) -> bool {
    policies_valid(plan) && bindings_valid(plan.public_bindings, plan.directory.entries)
}

/// Applies a plan. One that is not acceptable is rejected before anything is asked of the host.
pub open spec fn apply_run(
    b: LinuxFabricBackendView,
    plan: NamespacedRoutedFabricPlanView,
    t: Trace,
) -> (LinuxFabricBackendView, Trace, FabricResult) {
    if !plan_acceptable(plan) {
        (b, t, Err(Stop::Failed(FabricError::Backend(LinuxFabricError::OwnershipConflict))))
    } else {
        let (b1, t1, r1) = stages_run(9, b, plan, t);
        (b1, t1, lifted(r1))
    }
}

/// A stage that fails ends the whole run.
proof fn lemma_stages_stop(
    k: int,
    n: int,
    b: LinuxFabricBackendView,
    plan: NamespacedRoutedFabricPlanView,
    t: Trace,
)
    requires
        0 <= k <= n,
        stages_run(k, b, plan, t).2 is Err,
    ensures
        stages_run(n, b, plan, t) == stages_run(k, b, plan, t),
    decreases n - k,
{
    if k < n {
        lemma_stages_stop(k, n - 1, b, plan, t);
    }
}

impl LinuxFabricBackend {
    /// Performs [`persist_plan_run`].
    pub fn persist_plan(&mut self, plan: &NamespacedRoutedFabricPlan, session: &mut Session) -> (r:
        FabricOutcome)
        ensures
            (final(self)@, final(session)@, r) == persist_plan_run(
                old(self)@,
                plan@,
                old(session)@,
            ),
    {
        match session.demand(
            Effect::SavePlan,
            LinuxFabricError::Storage,
            LinuxFabricError::Storage,
        ) {
            Err(stop) => Err(stop),
            Ok(_) => {
                put_id(&mut self.plans, plan.copy());
                Ok(())
            },
        }
    }

    fn route_stage(&self, plan: &NamespacedRoutedFabricPlan, session: &mut Session) -> (r:
        FabricOutcome)
        ensures
            (self@, final(session)@, r) == route_stage_run(self@, plan@, old(session)@),
    {
        match find_id(&self.state.realms, plan.realm_id) {
            None => Err(Stop::Failed(LinuxFabricError::CorruptState)),
            Some(i) => realize_routes(plan, &self.state.realms[i], session),
        }
    }

    /// Performs the stages of applying a plan.
    fn run_stages(&mut self, plan: &NamespacedRoutedFabricPlan, session: &mut Session) -> (r:
        FabricOutcome)
        ensures
            (final(self)@, final(session)@, r) == stages_run(9, old(self)@, plan@, old(session)@),
    {
        let ghost b = self@;
        let ghost t = session@;
        let ghost p = plan@;
        let r = self.ensure_fabric(plan, session);
        proof {
            reveal_with_fuel(stages_run, 2);
            assert((self@, session@, r) == stages_run(1, b, p, t));
            if r is Err {
                lemma_stages_stop(1, 9, b, p, t);
            }
        }
        if r.is_err() {
            return r;
        }
        let r = self.persist_plan(plan, session);
        proof {
            assert((self@, session@, r) == stages_run(2, b, p, t));
            if r is Err {
                lemma_stages_stop(2, 9, b, p, t);
            }
        }
        if r.is_err() {
            return r;
        }
        let r = self.ensure_realm(plan, session);
        proof {
            assert((self@, session@, r) == stages_run(3, b, p, t));
            if r is Err {
                lemma_stages_stop(3, 9, b, p, t);
            }
        }
        if r.is_err() {
            return r;
        }
        let r = self.configure_peers(session);
        proof {
            assert((self@, session@, r) == stages_run(4, b, p, t));
            if r is Err {
                lemma_stages_stop(4, 9, b, p, t);
            }
        }
        if r.is_err() {
            return r;
        }
        let r = self.ensure_geneve(plan, session);
        proof {
            assert((self@, session@, r) == stages_run(5, b, p, t));
            if r is Err {
                lemma_stages_stop(5, 9, b, p, t);
            }
        }
        if r.is_err() {
            return r;
        }
        let r = self.ensure_endpoint_taps(plan, session);
        proof {
            assert((self@, session@, r) == stages_run(6, b, p, t));
            if r is Err {
                lemma_stages_stop(6, 9, b, p, t);
            }
        }
        if r.is_err() {
            return r;
        }
        let r = self.ensure_policy(plan, session);
        proof {
            assert((self@, session@, r) == stages_run(7, b, p, t));
            if r is Err {
                lemma_stages_stop(7, 9, b, p, t);
            }
        }
        if r.is_err() {
            return r;
        }
        let r = self.ensure_public(plan, session);
        proof {
            assert((self@, session@, r) == stages_run(8, b, p, t));
            if r is Err {
                lemma_stages_stop(8, 9, b, p, t);
            }
        }
        if r.is_err() {
            return r;
        }
        let r = self.route_stage(plan, session);
        assert((self@, session@, r) == stages_run(9, b, p, t));
        r
    }

    /// Performs [`apply_run`].
    pub fn apply(&mut self, plan: &NamespacedRoutedFabricPlan, session: &mut Session) -> (r:
        FabricResult)
        ensures
            (final(self)@, final(session)@, r) == apply_run(old(self)@, plan@, old(session)@),
    {
        match validate_policy_plan(plan) {
            Err(e) => return Err(Stop::Failed(FabricError::Backend(e))),
            Ok(_) => {},
        }
        match validate_public_plan(plan) {
            Err(e) => return Err(Stop::Failed(FabricError::Backend(e))),
            Ok(_) => {},
        }
        lift(self.run_stages(plan, session))
    }
}

// ---------------------------------------------------------------------------
// Removing
// ---------------------------------------------------------------------------

/// The commands that remove a realm itself.
pub open spec fn realm_removal_cmds(own: RealmOwnershipView) -> Seq<CommandView> {
    Seq::empty().push(ns_route_flush_cmd(own.namespace)).push(link_del_cmd(own.host_veth)).push(
        link_del_cmd(own.bridge),
    ).push(netns_del_cmd(own.namespace))
}

/// Removes the links of a realm: its tap devices, those that were only announced included, its
/// tunnels and the realm itself.
pub open spec fn remove_links_run(
    cfg: LinuxFabricConfigView,
    own: RealmOwnershipView,
    t: Trace,
) -> (Trace, FabricOutcome) {
    let (t1, r1) = remove_taps_run(own.endpoint_taps, Seq::empty(), own.bridge, 0, t);
    if r1 is Err {
        (t1, r1)
    } else {
        let (t2, r2) = remove_taps_run(
            own.pending_endpoint_taps,
            own.endpoint_taps,
            own.bridge,
            0,
            t1,
        );
        if r2 is Err {
            (t2, r2)
        } else {
            let (t3, r3) = remove_tunnels_run(
                cfg,
                own.namespace,
                own.geneve,
                Seq::empty(),
                0,
                t2,
            );
            if r3 is Err {
                (t3, r3)
            } else {
                run_all(
                    t3,
                    realm_removal_cmds(own),
                    LinuxFabricError::CommandFailed,
                    LinuxFabricError::Storage,
                )
            }
        }
    }
}

/// Forgets a plan and the record of its realm.
pub open spec fn remove_plan_run(b: LinuxFabricBackendView, realm_id: u128, t: Trace) -> (
    LinuxFabricBackendView,
    Trace,
    FabricOutcome,
) {
    let b1 = LinuxFabricBackendView {
        plans: id_cut::<NamespacedRoutedFabricPlan>(b.plans, realm_id),
        ..b
    };
    let t1 = t.after(EffectView::RemovePlan);
    let r1 = attempted::<LinuxFabricError>(t.reply());
    if r1 is Err {
        (b1, t1, r1)
    } else if b.state.realm(realm_id) is None {
        (b1, t1, Ok(()))
    } else {
        (
            b1.with_state(b.state.without_realm(realm_id)),
            t1.after(EffectView::Save),
            demanded(t1.reply(), LinuxFabricError::Storage, LinuxFabricError::Storage),
        )
    }
}

/// Adjusts the fabric to the realms that are left after one was removed.
pub open spec fn settle_fabric_run(b: LinuxFabricBackendView, generation: u64, t: Trace) -> (
    LinuxFabricBackendView,
    Trace,
    FabricOutcome,
) {
    let (st1, t1, r1) = if b.state.realms.len() > 0 {
        configure_peers_run(b, t)
    } else {
        (b.state, t, Ok(()))
    };
    if r1 is Err {
        (b.with_state(st1), t1, r1)
    } else {
        state_stage(b.with_state(st1), remove_fabric_run(b.config, st1, generation, t1))
    }
}

/// Removes the realm of a plan, of which `own` is the record.
pub open spec fn remove_realm_run(
    b: LinuxFabricBackendView,
    plan: NamespacedRoutedFabricPlanView,
    own: RealmOwnershipView,
    t: Trace,
) -> (LinuxFabricBackendView, Trace, FabricOutcome) {
    let (st1, t1, r1) = remove_public_run(b.config, b.state, plan, t);
    let b1 = b.with_state(st1);
    if r1 is Err {
        (b1, t1, r1)
    } else {
        let (st2, t2, r2) = remove_policy_run(st1, plan.realm_id, t1);
        let b2 = b.with_state(st2);
        if r2 is Err {
            (b2, t2, r2)
        } else {
            let (t3, r3) = remove_links_run(b.config, own, t2);
            if r3 is Err {
                (b2, t3, r3)
            } else {
                let (b4, t4, r4) = remove_plan_run(b2, plan.realm_id, t3);
                if r4 is Err {
                    (b4, t4, r4)
                } else {
                    settle_fabric_run(b4, plan.local_fabric_generation, t4)
                }
            }
        }
    }
}

/// Removes what a plan stands for. A plan that is older than what is realized is stale.
pub open spec fn remove_run(
    b: LinuxFabricBackendView,
    plan: NamespacedRoutedFabricPlanView,
    t: Trace,
) -> (LinuxFabricBackendView, Trace, FabricResult) {
    match b.state.realm(plan.realm_id) {
        None => {
            let (st1, t1, r1) = remove_fabric_run(
                b.config,
                b.state,
                plan.local_fabric_generation,
                t,
            );
            (b.with_state(st1), t1, lifted(r1))
        },
        Some(own) => if plan.directory_generation < own.directory_generation
            || plan.local_fabric_generation < own.local_fabric_generation {
            (b, t, Err(Stop::Failed(FabricError::StaleGeneration)))
        } else {
            let (b1, t1, r1) = remove_realm_run(b, plan, own, t);
            (b1, t1, lifted(r1))
        },
    }
}

impl LinuxFabricBackend {
    fn remove_links(&self, own: &RealmOwnership, session: &mut Session) -> (r: FabricOutcome)
        ensures
            (final(session)@, r) == remove_links_run(self@.config, own@, old(session)@),
    {
        let bridge = own.bridge.as_str();
        let none: Vec<EndpointTapOwnership> = Vec::new();
        assert(views(none@) =~= Seq::<EndpointTapOwnershipView>::empty());
        match remove_taps(&own.endpoint_taps, &none, bridge, session) {
            Err(stop) => return Err(stop),
            Ok(_) => {},
        }
        match remove_taps(&own.pending_endpoint_taps, &own.endpoint_taps, bridge, session) {
            Err(stop) => return Err(stop),
            Ok(_) => {},
        }
        let nothing: Vec<GeneveOwnership> = Vec::new();
        assert(views(nothing@) =~= Seq::<GeneveOwnershipView>::empty());
        let ns = own.namespace.as_str();
        match remove_tunnels(&self.config, ns, &own.geneve, &nothing, session) {
            Err(stop) => return Err(stop),
            Ok(_) => {},
        }
        let cs = Commands::none().push(ns_route_flush(ns)).push(
            link_del(own.host_veth.as_str()),
        ).push(link_del(bridge)).push(netns_del(ns));
        session.run_all(&cs, LinuxFabricError::CommandFailed, LinuxFabricError::Storage)
    }

    /// Performs [`remove_plan_run`].
    pub fn remove_plan(&mut self, plan: &NamespacedRoutedFabricPlan, session: &mut Session) -> (r:
        FabricOutcome)
        ensures
            (final(self)@, final(session)@, r) == remove_plan_run(
                old(self)@,
                plan@.realm_id,
                old(session)@,
            ),
    {
        let _ = cut_id(&mut self.plans, plan.realm_id);
        match session.attempt_effect(Effect::RemovePlan) {
            Err(stop) => return Err(stop),
            Ok(_) => {},
        }
        if cut_id(&mut self.state.realms, plan.realm_id) {
            return session.demand(
                Effect::Save,
                LinuxFabricError::Storage,
                LinuxFabricError::Storage,
            );
        }
        assert(self@.state =~= old(self)@.state);
        Ok(())
    }

    fn settle_fabric(&mut self, generation: u64, session: &mut Session) -> (r: FabricOutcome)
        ensures
            (final(self)@, final(session)@, r) == settle_fabric_run(
                old(self)@,
                generation,
                old(session)@,
            ),
    {
        assert(self@.state.realms.len() == self.state.realms@.len());
        if self.state.realms.len() > 0 {
            match self.configure_peers(session) {
                Err(stop) => return Err(stop),
                Ok(_) => {},
            }
        }
        self.remove_fabric_if_unused(generation, session)
    }

    fn remove_realm(
        &mut self,
        plan: &NamespacedRoutedFabricPlan,
        own: &RealmOwnership,
        session: &mut Session,
    ) -> (r: FabricOutcome)
        ensures
            (final(self)@, final(session)@, r) == remove_realm_run(
                old(self)@,
                plan@,
                own@,
                old(session)@,
            ),
    {
        match self.remove_public(plan, session) {
            Err(stop) => return Err(stop),
            Ok(_) => {},
        }
        match self.remove_policy(plan, session) {
            Err(stop) => return Err(stop),
            Ok(_) => {},
        }
        match self.remove_links(own, session) {
            Err(stop) => return Err(stop),
            Ok(_) => {},
        }
        match self.remove_plan(plan, session) {
            Err(stop) => return Err(stop),
            Ok(_) => {},
        }
        self.settle_fabric(plan.local_fabric_generation, session)
    }

    /// Performs [`remove_run`].
    pub fn remove(&mut self, plan: &NamespacedRoutedFabricPlan, session: &mut Session) -> (r:
        FabricResult)
        ensures
            (final(self)@, final(session)@, r) == remove_run(old(self)@, plan@, old(session)@),
    {
        let own = match find_id(&self.state.realms, plan.realm_id) {
            None => {
                return lift(self.remove_fabric_if_unused(plan.local_fabric_generation, session));
            },
            Some(i) => self.state.realms[i].copy(),
        };
        if plan.directory_generation < own.directory_generation || plan.local_fabric_generation
            < own.local_fabric_generation {
            return Err(Stop::Failed(FabricError::StaleGeneration));
        }
        lift(self.remove_realm(plan, &own, session))
    }

    /// Tells whether a plan is realized: its realm is recorded, the namespace is there, and the
    /// plan is the one that was applied last.
    pub fn observe(&self, plan: &NamespacedRoutedFabricPlan, session: &mut Session) -> (r: Result<
        bool,
        Stop<FabricError>,
    >)
        ensures
            match self@.state.realm(plan@.realm_id) {
                None => final(session)@ == old(session)@ && r == Ok::<bool, Stop<FabricError>>(
                    false,
                ),
                Some(own) => {
                    &&& final(session)@ == old(session)@.after(
                        EffectView::Query(ns_probe_cmd(own.namespace)),
                    )
                    &&& match queried(
                        old(session)@.reply(),
                        FabricError::Backend(LinuxFabricError::Storage),
                    ) {
                        Err(stop) => r == Err::<bool, Stop<FabricError>>(stop),
                        Ok((exists, _)) => r == Ok::<bool, Stop<FabricError>>(
                            exists && id_get::<NamespacedRoutedFabricPlan>(
                                self@.plans,
                                plan@.realm_id,
                            ) == Some(plan@),
                        ),
                    }
                },
            },
    {
        match find_id(&self.state.realms, plan.realm_id) {
            None => Ok(false),
            Some(i) => {
                let probe = ns_probe(self.state.realms[i].namespace.as_str());
                match session.query(probe, FabricError::Backend(LinuxFabricError::Storage)) {
                    Err(stop) => Err(stop),
                    Ok((exists, _)) => match find_id(&self.plans, plan.realm_id) {
                        None => Ok(false),
                        Some(k) => Ok(exists && self.plans[k].same_as(plan)),
                    },
                }
            },
        }
    }

    /// Tells whether nothing of a plan is recorded.
    pub fn observe_removed(&self, plan: &NamespacedRoutedFabricPlan) -> (r: bool)
        ensures
            r == is_removed(self@, plan@.realm_id),
    {
        find_id(&self.state.realms, plan.realm_id).is_none() && find_id(
            &self.plans,
            plan.realm_id,
        ).is_none()
    }
}

/// Whether nothing of a realm is recorded.
pub open spec fn is_removed(b: LinuxFabricBackendView, realm_id: u128) -> bool {
    &&& b.state.realm(realm_id) is None
    &&& id_get::<NamespacedRoutedFabricPlan>(b.plans, realm_id) is None
}

// ---------------------------------------------------------------------------
// Opening
// ---------------------------------------------------------------------------

/// Whether the record of the fabric fits the settings.
pub open spec fn fabric_record_valid(cfg: LinuxFabricConfigView, f: FabricOwnershipView) -> bool {
    &&& f.namespace == cfg.fabric_namespace
    &&& f.interface == cfg.fabric_interface
    &&& !is_unspecified(f.fabric_transport_ip)
    &&& !is_loopback(f.fabric_transport_ip)
    &&& f.fabric_generation != 0
    &&& is_parent(cfg.root, f.private_key_path)
}

fn fabric_record_ok(cfg: &LinuxFabricConfig, f: &FabricOwnership) -> (r: bool)
    ensures
        r == fabric_record_valid(cfg@, f@),
{
    same(f.namespace.as_str(), cfg.fabric_namespace.as_str()) && same(
        f.interface.as_str(),
        cfg.fabric_interface.as_str(),
    ) && !is_unusable_transport(f.fabric_transport_ip) && f.fabric_generation != 0 && parent_is(
        cfg.root.as_str(),
        f.private_key_path.as_str(),
    )
}

/// Whether a plan has a peer with the given name and address.
pub open spec fn has_peer(peers: Seq<FabricPeerView>, host: Seq<char>, ip: u32) -> bool {
    exists|i: int|
        0 <= i < peers.len() && (#[trigger] peers[i]).host_id == host
            && peers[i].fabric_transport_ip == ip
}

fn plan_has_peer(peers: &Vec<FabricPeer>, host: &str, ip: u32) -> (r: bool)
    ensures
        r == has_peer(views(peers@), host@, ip),
{
    let ghost ps = views(peers@);
    for i in 0..peers.len()
        invariant
            ps == views(peers@),
            forall|k: int|
                0 <= k < i ==> !((#[trigger] ps[k]).host_id == host@ && ps[k].fabric_transport_ip
                    == ip),
    {
        assert(ps[i as int] == peers@[i as int]@);
        if same(peers[i].host_id.as_str(), host) && peers[i].fabric_transport_ip == ip {
            return true;
        }
    }
    false
}

/// Whether the record of a tunnel fits the plan of its realm.
pub open spec fn tunnel_record_valid(
    g: GeneveOwnershipView,
    plan: NamespacedRoutedFabricPlanView,
) -> bool {
    &&& is_name(g.interface)
    &&& !is_unspecified(g.remote_transport_ip)
    &&& !is_loopback(g.remote_transport_ip)
    &&& 0 < g.vni <= 0x000f_ffff
    &&& g.binding_generation != 0
    &&& g.vni == plan.encapsulation.provider_segment_id
    &&& g.binding_generation == plan.encapsulation.binding_generation
    &&& is_mac(g.local_tunnel_mac)
    &&& is_mac(g.remote_tunnel_mac)
    &&& is_name(g.bridge)
    &&& is_name(g.realm_veth)
    &&& is_name(g.fabric_veth)
    &&& has_peer(plan.peers, g.target_host, g.remote_transport_ip)
}

fn tunnel_record_ok(g: &GeneveOwnership, plan: &NamespacedRoutedFabricPlan) -> (r: bool)
    ensures
        r == tunnel_record_valid(g@, plan@),
{
    valid_name(g.interface.as_str()) && !is_unusable_transport(g.remote_transport_ip) && g.vni != 0
        && g.vni <= 0x000f_ffff && g.binding_generation != 0 && g.vni
        == plan.encapsulation.provider_segment_id && g.binding_generation
        == plan.encapsulation.binding_generation && valid_mac(g.local_tunnel_mac.as_str())
        && valid_mac(g.remote_tunnel_mac.as_str()) && valid_name(g.bridge.as_str()) && valid_name(
        g.realm_veth.as_str(),
    ) && valid_name(g.fabric_veth.as_str()) && plan_has_peer(
        &plan.peers,
        g.target_host.as_str(),
        g.remote_transport_ip,
    )
}

/// Whether the record of what connects a tunnel to its realm is complete and has its tunnel.
pub open spec fn attachment_record_valid(
    a: FabricAttachmentOwnershipView,
    geneve: Seq<GeneveOwnershipView>,
) -> bool {
    &&& is_name(a.bridge)
    &&& is_name(a.realm_veth)
    &&& is_name(a.fabric_veth)
    &&& is_mac(a.local_tunnel_mac)
    &&& is_mac(a.remote_tunnel_mac)
    &&& name_get::<GeneveOwnership>(geneve, a.target_host) is Some
}

fn attachment_record_ok(a: &FabricAttachmentOwnership, geneve: &Vec<GeneveOwnership>) -> (r: bool)
    ensures
        r == attachment_record_valid(a@, views(geneve@)),
{
    valid_name(a.bridge.as_str()) && valid_name(a.realm_veth.as_str()) && valid_name(
        a.fabric_veth.as_str(),
    ) && valid_mac(a.local_tunnel_mac.as_str()) && valid_mac(a.remote_tunnel_mac.as_str())
        && find_name(geneve, a.target_host.as_str()).is_some()
}

/// Whether the record of a tap device is complete.
pub open spec fn tap_record_valid(tap: EndpointTapOwnershipView) -> bool {
    &&& is_name(tap.interface)
    &&& is_mac(tap.mac)
    &&& starts_with(tap.interface, "o3k-t-"@)
}

/// Whether the records of tap devices are complete.
pub open spec fn tap_records_valid(taps: Seq<EndpointTapOwnershipView>) -> bool {
    forall|i: int| 0 <= i < taps.len() ==> tap_record_valid(#[trigger] taps[i])
}

fn tap_records_ok(taps: &Vec<EndpointTapOwnership>) -> (r: bool)
    ensures
        r == tap_records_valid(views(taps@)),
{
    let ghost ts = views(taps@);
    for i in 0..taps.len()
        invariant
            ts == views(taps@),
            forall|k: int| 0 <= k < i ==> tap_record_valid(#[trigger] ts[k]),
    {
        assert(ts[i as int] == taps@[i as int]@);
        if !(valid_name(taps[i].interface.as_str()) && valid_mac(taps[i].mac.as_str())
            && text_starts_with(taps[i].interface.as_str(), "o3k-t-")) {
            assert(!tap_record_valid(ts[i as int]));
            return false;
        }
    }
    true
}

/// Whether the record of a realm fits the plan that was applied last.
pub open spec fn realm_record_valid(
    own: RealmOwnershipView,
    plan: NamespacedRoutedFabricPlanView,
) -> bool {
    &&& plan.directory_generation == own.directory_generation
    &&& plan.local_fabric_generation == own.local_fabric_generation
    &&& forall|i: int|
        0 <= i < own.geneve.len() ==> tunnel_record_valid(#[trigger] own.geneve[i], plan)
    &&& forall|i: int|
        0 <= i < own.attachments.len() ==> attachment_record_valid(
            #[trigger] own.attachments[i],
            own.geneve,
        )
    &&& tap_records_valid(own.endpoint_taps)
    &&& tap_records_valid(own.pending_endpoint_taps)
    &&& own.policy_generation == 0 ==> own.policy_fingerprint.len() == 0
    &&& own.public_generation == 0 ==> own.public_fingerprint.len() == 0
    &&& own.public_generation != 0 ==> own.public_mark != 0 && own.public_route_table != 0
}

fn realm_record_ok(own: &RealmOwnership, plan: &NamespacedRoutedFabricPlan) -> (r: bool)
    ensures
        r == realm_record_valid(own@, plan@),
{
    if plan.directory_generation != own.directory_generation || plan.local_fabric_generation
        != own.local_fabric_generation {
        return false;
    }
    let ghost gs = own@.geneve;
    for i in 0..own.geneve.len()
        invariant
            gs == own@.geneve,
            gs == views(own.geneve@),
            forall|k: int| 0 <= k < i ==> tunnel_record_valid(#[trigger] gs[k], plan@),
    {
        assert(gs[i as int] == own.geneve@[i as int]@);
        if !tunnel_record_ok(&own.geneve[i], plan) {
            assert(!tunnel_record_valid(gs[i as int], plan@));
            return false;
        }
    }
    let ghost ats = own@.attachments;
    for i in 0..own.attachments.len()
        invariant
            ats == own@.attachments,
            ats == views(own.attachments@),
            forall|k: int|
                0 <= k < i ==> attachment_record_valid(#[trigger] ats[k], own@.geneve),
    {
        assert(ats[i as int] == own.attachments@[i as int]@);
        if !attachment_record_ok(&own.attachments[i], &own.geneve) {
            assert(!attachment_record_valid(ats[i as int], own@.geneve));
            return false;
        }
    }
    let taps = tap_records_ok(&own.endpoint_taps);
    let pending = tap_records_ok(&own.pending_endpoint_taps);
    let policy = own.policy_generation != 0 || own.policy_fingerprint.as_str().is_empty();
    let public = (own.public_generation != 0 || own.public_fingerprint.as_str().is_empty()) && (
    own.public_generation == 0 || (own.public_mark != 0 && own.public_route_table != 0));
    taps && pending && policy && public
}

/// Whether every recorded realm fits the plan that was applied last for it.
pub open spec fn realm_records_valid(b: LinuxFabricBackendView) -> bool {
    forall|i: int|
        0 <= i < b.state.realms.len() ==> {
            &&& id_get::<NamespacedRoutedFabricPlan>(
                b.plans,
                (#[trigger] b.state.realms[i]).realm_id,
            ) matches Some(plan)
            &&& realm_record_valid(b.state.realms[i], plan)
        }
}

/// Checks a record that was read back. The private key file that it names has to be there, to be
/// private and to hold a key. `keyed` says whether every entry of the record stood under its own
/// key.
pub open spec fn validate_loaded_run(b: LinuxFabricBackendView, keyed: bool, t: Trace) -> (
    Trace,
    FabricOutcome,
) {
    let corrupt: FabricOutcome = Err(Stop::Failed(LinuxFabricError::CorruptState));
    let io = LinuxFabricError::Storage;
    let realms: FabricOutcome = if keyed && realm_records_valid(b) {
        Ok(())
    } else {
        corrupt
    };
    if b.state.version != STATE_VERSION {
        (t, corrupt)
    } else {
        match b.state.fabric {
            None => (t, realms),
            Some(f) => if !fabric_record_valid(b.config, f) {
                (t, corrupt)
            } else {
                let t1 = t.after(EffectView::ReadKey(f.private_key_path));
                match key_read(t.reply(), io) {
                    Err(stop) => (t1, Err(stop)),
                    Ok(None) => (t1, Err(Stop::Failed(io))),
                    Ok(Some((private, key))) => if private && is_wireguard_key(trim(key)) {
                        (t1, realms)
                    } else {
                        (t1, Err(Stop::Failed(LinuxFabricError::ForeignState)))
                    },
                }
            },
        }
    }
}

impl LinuxFabricBackend {
    fn realm_records_ok(&self) -> (r: bool)
        ensures
            r == realm_records_valid(self@),
    {
        let ghost rs = self@.state.realms;
        for i in 0..self.state.realms.len()
            invariant
                rs == self@.state.realms,
                rs == views(self.state.realms@),
                forall|k: int|
                    0 <= k < i ==> {
                        &&& id_get::<NamespacedRoutedFabricPlan>(
                            self@.plans,
                            (#[trigger] rs[k]).realm_id,
                        ) matches Some(plan)
                        &&& realm_record_valid(rs[k], plan)
                    },
        {
            assert(rs[i as int] == self.state.realms@[i as int]@);
            match find_id(&self.plans, self.state.realms[i].realm_id) {
                None => return false,
                Some(k) => {
                    if !realm_record_ok(&self.state.realms[i], &self.plans[k]) {
                        return false;
                    }
                },
            }
        }
        true
    }

    /// Performs [`validate_loaded_run`].
    pub fn validate_loaded_state(&self, keyed: bool, session: &mut Session) -> (r: FabricOutcome)
        ensures
            (final(session)@, r) == validate_loaded_run(self@, keyed, old(session)@),
    {
        let corrupt: FabricOutcome = Err(Stop::Failed(LinuxFabricError::CorruptState));
        if self.state.version != STATE_VERSION {
            return corrupt;
        }
        match &self.state.fabric {
            None => {},
            Some(f) => {
                if !fabric_record_ok(&self.config, f) {
                    return corrupt;
                }
                match session.read_key(f.private_key_path.as_str(), LinuxFabricError::Storage) {
                    Err(stop) => return Err(stop),
                    Ok(None) => return Err(Stop::Failed(LinuxFabricError::Storage)),
                    Ok(Some((private, key))) => {
                        if !(private && valid_wireguard_key(trim_of(key.as_str()).as_str())) {
                            return Err(Stop::Failed(LinuxFabricError::ForeignState));
                        }
                    },
                }
            },
        }
        if keyed && self.realm_records_ok() {
            Ok(())
        } else {
            corrupt
        }
    }

    /// Opens the fabric with a record and plans that were read back. `keyed` says whether every
    /// entry of the record stood under its own key: see [`crate::table::restore_ids`] and
    /// [`crate::table::restore_names`].
    pub fn open(
        config: LinuxFabricConfig,
        state: ProviderState,
        keyed: bool,
        plans: Vec<NamespacedRoutedFabricPlan>,
        session: &mut Session,
    ) -> (r: Result<LinuxFabricBackend, Stop<LinuxFabricError>>)
        ensures
            ({
                let b = LinuxFabricBackendView {
                    config: config@,
                    state: state@,
                    plans: views(plans@),
                };
                if !config@.valid() {
                    &&& final(session)@ == old(session)@
                    &&& r matches Err(stop)
                    &&& stop == Stop::Failed(LinuxFabricError::InvalidConfiguration)
                } else {
                    let (t1, r1) = validate_loaded_run(b, keyed, old(session)@);
                    &&& final(session)@ == t1
                    &&& match r1 {
                        Ok(_) => r matches Ok(opened) && opened@ == b,
                        Err(stop) => r matches Err(e) && e == stop,
                    }
                }
            }),
    {
        match config.validate() {
            Err(e) => return Err(Stop::Failed(e)),
            Ok(_) => {},
        }
        let b = LinuxFabricBackend { config, state, plans };
        match b.validate_loaded_state(keyed, session) {
            Err(stop) => Err(stop),
            Ok(_) => Ok(b),
        }
    }
}

} // verus!
