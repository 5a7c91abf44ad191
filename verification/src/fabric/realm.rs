//! What a realm has on the host: its namespace, bridge and links, the taps of its local
//! endpoints and the routes to the others.
use super::backend::{FabricOutcome, LinuxFabricBackend};
use super::commands::{
    bridge_add, bridge_add_cmd, link_join, link_join_cmd, link_mtu, link_mtu_cmd, link_show,
    link_show_cmd, link_start, link_start_cmd, link_to_ns, link_to_ns_cmd, netns_add, netns_add_cmd,
    netns_delete, netns_delete_cmd, ns_addr_replace, ns_addr_replace_cmd, ns_link_mtu,
    ns_link_mtu_cmd, ns_link_start, ns_link_start_cmd, ns_neigh_permanent, ns_neigh_permanent_cmd,
    ns_neigh_proxy, ns_neigh_proxy_cmd, ns_probe, ns_probe_cmd, ns_route_replace,
    ns_route_replace_cmd, ns_sysctl_write, ns_sysctl_write_cmd, sysctl_write, sysctl_write_cmd,
    veth_add, veth_add_cmd,
};
use super::config::{LinuxFabricConfigView, LinuxFabricError};
use super::naming::{realm_name, realm_name_text};
use super::plan::{
    FabricEndpointRouteView, NamespacedRoutedFabricPlan, NamespacedRoutedFabricPlanView,
};
use super::state::{
    FabricAttachmentOwnership, ProviderStateView, RealmOwnership, RealmOwnershipView,
};
use crate::ipv4::{ipv4_of, ipv4_text};
use crate::model::{copy_list, copy_plain, views, Model};
use crate::render::{decimal, decimal_of};
use crate::session::{
    attempted, demanded, queried, run_all, CommandView, Commands, Effect, EffectView, Session, Stop,
    Trace,
};
use crate::table::{cut_id, find_id, find_name, name_get, put_id};
use crate::text::{join, join3, same};
use vstd::prelude::*;

verus! {

// ---------------------------------------------------------------------------
// The record of a realm
// ---------------------------------------------------------------------------

/// The record of a realm of which nothing is realized yet.
pub open spec fn new_realm(plan: NamespacedRoutedFabricPlanView) -> RealmOwnershipView {
    let id = plan.realm_id;
    RealmOwnershipView {
        realm_id: id,
        namespace: realm_name_text("o3k-r-"@, id),
        bridge: realm_name_text("o3k-b-"@, id),
        host_veth: realm_name_text("o3k-h-"@, id),
        realm_veth: realm_name_text("o3k-n-"@, id),
        fabric_veth: realm_name_text("o3k-f-"@, id),
        fabric_realm_veth: realm_name_text("o3k-x-"@, id),
        public_host_veth: realm_name_text("o3k-p-"@, id),
        public_realm_veth: realm_name_text("o3k-q-"@, id),
        geneve: Seq::empty(),
        attachments: Seq::empty(),
        endpoint_taps: Seq::empty(),
        pending_endpoint_taps: Seq::empty(),
        policy_generation: 0,
        policy_fingerprint: Seq::empty(),
        public_generation: 0,
        public_fingerprint: Seq::empty(),
        public_mark: 0,
        public_route_table: 0,
        public_addresses: Seq::empty(),
        directory_generation: plan.directory_generation,
        local_fabric_generation: plan.local_fabric_generation,
    }
}

/// Computes [`new_realm`].
pub fn realm_ownership(plan: &NamespacedRoutedFabricPlan) -> (r: RealmOwnership)
    ensures
        r@ == new_realm(plan@),
{
    let id: u128 = plan.realm_id;
    let r = RealmOwnership {
        realm_id: id,
        namespace: realm_name("o3k-r-", id),
        bridge: realm_name("o3k-b-", id),
        host_veth: realm_name("o3k-h-", id),
        realm_veth: realm_name("o3k-n-", id),
        fabric_veth: realm_name("o3k-f-", id),
        fabric_realm_veth: realm_name("o3k-x-", id),
        public_host_veth: realm_name("o3k-p-", id),
        public_realm_veth: realm_name("o3k-q-", id),
        geneve: Vec::new(),
        attachments: Vec::new(),
        endpoint_taps: Vec::new(),
        pending_endpoint_taps: Vec::new(),
        policy_generation: 0,
        policy_fingerprint: String::new(),
        public_generation: 0,
        public_fingerprint: String::new(),
        public_mark: 0,
        public_route_table: 0,
        public_addresses: Vec::new(),
        directory_generation: plan.directory_generation,
        local_fabric_generation: plan.local_fabric_generation,
    };
    assert(r@ =~= new_realm(plan@));
    r
}

/// The record of a realm under a new plan: what is realized is carried over.
pub open spec fn carried_realm(
    prior: RealmOwnershipView,
    plan: NamespacedRoutedFabricPlanView,
) -> RealmOwnershipView {
    let fresh = new_realm(plan);
    RealmOwnershipView {
        geneve: prior.geneve,
        attachments: prior.attachments,
        endpoint_taps: prior.endpoint_taps,
        pending_endpoint_taps: prior.pending_endpoint_taps,
        policy_generation: prior.policy_generation,
        policy_fingerprint: prior.policy_fingerprint,
        public_host_veth: if prior.public_host_veth.len() > 0 {
            prior.public_host_veth
        } else {
            fresh.public_host_veth
        },
        public_realm_veth: if prior.public_realm_veth.len() > 0 {
            prior.public_realm_veth
        } else {
            fresh.public_realm_veth
        },
        public_generation: prior.public_generation,
        public_fingerprint: prior.public_fingerprint,
        public_mark: prior.public_mark,
        public_route_table: prior.public_route_table,
        public_addresses: prior.public_addresses,
        ..fresh
    }
}

fn carry_realm(prior: &RealmOwnership, plan: &NamespacedRoutedFabricPlan) -> (r: RealmOwnership)
    ensures
        r@ == carried_realm(prior@, plan@),
{
    let fresh = realm_ownership(plan);
    let mut r = RealmOwnership {
        geneve: copy_list(&prior.geneve),
        attachments: copy_list(&prior.attachments),
        endpoint_taps: copy_list(&prior.endpoint_taps),
        pending_endpoint_taps: copy_list(&prior.pending_endpoint_taps),
        policy_generation: prior.policy_generation,
        policy_fingerprint: prior.policy_fingerprint.clone(),
        public_generation: prior.public_generation,
        public_fingerprint: prior.public_fingerprint.clone(),
        public_mark: prior.public_mark,
        public_route_table: prior.public_route_table,
        public_addresses: copy_plain(&prior.public_addresses),
        ..fresh
    };
    if !prior.public_host_veth.as_str().is_empty() {
        r.public_host_veth = prior.public_host_veth.clone();
    }
    if !prior.public_realm_veth.as_str().is_empty() {
        r.public_realm_veth = prior.public_realm_veth.clone();
    }
    r
}

/// Whether a recorded realm can go over to a new record: its names are the same and its plan is
/// not older.
pub open spec fn realm_compatible(prior: RealmOwnershipView, new: RealmOwnershipView) -> bool {
    &&& prior.namespace == new.namespace
    &&& prior.bridge == new.bridge
    &&& prior.host_veth == new.host_veth
    &&& prior.realm_veth == new.realm_veth
    &&& prior.fabric_veth == new.fabric_veth
    &&& prior.fabric_realm_veth == new.fabric_realm_veth
    &&& prior.public_host_veth == new.public_host_veth
    &&& prior.public_realm_veth == new.public_realm_veth
    &&& new.directory_generation >= prior.directory_generation
    &&& new.local_fabric_generation >= prior.local_fabric_generation
}

fn compatible(prior: &RealmOwnership, new: &RealmOwnership) -> (r: bool)
    ensures
        r == realm_compatible(prior@, new@),
{
    same(prior.namespace.as_str(), new.namespace.as_str()) && same(
        prior.bridge.as_str(),
        new.bridge.as_str(),
    ) && same(prior.host_veth.as_str(), new.host_veth.as_str()) && same(
        prior.realm_veth.as_str(),
        new.realm_veth.as_str(),
    ) && same(prior.fabric_veth.as_str(), new.fabric_veth.as_str()) && same(
        prior.fabric_realm_veth.as_str(),
        new.fabric_realm_veth.as_str(),
    ) && same(prior.public_host_veth.as_str(), new.public_host_veth.as_str()) && same(
        prior.public_realm_veth.as_str(),
        new.public_realm_veth.as_str(),
    ) && new.directory_generation >= prior.directory_generation && new.local_fabric_generation
        >= prior.local_fabric_generation
}

// ---------------------------------------------------------------------------
// Making a realm
// ---------------------------------------------------------------------------

/// The commands that make a realm.
pub open spec fn realm_cmds(own: RealmOwnershipView, fabric_ns: Seq<char>) -> Seq<CommandView> {
    Seq::empty().push(netns_add_cmd(own.namespace)).push(bridge_add_cmd(own.bridge)).push(
        link_start_cmd(own.bridge),
    ).push(veth_add_cmd(own.host_veth, own.realm_veth)).push(
        veth_add_cmd(own.fabric_veth, own.fabric_realm_veth),
    ).push(link_to_ns_cmd(own.realm_veth, own.namespace)).push(
        link_to_ns_cmd(own.fabric_veth, own.namespace),
    ).push(link_to_ns_cmd(own.fabric_realm_veth, fabric_ns)).push(
        link_join_cmd(own.host_veth, own.bridge),
    ).push(link_start_cmd(own.host_veth)).push(
        ns_link_start_cmd(own.namespace, own.realm_veth),
    ).push(ns_link_start_cmd(own.namespace, own.fabric_veth)).push(
        ns_link_start_cmd(fabric_ns, own.fabric_realm_veth),
    ).push(ns_sysctl_write_cmd(own.namespace, "net.ipv4.ip_forward=1"@))
}

fn realm_commands(own: &RealmOwnership, fabric_ns: &str) -> (r: Commands)
    ensures
        r@ == realm_cmds(own@, fabric_ns@),
{
    let ns = own.namespace.as_str();
    let bridge = own.bridge.as_str();
    let host = own.host_veth.as_str();
    let realm = own.realm_veth.as_str();
    let fabric = own.fabric_veth.as_str();
    let far = own.fabric_realm_veth.as_str();
    Commands::none().push(netns_add(ns)).push(bridge_add(bridge)).push(link_start(bridge)).push(
        veth_add(host, realm),
    ).push(veth_add(fabric, far)).push(link_to_ns(realm, ns)).push(link_to_ns(fabric, ns)).push(
        link_to_ns(far, fabric_ns),
    ).push(link_join(host, bridge)).push(link_start(host)).push(ns_link_start(ns, realm)).push(
        ns_link_start(ns, fabric),
    ).push(ns_link_start(fabric_ns, far)).push(ns_sysctl_write(ns, "net.ipv4.ip_forward=1"))
}

/// Stops where one of the links is there already, from the one at `i` on.
pub open spec fn links_absent_run(names: Seq<Seq<char>>, i: int, t: Trace) -> (
    Trace,
    FabricOutcome,
)
    decreases names.len() - i,
{
    if i < 0 || i >= names.len() {
        (t, Ok(()))
    } else {
        let t1 = t.after(EffectView::Query(link_show_cmd(names[i])));
        match queried(t.reply(), LinuxFabricError::Storage) {
            Err(stop) => (t1, Err(stop)),
            Ok((true, _)) => (t1, Err(Stop::Failed(LinuxFabricError::ForeignState))),
            Ok((false, _)) => links_absent_run(names, i + 1, t1),
        }
    }
}

fn links_absent(names: &Vec<String>, session: &mut Session) -> (r: FabricOutcome)
    ensures
        (final(session)@, r) == links_absent_run(views(names@), 0, old(session)@),
{
    let ghost ns = views(names@);
    let ghost start = session@;
    for i in 0..names.len()
        invariant
            ns == views(names@),
            start == old(session)@,
            links_absent_run(ns, 0, start) == links_absent_run(ns, i as int, session@),
    {
        assert(ns[i as int] == names@[i as int]@);
        match session.query(link_show(names[i].as_str()), LinuxFabricError::Storage) {
            Err(stop) => return Err(stop),
            Ok((exists, _)) => {
                if exists {
                    return Err(Stop::Failed(LinuxFabricError::ForeignState));
                }
            },
        }
    }
    Ok(())
}

/// The links of a realm that must not be there before it is made.
pub open spec fn realm_links(own: RealmOwnershipView) -> Seq<Seq<char>> {
    Seq::empty().push(own.bridge).push(own.host_veth).push(own.realm_veth).push(
        own.fabric_veth,
    ).push(own.fabric_realm_veth)
}

fn realm_links_of(own: &RealmOwnership) -> (r: Vec<String>)
    ensures
        views(r@) == realm_links(own@),
{
    let mut v: Vec<String> = Vec::new();
    v.push(own.bridge.clone());
    v.push(own.host_veth.clone());
    v.push(own.realm_veth.clone());
    v.push(own.fabric_veth.clone());
    v.push(own.fabric_realm_veth.clone());
    assert(views(v@) =~= realm_links(own@));
    v
}

/// Makes a realm that is not recorded. Nothing of its names may be there; the record is made
/// durable before the host is changed.
pub open spec fn make_realm_run(
    cfg: LinuxFabricConfigView,
    st: ProviderStateView,
    own: RealmOwnershipView,
    t: Trace,
) -> (ProviderStateView, Trace, FabricOutcome) {
    let io = LinuxFabricError::Storage;
    let t1 = t.after(EffectView::Query(ns_probe_cmd(own.namespace)));
    match queried(t.reply(), io) {
        Err(stop) => (st, t1, Err(stop)),
        Ok((true, _)) => (st, t1, Err(Stop::Failed(LinuxFabricError::ForeignState))),
        Ok((false, _)) => {
            let (t2, r2) = links_absent_run(realm_links(own), 0, t1);
            if r2 is Err {
                (st, t2, r2)
            } else {
                let st1 = st.with_realm(own);
                let t3 = t2.after(EffectView::Save);
                let r3 = demanded(t2.reply(), io, io);
                if r3 is Err {
                    (st1, t3, r3)
                } else {
                    let (t4, r4) = run_all(
                        t3,
                        realm_cmds(own, cfg.fabric_namespace),
                        LinuxFabricError::CommandFailed,
                        io,
                    );
                    (st1, t4, r4)
                }
            }
        },
    }
}

/// The commands that set the MTU of a realm's links.
pub open spec fn realm_mtu_cmds(
    cfg: LinuxFabricConfigView,
    own: RealmOwnershipView,
    plan: NamespacedRoutedFabricPlanView,
) -> Seq<CommandView> {
    let tenant = decimal(plan.tenant_mtu as nat);
    let fabric = decimal(plan.local_fabric_mtu as nat);
    Seq::empty().push(link_mtu_cmd(own.bridge, tenant)).push(
        link_mtu_cmd(own.host_veth, tenant),
    ).push(ns_link_mtu_cmd(own.namespace, own.realm_veth, tenant)).push(
        ns_link_mtu_cmd(own.namespace, own.fabric_veth, fabric),
    ).push(ns_link_mtu_cmd(cfg.fabric_namespace, own.fabric_realm_veth, fabric))
}

/// Gives the realm its gateway address and the MTU of its links. The gateway is the first
/// address behind the network address; a prefix that does not hold it is a conflict.
pub open spec fn address_realm_run(
    cfg: LinuxFabricConfigView,
    own: RealmOwnershipView,
    plan: NamespacedRoutedFabricPlanView,
    t: Trace,
) -> (Trace, FabricOutcome) {
    let failed = LinuxFabricError::CommandFailed;
    let io = LinuxFabricError::Storage;
    let prefix = plan.realm_prefix;
    if prefix.network == u32::MAX || !prefix.has((prefix.network + 1) as u32) {
        (t, Err(Stop::Failed(LinuxFabricError::OwnershipConflict)))
    } else {
        let cidr = ipv4_text((prefix.network + 1) as u32) + "/"@ + decimal(
            prefix.prefix_len as nat,
        );
        let t1 = t.after(
            EffectView::Run(ns_addr_replace_cmd(own.namespace, cidr, own.realm_veth)),
        );
        let r1 = demanded(t.reply(), failed, io);
        if r1 is Err {
            (t1, r1)
        } else {
            let t2 = t1.after(
                EffectView::Run(
                    sysctl_write_cmd("net.ipv4.conf."@ + own.realm_veth + ".proxy_arp=1"@),
                ),
            );
            let r2 = attempted::<LinuxFabricError>(t1.reply());
            if r2 is Err {
                (t2, r2)
            } else {
                run_all(t2, realm_mtu_cmds(cfg, own, plan), failed, io)
            }
        }
    }
}

/// Makes the realm where it is not recorded, and records a changed plan of one that is.
pub open spec fn settle_realm_run(
    cfg: LinuxFabricConfigView,
    st: ProviderStateView,
    own: RealmOwnershipView,
    t: Trace,
) -> (ProviderStateView, Trace, FabricOutcome) {
    match st.realm(own.realm_id) {
        None => make_realm_run(cfg, st, own, t),
        Some(stored) => if stored == own {
            (st, t, Ok(()))
        } else {
            (
                st.with_realm(own),
                t.after(EffectView::Save),
                demanded(t.reply(), LinuxFabricError::Storage, LinuxFabricError::Storage),
            )
        },
    }
}

/// Forgets a recorded realm whose bridge is gone, so that it is made anew.
pub open spec fn forget_lost_realm_run(
    st: ProviderStateView,
    own: RealmOwnershipView,
    t: Trace,
) -> (ProviderStateView, Trace, FabricOutcome) {
    let io = LinuxFabricError::Storage;
    let t1 = t.after(EffectView::Query(link_show_cmd(own.bridge)));
    match queried(t.reply(), io) {
        Err(stop) => (st, t1, Err(stop)),
        Ok((true, _)) => (st, t1, Ok(())),
        Ok((false, _)) => {
            let t2 = t1.after(EffectView::Run(netns_delete_cmd(own.namespace)));
            let r2 = attempted::<LinuxFabricError>(t1.reply());
            if r2 is Err {
                (st, t2, r2)
            } else {
                (
                    st.without_realm(own.realm_id),
                    t2.after(EffectView::Save),
                    demanded(t2.reply(), io, io),
                )
            }
        },
    }
}

/// Makes sure that the realm of a plan is there.
pub open spec fn ensure_realm_run(
    cfg: LinuxFabricConfigView,
    st: ProviderStateView,
    plan: NamespacedRoutedFabricPlanView,
    t: Trace,
) -> (ProviderStateView, Trace, FabricOutcome) {
    let recorded = st.realm(plan.realm_id);
    let own = match recorded {
        Some(prior) => carried_realm(prior, plan),
        None => new_realm(plan),
    };
    if recorded is Some && !realm_compatible(recorded->0, own) {
        (st, t, Err(Stop::Failed(LinuxFabricError::OwnershipConflict)))
    } else {
        let (st1, t1, r1) = if recorded is Some {
            forget_lost_realm_run(st, own, t)
        } else {
            (st, t, Ok(()))
        };
        if r1 is Err {
            (st1, t1, r1)
        } else {
            let (st2, t2, r2) = settle_realm_run(cfg, st1, own, t1);
            if r2 is Err {
                (st2, t2, r2)
            } else {
                let (t3, r3) = address_realm_run(cfg, own, plan, t2);
                (st2, t3, r3)
            }
        }
    }
}

impl LinuxFabricBackend {
    fn make_realm(&mut self, own: &RealmOwnership, session: &mut Session) -> (r: FabricOutcome)
        ensures
            (final(self)@.state, final(session)@, r) == make_realm_run(
                old(self)@.config,
                old(self)@.state,
                own@,
                old(session)@,
            ),
            final(self)@ == old(self)@.with_state(final(self)@.state),
    {
        let io = LinuxFabricError::Storage;
        match session.query(ns_probe(own.namespace.as_str()), io) {
            Err(stop) => return Err(stop),
            Ok((exists, _)) => {
                if exists {
                    return Err(Stop::Failed(LinuxFabricError::ForeignState));
                }
            },
        }
        let names = realm_links_of(own);
        match links_absent(&names, session) {
            Err(stop) => return Err(stop),
            Ok(_) => {},
        }
        put_id(&mut self.state.realms, own.copy());
        match session.demand(Effect::Save, io, io) {
            Err(stop) => return Err(stop),
            Ok(_) => {},
        }
        let cs = realm_commands(own, self.config.fabric_namespace.as_str());
        session.run_all(&cs, LinuxFabricError::CommandFailed, io)
    }

    fn settle_realm(&mut self, own: &RealmOwnership, session: &mut Session) -> (r: FabricOutcome)
        ensures
            (final(self)@.state, final(session)@, r) == settle_realm_run(
                old(self)@.config,
                old(self)@.state,
                own@,
                old(session)@,
            ),
            final(self)@ == old(self)@.with_state(final(self)@.state),
    {
        match find_id(&self.state.realms, own.realm_id) {
            None => self.make_realm(own, session),
            Some(i) => {
                if self.state.realms[i].same_as(own) {
                    return Ok(());
                }
                put_id(&mut self.state.realms, own.copy());
                session.demand(Effect::Save, LinuxFabricError::Storage, LinuxFabricError::Storage)
            },
        }
    }

    fn forget_lost_realm(&mut self, own: &RealmOwnership, session: &mut Session) -> (r:
        FabricOutcome)
        ensures
            (final(self)@.state, final(session)@, r) == forget_lost_realm_run(
                old(self)@.state,
                own@,
                old(session)@,
            ),
            final(self)@ == old(self)@.with_state(final(self)@.state),
    {
        let io = LinuxFabricError::Storage;
        match session.query(link_show(own.bridge.as_str()), io) {
            Err(stop) => return Err(stop),
            Ok((exists, _)) => {
                if exists {
                    return Ok(());
                }
            },
        }
        match session.attempt(netns_delete(own.namespace.as_str())) {
            Err(stop) => return Err(stop),
            Ok(_) => {},
        }
        let _ = cut_id(&mut self.state.realms, own.realm_id);
        session.demand(Effect::Save, io, io)
    }

    fn address_realm(
        &self,
        own: &RealmOwnership,
        plan: &NamespacedRoutedFabricPlan,
        session: &mut Session,
    ) -> (r: FabricOutcome)
        ensures
            (final(session)@, r) == address_realm_run(self@.config, own@, plan@, old(session)@),
    {
        let failed = LinuxFabricError::CommandFailed;
        let io = LinuxFabricError::Storage;
        let prefix = plan.realm_prefix;
        if prefix.network == u32::MAX || !prefix.contains(prefix.network + 1) {
            return Err(Stop::Failed(LinuxFabricError::OwnershipConflict));
        }
        let cidr = join3(
            ipv4_of(prefix.network + 1).as_str(),
            "/",
            decimal_of(prefix.prefix_len as u128).as_str(),
        );
        let ns = own.namespace.as_str();
        match session.demand(
            Effect::Run(ns_addr_replace(ns, cidr.as_str(), own.realm_veth.as_str())),
            failed,
            io,
        ) {
            Err(stop) => return Err(stop),
            Ok(_) => {},
        }
        let setting = join3("net.ipv4.conf.", own.realm_veth.as_str(), ".proxy_arp=1");
        match session.attempt(sysctl_write(setting.as_str())) {
            Err(stop) => return Err(stop),
            Ok(_) => {},
        }
        let tenant = decimal_of(plan.tenant_mtu as u128);
        let fabric = decimal_of(plan.local_fabric_mtu as u128);
        let cs = Commands::none().push(link_mtu(own.bridge.as_str(), tenant.as_str())).push(
            link_mtu(own.host_veth.as_str(), tenant.as_str()),
        ).push(ns_link_mtu(ns, own.realm_veth.as_str(), tenant.as_str())).push(
            ns_link_mtu(ns, own.fabric_veth.as_str(), fabric.as_str()),
        ).push(
            ns_link_mtu(
                self.config.fabric_namespace.as_str(),
                own.fabric_realm_veth.as_str(),
                fabric.as_str(),
            ),
        );
        session.run_all(&cs, failed, io)
    }

    /// Performs [`ensure_realm_run`].
    pub fn ensure_realm(&mut self, plan: &NamespacedRoutedFabricPlan, session: &mut Session) -> (r:
        FabricOutcome)
        ensures
            (final(self)@.state, final(session)@, r) == ensure_realm_run(
                old(self)@.config,
                old(self)@.state,
                plan@,
                old(session)@,
            ),
            final(self)@ == old(self)@.with_state(final(self)@.state),
    {
        let own = match find_id(&self.state.realms, plan.realm_id) {
            Some(i) => {
                let own = carry_realm(&self.state.realms[i], plan);
                if !compatible(&self.state.realms[i], &own) {
                    return Err(Stop::Failed(LinuxFabricError::OwnershipConflict));
                }
                match self.forget_lost_realm(&own, session) {
                    Err(stop) => return Err(stop),
                    Ok(_) => {},
                }
                own
            },
            None => realm_ownership(plan),
        };
        match self.settle_realm(&own, session) {
            Err(stop) => return Err(stop),
            Ok(_) => {},
        }
        self.address_realm(&own, plan, session)
    }
}

// ---------------------------------------------------------------------------
// Routes to endpoints on other hosts
// ---------------------------------------------------------------------------

/// The commands that route one endpoint on another host.
pub open spec fn route_cmds(
    own: RealmOwnershipView,
    route: FabricEndpointRouteView,
    veth: Seq<char>,
    mac: Seq<char>,
) -> Seq<CommandView> {
    let addr = ipv4_text(route.destination.network);
    Seq::empty().push(ns_route_replace_cmd(own.namespace, addr + "/32"@, veth)).push(
        ns_neigh_permanent_cmd(own.namespace, addr, mac, veth),
    ).push(ns_neigh_proxy_cmd(own.namespace, addr, own.realm_veth))
}

/// Routes the endpoints on other hosts, from the route at `i` on. A route to a host without an
/// attachment means that the record is corrupt.
pub open spec fn realize_routes_run(
    routes: Seq<FabricEndpointRouteView>,
    own: RealmOwnershipView,
    i: int,
    t: Trace,
) -> (Trace, FabricOutcome)
    decreases routes.len() - i,
{
    if i < 0 || i >= routes.len() {
        (t, Ok(()))
    } else {
        match name_get::<FabricAttachmentOwnership>(own.attachments, routes[i].target_host) {
            None => (t, Err(Stop::Failed(LinuxFabricError::CorruptState))),
            Some(attachment) => {
                let (t1, r1) = run_all(
                    t,
                    route_cmds(
                        own,
                        routes[i],
                        attachment.realm_veth,
                        attachment.remote_tunnel_mac,
                    ),
                    LinuxFabricError::CommandFailed,
                    LinuxFabricError::Storage,
                );
                if r1 is Err {
                    (t1, r1)
                } else {
                    realize_routes_run(routes, own, i + 1, t1)
                }
            },
        }
    }
}

/// Performs [`realize_routes_run`] from the first route on.
pub fn realize_routes(
    plan: &NamespacedRoutedFabricPlan,
    own: &RealmOwnership,
    session: &mut Session,
) -> (r: FabricOutcome)
    ensures
        (final(session)@, r) == realize_routes_run(plan@.routes, own@, 0, old(session)@),
{
    let ghost rs = plan@.routes;
    let ghost start = session@;
    for i in 0..plan.routes.len()
        invariant
            rs == plan@.routes,
            rs == views(plan.routes@),
            start == old(session)@,
            realize_routes_run(rs, own@, 0, start) == realize_routes_run(
                rs,
                own@,
                i as int,
                session@,
            ),
    {
        assert(rs[i as int] == plan.routes@[i as int]@);
        let route = &plan.routes[i];
        match find_name(&own.attachments, route.target_host.as_str()) {
            None => return Err(Stop::Failed(LinuxFabricError::CorruptState)),
            Some(k) => {
                let attachment = &own.attachments[k];
                let addr = ipv4_of(route.destination.network);
                let dest = join(addr.as_str(), "/32");
                let ns = own.namespace.as_str();
                let veth = attachment.realm_veth.as_str();
                let cs = Commands::none().push(ns_route_replace(ns, dest.as_str(), veth)).push(
                    ns_neigh_permanent(
                        ns,
                        addr.as_str(),
                        attachment.remote_tunnel_mac.as_str(),
                        veth,
                    ),
                ).push(ns_neigh_proxy(ns, addr.as_str(), own.realm_veth.as_str()));
                match session.run_all(
                    &cs,
                    LinuxFabricError::CommandFailed,
                    LinuxFabricError::Storage,
                ) {
                    Err(stop) => return Err(stop),
                    Ok(_) => {},
                }
            },
        }
    }
    Ok(())
}

} // verus!
