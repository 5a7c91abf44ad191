//! The tunnels of a realm to other hosts and what connects them to the realm.
use super::backend::{FabricOutcome, LinuxFabricBackend, LinuxFabricBackendView};
use super::commands::{
    fdb_replace, fdb_replace_cmd, geneve_add, geneve_add_cmd, link_to_ns, link_to_ns_cmd,
    ns_bridge_add, ns_bridge_add_cmd, ns_bridge_ports, ns_bridge_ports_cmd, ns_link_address,
    ns_link_address_cmd, ns_link_del, ns_link_del_cmd, ns_link_detail, ns_link_detail_cmd,
    ns_link_master, ns_link_master_cmd, ns_link_mtu, ns_link_mtu_cmd, ns_link_show,
    ns_link_show_cmd, ns_link_start, ns_link_start_cmd, ns_link_up, ns_link_up_cmd, veth_add,
    veth_add_cmd,
};
use super::config::{LinuxFabricConfig, LinuxFabricConfigView, LinuxFabricError};
use super::links::{
    bridge_ports_are_owned, geneve_link_matches, geneve_matches, ports_owned,
};
use super::naming::{
    geneve_bridge_name, geneve_fabric_veth_name, geneve_name, geneve_name_text,
    geneve_realm_veth_name, provider_name_text, tunnel_mac, tunnel_mac_text,
};
use super::plan::{FabricPeerView, NamespacedRoutedFabricPlan, NamespacedRoutedFabricPlanView};
use super::state::{
    FabricAttachmentOwnership, FabricAttachmentOwnershipView, GeneveOwnership, GeneveOwnershipView,
    ProviderStateView, RealmOwnership, RealmOwnershipView,
};
use crate::ipv4::{ipv4_of, ipv4_text};
use crate::model::{copy_list, views, Model};
use crate::render::{decimal, decimal_of};
use crate::session::{
    demanded, queried, run_all, CommandView, Commands, Effect, EffectView, Session, Stop, Trace,
};
use crate::table::{find_id, find_name, name_get, name_put, put_id, put_name};
use crate::text::{contains, same, text_contains};
use vstd::prelude::*;

verus! {

// ---------------------------------------------------------------------------
// Which tunnels are wanted
// ---------------------------------------------------------------------------

/// Whether another realm already uses the segment of a plan.
pub open spec fn segment_taken(
    plans: Seq<NamespacedRoutedFabricPlanView>,
    plan: NamespacedRoutedFabricPlanView,
) -> bool {
    exists|i: int|
        0 <= i < plans.len() && (#[trigger] plans[i]).realm_id != plan.realm_id
            && plans[i].encapsulation.fabric_domain_id == plan.encapsulation.fabric_domain_id
            && plans[i].encapsulation.provider_segment_id == plan.encapsulation.provider_segment_id
}

fn segment_is_taken(
    plans: &Vec<NamespacedRoutedFabricPlan>,
    plan: &NamespacedRoutedFabricPlan,
) -> (r: bool)
    ensures
        r == segment_taken(views(plans@), plan@),
{
    let ghost ps = views(plans@);
    for i in 0..plans.len()
        invariant
            ps == views(plans@),
            forall|k: int|
                0 <= k < i ==> !((#[trigger] ps[k]).realm_id != plan@.realm_id
                    && ps[k].encapsulation.fabric_domain_id == plan@.encapsulation.fabric_domain_id
                    && ps[k].encapsulation.provider_segment_id
                    == plan@.encapsulation.provider_segment_id),
    {
        let other = &plans[i];
        assert(ps[i as int] == plans@[i as int]@);
        if other.realm_id != plan.realm_id && other.encapsulation.fabric_domain_id
            == plan.encapsulation.fabric_domain_id && other.encapsulation.provider_segment_id
            == plan.encapsulation.provider_segment_id {
            return true;
        }
    }
    false
}

/// Whether a plan routes endpoints to a host.
pub open spec fn routes_to(plan: NamespacedRoutedFabricPlanView, host: Seq<char>) -> bool {
    exists|i: int| 0 <= i < plan.routes.len() && (#[trigger] plan.routes[i]).target_host == host
}

fn has_route_to(plan: &NamespacedRoutedFabricPlan, host: &str) -> (r: bool)
    ensures
        r == routes_to(plan@, host@),
{
    let ghost rs = plan@.routes;
    for i in 0..plan.routes.len()
        invariant
            rs == plan@.routes,
            rs == views(plan.routes@),
            forall|k: int| 0 <= k < i ==> (#[trigger] rs[k]).target_host != host@,
    {
        assert(rs[i as int] == plan.routes@[i as int]@);
        if same(plan.routes[i].target_host.as_str(), host) {
            return true;
        }
    }
    false
}

/// Whether the tunnel to a host was realized before.
pub open spec fn was_realized(known: Seq<GeneveOwnershipView>, host: Seq<char>) -> bool {
    name_get::<GeneveOwnership>(known, host) matches Some(g) && g.realized
}

/// The tunnel to a peer.
pub open spec fn tunnel(
    plan: NamespacedRoutedFabricPlanView,
    peer: FabricPeerView,
    realized: bool,
) -> GeneveOwnershipView {
    let id = plan.realm_id;
    GeneveOwnershipView {
        target_host: peer.host_id,
        interface: geneve_name_text(id, peer.host_id),
        remote_transport_ip: peer.fabric_transport_ip,
        vni: plan.encapsulation.provider_segment_id,
        binding_generation: plan.encapsulation.binding_generation,
        local_tunnel_mac: tunnel_mac_text(id, plan.local_host),
        remote_tunnel_mac: tunnel_mac_text(id, peer.host_id),
        bridge: provider_name_text("c"@, id, peer.host_id),
        realm_veth: provider_name_text("e"@, id, peer.host_id),
        fabric_veth: provider_name_text("i"@, id, peer.host_id),
        realized,
    }
}

/// The tunnels to the peers that endpoints are routed to, added to those in `table`, from the
/// peer at `i` on.
pub open spec fn wanted_tunnels(
    table: Seq<GeneveOwnershipView>,
    plan: NamespacedRoutedFabricPlanView,
    known: Seq<GeneveOwnershipView>,
    i: int,
) -> Seq<GeneveOwnershipView>
    decreases plan.peers.len() - i,
{
    if i < 0 || i >= plan.peers.len() {
        table
    } else {
        let peer = plan.peers[i];
        if routes_to(plan, peer.host_id) {
            wanted_tunnels(
                name_put::<GeneveOwnership>(
                    table,
                    tunnel(plan, peer, was_realized(known, peer.host_id)),
                ),
                plan,
                known,
                i + 1,
            )
        } else {
            wanted_tunnels(table, plan, known, i + 1)
        }
    }
}

fn wanted_tunnels_of(plan: &NamespacedRoutedFabricPlan, known: &Vec<GeneveOwnership>) -> (r: Vec<
    GeneveOwnership,
>)
    ensures
        views(r@) == wanted_tunnels(Seq::empty(), plan@, views(known@), 0),
{
    let mut table: Vec<GeneveOwnership> = Vec::new();
    let ghost os = views(known@);
    let ghost ps = plan@.peers;
    assert(views(table@) =~= Seq::<GeneveOwnershipView>::empty());
    for i in 0..plan.peers.len()
        invariant
            os == views(known@),
            ps == plan@.peers,
            ps == views(plan.peers@),
            wanted_tunnels(Seq::empty(), plan@, os, 0) == wanted_tunnels(
                views(table@),
                plan@,
                os,
                i as int,
            ),
    {
        assert(ps[i as int] == plan.peers@[i as int]@);
        let peer = &plan.peers[i];
        let host = peer.host_id.as_str();
        if has_route_to(plan, host) {
            let realized = match find_name(known, host) {
                Some(k) => known[k].realized,
                None => false,
            };
            let id: u128 = plan.realm_id;
            let g = GeneveOwnership {
                target_host: peer.host_id.clone(),
                interface: geneve_name(id, host),
                remote_transport_ip: peer.fabric_transport_ip,
                vni: plan.encapsulation.provider_segment_id,
                binding_generation: plan.encapsulation.binding_generation,
                local_tunnel_mac: tunnel_mac(id, plan.local_host.as_str()),
                remote_tunnel_mac: tunnel_mac(id, host),
                bridge: geneve_bridge_name(id, host),
                realm_veth: geneve_realm_veth_name(id, host),
                fabric_veth: geneve_fabric_veth_name(id, host),
                realized,
            };
            put_name(&mut table, g);
        }
    }
    table
}

// ---------------------------------------------------------------------------
// Removing tunnels
// ---------------------------------------------------------------------------

/// Removes the bridge of a tunnel. A link of its name that is no bridge, or a bridge with other
/// ports, is foreign and stays.
pub open spec fn remove_bridge_run(ns: Seq<char>, g: GeneveOwnershipView, t: Trace) -> (
    Trace,
    FabricOutcome,
) {
    let io = LinuxFabricError::Storage;
    let foreign: FabricOutcome = Err(Stop::Failed(LinuxFabricError::ForeignState));
    let t1 = t.after(EffectView::Query(ns_link_detail_cmd(ns, g.bridge)));
    match queried(t.reply(), io) {
        Err(stop) => (t1, Err(stop)),
        Ok((false, _)) => (t1, Ok(())),
        Ok((true, output)) => if !contains(output, "bridge"@) {
            (t1, foreign)
        } else {
            let t2 = t1.after(EffectView::Query(ns_bridge_ports_cmd(ns, g.bridge)));
            match queried(t1.reply(), io) {
                Err(stop) => (t2, Err(stop)),
                Ok((listed, ports)) => if listed && !ports_owned(ports, g) {
                    (t2, foreign)
                } else {
                    (
                        t2.after(EffectView::Run(ns_link_del_cmd(ns, g.bridge))),
                        demanded(t2.reply(), LinuxFabricError::CommandFailed, io),
                    )
                },
            }
        },
    }
}

fn remove_bridge(ns: &str, g: &GeneveOwnership, session: &mut Session) -> (r: FabricOutcome)
    ensures
        (final(session)@, r) == remove_bridge_run(ns@, g@, old(session)@),
{
    let io = LinuxFabricError::Storage;
    let foreign: FabricOutcome = Err(Stop::Failed(LinuxFabricError::ForeignState));
    match session.query(ns_link_detail(ns, g.bridge.as_str()), io) {
        Err(stop) => return Err(stop),
        Ok((exists, output)) => {
            if !exists {
                return Ok(());
            }
            if !text_contains(output.as_str(), "bridge") {
                return foreign;
            }
        },
    }
    match session.query(ns_bridge_ports(ns, g.bridge.as_str()), io) {
        Err(stop) => return Err(stop),
        Ok((listed, ports)) => {
            if listed && !bridge_ports_are_owned(ports.as_str(), g) {
                return foreign;
            }
        },
    }
    session.demand(
        Effect::Run(ns_link_del(ns, g.bridge.as_str())),
        LinuxFabricError::CommandFailed,
        io,
    )
}

/// Removes what connects a tunnel to its realm.
pub open spec fn remove_attachment_run(
    ns: Seq<char>,
    realm_ns: Seq<char>,
    g: GeneveOwnershipView,
    t: Trace,
) -> (Trace, FabricOutcome) {
    let io = LinuxFabricError::Storage;
    let (t1, r1) = remove_bridge_run(ns, g, t);
    if r1 is Err {
        (t1, r1)
    } else {
        let t2 = t1.after(EffectView::Query(ns_link_show_cmd(realm_ns, g.realm_veth)));
        match queried(t1.reply(), io) {
            Err(stop) => (t2, Err(stop)),
            Ok((false, _)) => (t2, Ok(())),
            Ok((true, _)) => (
                t2.after(EffectView::Run(ns_link_del_cmd(realm_ns, g.realm_veth))),
                demanded(t2.reply(), LinuxFabricError::CommandFailed, io),
            ),
        }
    }
}

/// Performs [`remove_attachment_run`].
pub fn remove_geneve_attachment(
    ns: &str,
    realm_ns: &str,
    g: &GeneveOwnership,
    session: &mut Session,
) -> (r: FabricOutcome)
    ensures
        (final(session)@, r) == remove_attachment_run(ns@, realm_ns@, g@, old(session)@),
{
    let io = LinuxFabricError::Storage;
    match remove_bridge(ns, g, session) {
        Err(stop) => return Err(stop),
        Ok(_) => {},
    }
    match session.query(ns_link_show(realm_ns, g.realm_veth.as_str()), io) {
        Err(stop) => Err(stop),
        Ok((exists, _)) => {
            if !exists {
                return Ok(());
            }
            session.demand(
                Effect::Run(ns_link_del(realm_ns, g.realm_veth.as_str())),
                LinuxFabricError::CommandFailed,
                io,
            )
        },
    }
}

/// Removes a recorded tunnel. A link of its name that does not match the record is foreign and
/// stays.
pub open spec fn remove_tunnel_run(
    cfg: LinuxFabricConfigView,
    realm_ns: Seq<char>,
    g: GeneveOwnershipView,
    t: Trace,
) -> (Trace, FabricOutcome) {
    let io = LinuxFabricError::Storage;
    let ns = cfg.fabric_namespace;
    let (t1, r1) = remove_attachment_run(ns, realm_ns, g, t);
    if r1 is Err {
        (t1, r1)
    } else {
        let t2 = t1.after(EffectView::Query(ns_link_detail_cmd(ns, g.interface)));
        match queried(t1.reply(), io) {
            Err(stop) => (t2, Err(stop)),
            Ok((false, _)) => (t2, Ok(())),
            Ok((true, output)) => if geneve_matches(output, g, cfg.geneve_port) {
                (
                    t2.after(EffectView::Run(ns_link_del_cmd(ns, g.interface))),
                    demanded(t2.reply(), LinuxFabricError::CommandFailed, io),
                )
            } else {
                (t2, Err(Stop::Failed(LinuxFabricError::ForeignState)))
            },
        }
    }
}

/// Performs [`remove_tunnel_run`].
pub fn remove_tunnel(
    cfg: &LinuxFabricConfig,
    realm_ns: &str,
    g: &GeneveOwnership,
    session: &mut Session,
) -> (r: FabricOutcome)
    ensures
        (final(session)@, r) == remove_tunnel_run(cfg@, realm_ns@, g@, old(session)@),
{
    let io = LinuxFabricError::Storage;
    let ns = cfg.fabric_namespace.as_str();
    match remove_geneve_attachment(ns, realm_ns, g, session) {
        Err(stop) => return Err(stop),
        Ok(_) => {},
    }
    match session.query(ns_link_detail(ns, g.interface.as_str()), io) {
        Err(stop) => Err(stop),
        Ok((exists, output)) => {
            if !exists {
                return Ok(());
            }
            if !geneve_link_matches(output.as_str(), g, cfg.geneve_port) {
                return Err(Stop::Failed(LinuxFabricError::ForeignState));
            }
            session.demand(
                Effect::Run(ns_link_del(ns, g.interface.as_str())),
                LinuxFabricError::CommandFailed,
                io,
            )
        },
    }
}

/// Removes the recorded tunnels that are not in `kept`, from the one at `i` on.
pub open spec fn remove_tunnels_run(
    cfg: LinuxFabricConfigView,
    realm_ns: Seq<char>,
    known: Seq<GeneveOwnershipView>,
    kept: Seq<GeneveOwnershipView>,
    i: int,
    t: Trace,
) -> (Trace, FabricOutcome)
    decreases known.len() - i,
{
    if i < 0 || i >= known.len() {
        (t, Ok(()))
    } else if name_get::<GeneveOwnership>(kept, known[i].target_host) is Some {
        remove_tunnels_run(cfg, realm_ns, known, kept, i + 1, t)
    } else {
        let (t1, r1) = remove_tunnel_run(cfg, realm_ns, known[i], t);
        if r1 is Err {
            (t1, r1)
        } else {
            remove_tunnels_run(cfg, realm_ns, known, kept, i + 1, t1)
        }
    }
}

/// Performs [`remove_tunnels_run`] from the first tunnel on.
pub fn remove_tunnels(
    cfg: &LinuxFabricConfig,
    realm_ns: &str,
    known: &Vec<GeneveOwnership>,
    kept: &Vec<GeneveOwnership>,
    session: &mut Session,
) -> (r: FabricOutcome)
    ensures
        (final(session)@, r) == remove_tunnels_run(
            cfg@,
            realm_ns@,
            views(known@),
            views(kept@),
            0,
            old(session)@,
        ),
{
    let ghost os = views(known@);
    let ghost start = session@;
    for i in 0..known.len()
        invariant
            os == views(known@),
            start == old(session)@,
            remove_tunnels_run(cfg@, realm_ns@, os, views(kept@), 0, start) == remove_tunnels_run(
                cfg@,
                realm_ns@,
                os,
                views(kept@),
                i as int,
                session@,
            ),
    {
        assert(os[i as int] == known@[i as int]@);
        if find_name(kept, known[i].target_host.as_str()).is_none() {
            match remove_tunnel(cfg, realm_ns, &known[i], session) {
                Err(stop) => return Err(stop),
                Ok(_) => {},
            }
        }
    }
    Ok(())
}

// ---------------------------------------------------------------------------
// Checking tunnels
// ---------------------------------------------------------------------------

/// Two records of a tunnel that differ at most in whether it is realized.
pub open spec fn same_tunnel(a: GeneveOwnershipView, b: GeneveOwnershipView) -> bool {
    a == (GeneveOwnershipView { realized: a.realized, ..b })
}

fn is_same_tunnel(a: &GeneveOwnership, b: &GeneveOwnership) -> (r: bool)
    ensures
        r == same_tunnel(a@, b@),
{
    same(a.target_host.as_str(), b.target_host.as_str()) && same(
        a.interface.as_str(),
        b.interface.as_str(),
    ) && a.remote_transport_ip == b.remote_transport_ip && a.vni == b.vni && a.binding_generation
        == b.binding_generation && same(a.local_tunnel_mac.as_str(), b.local_tunnel_mac.as_str())
        && same(a.remote_tunnel_mac.as_str(), b.remote_tunnel_mac.as_str()) && same(
        a.bridge.as_str(),
        b.bridge.as_str(),
    ) && same(a.realm_veth.as_str(), b.realm_veth.as_str()) && same(
        a.fabric_veth.as_str(),
        b.fabric_veth.as_str(),
    )
}

/// Compares the wanted tunnels, from the one at `i` on, with the record and with the host. What
/// comes out are the wanted tunnels; those whose link is not there are marked as not realized.
pub open spec fn check_tunnels_run(
    cfg: LinuxFabricConfigView,
    known: Seq<GeneveOwnershipView>,
    wanted: Seq<GeneveOwnershipView>,
    i: int,
    t: Trace,
) -> (Seq<GeneveOwnershipView>, Trace, FabricOutcome)
    decreases wanted.len() - i,
{
    if i < 0 || i >= wanted.len() {
        (wanted, t, Ok(()))
    } else {
        let g = wanted[i];
        let recorded = name_get::<GeneveOwnership>(known, g.target_host);
        if recorded is Some && !same_tunnel(recorded->0, g) {
            (wanted, t, Err(Stop::Failed(LinuxFabricError::OwnershipConflict)))
        } else {
            let t1 = t.after(
                EffectView::Query(ns_link_detail_cmd(cfg.fabric_namespace, g.interface)),
            );
            match queried(t.reply(), LinuxFabricError::Storage) {
                Err(stop) => (wanted, t1, Err(stop)),
                Ok((true, output)) => if geneve_matches(output, g, cfg.geneve_port) {
                    check_tunnels_run(cfg, known, wanted, i + 1, t1)
                } else {
                    (wanted, t1, Err(Stop::Failed(LinuxFabricError::ForeignState)))
                },
                Ok((false, _)) => check_tunnels_run(
                    cfg,
                    known,
                    wanted.update(i, GeneveOwnershipView { realized: false, ..g }),
                    i + 1,
                    t1,
                ),
            }
        }
    }
}

fn check_tunnels(
    cfg: &LinuxFabricConfig,
    known: &Vec<GeneveOwnership>,
    wanted: &mut Vec<GeneveOwnership>,
    session: &mut Session,
) -> (r: FabricOutcome)
    ensures
        (views(final(wanted)@), final(session)@, r) == check_tunnels_run(
            cfg@,
            views(known@),
            views(old(wanted)@),
            0,
            old(session)@,
        ),
{
    let ghost start = session@;
    let ghost ws = views(wanted@);
    let ghost os = views(known@);
    let n: usize = wanted.len();
    for i in 0..n
        invariant
            os == views(known@),
            ws == views(old(wanted)@),
            n == wanted.len(),
            start == old(session)@,
            check_tunnels_run(cfg@, os, ws, 0, start) == check_tunnels_run(
                cfg@,
                os,
                views(wanted@),
                i as int,
                session@,
            ),
    {
        let ghost before = views(wanted@);
        assert(before[i as int] == wanted@[i as int]@);
        match find_name(known, wanted[i].target_host.as_str()) {
            Some(k) => {
                if !is_same_tunnel(&known[k], &wanted[i]) {
                    return Err(Stop::Failed(LinuxFabricError::OwnershipConflict));
                }
            },
            None => {},
        }
        let detail = ns_link_detail(cfg.fabric_namespace.as_str(), wanted[i].interface.as_str());
        match session.query(detail, LinuxFabricError::Storage) {
            Err(stop) => return Err(stop),
            Ok((exists, output)) => {
                if exists {
                    if !geneve_link_matches(output.as_str(), &wanted[i], cfg.geneve_port) {
                        return Err(Stop::Failed(LinuxFabricError::ForeignState));
                    }
                } else {
                    let mut g = wanted[i].copy();
                    g.realized = false;
                    let ghost gv = g@;
                    wanted.set(i, g);
                    assert(views(wanted@) =~= before.update(i as int, gv));
                }
            },
        }
    }
    Ok(())
}

// ---------------------------------------------------------------------------
// Connecting a tunnel to its realm
// ---------------------------------------------------------------------------

/// The commands that make the bridge of a tunnel, where it is not there, and attach the tunnel.
pub open spec fn bridge_cmds(ns: Seq<char>, g: GeneveOwnershipView, exists: bool) -> Seq<
    CommandView,
> {
    let make = if exists {
        Seq::empty()
    } else {
        Seq::empty().push(ns_bridge_add_cmd(ns, g.bridge))
    };
    make.push(ns_link_up_cmd(ns, g.bridge)).push(ns_link_master_cmd(ns, g.interface, g.bridge))
}

/// The commands that make the link between a tunnel's bridge and the realm, where it is not
/// there, and fix behind which port each end of the tunnel is. The entries are static: a
/// permanent one would make the bridge keep the frames to itself.
pub open spec fn veth_cmds(
    ns: Seq<char>,
    realm_ns: Seq<char>,
    g: GeneveOwnershipView,
    exists: bool,
) -> Seq<CommandView> {
    let make = if exists {
        Seq::empty()
    } else {
        Seq::empty().push(veth_add_cmd(g.realm_veth, g.fabric_veth)).push(
            link_to_ns_cmd(g.realm_veth, realm_ns),
        ).push(link_to_ns_cmd(g.fabric_veth, ns))
    };
    make.push(ns_link_address_cmd(realm_ns, g.realm_veth, g.local_tunnel_mac)).push(
        ns_link_up_cmd(realm_ns, g.realm_veth),
    ).push(ns_link_address_cmd(ns, g.fabric_veth, g.local_tunnel_mac)).push(
        ns_link_master_cmd(ns, g.fabric_veth, g.bridge),
    ).push(ns_link_up_cmd(ns, g.fabric_veth)).push(
        fdb_replace_cmd(ns, g.remote_tunnel_mac, g.interface),
    ).push(
        fdb_replace_cmd(
            ns,
            g.local_tunnel_mac,
            if g.local_tunnel_mac == g.remote_tunnel_mac {
                g.interface
            } else {
                g.fabric_veth
            },
        ),
    )
}

fn bridge_commands(ns: &str, g: &GeneveOwnership, exists: bool) -> (r: Commands)
    ensures
        r@ == bridge_cmds(ns@, g@, exists),
{
    let make = if exists {
        Commands::none()
    } else {
        Commands::none().push(ns_bridge_add(ns, g.bridge.as_str()))
    };
    make.push(ns_link_up(ns, g.bridge.as_str())).push(
        ns_link_master(ns, g.interface.as_str(), g.bridge.as_str()),
    )
}

fn veth_commands(ns: &str, realm_ns: &str, g: &GeneveOwnership, exists: bool) -> (r: Commands)
    ensures
        r@ == veth_cmds(ns@, realm_ns@, g@, exists),
{
    let realm_veth = g.realm_veth.as_str();
    let fabric_veth = g.fabric_veth.as_str();
    let local = g.local_tunnel_mac.as_str();
    let remote = g.remote_tunnel_mac.as_str();
    let make = if exists {
        Commands::none()
    } else {
        Commands::none().push(veth_add(realm_veth, fabric_veth)).push(
            link_to_ns(realm_veth, realm_ns),
        ).push(link_to_ns(fabric_veth, ns))
    };
    let local_port = if same(local, remote) {
        g.interface.as_str()
    } else {
        fabric_veth
    };
    make.push(ns_link_address(realm_ns, realm_veth, local)).push(
        ns_link_up(realm_ns, realm_veth),
    ).push(ns_link_address(ns, fabric_veth, local)).push(
        ns_link_master(ns, fabric_veth, g.bridge.as_str()),
    ).push(ns_link_up(ns, fabric_veth)).push(
        fdb_replace(ns, remote, g.interface.as_str()),
    ).push(fdb_replace(ns, local, local_port))
}

/// Makes the bridge of a tunnel and attaches the tunnel to it. A link of the bridge's name that
/// is no bridge is foreign.
pub open spec fn attach_bridge_run(ns: Seq<char>, g: GeneveOwnershipView, t: Trace) -> (
    Trace,
    FabricOutcome,
) {
    let io = LinuxFabricError::Storage;
    let t1 = t.after(EffectView::Query(ns_link_show_cmd(ns, g.bridge)));
    match queried(t.reply(), io) {
        Err(stop) => (t1, Err(stop)),
        Ok((exists, output)) => if exists && !contains(output, "bridge"@) {
            (t1, Err(Stop::Failed(LinuxFabricError::ForeignState)))
        } else {
            run_all(t1, bridge_cmds(ns, g, exists), LinuxFabricError::CommandFailed, io)
        },
    }
}

/// Makes the link between a tunnel's bridge and the realm. Links of these names that are no
/// pair of links are foreign.
pub open spec fn attach_veth_run(
    ns: Seq<char>,
    realm_ns: Seq<char>,
    g: GeneveOwnershipView,
    t: Trace,
) -> (Trace, FabricOutcome) {
    let io = LinuxFabricError::Storage;
    let foreign: FabricOutcome = Err(Stop::Failed(LinuxFabricError::ForeignState));
    let t1 = t.after(EffectView::Query(ns_link_show_cmd(realm_ns, g.realm_veth)));
    match queried(t.reply(), io) {
        Err(stop) => (t1, Err(stop)),
        Ok((realm_exists, realm_output)) => if realm_exists && !contains(realm_output, "veth"@) {
            (t1, foreign)
        } else {
            let t2 = t1.after(EffectView::Query(ns_link_detail_cmd(ns, g.fabric_veth)));
            match queried(t1.reply(), io) {
                Err(stop) => (t2, Err(stop)),
                Ok((fabric_exists, fabric_output)) => if fabric_exists && !contains(
                    fabric_output,
                    "veth"@,
                ) {
                    (t2, foreign)
                } else {
                    run_all(
                        t2,
                        veth_cmds(ns, realm_ns, g, realm_exists),
                        LinuxFabricError::CommandFailed,
                        io,
                    )
                },
            }
        },
    }
}

/// Connects a tunnel to its realm.
pub open spec fn ensure_attachment_run(
    cfg: LinuxFabricConfigView,
    st: ProviderStateView,
    realm_id: u128,
    g: GeneveOwnershipView,
    t: Trace,
) -> (Trace, FabricOutcome) {
    match st.realm(realm_id) {
        None => (t, Err(Stop::Failed(LinuxFabricError::CorruptState))),
        Some(own) => {
            let (t1, r1) = attach_bridge_run(cfg.fabric_namespace, g, t);
            if r1 is Err {
                (t1, r1)
            } else {
                attach_veth_run(cfg.fabric_namespace, own.namespace, g, t1)
            }
        },
    }
}

fn attach_bridge(ns: &str, g: &GeneveOwnership, session: &mut Session) -> (r: FabricOutcome)
    ensures
        (final(session)@, r) == attach_bridge_run(ns@, g@, old(session)@),
{
    let io = LinuxFabricError::Storage;
    match session.query(ns_link_show(ns, g.bridge.as_str()), io) {
        Err(stop) => Err(stop),
        Ok((exists, output)) => {
            if exists && !text_contains(output.as_str(), "bridge") {
                return Err(Stop::Failed(LinuxFabricError::ForeignState));
            }
            session.run_all(&bridge_commands(ns, g, exists), LinuxFabricError::CommandFailed, io)
        },
    }
}

fn attach_veth(ns: &str, realm_ns: &str, g: &GeneveOwnership, session: &mut Session) -> (r:
    FabricOutcome)
    ensures
        (final(session)@, r) == attach_veth_run(ns@, realm_ns@, g@, old(session)@),
{
    let io = LinuxFabricError::Storage;
    let foreign: FabricOutcome = Err(Stop::Failed(LinuxFabricError::ForeignState));
    let realm_exists = match session.query(ns_link_show(realm_ns, g.realm_veth.as_str()), io) {
        Err(stop) => return Err(stop),
        Ok((exists, output)) => {
            if exists && !text_contains(output.as_str(), "veth") {
                return foreign;
            }
            exists
        },
    };
    match session.query(ns_link_detail(ns, g.fabric_veth.as_str()), io) {
        Err(stop) => return Err(stop),
        Ok((exists, output)) => {
            if exists && !text_contains(output.as_str(), "veth") {
                return foreign;
            }
        },
    }
    session.run_all(
        &veth_commands(ns, realm_ns, g, realm_exists),
        LinuxFabricError::CommandFailed,
        io,
    )
}

// ---------------------------------------------------------------------------
// Making tunnels
// ---------------------------------------------------------------------------

/// The commands that make the link of a tunnel, where it is not there, and set it up.
pub open spec fn tunnel_cmds(
    cfg: LinuxFabricConfigView,
    tenant_mtu: u32,
    g: GeneveOwnershipView,
    exists: bool,
) -> Seq<CommandView> {
    let ns = cfg.fabric_namespace;
    let make = if exists {
        Seq::empty()
    } else {
        Seq::empty().push(
            geneve_add_cmd(
                ns,
                g.interface,
                decimal(g.vni as nat),
                ipv4_text(g.remote_transport_ip),
                decimal(cfg.geneve_port as nat),
            ),
        )
    };
    make.push(ns_link_address_cmd(ns, g.interface, g.local_tunnel_mac)).push(
        ns_link_mtu_cmd(ns, g.interface, decimal(tenant_mtu as nat)),
    ).push(ns_link_start_cmd(ns, g.interface))
}

fn tunnel_commands(
    cfg: &LinuxFabricConfig,
    tenant_mtu: u32,
    g: &GeneveOwnership,
    exists: bool,
) -> (r: Commands)
    ensures
        r@ == tunnel_cmds(cfg@, tenant_mtu, g@, exists),
{
    let ns = cfg.fabric_namespace.as_str();
    let dev = g.interface.as_str();
    let make = if exists {
        Commands::none()
    } else {
        let vni = decimal_of(g.vni as u128);
        let remote = ipv4_of(g.remote_transport_ip);
        let port = decimal_of(cfg.geneve_port as u128);
        Commands::none().push(geneve_add(ns, dev, vni.as_str(), remote.as_str(), port.as_str()))
    };
    let mtu = decimal_of(tenant_mtu as u128);
    make.push(ns_link_address(ns, dev, g.local_tunnel_mac.as_str())).push(
        ns_link_mtu(ns, dev, mtu.as_str()),
    ).push(ns_link_start(ns, dev))
}

/// The record with the tunnel of a realm to a host marked as realized.
pub open spec fn with_realized(st: ProviderStateView, realm_id: u128, host: Seq<char>) -> ProviderStateView {
    match st.realm(realm_id) {
        None => st,
        Some(own) => match name_get::<GeneveOwnership>(own.geneve, host) {
            None => st,
            Some(g) => st.with_realm(
                RealmOwnershipView {
                    geneve: name_put::<GeneveOwnership>(
                        own.geneve,
                        GeneveOwnershipView { realized: true, ..g },
                    ),
                    ..own
                },
            ),
        },
    }
}

/// Makes a tunnel, connects it to its realm and records that it is realized.
pub open spec fn realize_tunnel_run(
    cfg: LinuxFabricConfigView,
    st: ProviderStateView,
    plan: NamespacedRoutedFabricPlanView,
    g: GeneveOwnershipView,
    t: Trace,
) -> (ProviderStateView, Trace, FabricOutcome) {
    let io = LinuxFabricError::Storage;
    let t1 = t.after(EffectView::Query(ns_link_detail_cmd(cfg.fabric_namespace, g.interface)));
    match queried(t.reply(), io) {
        Err(stop) => (st, t1, Err(stop)),
        Ok((exists, _)) => {
            let (t2, r2) = run_all(
                t1,
                tunnel_cmds(cfg, plan.tenant_mtu, g, exists),
                LinuxFabricError::CommandFailed,
                io,
            );
            if r2 is Err {
                (st, t2, r2)
            } else {
                let (t3, r3) = ensure_attachment_run(cfg, st, plan.realm_id, g, t2);
                if r3 is Err {
                    (st, t3, r3)
                } else {
                    (
                        with_realized(st, plan.realm_id, g.target_host),
                        t3.after(EffectView::Save),
                        demanded(t3.reply(), io, io),
                    )
                }
            }
        },
    }
}

/// Makes the tunnels from the one at `i` on.
pub open spec fn realize_tunnels_run(
    cfg: LinuxFabricConfigView,
    st: ProviderStateView,
    plan: NamespacedRoutedFabricPlanView,
    wanted: Seq<GeneveOwnershipView>,
    i: int,
    t: Trace,
) -> (ProviderStateView, Trace, FabricOutcome)
    decreases wanted.len() - i,
{
    if i < 0 || i >= wanted.len() {
        (st, t, Ok(()))
    } else {
        let (st1, t1, r1) = realize_tunnel_run(cfg, st, plan, wanted[i], t);
        if r1 is Err {
            (st1, t1, r1)
        } else {
            realize_tunnels_run(cfg, st1, plan, wanted, i + 1, t1)
        }
    }
}

/// What connects a tunnel to its realm, as it is recorded.
pub open spec fn attachment_of(g: GeneveOwnershipView) -> FabricAttachmentOwnershipView {
    FabricAttachmentOwnershipView {
        target_host: g.target_host,
        bridge: g.bridge,
        realm_veth: g.realm_veth,
        fabric_veth: g.fabric_veth,
        local_tunnel_mac: g.local_tunnel_mac,
        remote_tunnel_mac: g.remote_tunnel_mac,
    }
}

/// What connects tunnels to their realm, as it is recorded.
pub open spec fn attachments_of(gs: Seq<GeneveOwnershipView>) -> Seq<
    FabricAttachmentOwnershipView,
> {
    gs.map_values(|g: GeneveOwnershipView| attachment_of(g))
}

fn attachments(gs: &Vec<GeneveOwnership>) -> (r: Vec<FabricAttachmentOwnership>)
    ensures
        views(r@) == attachments_of(views(gs@)),
{
    let mut out: Vec<FabricAttachmentOwnership> = Vec::new();
    let ghost vs = views(gs@);
    for i in 0..gs.len()
        invariant
            vs == views(gs@),
            views(out@) == attachments_of(vs).take(i as int),
    {
        let g = &gs[i];
        let a = FabricAttachmentOwnership {
            target_host: g.target_host.clone(),
            bridge: g.bridge.clone(),
            realm_veth: g.realm_veth.clone(),
            fabric_veth: g.fabric_veth.clone(),
            local_tunnel_mac: g.local_tunnel_mac.clone(),
            remote_tunnel_mac: g.remote_tunnel_mac.clone(),
        };
        let ghost before = views(out@);
        assert(vs[i as int] == gs@[i as int]@);
        assert(a@ == attachment_of(vs[i as int]));
        out.push(a);
        assert(views(out@) =~= before.push(a@));
        assert(views(out@) =~= attachments_of(vs).take(i + 1));
    }
    assert(attachments_of(vs).take(vs.len() as int) =~= attachments_of(vs));
    out
}

/// Records the wanted tunnels of a realm where that changes the record.
pub open spec fn record_tunnels_run(
    st: ProviderStateView,
    own: RealmOwnershipView,
    wanted: Seq<GeneveOwnershipView>,
    t: Trace,
) -> (ProviderStateView, Trace, FabricOutcome) {
    let next = RealmOwnershipView {
        geneve: wanted,
        attachments: attachments_of(wanted),
        ..own
    };
    if next == own {
        (st, t, Ok(()))
    } else {
        (
            st.with_realm(next),
            t.after(EffectView::Save),
            demanded(t.reply(), LinuxFabricError::Storage, LinuxFabricError::Storage),
        )
    }
}

/// Brings the tunnels of a realm in line with its plan: those that are no longer wanted are
/// removed, the wanted ones are compared with the record and the host, recorded and made.
pub open spec fn ensure_geneve_run(
    b: LinuxFabricBackendView,
    plan: NamespacedRoutedFabricPlanView,
    t: Trace,
) -> (ProviderStateView, Trace, FabricOutcome) {
    let st = b.state;
    if segment_taken(b.plans, plan) {
        (st, t, Err(Stop::Failed(LinuxFabricError::OwnershipConflict)))
    } else {
        match st.realm(plan.realm_id) {
            None => (st, t, Err(Stop::Failed(LinuxFabricError::CorruptState))),
            Some(own) => {
                let wanted = wanted_tunnels(Seq::empty(), plan, own.geneve, 0);
                let (t1, r1) = remove_tunnels_run(
                    b.config,
                    own.namespace,
                    own.geneve,
                    wanted,
                    0,
                    t,
                );
                if r1 is Err {
                    (st, t1, r1)
                } else {
                    let (checked, t2, r2) = check_tunnels_run(b.config, own.geneve, wanted, 0, t1);
                    if r2 is Err {
                        (st, t2, r2)
                    } else {
                        let (st3, t3, r3) = record_tunnels_run(st, own, checked, t2);
                        if r3 is Err {
                            (st3, t3, r3)
                        } else {
                            realize_tunnels_run(b.config, st3, plan, checked, 0, t3)
                        }
                    }
                }
            },
        }
    }
}

impl LinuxFabricBackend {
    /// Performs [`ensure_attachment_run`].
    pub fn ensure_geneve_attachment(
        &self,
        plan: &NamespacedRoutedFabricPlan,
        g: &GeneveOwnership,
        session: &mut Session,
    ) -> (r: FabricOutcome)
        ensures
            (final(session)@, r) == ensure_attachment_run(
                self@.config,
                self@.state,
                plan@.realm_id,
                g@,
                old(session)@,
            ),
    {
        match find_id(&self.state.realms, plan.realm_id) {
            None => Err(Stop::Failed(LinuxFabricError::CorruptState)),
            Some(i) => {
                let ns = self.config.fabric_namespace.as_str();
                match attach_bridge(ns, g, session) {
                    Err(stop) => return Err(stop),
                    Ok(_) => {},
                }
                attach_veth(ns, self.state.realms[i].namespace.as_str(), g, session)
            },
        }
    }

    fn mark_realized(&mut self, realm_id: u128, host: &str)
        ensures
            final(self)@ == old(self)@.with_state(
                with_realized(old(self)@.state, realm_id, host@),
            ),
    {
        match find_id(&self.state.realms, realm_id) {
            None => {},
            Some(i) => match find_name(&self.state.realms[i].geneve, host) {
                None => {},
                Some(k) => {
                    let mut own = self.state.realms[i].copy();
                    let mut g = self.state.realms[i].geneve[k].copy();
                    g.realized = true;
                    put_name(&mut own.geneve, g);
                    put_id(&mut self.state.realms, own);
                },
            },
        }
    }

    fn realize_tunnel(
        &mut self,
        plan: &NamespacedRoutedFabricPlan,
        g: &GeneveOwnership,
        session: &mut Session,
    ) -> (r: FabricOutcome)
        ensures
            (final(self)@.state, final(session)@, r) == realize_tunnel_run(
                old(self)@.config,
                old(self)@.state,
                plan@,
                g@,
                old(session)@,
            ),
            final(self)@ == old(self)@.with_state(final(self)@.state),
    {
        let io = LinuxFabricError::Storage;
        let detail = ns_link_detail(self.config.fabric_namespace.as_str(), g.interface.as_str());
        let exists = match session.query(detail, io) {
            Err(stop) => return Err(stop),
            Ok((exists, _)) => exists,
        };
        let cs = tunnel_commands(&self.config, plan.tenant_mtu, g, exists);
        match session.run_all(&cs, LinuxFabricError::CommandFailed, io) {
            Err(stop) => return Err(stop),
            Ok(_) => {},
        }
        match self.ensure_geneve_attachment(plan, g, session) {
            Err(stop) => return Err(stop),
            Ok(_) => {},
        }
        self.mark_realized(plan.realm_id, g.target_host.as_str());
        session.demand(Effect::Save, io, io)
    }

    fn realize_tunnels(
        &mut self,
        plan: &NamespacedRoutedFabricPlan,
        wanted: &Vec<GeneveOwnership>,
        session: &mut Session,
    ) -> (r: FabricOutcome)
        ensures
            (final(self)@.state, final(session)@, r) == realize_tunnels_run(
                old(self)@.config,
                old(self)@.state,
                plan@,
                views(wanted@),
                0,
                old(session)@,
            ),
            final(self)@ == old(self)@.with_state(final(self)@.state),
    {
        let ghost start = session@;
        let ghost b = self@;
        let ghost ws = views(wanted@);
        for i in 0..wanted.len()
            invariant
                ws == views(wanted@),
                start == old(session)@,
                b == old(self)@,
                self@ == b.with_state(self@.state),
                realize_tunnels_run(b.config, b.state, plan@, ws, 0, start)
                    == realize_tunnels_run(
                    b.config,
                    self@.state,
                    plan@,
                    ws,
                    i as int,
                    session@,
                ),
        {
            assert(ws[i as int] == wanted@[i as int]@);
            match self.realize_tunnel(plan, &wanted[i], session) {
                Err(stop) => return Err(stop),
                Ok(_) => {},
            }
        }
        Ok(())
    }

    fn record_tunnels(
        &mut self,
        own: &RealmOwnership,
        wanted: &Vec<GeneveOwnership>,
        session: &mut Session,
    ) -> (r: FabricOutcome)
        ensures
            (final(self)@.state, final(session)@, r) == record_tunnels_run(
                old(self)@.state,
                own@,
                views(wanted@),
                old(session)@,
            ),
            final(self)@ == old(self)@.with_state(final(self)@.state),
    {
        let mut next = own.copy();
        next.geneve = copy_list(wanted);
        next.attachments = attachments(wanted);
        if next.same_as(own) {
            return Ok(());
        }
        put_id(&mut self.state.realms, next);
        session.demand(Effect::Save, LinuxFabricError::Storage, LinuxFabricError::Storage)
    }

    /// Performs [`ensure_geneve_run`].
    pub fn ensure_geneve(&mut self, plan: &NamespacedRoutedFabricPlan, session: &mut Session) -> (r:
        FabricOutcome)
        ensures
            (final(self)@.state, final(session)@, r) == ensure_geneve_run(
                old(self)@,
                plan@,
                old(session)@,
            ),
            final(self)@ == old(self)@.with_state(final(self)@.state),
    {
        if segment_is_taken(&self.plans, plan) {
            return Err(Stop::Failed(LinuxFabricError::OwnershipConflict));
        }
        let own = match find_id(&self.state.realms, plan.realm_id) {
            None => return Err(Stop::Failed(LinuxFabricError::CorruptState)),
            Some(i) => self.state.realms[i].copy(),
        };
        let mut wanted = wanted_tunnels_of(plan, &own.geneve);
        match remove_tunnels(
            &self.config,
            own.namespace.as_str(),
            &own.geneve,
            &wanted,
            session,
        ) {
            Err(stop) => return Err(stop),
            Ok(_) => {},
        }
        match check_tunnels(&self.config, &own.geneve, &mut wanted, session) {
            Err(stop) => return Err(stop),
            Ok(_) => {},
        }
        match self.record_tunnels(&own, &wanted, session) {
            Err(stop) => return Err(stop),
            Ok(_) => {},
        }
        self.realize_tunnels(plan, &wanted, session)
    }
}

} // verus!
