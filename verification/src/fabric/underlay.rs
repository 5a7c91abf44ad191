//! The part of the fabric that all realms share: the namespace, the WireGuard link and its peers.
use super::backend::{FabricOutcome, LinuxFabricBackend, LinuxFabricBackendView};
use super::commands::{
    addr_replace, addr_replace_cmd, forward_wireguard, forward_wireguard_any,
    forward_wireguard_any_cmd, forward_wireguard_cmd, genkey, genkey_cmd, link_del, link_del_cmd,
    link_show, link_show_cmd, link_start, link_start_cmd, link_to_ns, link_to_ns_cmd, masquerade,
    masquerade_cmd, netns_add, netns_add_cmd, netns_del, netns_del_cmd, ns_addr_replace,
    ns_addr_replace_cmd, ns_default_via, ns_default_via_cmd, ns_link_del, ns_link_del_cmd,
    ns_link_show, ns_link_show_cmd, ns_link_start, ns_link_start_cmd, ns_probe, ns_probe_cmd,
    ns_route_replace, ns_route_replace_cmd, ns_sysctl_write, ns_sysctl_write_cmd, peer_remove,
    peer_remove_cmd, peer_set, peer_set_cmd, sysctl_write, sysctl_write_cmd, veth_add,
    veth_add_cmd, wireguard_add, wireguard_add_cmd, wireguard_setup, wireguard_setup_cmd,
};
use super::config::{LinuxFabricConfig, LinuxFabricConfigView, LinuxFabricError};
use super::naming::{bounded_name, is_wireguard_key, name_chars, valid_wireguard_key};
use super::plan::{
    FabricPeer, FabricPeerView, NamespacedRoutedFabricPlan, NamespacedRoutedFabricPlanView,
};
use super::state::{
    FabricOwnership, FabricOwnershipView, ProviderStateView, RealmOwnership, RealmOwnershipView,
};
use crate::ipv4::{ipv4_of, ipv4_text, is_loopback, is_unspecified, is_unusable_transport};
use crate::model::{views, Model};
use crate::path::{join_path, path_join};
use crate::render::{decimal, decimal_of};
use crate::session::{
    attempt_all, attempted, demanded, finished, key_read, queried, run_all, CommandView, Commands,
    Effect, EffectView, Session, Stop, Trace,
};
use crate::table::{find_id, find_name, id_get, name_get, name_put, put_name};
use crate::text::{chars_of, join, lines, lines_of, rows, trim, trim_of};
use vstd::prelude::*;

verus! {

/// The name of the file of the host's private key.
pub open spec fn key_path(cfg: LinuxFabricConfigView) -> Seq<char> {
    path_join(cfg.root, "wireguard-private.key"@)
}

// ---------------------------------------------------------------------------
// The private key
// ---------------------------------------------------------------------------

/// Whether a file can hold a private key: a regular file that only its owner can access.
pub open spec fn is_private(regular: bool, mode: u32) -> bool {
    regular && mode & 0o077u32 == 0
}

/// Decides [`is_private`] from what the file system says of a file.
pub fn private_file(regular: bool, mode: u32) -> (r: bool)
    ensures
        r == is_private(regular, mode),
{
    regular && mode & 0o077u32 == 0
}

/// Adopts the private key that is there, or makes one. A valid key is adopted as it is, a
/// missing one is generated, and anything else is foreign and never overwritten.
pub open spec fn provide_key_run(path: Seq<char>, t: Trace) -> (Trace, FabricOutcome) {
    let t1 = t.after(EffectView::ReadKey(path));
    match key_read(t.reply(), LinuxFabricError::Storage) {
        Err(stop) => (t1, Err(stop)),
        Ok(Some((private, key))) => if private && is_wireguard_key(trim(key)) {
            (t1, Ok(()))
        } else {
            (t1, Err(Stop::Failed(LinuxFabricError::ForeignState)))
        },
        Ok(None) => {
            let t2 = t1.after(EffectView::Query(genkey_cmd()));
            match queried(t1.reply(), LinuxFabricError::Storage) {
                Err(stop) => (t2, Err(stop)),
                Ok((success, key)) => if success && is_wireguard_key(trim(key)) && lines(key).len()
                    == 1 {
                    (
                        t2.after(EffectView::WriteKey(path, trim(key) + "\n"@)),
                        demanded(t2.reply(), LinuxFabricError::Storage, LinuxFabricError::Storage),
                    )
                } else {
                    (t2, Err(Stop::Failed(LinuxFabricError::CommandFailed)))
                },
            }
        },
    }
}

/// Performs [`provide_key_run`].
pub fn provide_key(path: &str, session: &mut Session) -> (r: FabricOutcome)
    ensures
        (final(session)@, r) == provide_key_run(path@, old(session)@),
{
    match session.read_key(path, LinuxFabricError::Storage) {
        Err(stop) => Err(stop),
        Ok(Some((private, key))) => {
            if private && valid_wireguard_key(trim_of(key.as_str()).as_str()) {
                Ok(())
            } else {
                Err(Stop::Failed(LinuxFabricError::ForeignState))
            }
        },
        Ok(None) => match session.query(genkey(), LinuxFabricError::Storage) {
            Err(stop) => Err(stop),
            Ok((success, key)) => {
                let trimmed = trim_of(key.as_str());
                let all = lines_of(&chars_of(key.as_str()));
                assert(rows(all@).len() == all@.len());
                if success && valid_wireguard_key(trimmed.as_str()) && all.len() == 1 {
                    session.demand(
                        Effect::WriteKey(path.to_owned(), join(trimmed.as_str(), "\n")),
                        LinuxFabricError::Storage,
                        LinuxFabricError::Storage,
                    )
                } else {
                    Err(Stop::Failed(LinuxFabricError::CommandFailed))
                }
            },
        },
    }
}

// ---------------------------------------------------------------------------
// Making the fabric
// ---------------------------------------------------------------------------

/// The commands that make the namespace and the WireGuard link in it.
pub open spec fn wireguard_cmds(
    cfg: LinuxFabricConfigView,
    plan: NamespacedRoutedFabricPlanView,
) -> Seq<CommandView> {
    let ns = cfg.fabric_namespace;
    let dev = cfg.fabric_interface;
    Seq::empty().push(netns_add_cmd(ns)).push(wireguard_add_cmd(dev)).push(
        link_to_ns_cmd(dev, ns),
    ).push(
        wireguard_setup_cmd(ns, dev, key_path(cfg), decimal(cfg.wireguard_port as nat)),
    ).push(ns_link_start_cmd(ns, dev)).push(
        ns_addr_replace_cmd(ns, ipv4_text(plan.local_fabric_transport_ip) + "/32"@, dev),
    )
}

fn wireguard_commands(cfg: &LinuxFabricConfig, plan: &NamespacedRoutedFabricPlan) -> (r: Commands)
    ensures
        r@ == wireguard_cmds(cfg@, plan@),
{
    let ns = cfg.fabric_namespace.as_str();
    let dev = cfg.fabric_interface.as_str();
    let path = join_path(cfg.root.as_str(), "wireguard-private.key");
    let port = decimal_of(cfg.wireguard_port as u128);
    let cidr = join(ipv4_of(plan.local_fabric_transport_ip).as_str(), "/32");
    Commands::none().push(netns_add(ns)).push(wireguard_add(dev)).push(link_to_ns(dev, ns)).push(
        wireguard_setup(ns, dev, path.as_str(), port.as_str()),
    ).push(ns_link_start(ns, dev)).push(ns_addr_replace(ns, cidr.as_str(), dev))
}

/// The commands that connect the namespace with the host, so that encrypted packets reach the
/// underlay.
pub open spec fn uplink_cmds(ns: Seq<char>) -> Seq<CommandView> {
    Seq::empty().push(veth_add_cmd("o3k-u"@, "o3k-v"@)).push(link_to_ns_cmd("o3k-v"@, ns)).push(
        link_start_cmd("o3k-u"@),
    ).push(ns_link_start_cmd(ns, "o3k-v"@)).push(
        ns_addr_replace_cmd(ns, "169.254.253.2/30"@, "o3k-v"@),
    ).push(addr_replace_cmd("169.254.253.1/30"@, "o3k-u"@)).push(
        ns_default_via_cmd(ns, "169.254.253.1"@),
    )
}

fn uplink_commands(ns: &str) -> (r: Commands)
    ensures
        r@ == uplink_cmds(ns@),
{
    Commands::none().push(veth_add("o3k-u", "o3k-v")).push(link_to_ns("o3k-v", ns)).push(
        link_start("o3k-u"),
    ).push(ns_link_start(ns, "o3k-v")).push(
        ns_addr_replace(ns, "169.254.253.2/30", "o3k-v"),
    ).push(addr_replace("169.254.253.1/30", "o3k-u")).push(ns_default_via(ns, "169.254.253.1"))
}

/// The commands that let the host pass the packets of the fabric; none of them is vital.
pub open spec fn passage_cmds(cfg: LinuxFabricConfigView) -> Seq<CommandView> {
    Seq::empty().push(sysctl_write_cmd("net.ipv4.conf.o3k-u.rp_filter=0"@)).push(
        ns_sysctl_write_cmd(cfg.fabric_namespace, "net.ipv4.conf.o3k-v.rp_filter=0"@),
    ).push(masquerade_cmd("-A"@)).push(
        forward_wireguard_cmd("-A"@, decimal(cfg.wireguard_port as nat)),
    )
}

fn passage_commands(cfg: &LinuxFabricConfig) -> (r: Commands)
    ensures
        r@ == passage_cmds(cfg@),
{
    let port = decimal_of(cfg.wireguard_port as u128);
    Commands::none().push(sysctl_write("net.ipv4.conf.o3k-u.rp_filter=0")).push(
        ns_sysctl_write(cfg.fabric_namespace.as_str(), "net.ipv4.conf.o3k-v.rp_filter=0"),
    ).push(masquerade("-A")).push(forward_wireguard("-A", port.as_str()))
}

/// What is recorded of a fabric that was just made.
pub open spec fn new_fabric(
    cfg: LinuxFabricConfigView,
    plan: NamespacedRoutedFabricPlanView,
) -> FabricOwnershipView {
    FabricOwnershipView {
        namespace: cfg.fabric_namespace,
        interface: cfg.fabric_interface,
        private_key_path: key_path(cfg),
        fabric_transport_ip: plan.local_fabric_transport_ip,
        fabric_generation: plan.local_fabric_generation,
        managed_peers: Seq::empty(),
    }
}

/// Runs the commands that make the fabric.
pub open spec fn build_fabric_run(
    cfg: LinuxFabricConfigView,
    plan: NamespacedRoutedFabricPlanView,
    t: Trace,
) -> (Trace, FabricOutcome) {
    let failed = LinuxFabricError::CommandFailed;
    let io = LinuxFabricError::Storage;
    let (t1, r1) = run_all(t, wireguard_cmds(cfg, plan), failed, io);
    if r1 is Err {
        (t1, r1)
    } else {
        let t2 = t1.after(EffectView::Run(link_del_cmd("o3k-u"@)));
        let r2 = attempted::<LinuxFabricError>(t1.reply());
        if r2 is Err {
            (t2, r2)
        } else {
            let (t3, r3) = run_all(t2, uplink_cmds(cfg.fabric_namespace), failed, io);
            if r3 is Err {
                (t3, r3)
            } else {
                attempt_all::<LinuxFabricError>(t3, passage_cmds(cfg))
            }
        }
    }
}

fn build_fabric(
    cfg: &LinuxFabricConfig,
    plan: &NamespacedRoutedFabricPlan,
    session: &mut Session,
) -> (r: FabricOutcome)
    ensures
        (final(session)@, r) == build_fabric_run(cfg@, plan@, old(session)@),
{
    let failed = LinuxFabricError::CommandFailed;
    let io = LinuxFabricError::Storage;
    match session.run_all(&wireguard_commands(cfg, plan), failed, io) {
        Err(stop) => return Err(stop),
        Ok(_) => {},
    }
    match session.attempt(link_del("o3k-u")) {
        Err(stop) => return Err(stop),
        Ok(_) => {},
    }
    match session.run_all(&uplink_commands(cfg.fabric_namespace.as_str()), failed, io) {
        Err(stop) => return Err(stop),
        Ok(_) => {},
    }
    session.attempt_all(&passage_commands(cfg))
}

/// Makes the fabric where none is recorded. A namespace or a link of its name that is there
/// already is foreign.
pub open spec fn make_fabric_run(
    cfg: LinuxFabricConfigView,
    st: ProviderStateView,
    plan: NamespacedRoutedFabricPlanView,
    t: Trace,
) -> (ProviderStateView, Trace, FabricOutcome) {
    let io = LinuxFabricError::Storage;
    let foreign: FabricOutcome = Err(Stop::Failed(LinuxFabricError::ForeignState));
    let t1 = t.after(EffectView::Query(ns_probe_cmd(cfg.fabric_namespace)));
    match queried(t.reply(), io) {
        Err(stop) => (st, t1, Err(stop)),
        Ok((true, _)) => (st, t1, foreign),
        Ok((false, _)) => {
            let t2 = t1.after(EffectView::Query(link_show_cmd(cfg.fabric_interface)));
            match queried(t1.reply(), io) {
                Err(stop) => (st, t2, Err(stop)),
                Ok((true, _)) => (st, t2, foreign),
                Ok((false, _)) => {
                    let (t3, r3) = provide_key_run(key_path(cfg), t2);
                    if r3 is Err {
                        (st, t3, r3)
                    } else {
                        let (t4, r4) = build_fabric_run(cfg, plan, t3);
                        if r4 is Err {
                            (st, t4, r4)
                        } else {
                            (
                                ProviderStateView { fabric: Some(new_fabric(cfg, plan)), ..st },
                                t4.after(EffectView::Save),
                                demanded(t4.reply(), io, io),
                            )
                        }
                    }
                },
            }
        },
    }
}

/// Makes sure that the fabric is there. A recorded fabric has to fit the plan; where its link is
/// gone, what is left of it is removed and it is made again.
pub open spec fn ensure_fabric_run(
    cfg: LinuxFabricConfigView,
    st: ProviderStateView,
    plan: NamespacedRoutedFabricPlanView,
    t: Trace,
) -> (ProviderStateView, Trace, FabricOutcome) {
    let ns = cfg.fabric_namespace;
    match st.fabric {
        None => make_fabric_run(cfg, st, plan, t),
        Some(fabric) => if plan.local_fabric_generation != fabric.fabric_generation
            || plan.local_fabric_transport_ip != fabric.fabric_transport_ip {
            (st, t, Err(Stop::Failed(LinuxFabricError::OwnershipConflict)))
        } else {
            let t1 = t.after(EffectView::Query(ns_link_show_cmd(ns, cfg.fabric_interface)));
            match queried(t.reply(), LinuxFabricError::Storage) {
                Err(stop) => (st, t1, Err(stop)),
                Ok((true, _)) => (st, t1, Ok(())),
                Ok((false, _)) => {
                    let (t2, r2) = attempt_all::<LinuxFabricError>(
                        t1,
                        Seq::empty().push(link_del_cmd("o3k-u"@)).push(netns_del_cmd(ns)),
                    );
                    if r2 is Err {
                        (st, t2, r2)
                    } else {
                        make_fabric_run(cfg, ProviderStateView { fabric: None, ..st }, plan, t2)
                    }
                },
            }
        },
    }
}

impl LinuxFabricBackend {
    fn make_fabric(&mut self, plan: &NamespacedRoutedFabricPlan, session: &mut Session) -> (r:
        FabricOutcome)
        ensures
            (final(self)@.state, final(session)@, r) == make_fabric_run(
                old(self)@.config,
                old(self)@.state,
                plan@,
                old(session)@,
            ),
            final(self)@ == old(self)@.with_state(final(self)@.state),
    {
        let io = LinuxFabricError::Storage;
        let foreign: FabricOutcome = Err(Stop::Failed(LinuxFabricError::ForeignState));
        match session.query(ns_probe(self.config.fabric_namespace.as_str()), io) {
            Err(stop) => return Err(stop),
            Ok((exists, _)) => {
                if exists {
                    return foreign;
                }
            },
        }
        match session.query(link_show(self.config.fabric_interface.as_str()), io) {
            Err(stop) => return Err(stop),
            Ok((exists, _)) => {
                if exists {
                    return foreign;
                }
            },
        }
        let path = join_path(self.config.root.as_str(), "wireguard-private.key");
        match provide_key(path.as_str(), session) {
            Err(stop) => return Err(stop),
            Ok(_) => {},
        }
        match build_fabric(&self.config, plan, session) {
            Err(stop) => return Err(stop),
            Ok(_) => {},
        }
        let fabric = FabricOwnership {
            namespace: self.config.fabric_namespace.clone(),
            interface: self.config.fabric_interface.clone(),
            private_key_path: path,
            fabric_transport_ip: plan.local_fabric_transport_ip,
            fabric_generation: plan.local_fabric_generation,
            managed_peers: Vec::new(),
        };
        assert(fabric@.managed_peers =~= Seq::<Seq<char>>::empty());
        self.state.fabric = Some(fabric);
        session.demand(Effect::Save, io, io)
    }

    /// Performs [`ensure_fabric_run`].
    pub fn ensure_fabric(&mut self, plan: &NamespacedRoutedFabricPlan, session: &mut Session) -> (r:
        FabricOutcome)
        ensures
            (final(self)@.state, final(session)@, r) == ensure_fabric_run(
                old(self)@.config,
                old(self)@.state,
                plan@,
                old(session)@,
            ),
            final(self)@ == old(self)@.with_state(final(self)@.state),
    {
        match &self.state.fabric {
            None => {},
            Some(fabric) => {
                if plan.local_fabric_generation != fabric.fabric_generation
                    || plan.local_fabric_transport_ip != fabric.fabric_transport_ip {
                    return Err(Stop::Failed(LinuxFabricError::OwnershipConflict));
                }
                let show = ns_link_show(
                    self.config.fabric_namespace.as_str(),
                    self.config.fabric_interface.as_str(),
                );
                match session.query(show, LinuxFabricError::Storage) {
                    Err(stop) => return Err(stop),
                    Ok((exists, _)) => {
                        if exists {
                            return Ok(());
                        }
                    },
                }
                let cleanup = Commands::none().push(link_del("o3k-u")).push(
                    netns_del(self.config.fabric_namespace.as_str()),
                );
                match session.attempt_all(&cleanup) {
                    Err(stop) => return Err(stop),
                    Ok(_) => {},
                }
                self.state.fabric = None;
            },
        }
        self.make_fabric(plan, session)
    }
}

// ---------------------------------------------------------------------------
// Peers
// ---------------------------------------------------------------------------

/// The peers of all realms by host, from the peer at `i` of one plan on. A host that is
/// described in two ways is a conflict.
pub open spec fn merge_peers(
    table: Seq<FabricPeerView>,
    peers: Seq<FabricPeerView>,
    i: int,
) -> Option<Seq<FabricPeerView>>
    decreases peers.len() - i,
{
    if i < 0 || i >= peers.len() {
        Some(table)
    } else {
        match name_get::<FabricPeer>(table, peers[i].host_id) {
            Some(existing) => if existing == peers[i] {
                merge_peers(table, peers, i + 1)
            } else {
                None
            },
            None => merge_peers(name_put::<FabricPeer>(table, peers[i]), peers, i + 1),
        }
    }
}

/// The peers of the realms that are recorded, from the plan at `i` on.
pub open spec fn merge_plans(
    table: Seq<FabricPeerView>,
    plans: Seq<NamespacedRoutedFabricPlanView>,
    realms: Seq<RealmOwnershipView>,
    i: int,
) -> Option<Seq<FabricPeerView>>
    decreases plans.len() - i,
{
    if i < 0 || i >= plans.len() {
        Some(table)
    } else if id_get::<RealmOwnership>(realms, plans[i].realm_id) is None {
        merge_plans(table, plans, realms, i + 1)
    } else {
        match merge_peers(table, plans[i].peers, 0) {
            None => None,
            Some(more) => merge_plans(more, plans, realms, i + 1),
        }
    }
}

/// Computes [`merge_peers`] from the first peer on.
fn add_peers(table: &mut Vec<FabricPeer>, peers: &Vec<FabricPeer>) -> (r: bool)
    ensures
        match merge_peers(views(old(table)@), views(peers@), 0) {
            Some(more) => r && views(final(table)@) == more,
            None => !r,
        },
{
    let ghost start = views(table@);
    let ghost ps = views(peers@);
    for i in 0..peers.len()
        invariant
            ps == views(peers@),
            start == views(old(table)@),
            merge_peers(start, ps, 0) == merge_peers(views(table@), ps, i as int),
    {
        assert(ps[i as int] == peers@[i as int]@);
        match find_name(table, peers[i].host_id.as_str()) {
            Some(k) => {
                if !table[k].same_as(&peers[i]) {
                    return false;
                }
            },
            None => {
                put_name(table, peers[i].copy());
            },
        }
    }
    true
}

/// Computes [`merge_plans`] from the first plan on.
fn gather_peers(plans: &Vec<NamespacedRoutedFabricPlan>, realms: &Vec<RealmOwnership>) -> (r: Option<
    Vec<FabricPeer>,
>)
    ensures
        match r {
            Some(table) => merge_plans(Seq::empty(), views(plans@), views(realms@), 0) == Some(
                views(table@),
            ),
            None => merge_plans(Seq::empty(), views(plans@), views(realms@), 0) is None,
        },
{
    let mut table: Vec<FabricPeer> = Vec::new();
    let ghost ps = views(plans@);
    let ghost rs = views(realms@);
    assert(views(table@) =~= Seq::<FabricPeerView>::empty());
    for i in 0..plans.len()
        invariant
            ps == views(plans@),
            rs == views(realms@),
            merge_plans(Seq::empty(), ps, rs, 0) == merge_plans(views(table@), ps, rs, i as int),
    {
        assert(ps[i as int] == plans@[i as int]@);
        if find_id(realms, plans[i].realm_id).is_some() {
            if !add_peers(&mut table, &plans[i].peers) {
                return None;
            }
        }
    }
    Some(table)
}

/// The public keys of peers in order, added to those in `keys`, from the peer at `i` on.
pub open spec fn peer_keys(keys: Seq<Seq<char>>, peers: Seq<FabricPeerView>, i: int) -> Seq<
    Seq<char>,
>
    decreases peers.len() - i,
{
    if i < 0 || i >= peers.len() {
        keys
    } else {
        peer_keys(name_put::<String>(keys, peers[i].public_key), peers, i + 1)
    }
}

fn peer_keys_of(peers: &Vec<FabricPeer>) -> (r: Vec<String>)
    ensures
        views(r@) == peer_keys(Seq::empty(), views(peers@), 0),
{
    let mut keys: Vec<String> = Vec::new();
    let ghost ps = views(peers@);
    assert(views(keys@) =~= Seq::<Seq<char>>::empty());
    for i in 0..peers.len()
        invariant
            ps == views(peers@),
            peer_keys(Seq::empty(), ps, 0) == peer_keys(views(keys@), ps, i as int),
    {
        assert(ps[i as int] == peers@[i as int]@);
        put_name(&mut keys, peers[i].public_key.clone());
    }
    keys
}

/// The commands that remove the peers whose keys are no longer wanted.
pub open spec fn stale_peer_cmds(
    fabric: FabricOwnershipView,
    managed: Seq<Seq<char>>,
    wanted: Seq<Seq<char>>,
) -> Seq<CommandView>
    decreases managed.len(),
{
    if managed.len() == 0 {
        Seq::empty()
    } else {
        let before = stale_peer_cmds(fabric, managed.drop_last(), wanted);
        if name_get::<String>(wanted, managed.last()) is None {
            before.push(peer_remove_cmd(fabric.namespace, fabric.interface, managed.last()))
        } else {
            before
        }
    }
}

fn stale_peer_commands(fabric: &FabricOwnership, wanted: &Vec<String>) -> (r: Commands)
    ensures
        r@ == stale_peer_cmds(fabric@, fabric@.managed_peers, views(wanted@)),
{
    let mut out = Commands::none();
    let ghost all = fabric@.managed_peers;
    assert(all.take(0) =~= Seq::<Seq<char>>::empty());
    for i in 0..fabric.managed_peers.len()
        invariant
            all == fabric@.managed_peers,
            all == views(fabric.managed_peers@),
            out@ == stale_peer_cmds(fabric@, all.take(i as int), views(wanted@)),
    {
        assert(all[i as int] == fabric.managed_peers@[i as int]@);
        assert(all.take(i + 1).drop_last() =~= all.take(i as int));
        let key = fabric.managed_peers[i].as_str();
        if find_name(wanted, key).is_none() {
            out = out.push(
                peer_remove(fabric.namespace.as_str(), fabric.interface.as_str(), key),
            );
        }
    }
    assert(all.take(all.len() as int) =~= all);
    out
}

/// Whether a peer can be configured, apart from the form of its underlay endpoint.
pub open spec fn peer_usable(peer: FabricPeerView) -> bool {
    &&& is_wireguard_key(peer.public_key)
    &&& 1 <= peer.host_id.len() <= 63
    &&& name_chars(peer.host_id)
    &&& !is_unspecified(peer.fabric_transport_ip)
    &&& !is_loopback(peer.fabric_transport_ip)
}

/// The commands that configure a peer.
pub open spec fn peer_cmds(fabric: FabricOwnershipView, peer: FabricPeerView) -> Seq<CommandView> {
    let address = ipv4_text(peer.fabric_transport_ip) + "/32"@;
    Seq::empty().push(
        peer_set_cmd(
            fabric.namespace,
            fabric.interface,
            peer.public_key,
            peer.underlay_endpoint,
            address,
        ),
    ).push(ns_route_replace_cmd(fabric.namespace, address, fabric.interface))
}

/// Configures a peer. Only its fabric address is ever allowed through the WireGuard link.
pub open spec fn configure_peer_run(
    fabric: FabricOwnershipView,
    peer: FabricPeerView,
    t: Trace,
) -> (Trace, FabricOutcome) {
    let conflict: FabricOutcome = Err(Stop::Failed(LinuxFabricError::OwnershipConflict));
    if !peer_usable(peer) {
        (t, conflict)
    } else {
        let t1 = t.after(EffectView::CheckEndpoint(peer.underlay_endpoint));
        match finished(t.reply(), LinuxFabricError::Storage) {
            Err(stop) => (t1, Err(stop)),
            Ok(false) => (t1, conflict),
            Ok(true) => run_all(
                t1,
                peer_cmds(fabric, peer),
                LinuxFabricError::CommandFailed,
                LinuxFabricError::Storage,
            ),
        }
    }
}

fn configure_peer(fabric: &FabricOwnership, peer: &FabricPeer, session: &mut Session) -> (r:
    FabricOutcome)
    ensures
        (final(session)@, r) == configure_peer_run(fabric@, peer@, old(session)@),
{
    let conflict: FabricOutcome = Err(Stop::Failed(LinuxFabricError::OwnershipConflict));
    if !(valid_wireguard_key(peer.public_key.as_str()) && bounded_name(peer.host_id.as_str(), 63)
        && !is_unusable_transport(peer.fabric_transport_ip)) {
        return conflict;
    }
    match session.finish(
        Effect::CheckEndpoint(peer.underlay_endpoint.clone()),
        LinuxFabricError::Storage,
    ) {
        Err(stop) => return Err(stop),
        Ok(ok) => {
            if !ok {
                return conflict;
            }
        },
    }
    let address = join(ipv4_of(peer.fabric_transport_ip).as_str(), "/32");
    let cs = Commands::none().push(
        peer_set(
            fabric.namespace.as_str(),
            fabric.interface.as_str(),
            peer.public_key.as_str(),
            peer.underlay_endpoint.as_str(),
            address.as_str(),
        ),
    ).push(
        ns_route_replace(fabric.namespace.as_str(), address.as_str(), fabric.interface.as_str()),
    );
    session.run_all(&cs, LinuxFabricError::CommandFailed, LinuxFabricError::Storage)
}

/// Configures the peers from the one at `i` on.
pub open spec fn configure_each_run(
    fabric: FabricOwnershipView,
    peers: Seq<FabricPeerView>,
    i: int,
    t: Trace,
) -> (Trace, FabricOutcome)
    decreases peers.len() - i,
{
    if i < 0 || i >= peers.len() {
        (t, Ok(()))
    } else {
        let (t1, r1) = configure_peer_run(fabric, peers[i], t);
        if r1 is Err {
            (t1, r1)
        } else {
            configure_each_run(fabric, peers, i + 1, t1)
        }
    }
}

fn configure_each(fabric: &FabricOwnership, peers: &Vec<FabricPeer>, session: &mut Session) -> (r:
    FabricOutcome)
    ensures
        (final(session)@, r) == configure_each_run(fabric@, views(peers@), 0, old(session)@),
{
    let ghost ps = views(peers@);
    let ghost start = session@;
    for i in 0..peers.len()
        invariant
            ps == views(peers@),
            start == old(session)@,
            configure_each_run(fabric@, ps, 0, start) == configure_each_run(
                fabric@,
                ps,
                i as int,
                session@,
            ),
    {
        assert(ps[i as int] == peers@[i as int]@);
        match configure_peer(fabric, &peers[i], session) {
            Err(stop) => return Err(stop),
            Ok(_) => {},
        }
    }
    Ok(())
}

/// Brings the peers of the WireGuard link in line with the realms that are recorded: those that
/// no realm needs any more are removed, the others are configured, and their keys recorded.
pub open spec fn configure_peers_run(b: LinuxFabricBackendView, t: Trace) -> (
    ProviderStateView,
    Trace,
    FabricOutcome,
) {
    let st = b.state;
    let io = LinuxFabricError::Storage;
    match st.fabric {
        None => (st, t, Err(Stop::Failed(LinuxFabricError::CorruptState))),
        Some(fabric) => match merge_plans(Seq::empty(), b.plans, st.realms, 0) {
            None => (st, t, Err(Stop::Failed(LinuxFabricError::OwnershipConflict))),
            Some(peers) => {
                let keys = peer_keys(Seq::empty(), peers, 0);
                let (t1, r1) = run_all(
                    t,
                    stale_peer_cmds(fabric, fabric.managed_peers, keys),
                    LinuxFabricError::CommandFailed,
                    io,
                );
                if r1 is Err {
                    (st, t1, r1)
                } else {
                    let (t2, r2) = configure_each_run(fabric, peers, 0, t1);
                    if r2 is Err {
                        (st, t2, r2)
                    } else {
                        (
                            ProviderStateView {
                                fabric: Some(FabricOwnershipView { managed_peers: keys, ..fabric }),
                                ..st
                            },
                            t2.after(EffectView::Save),
                            demanded(t2.reply(), io, io),
                        )
                    }
                }
            },
        },
    }
}

// ---------------------------------------------------------------------------
// Removing the fabric
// ---------------------------------------------------------------------------

/// The commands that undo the connection with the host; none of them is vital.
pub open spec fn removal_cmds(cfg: LinuxFabricConfigView, ns: Seq<char>) -> Seq<CommandView> {
    let port = decimal(cfg.wireguard_port as nat);
    Seq::empty().push(link_del_cmd("o3k-u"@)).push(masquerade_cmd("-D"@)).push(
        forward_wireguard_cmd("-D"@, port),
    ).push(forward_wireguard_any_cmd("-D"@, port)).push(netns_del_cmd(ns))
}

/// Removes the WireGuard link of a recorded fabric where it is there.
pub open spec fn drop_wireguard_run(fabric: FabricOwnershipView, t: Trace) -> (
    Trace,
    FabricOutcome,
) {
    let io = LinuxFabricError::Storage;
    let t1 = t.after(EffectView::Query(ns_probe_cmd(fabric.namespace)));
    match queried(t.reply(), io) {
        Err(stop) => (t1, Err(stop)),
        Ok((false, _)) => (t1, Ok(())),
        Ok((true, _)) => {
            let t2 = t1.after(
                EffectView::Query(ns_link_show_cmd(fabric.namespace, fabric.interface)),
            );
            match queried(t1.reply(), io) {
                Err(stop) => (t2, Err(stop)),
                Ok((false, _)) => (t2, Ok(())),
                Ok((true, _)) => (
                    t2.after(EffectView::Run(ns_link_del_cmd(fabric.namespace, fabric.interface))),
                    demanded(t2.reply(), LinuxFabricError::CommandFailed, io),
                ),
            }
        },
    }
}

fn drop_wireguard(fabric: &FabricOwnership, session: &mut Session) -> (r: FabricOutcome)
    ensures
        (final(session)@, r) == drop_wireguard_run(fabric@, old(session)@),
{
    let io = LinuxFabricError::Storage;
    let ns = fabric.namespace.as_str();
    let dev = fabric.interface.as_str();
    match session.query(ns_probe(ns), io) {
        Err(stop) => Err(stop),
        Ok((ns_exists, _)) => {
            if !ns_exists {
                return Ok(());
            }
            match session.query(ns_link_show(ns, dev), io) {
                Err(stop) => Err(stop),
                Ok((exists, _)) => {
                    if !exists {
                        return Ok(());
                    }
                    session.demand(
                        Effect::Run(ns_link_del(ns, dev)),
                        LinuxFabricError::CommandFailed,
                        io,
                    )
                },
            }
        },
    }
}

/// Removes the fabric once no realm is recorded. The private key stays: the other hosts know the
/// host by it.
pub open spec fn remove_fabric_run(
    cfg: LinuxFabricConfigView,
    st: ProviderStateView,
    generation: u64,
    t: Trace,
) -> (ProviderStateView, Trace, FabricOutcome) {
    let io = LinuxFabricError::Storage;
    match st.fabric {
        Some(fabric) if st.realms.len() == 0 => if generation < fabric.fabric_generation {
            (st, t, Err(Stop::Failed(LinuxFabricError::OwnershipConflict)))
        } else {
            let (t1, r1) = drop_wireguard_run(fabric, t);
            if r1 is Err {
                (st, t1, r1)
            } else {
                let (t2, r2) = attempt_all::<LinuxFabricError>(
                    t1,
                    removal_cmds(cfg, fabric.namespace),
                );
                if r2 is Err {
                    (st, t2, r2)
                } else {
                    (
                        ProviderStateView { fabric: None, ..st },
                        t2.after(EffectView::Save),
                        demanded(t2.reply(), io, io),
                    )
                }
            }
        },
        _ => (st, t, Ok(())),
    }
}

impl LinuxFabricBackend {
    /// Performs [`configure_peers_run`].
    pub fn configure_peers(&mut self, session: &mut Session) -> (r: FabricOutcome)
        ensures
            (final(self)@.state, final(session)@, r) == configure_peers_run(
                old(self)@,
                old(session)@,
            ),
            final(self)@ == old(self)@.with_state(final(self)@.state),
    {
        let io = LinuxFabricError::Storage;
        let fabric = match &self.state.fabric {
            None => return Err(Stop::Failed(LinuxFabricError::CorruptState)),
            Some(fabric) => fabric.copy(),
        };
        let peers = match gather_peers(&self.plans, &self.state.realms) {
            None => return Err(Stop::Failed(LinuxFabricError::OwnershipConflict)),
            Some(peers) => peers,
        };
        let keys = peer_keys_of(&peers);
        match session.run_all(
            &stale_peer_commands(&fabric, &keys),
            LinuxFabricError::CommandFailed,
            io,
        ) {
            Err(stop) => return Err(stop),
            Ok(_) => {},
        }
        match configure_each(&fabric, &peers, session) {
            Err(stop) => return Err(stop),
            Ok(_) => {},
        }
        let updated = FabricOwnership { managed_peers: keys, ..fabric };
        self.state.fabric = Some(updated);
        session.demand(Effect::Save, io, io)
    }

    /// Performs [`remove_fabric_run`].
    pub fn remove_fabric_if_unused(&mut self, generation: u64, session: &mut Session) -> (r:
        FabricOutcome)
        ensures
            (final(self)@.state, final(session)@, r) == remove_fabric_run(
                old(self)@.config,
                old(self)@.state,
                generation,
                old(session)@,
            ),
            final(self)@ == old(self)@.with_state(final(self)@.state),
    {
        let io = LinuxFabricError::Storage;
        assert(self@.state.realms.len() == self.state.realms@.len());
        if self.state.realms.len() != 0 {
            return Ok(());
        }
        match &self.state.fabric {
            None => return Ok(()),
            Some(fabric) => {
                if generation < fabric.fabric_generation {
                    return Err(Stop::Failed(LinuxFabricError::OwnershipConflict));
                }
                match drop_wireguard(fabric, session) {
                    Err(stop) => return Err(stop),
                    Ok(_) => {},
                }
                let port = decimal_of(self.config.wireguard_port as u128);
                let cs = Commands::none().push(link_del("o3k-u")).push(masquerade("-D")).push(
                    forward_wireguard("-D", port.as_str()),
                ).push(forward_wireguard_any("-D", port.as_str())).push(
                    netns_del(fabric.namespace.as_str()),
                );
                match session.attempt_all(&cs) {
                    Err(stop) => return Err(stop),
                    Ok(_) => {},
                }
            },
        }
        self.state.fabric = None;
        session.demand(Effect::Save, io, io)
    }
}

} // verus!
