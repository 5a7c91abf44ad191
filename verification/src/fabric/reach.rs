//! How an endpoint is reached that is on another host: what was carried out on this host once a
//! plan is applied.
use super::backend::LinuxFabricBackendView;
use super::config::{LinuxFabricConfigView, LinuxFabricError};
use super::course::{
    lemma_attachment_extends, lemma_bridge_extends, lemma_routes_extend, lemma_runs,
    lemma_stage_succeeds, lemma_tunnel_extends, lemma_tunnels_extend, lemma_veth_extends,
};
use super::geneve::{
    attach_bridge_run, attachment_of, attachments_of, bridge_cmds, check_tunnels_run,
    ensure_attachment_run, ensure_geneve_run, realize_tunnel_run, realize_tunnels_run,
    record_tunnels_run, remove_tunnels_run, same_tunnel, tunnel, tunnel_cmds, veth_cmds,
    wanted_tunnels, was_realized, with_realized,
};
use super::laws::{
    lemma_realm_sorted, lemma_recorded_tunnels_sorted, lemma_stages_sorted,
    lemma_with_realized_sorted,
};
use super::lifecycle::{apply_run, stage_run, stages, stages_run, Stage};
use super::plan::{FabricEndpointRouteView, NamespacedRoutedFabricPlanView};
use super::realm::{realize_routes_run, route_cmds};
use super::state::{
    FabricAttachmentOwnership, FabricAttachmentOwnershipView, GeneveOwnership, GeneveOwnershipView,
    ProviderStateView, RealmOwnership, RealmOwnershipView,
};
use crate::ipv4::ipv4_text;
use crate::reading::{
    carried_out, lemma_all_carried_out, lemma_earlier, lemma_extends_self, lemma_later, spelled,
};
use crate::render::decimal;
use crate::session::{
    extends, lemma_extends_after, lemma_extends_transitive, lemma_run_all_extends, queried, run_all,
    CommandView, EffectView, Trace,
};
use crate::table::{lemma_id_put_get, lemma_name_slot, name_get, name_put, name_slot};
use vstd::prelude::*;

verus! {

/// The words of a command that runs in a namespace.
pub open spec fn in_namespace(ns: Seq<char>, words: Seq<Seq<char>>) -> Seq<Seq<char>> {
    seq!["netns"@, "exec"@, ns] + words
}

// ---------------------------------------------------------------------------
// Routes
// ---------------------------------------------------------------------------

/// Whether packets to an address were routed, in a namespace, out of a link.
pub open spec fn routed_out(t: Trace, u: Trace, ns: Seq<char>, addr: u32, dev: Seq<char>) -> bool {
    carried_out(
        t,
        u,
        "ip"@,
        in_namespace(
            ns,
            seq!["ip"@, "route"@, "replace"@, ipv4_text(addr) + "/32"@, "dev"@, dev],
        ),
    )
}

/// Whether an address was given a fixed hardware address on a link of a namespace.
pub open spec fn neighbour_set(
    t: Trace,
    u: Trace,
    ns: Seq<char>,
    addr: u32,
    mac: Seq<char>,
    dev: Seq<char>,
) -> bool {
    carried_out(
        t,
        u,
        "ip"@,
        in_namespace(
            ns,
            seq![
                "ip"@,
                "neigh"@,
                "replace"@,
                ipv4_text(addr),
                "lladdr"@,
                mac,
                "nud"@,
                "permanent"@,
                "dev"@,
                dev,
            ],
        ),
    )
}

/// Whether a namespace answers for an address on one of its links.
pub open spec fn answered_for(
    t: Trace,
    u: Trace,
    ns: Seq<char>,
    addr: u32,
    dev: Seq<char>,
) -> bool {
    carried_out(
        t,
        u,
        "ip"@,
        in_namespace(
            ns,
            seq!["ip"@, "neigh"@, "replace"@, "proxy"@, ipv4_text(addr), "dev"@, dev],
        ),
    )
}

/// What makes an endpoint reachable that is behind a link: the route to it, the hardware address
/// of the other end, and that its realm is answered for.
pub open spec fn reached_through(
    t: Trace,
    u: Trace,
    own: RealmOwnershipView,
    route: FabricEndpointRouteView,
    a: FabricAttachmentOwnershipView,
) -> bool {
    let addr = route.destination.network;
    &&& a.target_host == route.target_host
    &&& routed_out(t, u, own.namespace, addr, a.realm_veth)
    &&& neighbour_set(t, u, own.namespace, addr, a.remote_tunnel_mac, a.realm_veth)
    &&& answered_for(t, u, own.namespace, addr, own.realm_veth)
}

/// Whether a command routes in a namespace out of a link.
pub open spec fn is_link_route(c: CommandView) -> bool {
    &&& c.args.len() == 9
    &&& c.args[4] == "route"@
    &&& c.args[7] == "dev"@
}

/// Whether a command routes an endpoint of a plan out of the link to the endpoint's host.
pub open spec fn routes_home(
    c: CommandView,
    own: RealmOwnershipView,
    routes: Seq<FabricEndpointRouteView>,
) -> bool {
    exists|j: int|
        0 <= j < routes.len() && exists|k: int|
            0 <= k < own.attachments.len() && own.attachments[k].target_host
                == (#[trigger] routes[j]).target_host && spelled(
                c,
                "ip"@,
                in_namespace(
                    own.namespace,
                    seq![
                        "ip"@,
                        "route"@,
                        "replace"@,
                        ipv4_text(routes[j].destination.network) + "/32"@,
                        "dev"@,
                        (#[trigger] own.attachments[k]).realm_veth,
                    ],
                ),
            )
}

/// Whether every route that was set behind a trace leads an endpoint of a plan to its host.
pub open spec fn only_home(
    t: Trace,
    u: Trace,
    own: RealmOwnershipView,
    routes: Seq<FabricEndpointRouteView>,
) -> bool {
    forall|k: int|
        t.issued.len() <= k < u.issued.len() ==> ((#[trigger] u.issued[k]) matches EffectView::Run(
            c,
        ) ==> (is_link_route(c) ==> routes_home(c, own, routes)))
}

proof fn lemma_one_route(
    own: RealmOwnershipView,
    route: FabricEndpointRouteView,
    a: FabricAttachmentOwnershipView,
    t: Trace,
)
    requires
        a.target_host == route.target_host,
        run_all(
            t,
            route_cmds(own, route, a.realm_veth, a.remote_tunnel_mac),
            LinuxFabricError::CommandFailed,
            LinuxFabricError::Storage,
        ).1 is Ok,
    ensures
        reached_through(
            t,
            run_all(
                t,
                route_cmds(own, route, a.realm_veth, a.remote_tunnel_mac),
                LinuxFabricError::CommandFailed,
                LinuxFabricError::Storage,
            ).0,
            own,
            route,
            a,
        ),
{
    let failed = LinuxFabricError::CommandFailed;
    let io = LinuxFabricError::Storage;
    let cs = route_cmds(own, route, a.realm_veth, a.remote_tunnel_mac);
    lemma_all_carried_out(t, cs, failed, io, 0);
    lemma_all_carried_out(t, cs, failed, io, 1);
    lemma_all_carried_out(t, cs, failed, io, 2);
    let addr = ipv4_text(route.destination.network);
    assert(cs[0].args =~= in_namespace(
        own.namespace,
        seq!["ip"@, "route"@, "replace"@, addr + "/32"@, "dev"@, a.realm_veth],
    ));
    assert(cs[1].args =~= in_namespace(
        own.namespace,
        seq![
            "ip"@,
            "neigh"@,
            "replace"@,
            addr,
            "lladdr"@,
            a.remote_tunnel_mac,
            "nud"@,
            "permanent"@,
            "dev"@,
            a.realm_veth,
        ],
    ));
    assert(cs[2].args =~= in_namespace(
        own.namespace,
        seq!["ip"@, "neigh"@, "replace"@, "proxy"@, addr, "dev"@, own.realm_veth],
    ));
}

proof fn lemma_reached_later(
    t: Trace,
    u: Trace,
    v: Trace,
    own: RealmOwnershipView,
    route: FabricEndpointRouteView,
    a: FabricAttachmentOwnershipView,
)
    requires
        extends(u, v),
        reached_through(t, u, own, route, a),
    ensures
        reached_through(t, v, own, route, a),
{
    let addr = ipv4_text(route.destination.network);
    let ns = own.namespace;
    lemma_later(
        t,
        u,
        v,
        "ip"@,
        in_namespace(ns, seq!["ip"@, "route"@, "replace"@, addr + "/32"@, "dev"@, a.realm_veth]),
    );
    lemma_later(
        t,
        u,
        v,
        "ip"@,
        in_namespace(
            ns,
            seq![
                "ip"@,
                "neigh"@,
                "replace"@,
                addr,
                "lladdr"@,
                a.remote_tunnel_mac,
                "nud"@,
                "permanent"@,
                "dev"@,
                a.realm_veth,
            ],
        ),
    );
    lemma_later(
        t,
        u,
        v,
        "ip"@,
        in_namespace(ns, seq!["ip"@, "neigh"@, "replace"@, "proxy"@, addr, "dev"@, own.realm_veth]),
    );
}

proof fn lemma_reached_earlier(
    t: Trace,
    u: Trace,
    v: Trace,
    own: RealmOwnershipView,
    route: FabricEndpointRouteView,
    a: FabricAttachmentOwnershipView,
)
    requires
        extends(t, u),
        reached_through(u, v, own, route, a),
    ensures
        reached_through(t, v, own, route, a),
{
    let addr = ipv4_text(route.destination.network);
    let ns = own.namespace;
    lemma_earlier(
        t,
        u,
        v,
        "ip"@,
        in_namespace(ns, seq!["ip"@, "route"@, "replace"@, addr + "/32"@, "dev"@, a.realm_veth]),
    );
    lemma_earlier(
        t,
        u,
        v,
        "ip"@,
        in_namespace(
            ns,
            seq![
                "ip"@,
                "neigh"@,
                "replace"@,
                addr,
                "lladdr"@,
                a.remote_tunnel_mac,
                "nud"@,
                "permanent"@,
                "dev"@,
                a.realm_veth,
            ],
        ),
    );
    lemma_earlier(
        t,
        u,
        v,
        "ip"@,
        in_namespace(ns, seq!["ip"@, "neigh"@, "replace"@, "proxy"@, addr, "dev"@, own.realm_veth]),
    );
}

proof fn lemma_routes_reach(
    routes: Seq<FabricEndpointRouteView>,
    own: RealmOwnershipView,
    i: int,
    t: Trace,
    j: int,
)
    requires
        0 <= i <= j < routes.len(),
        realize_routes_run(routes, own, i, t).1 is Ok,
    ensures
        name_get::<FabricAttachmentOwnership>(own.attachments, routes[j].target_host) matches Some(
            a,
        ) && reached_through(t, realize_routes_run(routes, own, i, t).0, own, routes[j], a),
    decreases routes.len() - i,
{
    let failed = LinuxFabricError::CommandFailed;
    let io = LinuxFabricError::Storage;
    let a = name_get::<FabricAttachmentOwnership>(own.attachments, routes[i].target_host)->Some_0;
    let cs = route_cmds(own, routes[i], a.realm_veth, a.remote_tunnel_mac);
    let t1 = run_all(t, cs, failed, io).0;
    let v = realize_routes_run(routes, own, i + 1, t1).0;
    lemma_run_all_extends(t, cs, failed, io);
    if i == j {
        lemma_name_slot::<FabricAttachmentOwnership>(own.attachments, routes[i].target_host);
        lemma_one_route(own, routes[i], a, t);
        lemma_routes_extend(routes, own, i + 1, t1);
        lemma_reached_later(t, t1, v, own, routes[i], a);
    } else {
        lemma_routes_reach(routes, own, i + 1, t1, j);
        let other = name_get::<FabricAttachmentOwnership>(
            own.attachments,
            routes[j].target_host,
        )->Some_0;
        lemma_reached_earlier(t, t1, v, own, routes[j], other);
    }
}

proof fn lemma_routes_only_home(
    routes: Seq<FabricEndpointRouteView>,
    own: RealmOwnershipView,
    i: int,
    t: Trace,
)
    requires
        0 <= i <= routes.len(),
    ensures
        only_home(t, realize_routes_run(routes, own, i, t).0, own, routes),
    decreases routes.len() - i,
{
    let failed = LinuxFabricError::CommandFailed;
    let io = LinuxFabricError::Storage;
    let u = realize_routes_run(routes, own, i, t).0;
    if i < routes.len() {
        let host = routes[i].target_host;
        match name_get::<FabricAttachmentOwnership>(own.attachments, host) {
            None => {},
            Some(a) => {
                lemma_name_slot::<FabricAttachmentOwnership>(own.attachments, host);
                let k0 = name_slot::<FabricAttachmentOwnership>(own.attachments, host);
                assert(own.attachments[k0] == a);
                let cs = route_cmds(own, routes[i], a.realm_veth, a.remote_tunnel_mac);
                lemma_run_all_extends(t, cs, failed, io);
                let t1 = run_all(t, cs, failed, io).0;
                lemma_routes_only_home(routes, own, i + 1, t1);
                lemma_routes_extend(routes, own, i + 1, t1);
                let v = realize_routes_run(routes, own, i + 1, t1).0;
                assert(cs[0].args =~= in_namespace(
                    own.namespace,
                    seq![
                        "ip"@,
                        "route"@,
                        "replace"@,
                        ipv4_text(routes[i].destination.network) + "/32"@,
                        "dev"@,
                        a.realm_veth,
                    ],
                ));
                assert(own.attachments[k0].target_host == routes[i].target_host);
                assert(routes_home(cs[0], own, routes));
                reveal_strlit("route");
                reveal_strlit("neigh");
                assert("route"@[0] == 'r' && "neigh"@[0] == 'n');
                assert(cs[1].args[4] == "neigh"@ && cs[2].args[4] == "neigh"@);
                assert forall|k: int| t.issued.len() <= k < u.issued.len() implies ((
                #[trigger] u.issued[k]) matches EffectView::Run(c) ==> (is_link_route(c)
                    ==> routes_home(c, own, routes))) by {
                    if k < t1.issued.len() {
                        assert(t1.issued[k] == EffectView::Run(cs[k - t.issued.len()]));
                        assert(v.issued[k] == v.issued.take(t1.issued.len() as int)[k]);
                    }
                }
            },
        }
    }
}

// ---------------------------------------------------------------------------
// Tunnels
// ---------------------------------------------------------------------------

/// Whether a link of a namespace was attached to a bridge of it.
pub open spec fn joined(
    t: Trace,
    u: Trace,
    ns: Seq<char>,
    dev: Seq<char>,
    bridge: Seq<char>,
) -> bool {
    carried_out(
        t,
        u,
        "ip"@,
        in_namespace(ns, seq!["ip"@, "link"@, "set"@, "dev"@, dev, "master"@, bridge]),
    )
}

/// Whether a link of a namespace was given a hardware address.
pub open spec fn addressed(
    t: Trace,
    u: Trace,
    ns: Seq<char>,
    dev: Seq<char>,
    mac: Seq<char>,
) -> bool {
    carried_out(
        t,
        u,
        "ip"@,
        in_namespace(ns, seq!["ip"@, "link"@, "set"@, "dev"@, dev, "address"@, mac]),
    )
}

/// Whether a bridge was told behind which of its links a hardware address is.
pub open spec fn forwarded(
    t: Trace,
    u: Trace,
    ns: Seq<char>,
    mac: Seq<char>,
    dev: Seq<char>,
) -> bool {
    carried_out(
        t,
        u,
        "ip"@,
        in_namespace(ns, seq!["bridge"@, "fdb"@, "replace"@, mac, "dev"@, dev, "master"@, "static"@]),
    )
}

/// Whether a link of a namespace can carry packets of a size.
pub open spec fn sized(t: Trace, u: Trace, ns: Seq<char>, dev: Seq<char>, mtu: u32) -> bool {
    carried_out(
        t,
        u,
        "ip"@,
        in_namespace(ns, seq!["ip"@, "link"@, "set"@, "dev"@, dev, "mtu"@, decimal(mtu as nat)]),
    )
}

/// What connects a realm to a host: the tunnel and the link to the realm are on one bridge, both
/// ends of the link have the hardware address of this host, and the bridge knows where the
/// hardware address of the other host is.
pub open spec fn connected(
    t: Trace,
    u: Trace,
    fabric_ns: Seq<char>,
    realm_ns: Seq<char>,
    tenant_mtu: u32,
    g: GeneveOwnershipView,
) -> bool {
    &&& joined(t, u, fabric_ns, g.interface, g.bridge)
    &&& joined(t, u, fabric_ns, g.fabric_veth, g.bridge)
    &&& addressed(t, u, fabric_ns, g.interface, g.local_tunnel_mac)
    &&& addressed(t, u, realm_ns, g.realm_veth, g.local_tunnel_mac)
    &&& forwarded(t, u, fabric_ns, g.remote_tunnel_mac, g.interface)
    &&& sized(t, u, fabric_ns, g.interface, tenant_mtu)
}

proof fn lemma_connected_later(
    t: Trace,
    u: Trace,
    v: Trace,
    fabric_ns: Seq<char>,
    realm_ns: Seq<char>,
    tenant_mtu: u32,
    g: GeneveOwnershipView,
)
    requires
        extends(u, v),
        connected(t, u, fabric_ns, realm_ns, tenant_mtu, g),
    ensures
        connected(t, v, fabric_ns, realm_ns, tenant_mtu, g),
{
    let ip = "ip"@;
    lemma_later(t, u, v, ip, in_namespace(fabric_ns, seq!["ip"@, "link"@, "set"@, "dev"@, g.interface, "master"@, g.bridge]));
    lemma_later(t, u, v, ip, in_namespace(fabric_ns, seq!["ip"@, "link"@, "set"@, "dev"@, g.fabric_veth, "master"@, g.bridge]));
    lemma_later(t, u, v, ip, in_namespace(fabric_ns, seq!["ip"@, "link"@, "set"@, "dev"@, g.interface, "address"@, g.local_tunnel_mac]));
    lemma_later(t, u, v, ip, in_namespace(realm_ns, seq!["ip"@, "link"@, "set"@, "dev"@, g.realm_veth, "address"@, g.local_tunnel_mac]));
    lemma_later(t, u, v, ip, in_namespace(fabric_ns, seq!["bridge"@, "fdb"@, "replace"@, g.remote_tunnel_mac, "dev"@, g.interface, "master"@, "static"@]));
    lemma_later(t, u, v, ip, in_namespace(fabric_ns, seq!["ip"@, "link"@, "set"@, "dev"@, g.interface, "mtu"@, decimal(tenant_mtu as nat)]));
}

proof fn lemma_connected_earlier(
    t: Trace,
    u: Trace,
    v: Trace,
    fabric_ns: Seq<char>,
    realm_ns: Seq<char>,
    tenant_mtu: u32,
    g: GeneveOwnershipView,
)
    requires
        extends(t, u),
        connected(u, v, fabric_ns, realm_ns, tenant_mtu, g),
    ensures
        connected(t, v, fabric_ns, realm_ns, tenant_mtu, g),
{
    let ip = "ip"@;
    lemma_earlier(t, u, v, ip, in_namespace(fabric_ns, seq!["ip"@, "link"@, "set"@, "dev"@, g.interface, "master"@, g.bridge]));
    lemma_earlier(t, u, v, ip, in_namespace(fabric_ns, seq!["ip"@, "link"@, "set"@, "dev"@, g.fabric_veth, "master"@, g.bridge]));
    lemma_earlier(t, u, v, ip, in_namespace(fabric_ns, seq!["ip"@, "link"@, "set"@, "dev"@, g.interface, "address"@, g.local_tunnel_mac]));
    lemma_earlier(t, u, v, ip, in_namespace(realm_ns, seq!["ip"@, "link"@, "set"@, "dev"@, g.realm_veth, "address"@, g.local_tunnel_mac]));
    lemma_earlier(t, u, v, ip, in_namespace(fabric_ns, seq!["bridge"@, "fdb"@, "replace"@, g.remote_tunnel_mac, "dev"@, g.interface, "master"@, "static"@]));
    lemma_earlier(t, u, v, ip, in_namespace(fabric_ns, seq!["ip"@, "link"@, "set"@, "dev"@, g.interface, "mtu"@, decimal(tenant_mtu as nat)]));
}

/// The command of a list at `i`, by its words.
proof fn lemma_listed(t: Trace, cs: Seq<CommandView>, i: int, words: Seq<Seq<char>>)
    requires
        run_all(t, cs, LinuxFabricError::CommandFailed, LinuxFabricError::Storage).1 is Ok,
        0 <= i < cs.len(),
        cs[i].program == "ip"@,
        cs[i].args =~= words,
    ensures
        carried_out(
            t,
            run_all(t, cs, LinuxFabricError::CommandFailed, LinuxFabricError::Storage).0,
            "ip"@,
            words,
        ),
{
    lemma_all_carried_out(t, cs, LinuxFabricError::CommandFailed, LinuxFabricError::Storage, i);
}

/// A tunnel that was realized is connected to its realm, and it was made with the number of the
/// segment, the other host's address and the configured port, unless it was there already.
pub proof fn lemma_realized_tunnel_is_connected(
    cfg: LinuxFabricConfigView,
    st: ProviderStateView,
    plan: NamespacedRoutedFabricPlanView,
    g: GeneveOwnershipView,
    t: Trace,
)
    requires
        realize_tunnel_run(cfg, st, plan, g, t).2 is Ok,
    ensures
        ({
            let u = realize_tunnel_run(cfg, st, plan, g, t).1;
            &&& st.realm(plan.realm_id) matches Some(own) && connected(
                t,
                u,
                cfg.fabric_namespace,
                own.namespace,
                plan.tenant_mtu,
                g,
            )
            &&& queried(t.reply(), LinuxFabricError::Storage) matches Ok((there, _)) && (there
                || carried_out(
                t,
                u,
                "ip"@,
                in_namespace(
                    cfg.fabric_namespace,
                    seq![
                        "ip"@,
                        "link"@,
                        "add"@,
                        g.interface,
                        "type"@,
                        "geneve"@,
                        "id"@,
                        decimal(g.vni as nat),
                        "remote"@,
                        ipv4_text(g.remote_transport_ip),
                        "dstport"@,
                        decimal(cfg.geneve_port as nat),
                    ],
                ),
            ))
        }),
{
    let failed = LinuxFabricError::CommandFailed;
    let io = LinuxFabricError::Storage;
    let ns = cfg.fabric_namespace;
    let own = st.realm(plan.realm_id)->Some_0;
    let q = EffectView::Query(super::commands::ns_link_detail_cmd(ns, g.interface));
    let t1 = t.after(q);
    lemma_extends_after(t, q);
    let exists = queried(t.reply(), io)->Ok_0.0;
    let cs = tunnel_cmds(cfg, plan.tenant_mtu, g, exists);
    let t2 = run_all(t1, cs, failed, io).0;
    let n = if exists {
        0int
    } else {
        1
    };
    let add = in_namespace(
        ns,
        seq![
            "ip"@,
            "link"@,
            "add"@,
            g.interface,
            "type"@,
            "geneve"@,
            "id"@,
            decimal(g.vni as nat),
            "remote"@,
            ipv4_text(g.remote_transport_ip),
            "dstport"@,
            decimal(cfg.geneve_port as nat),
        ],
    );
    let w_mac = in_namespace(ns, seq!["ip"@, "link"@, "set"@, "dev"@, g.interface, "address"@, g.local_tunnel_mac]);
    let w_mtu = in_namespace(ns, seq!["ip"@, "link"@, "set"@, "dev"@, g.interface, "mtu"@, decimal(plan.tenant_mtu as nat)]);
    lemma_runs(t, t1, cs);
    assert(cs[n].args =~= w_mac);
    lemma_listed(t1, cs, n, w_mac);
    assert(cs[n + 1].args =~= w_mtu);
    lemma_listed(t1, cs, n + 1, w_mtu);
    if !exists {
        assert(cs[0].args =~= add);
        lemma_listed(t1, cs, 0, add);
    }
    // The bridge.
    lemma_attachment_extends(cfg, st, plan.realm_id, g, t2);
    let t3 = ensure_attachment_run(cfg, st, plan.realm_id, g, t2).0;
    let b1 = attach_bridge_run(ns, g, t2).0;
    lemma_bridge_extends(ns, g, t2);
    lemma_veth_extends(ns, own.namespace, g, b1);
    let bq = EffectView::Query(super::commands::ns_link_show_cmd(ns, g.bridge));
    lemma_extends_after(t2, bq);
    let bexists = queried(t2.reply(), io)->Ok_0.0;
    let bcs = bridge_cmds(ns, g, bexists);
    let m = if bexists {
        1int
    } else {
        2
    };
    let w_join = in_namespace(ns, seq!["ip"@, "link"@, "set"@, "dev"@, g.interface, "master"@, g.bridge]);
    assert(bcs[m].args =~= w_join);
    lemma_listed(t2.after(bq), bcs, m, w_join);
    lemma_earlier(t2, t2.after(bq), b1, "ip"@, w_join);
    lemma_later(t2, b1, t3, "ip"@, w_join);
    // The link to the realm.
    let q1 = EffectView::Query(super::commands::ns_link_show_cmd(own.namespace, g.realm_veth));
    let q2 = EffectView::Query(super::commands::ns_link_detail_cmd(ns, g.fabric_veth));
    let b3 = b1.after(q1).after(q2);
    lemma_extends_after(b1, q1);
    lemma_extends_after(b1.after(q1), q2);
    lemma_extends_transitive(b1, b1.after(q1), b3);
    lemma_extends_transitive(t2, b1, b3);
    let vexists = queried(b1.reply(), io)->Ok_0.0;
    let vcs = veth_cmds(ns, own.namespace, g, vexists);
    let k = if vexists {
        0int
    } else {
        3
    };
    let w_rmac = in_namespace(own.namespace, seq!["ip"@, "link"@, "set"@, "dev"@, g.realm_veth, "address"@, g.local_tunnel_mac]);
    let w_fjoin = in_namespace(ns, seq!["ip"@, "link"@, "set"@, "dev"@, g.fabric_veth, "master"@, g.bridge]);
    let w_fdb = in_namespace(ns, seq!["bridge"@, "fdb"@, "replace"@, g.remote_tunnel_mac, "dev"@, g.interface, "master"@, "static"@]);
    assert(vcs[k].args =~= w_rmac);
    lemma_listed(b3, vcs, k, w_rmac);
    assert(vcs[k + 3].args =~= w_fjoin);
    lemma_listed(b3, vcs, k + 3, w_fjoin);
    assert(vcs[k + 5].args =~= w_fdb);
    lemma_listed(b3, vcs, k + 5, w_fdb);
    lemma_earlier(t2, b3, t3, "ip"@, w_rmac);
    lemma_earlier(t2, b3, t3, "ip"@, w_fjoin);
    lemma_earlier(t2, b3, t3, "ip"@, w_fdb);
    // All of it behind `t`, up to the end.
    let u = t3.after(EffectView::Save);
    lemma_extends_after(t3, EffectView::Save);
    lemma_extends_transitive(t2, t3, u);
    lemma_earlier(t, t1, t2, "ip"@, w_mac);
    lemma_earlier(t, t1, t2, "ip"@, w_mtu);
    lemma_later(t, t2, u, "ip"@, w_mac);
    lemma_later(t, t2, u, "ip"@, w_mtu);
    if !exists {
        lemma_earlier(t, t1, t2, "ip"@, add);
        lemma_later(t, t2, u, "ip"@, add);
    }
    lemma_later(t2, t3, u, "ip"@, w_join);
    lemma_later(t2, t3, u, "ip"@, w_rmac);
    lemma_later(t2, t3, u, "ip"@, w_fjoin);
    lemma_later(t2, t3, u, "ip"@, w_fdb);
    lemma_earlier(t, t2, u, "ip"@, w_join);
    lemma_earlier(t, t2, u, "ip"@, w_rmac);
    lemma_earlier(t, t2, u, "ip"@, w_fjoin);
    lemma_earlier(t, t2, u, "ip"@, w_fdb);
}

/// Whether a tunnel is one that a plan asks for: it carries the plan's segment to a peer that some
/// endpoint of the plan is on, at the address of that peer.
pub open spec fn serves(plan: NamespacedRoutedFabricPlanView, g: GeneveOwnershipView) -> bool {
    &&& g.vni == plan.encapsulation.provider_segment_id
    &&& g.binding_generation == plan.encapsulation.binding_generation
    &&& exists|j: int|
        0 <= j < plan.peers.len() && (#[trigger] plan.peers[j]).host_id == g.target_host
            && plan.peers[j].fabric_transport_ip == g.remote_transport_ip
    &&& exists|i: int|
        0 <= i < plan.routes.len() && (#[trigger] plan.routes[i]).target_host == g.target_host
}

/// Whether all tunnels of a list are such.
spec fn all_serve(plan: NamespacedRoutedFabricPlanView, gs: Seq<GeneveOwnershipView>) -> bool {
    forall|k: int| 0 <= k < gs.len() ==> serves(plan, #[trigger] gs[k])
}

proof fn lemma_put_serves(
    plan: NamespacedRoutedFabricPlanView,
    table: Seq<GeneveOwnershipView>,
    g: GeneveOwnershipView,
)
    requires
        all_serve(plan, table),
        serves(plan, g),
    ensures
        all_serve(plan, name_put::<GeneveOwnership>(table, g)),
{
    lemma_name_slot::<GeneveOwnership>(table, g.target_host);
    let n = name_slot::<GeneveOwnership>(table, g.target_host);
    let r = name_put::<GeneveOwnership>(table, g);
    assert forall|k: int| 0 <= k < r.len() implies serves(plan, #[trigger] r[k]) by {
        if r.len() == table.len() {
            if k != n {
                assert(r[k] == table[k]);
            }
        } else if k < n {
            assert(r[k] == table[k]);
        } else if k > n {
            assert(r[k] == table[k - 1]);
        }
    }
}

proof fn lemma_wanted_serve(
    table: Seq<GeneveOwnershipView>,
    plan: NamespacedRoutedFabricPlanView,
    known: Seq<GeneveOwnershipView>,
    i: int,
)
    requires
        0 <= i,
        all_serve(plan, table),
    ensures
        all_serve(plan, wanted_tunnels(table, plan, known, i)),
    decreases plan.peers.len() - i,
{
    if i < plan.peers.len() {
        let peer = plan.peers[i];
        let g = tunnel(plan, peer, was_realized(known, peer.host_id));
        if super::geneve::routes_to(plan, peer.host_id) {
            assert(plan.peers[i].host_id == g.target_host);
            assert(serves(plan, g));
            lemma_put_serves(plan, table, g);
            lemma_wanted_serve(name_put::<GeneveOwnership>(table, g), plan, known, i + 1);
        } else {
            lemma_wanted_serve(table, plan, known, i + 1);
        }
    }
}

/// Whether two lists hold the same tunnels, whether they are realized or not.
spec fn same_tunnels(a: Seq<GeneveOwnershipView>, b: Seq<GeneveOwnershipView>) -> bool {
    &&& a.len() == b.len()
    &&& forall|k: int| 0 <= k < a.len() ==> same_tunnel(#[trigger] a[k], b[k])
}

proof fn lemma_checked_same(
    cfg: LinuxFabricConfigView,
    known: Seq<GeneveOwnershipView>,
    wanted: Seq<GeneveOwnershipView>,
    i: int,
    t: Trace,
)
    ensures
        same_tunnels(check_tunnels_run(cfg, known, wanted, i, t).0, wanted),
    decreases wanted.len() - i,
{
    if 0 <= i < wanted.len() {
        let g = wanted[i];
        let q = EffectView::Query(
            super::commands::ns_link_detail_cmd(cfg.fabric_namespace, g.interface),
        );
        let changed = wanted.update(i, GeneveOwnershipView { realized: false, ..g });
        lemma_checked_same(cfg, known, wanted, i + 1, t.after(q));
        lemma_checked_same(cfg, known, changed, i + 1, t.after(q));
        let r = check_tunnels_run(cfg, known, wanted, i, t).0;
        let c = check_tunnels_run(cfg, known, changed, i + 1, t.after(q)).0;
        assert forall|k: int| 0 <= k < wanted.len() implies same_tunnel(#[trigger] r[k], wanted[k]) by {
            if r == c {
                assert(same_tunnel(c[k], changed[k]));
            }
        }
    }
}

/// Whether a record of a realm has the links of another.
spec fn same_links(a: RealmOwnershipView, b: RealmOwnershipView) -> bool {
    &&& a.realm_id == b.realm_id
    &&& a.namespace == b.namespace
    &&& a.realm_veth == b.realm_veth
    &&& a.attachments == b.attachments
    &&& same_tunnels(a.geneve, b.geneve)
}

proof fn lemma_with_realized(st: ProviderStateView, id: u128, host: Seq<char>)
    requires
        st.sorted(),
        st.realm(id) is Some,
    ensures
        with_realized(st, id, host).realm(id) matches Some(own) && same_links(
            own,
            st.realm(id)->Some_0,
        ),
{
    lemma_realm_sorted(st, id);
    let own = st.realm(id)->Some_0;
    match name_get::<GeneveOwnership>(own.geneve, host) {
        None => {},
        Some(g) => {
            lemma_name_slot::<GeneveOwnership>(own.geneve, host);
            let next = RealmOwnershipView {
                geneve: name_put::<GeneveOwnership>(
                    own.geneve,
                    GeneveOwnershipView { realized: true, ..g },
                ),
                ..own
            };
            lemma_id_put_get::<RealmOwnership>(st.realms, next, id);
            assert(st.with_realm(next).realm(id) == Some(next));
        },
    }
}

proof fn lemma_tunnels_connect(
    cfg: LinuxFabricConfigView,
    st: ProviderStateView,
    plan: NamespacedRoutedFabricPlanView,
    wanted: Seq<GeneveOwnershipView>,
    i: int,
    t: Trace,
    k: int,
)
    requires
        st.sorted(),
        st.realm(plan.realm_id) is Some,
        0 <= i <= wanted.len(),
        realize_tunnels_run(cfg, st, plan, wanted, i, t).2 is Ok,
    ensures
        ({
            let (st1, u, r) = realize_tunnels_run(cfg, st, plan, wanted, i, t);
            let own = st.realm(plan.realm_id)->Some_0;
            &&& st1.realm(plan.realm_id) matches Some(own1) && same_links(own1, own)
            &&& i <= k < wanted.len() ==> connected(
                t,
                u,
                cfg.fabric_namespace,
                own.namespace,
                plan.tenant_mtu,
                wanted[k],
            )
        }),
    decreases wanted.len() - i,
{
    if i < wanted.len() {
        let own = st.realm(plan.realm_id)->Some_0;
        let (st1, t1, r1) = realize_tunnel_run(cfg, st, plan, wanted[i], t);
        lemma_realized_tunnel_is_connected(cfg, st, plan, wanted[i], t);
        lemma_with_realized(st, plan.realm_id, wanted[i].target_host);
        lemma_with_realized_sorted(st, plan.realm_id, wanted[i].target_host);
        assert(st1 == with_realized(st, plan.realm_id, wanted[i].target_host));
        lemma_tunnels_connect(cfg, st1, plan, wanted, i + 1, t1, k);
        let (st2, u, r2) = realize_tunnels_run(cfg, st1, plan, wanted, i + 1, t1);
        lemma_tunnel_extends(cfg, st, plan, wanted[i], t);
        lemma_tunnels_extend(cfg, st1, plan, wanted, i + 1, t1);
        let ns = cfg.fabric_namespace;
        if k == i {
            lemma_connected_later(t, t1, u, ns, own.namespace, plan.tenant_mtu, wanted[k]);
        } else if i < k < wanted.len() {
            lemma_connected_earlier(t, t1, u, ns, own.namespace, plan.tenant_mtu, wanted[k]);
        }
        let own2 = st2.realm(plan.realm_id)->Some_0;
        let own1 = st1.realm(plan.realm_id)->Some_0;
        assert forall|n: int| 0 <= n < own.geneve.len() implies same_tunnel(
            #[trigger] own2.geneve[n],
            own.geneve[n],
        ) by {
            assert(same_tunnel(own1.geneve[n], own.geneve[n]));
        }
    }
}

/// The bridges, links and hardware addresses of a record of a tunnel and of what connects it.
pub open spec fn fits(a: FabricAttachmentOwnershipView, g: GeneveOwnershipView) -> bool {
    &&& a.target_host == g.target_host
    &&& a.bridge == g.bridge
    &&& a.realm_veth == g.realm_veth
    &&& a.fabric_veth == g.fabric_veth
    &&& a.local_tunnel_mac == g.local_tunnel_mac
    &&& a.remote_tunnel_mac == g.remote_tunnel_mac
}

/// What is known of the tunnels of a realm once they are realized.
pub open spec fn tunnels_stand(
    t: Trace,
    u: Trace,
    cfg: LinuxFabricConfigView,
    plan: NamespacedRoutedFabricPlanView,
    own: RealmOwnershipView,
) -> bool {
    &&& own.geneve.len() == own.attachments.len()
    &&& forall|k: int|
        0 <= k < own.geneve.len() ==> {
            &&& serves(plan, #[trigger] own.geneve[k])
            &&& fits(own.attachments[k], own.geneve[k])
            &&& connected(
                t,
                u,
                cfg.fabric_namespace,
                own.namespace,
                plan.tenant_mtu,
                own.geneve[k],
            )
        }
}

proof fn lemma_same_connected(
    t: Trace,
    u: Trace,
    fabric_ns: Seq<char>,
    realm_ns: Seq<char>,
    mtu: u32,
    a: GeneveOwnershipView,
    b: GeneveOwnershipView,
)
    requires
        same_tunnel(a, b),
        connected(t, u, fabric_ns, realm_ns, mtu, b),
    ensures
        connected(t, u, fabric_ns, realm_ns, mtu, a),
{
    assert(a.interface == b.interface && a.bridge == b.bridge && a.fabric_veth == b.fabric_veth);
}

/// The tunnels of a plan stand once they are realized: each carries the plan's segment to a peer
/// that endpoints are routed to, and is connected to the realm through the recorded links.
pub proof fn lemma_tunnels_stand(
    b: LinuxFabricBackendView,
    plan: NamespacedRoutedFabricPlanView,
    t: Trace,
)
    requires
        b.state.sorted(),
        ensure_geneve_run(b, plan, t).2 is Ok,
    ensures
        ({
            let (st1, u, r) = ensure_geneve_run(b, plan, t);
            st1.realm(plan.realm_id) matches Some(own) && tunnels_stand(
                t,
                u,
                b.config,
                plan,
                own,
            )
        }),
{
    let cfg = b.config;
    let id = plan.realm_id;
    lemma_realm_sorted(b.state, id);
    let own = b.state.realm(id)->Some_0;
    let wanted = wanted_tunnels(Seq::empty(), plan, own.geneve, 0);
    lemma_wanted_serve(Seq::empty(), plan, own.geneve, 0);
    let t1 = remove_tunnels_run(cfg, own.namespace, own.geneve, wanted, 0, t).0;
    super::removal::lemma_tunnels(cfg, own.namespace, own.geneve, wanted, 0, t);
    let (checked, t2, r2) = check_tunnels_run(cfg, own.geneve, wanted, 0, t1);
    super::course::lemma_check_extends(cfg, own.geneve, wanted, 0, t1);
    lemma_checked_same(cfg, own.geneve, wanted, 0, t1);
    lemma_recorded_tunnels_sorted(cfg, b.state, own, plan, t1);
    let (st3, t3, r3) = record_tunnels_run(b.state, own, checked, t2);
    let next = RealmOwnershipView {
        geneve: checked,
        attachments: attachments_of(checked),
        ..own
    };
    lemma_id_put_get::<RealmOwnership>(b.state.realms, next, id);
    assert(st3.realm(id) == Some(next));
    lemma_extends_after(t2, EffectView::Save);
    lemma_extends_self(t2);
    lemma_extends_transitive(t, t1, t2);
    lemma_extends_transitive(t, t2, t3);
    let (st4, u, r4) = realize_tunnels_run(cfg, st3, plan, checked, 0, t3);
    lemma_tunnels_connect(cfg, st3, plan, checked, 0, t3, 0);
    let last = st4.realm(id)->Some_0;
    assert forall|k: int| 0 <= k < last.geneve.len() implies {
        &&& serves(plan, #[trigger] last.geneve[k])
        &&& fits(last.attachments[k], last.geneve[k])
        &&& connected(t, u, cfg.fabric_namespace, last.namespace, plan.tenant_mtu, last.geneve[k])
    } by {
        let g = last.geneve[k];
        lemma_tunnels_connect(cfg, st3, plan, checked, 0, t3, k);
        assert(same_tunnel(g, checked[k]));
        assert(same_tunnel(checked[k], wanted[k]));
        assert(serves(plan, wanted[k]));
        assert(serves(plan, g));
        assert(last.attachments[k] == attachment_of(checked[k]));
        lemma_connected_earlier(
            t,
            t3,
            u,
            cfg.fabric_namespace,
            own.namespace,
            plan.tenant_mtu,
            checked[k],
        );
        lemma_same_connected(
            t,
            u,
            cfg.fabric_namespace,
            own.namespace,
            plan.tenant_mtu,
            g,
            checked[k],
        );
    }
}

/// The stages behind the tunnels leave the links of the realm as they are.
proof fn lemma_links_stay(
    stage: Stage,
    b: LinuxFabricBackendView,
    plan: NamespacedRoutedFabricPlanView,
    t: Trace,
)
    requires
        b.sorted(),
        stage == Stage::Taps || stage == Stage::Policy || stage == Stage::Public,
        b.state.realm(plan.realm_id) is Some,
    ensures
        stage_run(stage, b, plan, t).0.config == b.config,
        stage_run(stage, b, plan, t).0.state.realm(plan.realm_id) matches Some(own) && {
            let was = b.state.realm(plan.realm_id)->Some_0;
            &&& own.realm_id == was.realm_id
            &&& own.namespace == was.namespace
            &&& own.realm_veth == was.realm_veth
            &&& own.bridge == was.bridge
            &&& own.attachments == was.attachments
            &&& own.geneve == was.geneve
        },
{
    let id = plan.realm_id;
    let st = b.state;
    lemma_realm_sorted(st, id);
    let own = st.realm(id)->Some_0;
    match stage {
        Stage::Taps => {
            let wanted = super::taps::local_taps(Seq::empty(), plan, 0);
            super::laws::lemma_local_taps_sorted(Seq::empty(), plan, 0);
            let announced = RealmOwnershipView { pending_endpoint_taps: wanted, ..own };
            assert(announced.sorted());
            super::laws::lemma_with_realm_sorted(st, announced);
            lemma_id_put_get::<RealmOwnership>(st.realms, announced, id);
            let st1 = super::taps::announce_taps_run(st, own, wanted, t).0;
            let current = st1.realm(id)->Some_0;
            let done = RealmOwnershipView {
                endpoint_taps: wanted,
                pending_endpoint_taps: Seq::empty(),
                ..current
            };
            lemma_id_put_get::<RealmOwnership>(st1.realms, done, id);
        },
        Stage::Policy => {
            let cleared = RealmOwnershipView {
                policy_generation: 0,
                policy_fingerprint: Seq::empty(),
                ..own
            };
            let set = RealmOwnershipView {
                policy_generation: plan.policy_generation,
                policy_fingerprint: super::policy::policy_fingerprint_text(plan),
                ..own
            };
            lemma_id_put_get::<RealmOwnership>(st.realms, cleared, id);
            lemma_id_put_get::<RealmOwnership>(st.realms, set, id);
        },
        _ => {
            let cleared = super::public::without_public(own);
            let set = super::public::with_public(own, plan);
            lemma_id_put_get::<RealmOwnership>(st.realms, cleared, id);
            lemma_id_put_get::<RealmOwnership>(st.realms, set, id);
        },
    }
}

proof fn lemma_config_stays(
    n: int,
    b: LinuxFabricBackendView,
    plan: NamespacedRoutedFabricPlanView,
    t: Trace,
)
    ensures
        stages_run(n, b, plan, t).0.config == b.config,
    decreases n,
{
    if n > 0 {
        lemma_config_stays(n - 1, b, plan, t);
    }
}

proof fn lemma_stand_later(
    t: Trace,
    u: Trace,
    v: Trace,
    cfg: LinuxFabricConfigView,
    plan: NamespacedRoutedFabricPlanView,
    own: RealmOwnershipView,
)
    requires
        extends(u, v),
        tunnels_stand(t, u, cfg, plan, own),
    ensures
        tunnels_stand(t, v, cfg, plan, own),
{
    assert forall|k: int| 0 <= k < own.geneve.len() implies {
        &&& serves(plan, #[trigger] own.geneve[k])
        &&& fits(own.attachments[k], own.geneve[k])
        &&& connected(t, v, cfg.fabric_namespace, own.namespace, plan.tenant_mtu, own.geneve[k])
    } by {
        lemma_connected_later(
            t,
            u,
            v,
            cfg.fabric_namespace,
            own.namespace,
            plan.tenant_mtu,
            own.geneve[k],
        );
    }
}

proof fn lemma_stand_earlier(
    t: Trace,
    u: Trace,
    v: Trace,
    cfg: LinuxFabricConfigView,
    plan: NamespacedRoutedFabricPlanView,
    own: RealmOwnershipView,
)
    requires
        extends(t, u),
        tunnels_stand(u, v, cfg, plan, own),
    ensures
        tunnels_stand(t, v, cfg, plan, own),
{
    assert forall|k: int| 0 <= k < own.geneve.len() implies {
        &&& serves(plan, #[trigger] own.geneve[k])
        &&& fits(own.attachments[k], own.geneve[k])
        &&& connected(t, v, cfg.fabric_namespace, own.namespace, plan.tenant_mtu, own.geneve[k])
    } by {
        lemma_connected_earlier(
            t,
            u,
            v,
            cfg.fabric_namespace,
            own.namespace,
            plan.tenant_mtu,
            own.geneve[k],
        );
    }
}

/// Once a plan is applied, its tunnels stand: each leads to a peer that the plan routes endpoints
/// to, and is connected to the realm.
#[verifier::rlimit(60)]
#[verifier::spinoff_prover]
pub proof fn lemma_applied_plan_has_its_tunnels(
    b: LinuxFabricBackendView,
    plan: NamespacedRoutedFabricPlanView,
    t: Trace,
)
    requires
        b.sorted(),
        apply_run(b, plan, t).2 is Ok,
    ensures
        apply_run(b, plan, t).0.state.realm(plan.realm_id) matches Some(own) && tunnels_stand(
            t,
            apply_run(b, plan, t).1,
            b.config,
            plan,
            own,
        ),
{
    let u = stages_run(9, b, plan, t).1;
    lemma_stage_succeeds(4, 9, b, plan, t);
    lemma_stages_sorted(4, b, plan, t);
    let (b4, t4, r4) = stages_run(4, b, plan, t);
    lemma_config_stays(4, b, plan, t);
    lemma_tunnels_stand(b4, plan, t4);
    let (b5, t5, r5) = stages_run(5, b, plan, t);
    let own5 = b5.state.realm(plan.realm_id)->Some_0;
    lemma_stages_sorted(5, b, plan, t);
    lemma_stage_succeeds(5, 9, b, plan, t);
    lemma_links_stay(Stage::Taps, b5, plan, t5);
    let (b6, t6, r6) = stages_run(6, b, plan, t);
    lemma_stages_sorted(6, b, plan, t);
    lemma_stage_succeeds(6, 9, b, plan, t);
    lemma_links_stay(Stage::Policy, b6, plan, t6);
    let (b7, t7, r7) = stages_run(7, b, plan, t);
    lemma_stages_sorted(7, b, plan, t);
    lemma_stage_succeeds(7, 9, b, plan, t);
    lemma_links_stay(Stage::Public, b7, plan, t7);
    lemma_stage_succeeds(8, 9, b, plan, t);
    let (b9, t9, r9) = stages_run(9, b, plan, t);
    let own = b9.state.realm(plan.realm_id)->Some_0;
    lemma_stand_earlier(t, t4, t5, b.config, plan, own5);
    lemma_stand_later(t, t5, u, b.config, plan, own5);
    assert(own.geneve == own5.geneve && own.attachments == own5.attachments);
    assert(tunnels_stand(t, u, b.config, plan, own));
}

/// Whether the link at `k` of a realm is the way to the endpoint of a route: the endpoint is
/// reached through it, and its other end is on the bridge of the tunnel to the endpoint's host.
pub open spec fn is_way(
    t: Trace,
    u: Trace,
    cfg: LinuxFabricConfigView,
    plan: NamespacedRoutedFabricPlanView,
    own: RealmOwnershipView,
    route: FabricEndpointRouteView,
    k: int,
) -> bool {
    let a = own.attachments[k];
    let g = own.geneve[k];
    &&& 0 <= k < own.attachments.len()
    &&& 0 <= k < own.geneve.len()
    &&& a.target_host == route.target_host
    &&& g.target_host == route.target_host
    &&& serves(plan, g)
    &&& reached_through(t, u, own, route, a)
    &&& joined(t, u, cfg.fabric_namespace, a.fabric_veth, g.bridge)
    &&& joined(t, u, cfg.fabric_namespace, g.interface, g.bridge)
    &&& a.realm_veth == g.realm_veth
}

proof fn lemma_way(
    t: Trace,
    u: Trace,
    cfg: LinuxFabricConfigView,
    plan: NamespacedRoutedFabricPlanView,
    own: RealmOwnershipView,
    route: FabricEndpointRouteView,
    k: int,
)
    requires
        0 <= k < own.attachments.len(),
        tunnels_stand(t, u, cfg, plan, own),
        own.attachments[k].target_host == route.target_host,
        reached_through(t, u, own, route, own.attachments[k]),
    ensures
        is_way(t, u, cfg, plan, own, route, k),
{
    assert(serves(plan, own.geneve[k]));
    assert(fits(own.attachments[k], own.geneve[k]));
    assert(connected(t, u, cfg.fabric_namespace, own.namespace, plan.tenant_mtu, own.geneve[k]));
}

/// Once a plan is applied, every endpoint that it routes to another host is reached through the
/// link whose other end is on the bridge of the tunnel to that host.
pub proof fn lemma_routed_endpoint_is_reached(
    b: LinuxFabricBackendView,
    plan: NamespacedRoutedFabricPlanView,
    t: Trace,
    i: int,
)
    requires
        b.sorted(),
        apply_run(b, plan, t).2 is Ok,
        0 <= i < plan.routes.len(),
    ensures
        apply_run(b, plan, t).0.state.realm(plan.realm_id) is Some,
        exists|k: int| #[trigger]
            is_way(
                t,
                apply_run(b, plan, t).1,
                b.config,
                plan,
                apply_run(b, plan, t).0.state.realm(plan.realm_id)->Some_0,
                plan.routes[i],
                k,
            ),
{
    lemma_applied_plan_has_its_tunnels(b, plan, t);
    lemma_stage_succeeds(8, 9, b, plan, t);
    let (b8, t8, r8) = stages_run(8, b, plan, t);
    let u = stages_run(9, b, plan, t).1;
    let own = b8.state.realm(plan.realm_id)->Some_0;
    lemma_route_stage(b8, plan, t8);
    lemma_routes_reach(plan.routes, own, 0, t8, i);
    let host = plan.routes[i].target_host;
    lemma_name_slot::<FabricAttachmentOwnership>(own.attachments, host);
    let k = name_slot::<FabricAttachmentOwnership>(own.attachments, host);
    lemma_reached_earlier(t, t8, u, own, plan.routes[i], own.attachments[k]);
    lemma_way(t, u, b.config, plan, own, plan.routes[i], k);
}

proof fn lemma_route_stage(
    b: LinuxFabricBackendView,
    plan: NamespacedRoutedFabricPlanView,
    t: Trace,
)
    requires
        stage_run(stages()[8], b, plan, t).2 is Ok,
    ensures
        b.state.realm(plan.realm_id) is Some,
        stage_run(stages()[8], b, plan, t).0 == b,
        stage_run(stages()[8], b, plan, t).1 == realize_routes_run(
            plan.routes,
            b.state.realm(plan.realm_id)->Some_0,
            0,
            t,
        ).0,
        realize_routes_run(plan.routes, b.state.realm(plan.realm_id)->Some_0, 0, t).1 is Ok,
{
    assert(stages()[8] == Stage::Routes);
}

/// The routing of a plan sets no route but those of the plan's endpoints, each out of the link to
/// the endpoint's own host.
pub proof fn lemma_no_endpoint_is_led_astray(
    b: LinuxFabricBackendView,
    plan: NamespacedRoutedFabricPlanView,
    t: Trace,
)
    requires
        apply_run(b, plan, t).2 is Ok,
    ensures
        apply_run(b, plan, t).0.state.realm(plan.realm_id) is Some,
        only_home(
            stages_run(8, b, plan, t).1,
            apply_run(b, plan, t).1,
            apply_run(b, plan, t).0.state.realm(plan.realm_id)->Some_0,
            plan.routes,
        ),
{
    lemma_stage_succeeds(8, 9, b, plan, t);
    let (b8, t8, r8) = stages_run(8, b, plan, t);
    lemma_route_stage(b8, plan, t8);
    lemma_routes_only_home(plan.routes, b8.state.realm(plan.realm_id)->Some_0, 0, t8);
}

/// The two ends of a tunnel agree: what one host takes for the hardware address of the other end
/// is what the other host gives its own end.
pub proof fn lemma_tunnel_ends_agree(
    here: NamespacedRoutedFabricPlanView,
    there: NamespacedRoutedFabricPlanView,
    i: int,
    j: int,
)
    requires
        here.realm_id == there.realm_id,
        0 <= i < here.peers.len(),
        0 <= j < there.peers.len(),
        here.peers[i].host_id == there.local_host,
        there.peers[j].host_id == here.local_host,
    ensures
        tunnel(here, here.peers[i], false).remote_tunnel_mac == tunnel(
            there,
            there.peers[j],
            false,
        ).local_tunnel_mac,
        tunnel(here, here.peers[i], false).local_tunnel_mac == tunnel(
            there,
            there.peers[j],
            false,
        ).remote_tunnel_mac,
{
}

} // verus!
