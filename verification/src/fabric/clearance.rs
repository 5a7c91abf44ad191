//! What is left of a realm that is removed: nothing that was recorded of it.
use super::commands::{
    link_del_cmd, link_show_cmd, ns_bridge_ports_cmd, ns_link_del_cmd, ns_link_detail_cmd,
    ns_link_show_cmd, ns_probe_cmd, ns_table_del_cmd, ns_table_list_cmd, neigh_proxy_del_cmd,
    route_del_cmd, route_show_cmd,
    rule_del_cmd, rule_list_cmd, table_del_cmd, table_list_cmd,
};
use super::config::{LinuxFabricConfigView, LinuxFabricError};
use super::course::{lemma_and_then, lemma_runs, lemma_tries};
use super::geneve::{remove_attachment_run, remove_bridge_run, remove_tunnel_run, remove_tunnels_run};
use super::ground::{hiding_words, way_in_words};
use super::lifecycle::{realm_removal_cmds, remove_links_run};
use super::naming::provider_name_text;
use super::plan::NamespacedRoutedFabricPlanView;
use super::policy::drop_ns_table_run;
use super::presence::{lemma_others_are_gone, tap_is_gone};
use super::taps::remove_taps_run;
use super::public::{
    clear_public_run, drop_root_table_run, drop_transit_run, remove_public_run, unroute_cmds,
    unroute_run, without_public,
};
use super::reach::in_namespace;
use super::removal::{
    lemma_bridge, lemma_ns_table, lemma_taps, lemma_transit, lemma_tunnel, lemma_tunnels,
    lemma_unroute,
};
use super::state::{
    EndpointTapOwnership, EndpointTapOwnershipView, GeneveOwnership, GeneveOwnershipView,
    ProviderStateView, RealmOwnership, RealmOwnershipView,
};
use super::underlay::{drop_wireguard_run, removal_cmds, remove_fabric_run};
use crate::ipv4::ipv4_text;
use crate::reading::{
    carried_out, lemma_done, lemma_earlier, lemma_extends_self, lemma_later, lemma_one_carried_out,
    lemma_told, lemma_tried, told, was_issued, was_missing,
};
use crate::render::decimal;
use crate::session::{
    attempt_all, demanded, extends, lemma_extends_transitive, queried, run_all, CommandView,
    EffectView, Stop, Trace,
};
use crate::table::{
    id_get, id_sorted, lemma_id_put_get, lemma_id_slot, lemma_name_slot, name_get,
};
use crate::text::contains;
use vstd::prelude::*;

verus! {

/// Whether something is gone: the host did not find it when it was asked with some words, or it was
/// removed with others.
pub open spec fn is_gone(
    t: Trace,
    u: Trace,
    program: Seq<char>,
    asked: Seq<Seq<char>>,
    removed: Seq<Seq<char>>,
) -> bool {
    was_missing(t, u, program, asked) || carried_out(t, u, program, removed)
}

/// The words that ask in detail for a link of a namespace.
pub open spec fn inner_detail_words(ns: Seq<char>, dev: Seq<char>) -> Seq<Seq<char>> {
    in_namespace(ns, seq!["ip"@, "-d"@, "link"@, "show"@, "dev"@, dev])
}

/// The words that ask for a link of a namespace.
pub open spec fn inner_show_words(ns: Seq<char>, dev: Seq<char>) -> Seq<Seq<char>> {
    in_namespace(ns, seq!["ip"@, "link"@, "show"@, "dev"@, dev])
}

/// The words that remove a link of a namespace.
pub open spec fn inner_removal_words(ns: Seq<char>, dev: Seq<char>) -> Seq<Seq<char>> {
    in_namespace(ns, seq!["ip"@, "link"@, "del"@, dev])
}

proof fn lemma_not_found(
    t: Trace,
    t1: Trace,
    c: CommandView,
    v: Trace,
    asked: Seq<Seq<char>>,
    removed: Seq<Seq<char>>,
)
    requires
        extends(t, t1),
        queried(t1.reply(), LinuxFabricError::Storage) is Ok,
        !queried(t1.reply(), LinuxFabricError::Storage)->Ok_0.0,
        extends(t1.after(EffectView::Query(c)), v),
        c.args =~= asked,
    ensures
        is_gone(t, v, c.program, asked, removed),
{
    let (found, text) = queried(t1.reply(), LinuxFabricError::Storage)->Ok_0;
    lemma_told(t, t1, c, found, text, v, asked);
    assert(told(t, v, c.program, asked, false, text));
}

proof fn lemma_removed(
    t: Trace,
    t1: Trace,
    c: CommandView,
    v: Trace,
    asked: Seq<Seq<char>>,
    removed: Seq<Seq<char>>,
)
    requires
        extends(t, t1),
        demanded(t1.reply(), LinuxFabricError::CommandFailed, LinuxFabricError::Storage) is Ok,
        extends(t1.after(EffectView::Run(c)), v),
        c.args =~= removed,
    ensures
        is_gone(t, v, c.program, asked, removed),
{
    lemma_one_carried_out(t1, c, LinuxFabricError::CommandFailed, LinuxFabricError::Storage);
    lemma_later(t1, t1.after(EffectView::Run(c)), v, c.program, removed);
    lemma_earlier(t, t1, v, c.program, removed);
}

/// Whether a tunnel is gone with what connected it to its realm.
pub open spec fn tunnel_is_gone(
    t: Trace,
    u: Trace,
    fabric_ns: Seq<char>,
    realm_ns: Seq<char>,
    g: GeneveOwnershipView,
) -> bool {
    &&& is_gone(
        t,
        u,
        "ip"@,
        inner_detail_words(fabric_ns, g.bridge),
        inner_removal_words(fabric_ns, g.bridge),
    )
    &&& is_gone(
        t,
        u,
        "ip"@,
        inner_show_words(realm_ns, g.realm_veth),
        inner_removal_words(realm_ns, g.realm_veth),
    )
    &&& is_gone(
        t,
        u,
        "ip"@,
        inner_detail_words(fabric_ns, g.interface),
        inner_removal_words(fabric_ns, g.interface),
    )
}

proof fn lemma_bridge_is_gone(
    t: Trace,
    t1: Trace,
    ns: Seq<char>,
    g: GeneveOwnershipView,
    v: Trace,
)
    requires
        extends(t, t1),
        remove_bridge_run(ns, g, t1).1 is Ok,
        extends(remove_bridge_run(ns, g, t1).0, v),
    ensures
        is_gone(
            t,
            v,
            "ip"@,
            inner_detail_words(ns, g.bridge),
            inner_removal_words(ns, g.bridge),
        ),
{
    let io = LinuxFabricError::Storage;
    let a = ns_link_detail_cmd(ns, g.bridge);
    let b = ns_bridge_ports_cmd(ns, g.bridge);
    let t2 = t1.after(EffectView::Query(a));
    let t3 = t2.after(EffectView::Query(b));
    lemma_and_then(t, t1, EffectView::Query(a));
    lemma_and_then(t, t2, EffectView::Query(b));
    let asked = inner_detail_words(ns, g.bridge);
    let removed = inner_removal_words(ns, g.bridge);
    if queried(t1.reply(), io)->Ok_0.0 {
        lemma_removed(t, t3, ns_link_del_cmd(ns, g.bridge), v, asked, removed);
    } else {
        lemma_not_found(t, t1, a, v, asked, removed);
    }
}

proof fn lemma_tunnel_is_gone(
    t: Trace,
    t1: Trace,
    cfg: LinuxFabricConfigView,
    realm_ns: Seq<char>,
    g: GeneveOwnershipView,
    v: Trace,
)
    requires
        extends(t, t1),
        remove_tunnel_run(cfg, realm_ns, g, t1).1 is Ok,
        extends(remove_tunnel_run(cfg, realm_ns, g, t1).0, v),
    ensures
        tunnel_is_gone(t, v, cfg.fabric_namespace, realm_ns, g),
{
    let io = LinuxFabricError::Storage;
    let ns = cfg.fabric_namespace;
    let t2 = remove_bridge_run(ns, g, t1).0;
    let a = ns_link_show_cmd(realm_ns, g.realm_veth);
    let d = ns_link_del_cmd(realm_ns, g.realm_veth);
    let t3 = t2.after(EffectView::Query(a));
    let t4 = remove_attachment_run(ns, realm_ns, g, t1).0;
    let b = ns_link_detail_cmd(ns, g.interface);
    let e = ns_link_del_cmd(ns, g.interface);
    let t5 = t4.after(EffectView::Query(b));
    let t6 = remove_tunnel_run(cfg, realm_ns, g, t1).0;
    lemma_bridge(ns, g, t1);
    lemma_extends_transitive(t, t1, t2);
    lemma_and_then(t, t2, EffectView::Query(a));
    lemma_and_then(t, t3, EffectView::Run(d));
    lemma_and_then(t, t4, EffectView::Query(b));
    lemma_extends_self(t4);
    lemma_and_then(t4, t4, EffectView::Query(b));
    lemma_and_then(t4, t5, EffectView::Run(e));
    lemma_extends_transitive(t4, t6, v);
    lemma_extends_self(t2);
    lemma_and_then(t2, t2, EffectView::Query(a));
    lemma_and_then(t2, t3, EffectView::Run(d));
    lemma_extends_transitive(t2, t4, v);
    lemma_bridge_is_gone(t, t1, ns, g, v);
    let asked = inner_show_words(realm_ns, g.realm_veth);
    let removed = inner_removal_words(realm_ns, g.realm_veth);
    if queried(t2.reply(), io)->Ok_0.0 {
        lemma_removed(t, t3, d, v, asked, removed);
    } else {
        lemma_not_found(t, t2, a, v, asked, removed);
    }
    let asked1 = inner_detail_words(ns, g.interface);
    let removed1 = inner_removal_words(ns, g.interface);
    if queried(t4.reply(), io)->Ok_0.0 {
        lemma_removed(t, t5, e, v, asked1, removed1);
    } else {
        lemma_not_found(t, t4, b, v, asked1, removed1);
    }
}

/// A recorded tunnel that is not kept is gone once the tunnels were removed.
pub proof fn lemma_unkept_tunnel_is_gone(
    t: Trace,
    t1: Trace,
    cfg: LinuxFabricConfigView,
    realm_ns: Seq<char>,
    known: Seq<GeneveOwnershipView>,
    kept: Seq<GeneveOwnershipView>,
    i: int,
    v: Trace,
    k: int,
)
    requires
        extends(t, t1),
        0 <= i <= k < known.len(),
        name_get::<GeneveOwnership>(kept, known[k].target_host) is None,
        remove_tunnels_run(cfg, realm_ns, known, kept, i, t1).1 is Ok,
        extends(remove_tunnels_run(cfg, realm_ns, known, kept, i, t1).0, v),
    ensures
        tunnel_is_gone(t, v, cfg.fabric_namespace, realm_ns, known[k]),
    decreases known.len() - i,
{
    if name_get::<GeneveOwnership>(kept, known[i].target_host) is Some {
        lemma_unkept_tunnel_is_gone(t, t1, cfg, realm_ns, known, kept, i + 1, v, k);
    } else {
        let t2 = remove_tunnel_run(cfg, realm_ns, known[i], t1).0;
        lemma_tunnel(cfg, realm_ns, known[i], t1);
        lemma_extends_transitive(t, t1, t2);
        if k == i {
            lemma_tunnels(cfg, realm_ns, known, kept, i + 1, t2);
            lemma_extends_transitive(
                t2,
                remove_tunnels_run(cfg, realm_ns, known, kept, i + 1, t2).0,
                v,
            );
            lemma_tunnel_is_gone(t, t1, cfg, realm_ns, known[i], v);
        } else {
            lemma_unkept_tunnel_is_gone(t, t2, cfg, realm_ns, known, kept, i + 1, v, k);
        }
    }
}

/// Whether the links of a realm are gone: its tap devices, its tunnels, and the realm itself with
/// its bridge and its namespace.
pub open spec fn links_are_gone(
    t: Trace,
    u: Trace,
    fabric_ns: Seq<char>,
    own: RealmOwnershipView,
) -> bool {
    &&& forall|k: int|
        0 <= k < own.endpoint_taps.len() ==> tap_is_gone(t, u, #[trigger] own.endpoint_taps[k])
    &&& forall|k: int|
        0 <= k < own.geneve.len() ==> tunnel_is_gone(
            t,
            u,
            fabric_ns,
            own.namespace,
            #[trigger] own.geneve[k],
        )
    &&& carried_out(
        t,
        u,
        "ip"@,
        in_namespace(own.namespace, seq!["ip"@, "route"@, "flush"@, "table"@, "main"@]),
    )
    &&& carried_out(t, u, "ip"@, seq!["link"@, "del"@, own.host_veth])
    &&& carried_out(t, u, "ip"@, seq!["link"@, "del"@, own.bridge])
    &&& carried_out(t, u, "ip"@, seq!["netns"@, "del"@, own.namespace])
}

/// Once the links of a realm were removed, they are gone, those of tap devices that were only
/// announced too.
pub proof fn lemma_links_are_gone(
    t: Trace,
    t1: Trace,
    cfg: LinuxFabricConfigView,
    own: RealmOwnershipView,
    v: Trace,
)
    requires
        extends(t, t1),
        remove_links_run(cfg, own, t1).1 is Ok,
        extends(remove_links_run(cfg, own, t1).0, v),
    ensures
        links_are_gone(t, v, cfg.fabric_namespace, own),
        forall|k: int|
            0 <= k < own.pending_endpoint_taps.len() ==> id_get::<EndpointTapOwnership>(
                own.endpoint_taps,
                (#[trigger] own.pending_endpoint_taps[k]).endpoint_id,
            ) is Some || tap_is_gone(t, v, own.pending_endpoint_taps[k]),
{
    let failed = LinuxFabricError::CommandFailed;
    let io = LinuxFabricError::Storage;
    let none = Seq::<EndpointTapOwnershipView>::empty();
    let nothing = Seq::<GeneveOwnershipView>::empty();
    let ns = own.namespace;
    let t2 = remove_taps_run(own.endpoint_taps, none, own.bridge, 0, t1).0;
    let t3 = remove_taps_run(own.pending_endpoint_taps, own.endpoint_taps, own.bridge, 0, t2).0;
    let t4 = remove_tunnels_run(cfg, ns, own.geneve, nothing, 0, t3).0;
    let cs = realm_removal_cmds(own);
    let t5 = run_all(t4, cs, failed, io).0;
    lemma_taps(own.endpoint_taps, none, own.bridge, 0, t1);
    lemma_taps(own.pending_endpoint_taps, own.endpoint_taps, own.bridge, 0, t2);
    lemma_tunnels(cfg, ns, own.geneve, nothing, 0, t3);
    lemma_extends_transitive(t, t1, t2);
    lemma_extends_transitive(t, t2, t3);
    lemma_extends_transitive(t, t3, t4);
    lemma_extends_self(t4);
    lemma_runs(t4, t4, cs);
    lemma_extends_transitive(t4, t5, v);
    lemma_extends_transitive(t3, t4, v);
    lemma_extends_transitive(t2, t3, v);
    assert forall|k: int| 0 <= k < own.endpoint_taps.len() implies tap_is_gone(
        t,
        v,
        #[trigger] own.endpoint_taps[k],
    ) by {
        lemma_id_slot::<EndpointTapOwnership>(none, own.endpoint_taps[k].endpoint_id);
        lemma_others_are_gone(t, t1, own.endpoint_taps, none, own.bridge, 0, v, k);
    }
    assert forall|k: int| 0 <= k < own.pending_endpoint_taps.len() implies id_get::<
        EndpointTapOwnership,
    >(own.endpoint_taps, (#[trigger] own.pending_endpoint_taps[k]).endpoint_id) is Some
        || tap_is_gone(t, v, own.pending_endpoint_taps[k]) by {
        if id_get::<EndpointTapOwnership>(
            own.endpoint_taps,
            own.pending_endpoint_taps[k].endpoint_id,
        ) is None {
            lemma_others_are_gone(
                t,
                t2,
                own.pending_endpoint_taps,
                own.endpoint_taps,
                own.bridge,
                0,
                v,
                k,
            );
        }
    }
    assert forall|k: int| 0 <= k < own.geneve.len() implies tunnel_is_gone(
        t,
        v,
        cfg.fabric_namespace,
        ns,
        #[trigger] own.geneve[k],
    ) by {
        lemma_name_slot::<GeneveOwnership>(nothing, own.geneve[k].target_host);
        lemma_unkept_tunnel_is_gone(t, t3, cfg, ns, own.geneve, nothing, 0, v, k);
    }
    lemma_done(
        t,
        t4,
        cs,
        failed,
        io,
        v,
        0,
        in_namespace(ns, seq!["ip"@, "route"@, "flush"@, "table"@, "main"@]),
    );
    lemma_done(t, t4, cs, failed, io, v, 1, seq!["link"@, "del"@, own.host_veth]);
    lemma_done(t, t4, cs, failed, io, v, 2, seq!["link"@, "del"@, own.bridge]);
    lemma_done(t, t4, cs, failed, io, v, 3, seq!["netns"@, "del"@, ns]);
}

// ---------------------------------------------------------------------------
// Public addresses
// ---------------------------------------------------------------------------

/// The words that ask for a table, and those that remove it.
pub open spec fn table_words(op: Seq<char>, table: Seq<char>) -> Seq<Seq<char>> {
    seq![op, "table"@, "ip"@, table]
}

/// The same words in a namespace.
pub open spec fn inner_table_words(ns: Seq<char>, op: Seq<char>, table: Seq<char>) -> Seq<
    Seq<char>,
> {
    in_namespace(ns, seq!["nft"@, op, "table"@, "ip"@, table])
}

/// The words that list a route table.
pub open spec fn listing_words(table: u32) -> Seq<Seq<char>> {
    seq!["route"@, "show"@, "table"@, decimal(table as nat)]
}

/// The words that stop answering for an address.
pub open spec fn silence_words(addr: u32, uplink: Seq<char>) -> Seq<Seq<char>> {
    seq!["neigh"@, "del"@, "proxy"@, ipv4_text(addr), "dev"@, uplink]
}

/// The words that remove the route of an address from a table.
pub open spec fn unroute_words(table: u32, addr: u32, dev: Seq<char>) -> Seq<Seq<char>> {
    seq![
        "route"@,
        "del"@,
        "table"@,
        decimal(table as nat),
        ipv4_text(addr) + "/32"@,
        "dev"@,
        dev,
    ]
}

/// Whether the public addresses of a realm are not routed any more: the host does not know the
/// route table, or it stopped answering for each of them and lost each route that it listed.
pub open spec fn addresses_are_unrouted(
    t: Trace,
    u: Trace,
    own: RealmOwnershipView,
    uplink: Seq<char>,
    addresses: Seq<u32>,
) -> bool {
    was_missing(t, u, "ip"@, listing_words(own.public_route_table)) || exists|text: Seq<char>|
        #![trigger told(t, u, "ip"@, listing_words(own.public_route_table), true, text)]
        told(t, u, "ip"@, listing_words(own.public_route_table), true, text) && forall|k: int|
            0 <= k < addresses.len() ==> carried_out(
                t,
                u,
                "ip"@,
                silence_words(#[trigger] addresses[k], uplink),
            ) && (contains(text, ipv4_text(addresses[k]) + "/32"@) ==> carried_out(
                t,
                u,
                "ip"@,
                unroute_words(own.public_route_table, addresses[k], own.public_host_veth),
            ))
}

proof fn lemma_unroute_places(
    own: RealmOwnershipView,
    uplink: Seq<char>,
    addresses: Seq<u32>,
    listing: Seq<char>,
    k: int,
) -> (r: (int, int))
    requires
        0 <= k < addresses.len(),
    ensures
        ({
            let cs = unroute_cmds(own, uplink, addresses, listing);
            &&& 0 <= r.0 < cs.len()
            &&& cs[r.0] == neigh_proxy_del_cmd(ipv4_text(addresses[k]), uplink)
            &&& contains(listing, ipv4_text(addresses[k]) + "/32"@) ==> 0 <= r.1 < cs.len()
                && cs[r.1] == route_del_cmd(
                decimal(own.public_route_table as nat),
                ipv4_text(addresses[k]) + "/32"@,
                own.public_host_veth,
            )
        }),
    decreases addresses.len(),
{
    let before = unroute_cmds(own, uplink, addresses.drop_last(), listing);
    let cs = unroute_cmds(own, uplink, addresses, listing);
    if k < addresses.len() - 1 {
        lemma_unroute_places(own, uplink, addresses.drop_last(), listing, k)
    } else {
        (cs.len() - 1, before.len() as int)
    }
}

proof fn lemma_unrouted(
    t: Trace,
    t1: Trace,
    own: RealmOwnershipView,
    uplink: Seq<char>,
    plan: NamespacedRoutedFabricPlanView,
    v: Trace,
)
    requires
        extends(t, t1),
        own.public_addresses.len() > 0,
        unroute_run(own, uplink, plan.public_bindings, t1).1 is Ok,
        extends(unroute_run(own, uplink, plan.public_bindings, t1).0, v),
    ensures
        addresses_are_unrouted(t, v, own, uplink, own.public_addresses),
{
    let failed = LinuxFabricError::CommandFailed;
    let io = LinuxFabricError::Storage;
    let c = route_show_cmd(decimal(own.public_route_table as nat));
    let t2 = t1.after(EffectView::Query(c));
    lemma_and_then(t, t1, EffectView::Query(c));
    let (found, text) = queried(t1.reply(), io)->Ok_0;
    let words = listing_words(own.public_route_table);
    let addresses = own.public_addresses;
    if found {
        let cs = unroute_cmds(own, uplink, addresses, text);
        lemma_extends_self(t2);
        lemma_runs(t2, t2, cs);
        lemma_extends_transitive(t2, run_all(t2, cs, failed, io).0, v);
        lemma_told(t, t1, c, found, text, v, words);
        assert forall|k: int| 0 <= k < addresses.len() implies carried_out(
            t,
            v,
            "ip"@,
            silence_words(#[trigger] addresses[k], uplink),
        ) && (contains(text, ipv4_text(addresses[k]) + "/32"@) ==> carried_out(
            t,
            v,
            "ip"@,
            unroute_words(own.public_route_table, addresses[k], own.public_host_veth),
        )) by {
            let (i, j) = lemma_unroute_places(own, uplink, addresses, text, k);
            lemma_done(t, t2, cs, failed, io, v, i, silence_words(addresses[k], uplink));
            if contains(text, ipv4_text(addresses[k]) + "/32"@) {
                lemma_done(
                    t,
                    t2,
                    cs,
                    failed,
                    io,
                    v,
                    j,
                    unroute_words(own.public_route_table, addresses[k], own.public_host_veth),
                );
            }
        }
        assert(told(t, v, "ip"@, words, true, text));
    } else {
        lemma_told(t, t1, c, found, text, v, words);
        assert(told(t, v, "ip"@, words, false, text));
    }
}

proof fn lemma_root_table_is_gone(t: Trace, t1: Trace, table: Seq<char>, v: Trace)
    requires
        extends(t, t1),
        drop_root_table_run(table, t1).1 is Ok,
        extends(drop_root_table_run(table, t1).0, v),
    ensures
        is_gone(t, v, "nft"@, table_words("list"@, table), table_words("delete"@, table)),
{
    let a = table_list_cmd(table);
    let asked = table_words("list"@, table);
    let removed = table_words("delete"@, table);
    lemma_and_then(t, t1, EffectView::Query(a));
    if queried(t1.reply(), LinuxFabricError::Storage)->Ok_0.0 {
        lemma_removed(
            t,
            t1.after(EffectView::Query(a)),
            table_del_cmd(table),
            v,
            asked,
            removed,
        );
    } else {
        lemma_not_found(t, t1, a, v, asked, removed);
    }
}

/// A marked table of a namespace that was dropped is gone.
pub proof fn lemma_inner_table_is_gone(
    t: Trace,
    t1: Trace,
    ns: Seq<char>,
    table: Seq<char>,
    marker: Seq<char>,
    v: Trace,
)
    requires
        extends(t, t1),
        drop_ns_table_run(ns, table, marker, t1).1 is Ok,
        extends(drop_ns_table_run(ns, table, marker, t1).0, v),
    ensures
        is_gone(
            t,
            v,
            "ip"@,
            inner_table_words(ns, "list"@, table),
            inner_table_words(ns, "delete"@, table),
        ),
{
    let a = ns_table_list_cmd(ns, table);
    let asked = inner_table_words(ns, "list"@, table);
    let removed = inner_table_words(ns, "delete"@, table);
    lemma_and_then(t, t1, EffectView::Query(a));
    if queried(t1.reply(), LinuxFabricError::Storage)->Ok_0.0 {
        lemma_removed(
            t,
            t1.after(EffectView::Query(a)),
            ns_table_del_cmd(ns, table),
            v,
            asked,
            removed,
        );
    } else {
        lemma_not_found(t, t1, a, v, asked, removed);
    }
}

/// Whether the routing by a realm's mark has ended: the host did not list the mark, or the rule was
/// removed.
pub open spec fn mark_is_forgotten(t: Trace, u: Trace, own: RealmOwnershipView) -> bool {
    let mark = decimal(own.public_mark as nat);
    let words = seq!["rule"@, "list"@];
    ||| exists|found: bool, text: Seq<char>|
        #![trigger told(t, u, "ip"@, words, found, text)]
        told(t, u, "ip"@, words, found, text) && !(found && contains(text, "fwmark "@ + mark))
    ||| carried_out(
        t,
        u,
        "ip"@,
        seq![
            "rule"@,
            "del"@,
            "fwmark"@,
            mark,
            "table"@,
            decimal(own.public_route_table as nat),
        ],
    )
}

proof fn lemma_transit_is_gone(t: Trace, t1: Trace, own: RealmOwnershipView, v: Trace)
    requires
        extends(t, t1),
        drop_transit_run(own, t1).1 is Ok,
        extends(drop_transit_run(own, t1).0, v),
    ensures
        mark_is_forgotten(t, v, own),
        is_gone(
            t,
            v,
            "ip"@,
            seq!["link"@, "show"@, "dev"@, own.public_host_veth],
            seq!["link"@, "del"@, own.public_host_veth],
        ),
{
    let io = LinuxFabricError::Storage;
    let mark = decimal(own.public_mark as nat);
    let a = rule_list_cmd();
    let d = rule_del_cmd(mark, decimal(own.public_route_table as nat));
    let b = link_show_cmd(own.public_host_veth);
    let e = link_del_cmd(own.public_host_veth);
    let t2 = t1.after(EffectView::Query(a));
    let (listed, text) = queried(t1.reply(), io)->Ok_0;
    let there = listed && contains(text, "fwmark "@ + mark);
    let t3 = if there {
        t2.after(EffectView::Run(d))
    } else {
        t2
    };
    let t4 = t3.after(EffectView::Query(b));
    lemma_and_then(t, t1, EffectView::Query(a));
    lemma_and_then(t, t2, EffectView::Run(d));
    lemma_and_then(t, t3, EffectView::Query(b));
    lemma_extends_self(t3);
    lemma_and_then(t3, t3, EffectView::Query(b));
    lemma_and_then(t3, t4, EffectView::Run(e));
    lemma_extends_transitive(t3, drop_transit_run(own, t1).0, v);
    let words = seq!["rule"@, "list"@];
    if there {
        let removed = seq![
            "rule"@,
            "del"@,
            "fwmark"@,
            mark,
            "table"@,
            decimal(own.public_route_table as nat),
        ];
        assert(d.args =~= removed);
        lemma_one_carried_out(t2, d, LinuxFabricError::CommandFailed, io);
        lemma_later(t2, t3, v, "ip"@, removed);
        lemma_earlier(t, t2, v, "ip"@, removed);
    } else {
        lemma_told(t, t1, a, listed, text, v, words);
        assert(told(t, v, "ip"@, words, listed, text));
    }
    let asked = seq!["link"@, "show"@, "dev"@, own.public_host_veth];
    let removed = seq!["link"@, "del"@, own.public_host_veth];
    if queried(t3.reply(), io)->Ok_0.0 {
        lemma_removed(t, t4, e, v, asked, removed);
    } else {
        lemma_not_found(t, t3, b, v, asked, removed);
    }
}

/// Whether nothing leads from outside to a realm any more: neither of the two tables is there,
/// nothing is routed to its public addresses or by its mark, and the link is gone.
pub open spec fn realm_is_hidden(
    t: Trace,
    u: Trace,
    own: RealmOwnershipView,
    uplink: Seq<char>,
) -> bool {
    let root = provider_name_text("u"@, own.realm_id, "public"@);
    let inner = provider_name_text("n"@, own.realm_id, "public"@);
    &&& is_gone(t, u, "nft"@, table_words("list"@, root), table_words("delete"@, root))
    &&& is_gone(
        t,
        u,
        "ip"@,
        inner_table_words(own.namespace, "list"@, inner),
        inner_table_words(own.namespace, "delete"@, inner),
    )
    &&& addresses_are_unrouted(t, u, own, uplink, own.public_addresses)
    &&& mark_is_forgotten(t, u, own)
    &&& is_gone(
        t,
        u,
        "ip"@,
        seq!["link"@, "show"@, "dev"@, own.public_host_veth],
        seq!["link"@, "del"@, own.public_host_veth],
    )
}

/// Once the recorded public addresses of a realm were removed, nothing leads from outside to it,
/// and none is recorded.
pub proof fn lemma_realm_is_hidden(
    cfg: LinuxFabricConfigView,
    st: ProviderStateView,
    own: RealmOwnershipView,
    plan: NamespacedRoutedFabricPlanView,
    t: Trace,
    st1: ProviderStateView,
    u: Trace,
)
    requires
        id_sorted::<RealmOwnership>(st.realms),
        st.realm(plan.realm_id) == Some(own),
        own.realm_id == plan.realm_id,
        own.public_fingerprint.len() > 0,
        own.public_addresses.len() > 0,
        remove_public_run(cfg, st, plan, t) == (st1, u, Ok::<(), Stop<LinuxFabricError>>(())),
    ensures
        cfg.public_uplink matches Some(uplink) && realm_is_hidden(t, u, own, uplink),
        st1.realm(plan.realm_id) matches Some(now) && now.public_addresses.len() == 0
            && now.public_fingerprint.len() == 0 && now.public_mark == 0 && now.public_route_table
            == 0 && now.public_generation == 0 && now.endpoint_taps == own.endpoint_taps
            && now.geneve == own.geneve && now.namespace == own.namespace,
{
    let uplink = cfg.public_uplink->Some_0;
    let root = provider_name_text("u"@, own.realm_id, "public"@);
    let inner = provider_name_text("n"@, own.realm_id, "public"@);
    let t1 = drop_root_table_run(root, t).0;
    let t2 = drop_ns_table_run(own.namespace, inner, "o3k-p11-public"@, t1).0;
    let t3 = unroute_run(own, uplink, plan.public_bindings, t2).0;
    let t4 = drop_transit_run(own, t3).0;
    assert(clear_public_run(own, uplink, plan, t).0 == t4);
    let a = EffectView::Query(table_list_cmd(root));
    lemma_extends_self(t);
    lemma_and_then(t, t, a);
    lemma_and_then(t, t.after(a), EffectView::Run(table_del_cmd(root)));
    lemma_ns_table(own.namespace, inner, "o3k-p11-public"@, t1);
    lemma_unroute(own, uplink, plan, t2);
    lemma_transit(own, t3);
    lemma_extends_transitive(t, t1, t2);
    lemma_extends_transitive(t, t2, t3);
    lemma_extends_self(t4);
    lemma_and_then(t4, t4, EffectView::Save);
    lemma_extends_transitive(t3, t4, u);
    lemma_extends_transitive(t2, t3, u);
    lemma_extends_transitive(t1, t2, u);
    lemma_root_table_is_gone(t, t, root, u);
    lemma_inner_table_is_gone(t, t1, own.namespace, inner, "o3k-p11-public"@, u);
    lemma_unrouted(t, t2, own, uplink, plan, u);
    lemma_transit_is_gone(t, t3, own, u);
    lemma_id_put_get::<RealmOwnership>(st.realms, without_public(own), plan.realm_id);
}

// ---------------------------------------------------------------------------
// The shared link
// ---------------------------------------------------------------------------

/// Once the last realm is gone and the fabric was removed, the shared link is gone, all that let
/// its packets pass was taken back, and no fabric is recorded. While a realm is recorded, the
/// fabric stays as it is.
pub proof fn lemma_unused_fabric_is_removed(
    cfg: LinuxFabricConfigView,
    st: ProviderStateView,
    generation: u64,
    t: Trace,
    st1: ProviderStateView,
    u: Trace,
)
    requires
        remove_fabric_run(cfg, st, generation, t) == (st1, u, Ok::<(), Stop<LinuxFabricError>>(
            (),
        )),
    ensures
        st.realms.len() > 0 ==> st1 == st && u == t,
        st.realms.len() == 0 ==> st1.fabric is None && st1.realms == st.realms,
        st.realms.len() == 0 ==> (st.fabric matches Some(fabric) ==> fabric.fabric_generation
            <= generation && (was_missing(
            t,
            u,
            "ip"@,
            in_namespace(fabric.namespace, seq!["true"@]),
        ) || is_gone(
            t,
            u,
            "ip"@,
            inner_show_words(fabric.namespace, fabric.interface),
            inner_removal_words(fabric.namespace, fabric.interface),
        )) && was_issued(t, u, "ip"@, seq!["link"@, "del"@, "o3k-u"@]) && was_issued(
            t,
            u,
            "iptables"@,
            hiding_words("-D"@),
        ) && was_issued(t, u, "iptables"@, way_in_words("-D"@, cfg.wireguard_port)) && was_issued(
            t,
            u,
            "ip"@,
            seq!["netns"@, "del"@, fabric.namespace],
        )),
{
    let io = LinuxFabricError::Storage;
    match st.fabric {
        Some(fabric) if st.realms.len() == 0 => {
            let ns = fabric.namespace;
            let t1 = drop_wireguard_run(fabric, t).0;
            let cs = removal_cmds(cfg, ns);
            let t2 = attempt_all::<LinuxFabricError>(t1, cs).0;
            let a = ns_probe_cmd(ns);
            let b = ns_link_show_cmd(ns, fabric.interface);
            let d = ns_link_del_cmd(ns, fabric.interface);
            lemma_extends_self(t);
            lemma_and_then(t, t, EffectView::Query(a));
            let ta = t.after(EffectView::Query(a));
            lemma_and_then(t, ta, EffectView::Query(b));
            let tb = ta.after(EffectView::Query(b));
            lemma_and_then(t, tb, EffectView::Run(d));
            lemma_extends_self(t1);
            lemma_tries(t1, t1, cs);
            lemma_extends_self(t2);
            lemma_and_then(t2, t2, EffectView::Save);
            lemma_extends_transitive(t1, t2, u);
            let asked = inner_show_words(ns, fabric.interface);
            let removed = inner_removal_words(ns, fabric.interface);
            let (there, text) = queried(t.reply(), io)->Ok_0;
            if there {
                if queried(ta.reply(), io)->Ok_0.0 {
                    lemma_removed(t, tb, d, u, asked, removed);
                } else {
                    lemma_not_found(t, ta, b, u, asked, removed);
                }
            } else {
                let words = in_namespace(ns, seq!["true"@]);
                lemma_told(t, t, a, there, text, u, words);
                assert(told(t, u, "ip"@, words, false, text));
            }
            lemma_tried::<LinuxFabricError>(t, t1, cs, u, 0, seq!["link"@, "del"@, "o3k-u"@]);
            lemma_tried::<LinuxFabricError>(t, t1, cs, u, 1, hiding_words("-D"@));
            lemma_tried::<LinuxFabricError>(
                t,
                t1,
                cs,
                u,
                2,
                way_in_words("-D"@, cfg.wireguard_port),
            );
            lemma_tried::<LinuxFabricError>(t, t1, cs, u, 4, seq!["netns"@, "del"@, ns]);
        },
        _ => {},
    }
}

} // verus!
