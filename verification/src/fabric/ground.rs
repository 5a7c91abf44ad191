//! What a realm and the shared link stand on: what was carried out when they were made and when
//! they were removed.
use super::commands::{
    link_show_cmd, ns_addr_replace_cmd, ns_link_show_cmd, ns_probe_cmd, sysctl_write_cmd,
};
use super::config::{LinuxFabricConfigView, LinuxFabricError};
use super::course::{
    lemma_absent, lemma_address, lemma_and_then, lemma_key, lemma_make_realm, lemma_runs,
    lemma_tries,
};
use super::plan::NamespacedRoutedFabricPlanView;
use super::reach::in_namespace;
use super::realm::{
    address_realm_run, carried_realm, ensure_realm_run, forget_lost_realm_run, links_absent_run,
    make_realm_run, new_realm, realm_cmds, realm_links, realm_mtu_cmds, settle_realm_run,
};
use super::state::{ProviderStateView, RealmOwnership, RealmOwnershipView};
use super::underlay::{
    build_fabric_run, ensure_fabric_run, key_path, make_fabric_run, passage_cmds, provide_key_run,
    uplink_cmds, wireguard_cmds,
};
use crate::ipv4::ipv4_text;
use crate::path::path_join;
use crate::reading::{
    all_carried_out, carried_out, lemma_all_done, lemma_earlier, lemma_extends_self, lemma_later,
    lemma_one_carried_out, lemma_told, lemma_tried, told, was_found, was_issued,
};
use crate::render::decimal;
use crate::session::{
    attempt_all, extends, lemma_extends_transitive, queried, run_all, EffectView, Stop, Trace,
};
use crate::table::{
    id_sorted, lemma_id_cut_sorted, lemma_id_put_get, lemma_id_slot,
};
use vstd::prelude::*;

verus! {

// ---------------------------------------------------------------------------
// The shared link
// ---------------------------------------------------------------------------

/// The words that make the shared link in its namespace: it has the host's key, listens on the
/// configured port and has the host's address in the fabric.
pub open spec fn shared_link_words(cfg: LinuxFabricConfigView, addr: u32) -> Seq<Seq<Seq<char>>> {
    let ns = cfg.fabric_namespace;
    let dev = cfg.fabric_interface;
    seq![
        seq!["netns"@, "add"@, ns],
        seq!["link"@, "add"@, dev, "type"@, "wireguard"@],
        seq!["link"@, "set"@, dev, "netns"@, ns],
        in_namespace(
            ns,
            seq![
                "wg"@,
                "set"@,
                dev,
                "private-key"@,
                path_join(cfg.root, "wireguard-private.key"@),
                "listen-port"@,
                decimal(cfg.wireguard_port as nat),
            ],
        ),
        in_namespace(ns, seq!["ip"@, "link"@, "set"@, dev, "up"@]),
        in_namespace(ns, seq!["ip"@, "addr"@, "replace"@, ipv4_text(addr) + "/32"@, "dev"@, dev]),
    ]
}

/// The words that connect the namespace with the host.
pub open spec fn way_out_words(ns: Seq<char>) -> Seq<Seq<Seq<char>>> {
    seq![
        seq!["link"@, "add"@, "o3k-u"@, "type"@, "veth"@, "peer"@, "name"@, "o3k-v"@],
        seq!["link"@, "set"@, "o3k-v"@, "netns"@, ns],
        seq!["link"@, "set"@, "o3k-u"@, "up"@],
        in_namespace(ns, seq!["ip"@, "link"@, "set"@, "o3k-v"@, "up"@]),
        in_namespace(
            ns,
            seq!["ip"@, "addr"@, "replace"@, "169.254.253.2/30"@, "dev"@, "o3k-v"@],
        ),
        seq!["addr"@, "replace"@, "169.254.253.1/30"@, "dev"@, "o3k-u"@],
        in_namespace(ns, seq!["ip"@, "route"@, "replace"@, "default"@, "via"@, "169.254.253.1"@]),
    ]
}

/// The words that let encrypted packets in, whatever becomes of them: those to the port of the
/// shared link are handed to its namespace.
pub open spec fn way_in_words(op: Seq<char>, port: u16) -> Seq<Seq<char>> {
    seq![
        "-t"@,
        "nat"@,
        op,
        "PREROUTING"@,
        "!"@,
        "-i"@,
        "o3k-u"@,
        "-p"@,
        "udp"@,
        "--dport"@,
        decimal(port as nat),
        "-j"@,
        "DNAT"@,
        "--to-destination"@,
        "169.254.253.2"@,
    ]
}

/// The words that hide the namespace behind the host.
pub open spec fn hiding_words(op: Seq<char>) -> Seq<Seq<char>> {
    seq![
        "-t"@,
        "nat"@,
        op,
        "POSTROUTING"@,
        "-s"@,
        "169.254.253.0/30"@,
        "-j"@,
        "MASQUERADE"@,
    ]
}

/// Whether the shared link was made.
pub open spec fn shared_link_made(
    t: Trace,
    u: Trace,
    cfg: LinuxFabricConfigView,
    addr: u32,
) -> bool {
    &&& all_carried_out(t, u, "ip"@, shared_link_words(cfg, addr))
    &&& all_carried_out(t, u, "ip"@, way_out_words(cfg.fabric_namespace))
    &&& was_issued(t, u, "iptables"@, hiding_words("-A"@))
    &&& was_issued(t, u, "iptables"@, way_in_words("-A"@, cfg.wireguard_port))
    &&& was_issued(t, u, "sysctl"@, seq!["-w"@, "net.ipv4.conf.o3k-u.rp_filter=0"@])
    &&& was_issued(
        t,
        u,
        "ip"@,
        in_namespace(
            cfg.fabric_namespace,
            seq!["sysctl"@, "-w"@, "net.ipv4.conf.o3k-v.rp_filter=0"@],
        ),
    )
}

proof fn lemma_built(
    t: Trace,
    t1: Trace,
    cfg: LinuxFabricConfigView,
    plan: NamespacedRoutedFabricPlanView,
    v: Trace,
)
    requires
        extends(t, t1),
        build_fabric_run(cfg, plan, t1).1 is Ok,
        extends(build_fabric_run(cfg, plan, t1).0, v),
    ensures
        shared_link_made(t, v, cfg, plan.local_fabric_transport_ip),
{
    let failed = LinuxFabricError::CommandFailed;
    let io = LinuxFabricError::Storage;
    let ns = cfg.fabric_namespace;
    let a = wireguard_cmds(cfg, plan);
    let b = uplink_cmds(ns);
    let c = passage_cmds(cfg);
    let t2 = run_all(t1, a, failed, io).0;
    let d = EffectView::Run(super::commands::link_del_cmd("o3k-u"@));
    let t3 = t2.after(d);
    let t4 = run_all(t3, b, failed, io).0;
    let t5 = attempt_all::<LinuxFabricError>(t4, c).0;
    assert(t5 == build_fabric_run(cfg, plan, t1).0);
    lemma_runs(t, t1, a);
    lemma_and_then(t, t2, d);
    lemma_runs(t, t3, b);
    lemma_extends_self(t4);
    lemma_tries(t4, t4, c);
    lemma_extends_transitive(t4, t5, v);
    lemma_extends_self(t2);
    lemma_and_then(t2, t2, d);
    lemma_runs(t2, t3, b);
    lemma_extends_transitive(t2, t4, v);
    lemma_all_done(
        t,
        t1,
        a,
        failed,
        io,
        v,
        "ip"@,
        shared_link_words(cfg, plan.local_fabric_transport_ip),
    );
    lemma_all_done(t, t3, b, failed, io, v, "ip"@, way_out_words(ns));
    lemma_tried::<LinuxFabricError>(
        t,
        t4,
        c,
        v,
        0,
        seq!["-w"@, "net.ipv4.conf.o3k-u.rp_filter=0"@],
    );
    lemma_tried::<LinuxFabricError>(
        t,
        t4,
        c,
        v,
        1,
        in_namespace(ns, seq!["sysctl"@, "-w"@, "net.ipv4.conf.o3k-v.rp_filter=0"@]),
    );
    lemma_tried::<LinuxFabricError>(t, t4, c, v, 2, hiding_words("-A"@));
    lemma_tried::<LinuxFabricError>(t, t4, c, v, 3, way_in_words("-A"@, cfg.wireguard_port));
}

proof fn lemma_made_fabric(
    t: Trace,
    t1: Trace,
    cfg: LinuxFabricConfigView,
    st: ProviderStateView,
    plan: NamespacedRoutedFabricPlanView,
    st1: ProviderStateView,
    v: Trace,
)
    requires
        extends(t, t1),
        make_fabric_run(cfg, st, plan, t1) == (st1, v, Ok::<(), Stop<LinuxFabricError>>(())),
    ensures
        shared_link_made(t, v, cfg, plan.local_fabric_transport_ip),
        st1.fabric matches Some(fabric) && fabric.namespace == cfg.fabric_namespace
            && fabric.interface == cfg.fabric_interface && fabric.private_key_path == path_join(
            cfg.root,
            "wireguard-private.key"@,
        ) && fabric.fabric_transport_ip == plan.local_fabric_transport_ip
            && fabric.fabric_generation == plan.local_fabric_generation
            && fabric.managed_peers.len() == 0,
{
    let a = EffectView::Query(ns_probe_cmd(cfg.fabric_namespace));
    let b = EffectView::Query(link_show_cmd(cfg.fabric_interface));
    lemma_and_then(t, t1, a);
    lemma_and_then(t, t1.after(a), b);
    let t2 = t1.after(a).after(b);
    lemma_key(key_path(cfg), t2);
    let t3 = provide_key_run(key_path(cfg), t2).0;
    lemma_extends_transitive(t, t2, t3);
    let t4 = build_fabric_run(cfg, plan, t3).0;
    lemma_extends_self(t4);
    lemma_and_then(t4, t4, EffectView::Save);
    lemma_built(t, t3, cfg, plan, v);
}

/// The shared link of a host is there once it is ensured: it was found in its namespace, or it was
/// made, and what is recorded of it is the plan's address and generation.
pub proof fn lemma_shared_link_stands(
    cfg: LinuxFabricConfigView,
    st: ProviderStateView,
    plan: NamespacedRoutedFabricPlanView,
    t: Trace,
    st1: ProviderStateView,
    u: Trace,
)
    requires
        ensure_fabric_run(cfg, st, plan, t) == (st1, u, Ok::<(), Stop<LinuxFabricError>>(())),
    ensures
        st1.fabric matches Some(fabric) && fabric.fabric_transport_ip
            == plan.local_fabric_transport_ip && fabric.fabric_generation
            == plan.local_fabric_generation && (st1.fabric != st.fabric ==> fabric.namespace
            == cfg.fabric_namespace && fabric.interface == cfg.fabric_interface
            && fabric.private_key_path == path_join(cfg.root, "wireguard-private.key"@)),
        (st1 == st && was_found(
            t,
            u,
            "ip"@,
            in_namespace(
                cfg.fabric_namespace,
                seq!["ip"@, "link"@, "show"@, "dev"@, cfg.fabric_interface],
            ),
        )) || shared_link_made(t, u, cfg, plan.local_fabric_transport_ip),
        st1.realms == st.realms,
{
    lemma_extends_self(t);
    match st.fabric {
        None => {
            lemma_made_fabric(t, t, cfg, st, plan, st1, u);
        },
        Some(fabric) => {
            let c = ns_link_show_cmd(cfg.fabric_namespace, cfg.fabric_interface);
            let q = EffectView::Query(c);
            lemma_and_then(t, t, q);
            let t1 = t.after(q);
            let (found, text) = queried(t.reply(), LinuxFabricError::Storage)->Ok_0;
            if found {
                let words = in_namespace(
                    cfg.fabric_namespace,
                    seq!["ip"@, "link"@, "show"@, "dev"@, cfg.fabric_interface],
                );
                lemma_extends_self(t1);
                lemma_told(t, t, c, found, text, u, words);
                assert(told(t, u, "ip"@, words, true, text));
            } else {
                let cs = Seq::empty().push(super::commands::link_del_cmd("o3k-u"@)).push(
                    super::commands::netns_del_cmd(cfg.fabric_namespace),
                );
                lemma_tries(t, t1, cs);
                let t2 = attempt_all::<LinuxFabricError>(t1, cs).0;
                let bare = ProviderStateView { fabric: None, ..st };
                lemma_made_fabric(t, t2, cfg, bare, plan, st1, u);
            }
        },
    }
}

// ---------------------------------------------------------------------------
// A realm
// ---------------------------------------------------------------------------

/// The words that make a realm: a namespace and a bridge, a link between the two, and a link to
/// the fabric, each end where it belongs and started, and the namespace forwards.
pub open spec fn realm_words(own: RealmOwnershipView, fabric_ns: Seq<char>) -> Seq<
    Seq<Seq<char>>,
> {
    let ns = own.namespace;
    seq![
        seq!["netns"@, "add"@, ns],
        seq!["link"@, "add"@, own.bridge, "type"@, "bridge"@],
        seq!["link"@, "set"@, own.bridge, "up"@],
        seq![
            "link"@,
            "add"@,
            own.host_veth,
            "type"@,
            "veth"@,
            "peer"@,
            "name"@,
            own.realm_veth,
        ],
        seq![
            "link"@,
            "add"@,
            own.fabric_veth,
            "type"@,
            "veth"@,
            "peer"@,
            "name"@,
            own.fabric_realm_veth,
        ],
        seq!["link"@, "set"@, own.realm_veth, "netns"@, ns],
        seq!["link"@, "set"@, own.fabric_veth, "netns"@, ns],
        seq!["link"@, "set"@, own.fabric_realm_veth, "netns"@, fabric_ns],
        seq!["link"@, "set"@, own.host_veth, "master"@, own.bridge],
        seq!["link"@, "set"@, own.host_veth, "up"@],
        in_namespace(ns, seq!["ip"@, "link"@, "set"@, own.realm_veth, "up"@]),
        in_namespace(ns, seq!["ip"@, "link"@, "set"@, own.fabric_veth, "up"@]),
        in_namespace(fabric_ns, seq!["ip"@, "link"@, "set"@, own.fabric_realm_veth, "up"@]),
        in_namespace(ns, seq!["sysctl"@, "-w"@, "net.ipv4.ip_forward=1"@]),
    ]
}

/// The words that give the links of a realm their sizes: those towards the endpoints the size of
/// the realm, those towards the fabric the size of the fabric.
pub open spec fn size_words(
    own: RealmOwnershipView,
    fabric_ns: Seq<char>,
    inner: u32,
    outer: u32,
) -> Seq<Seq<Seq<char>>> {
    let near = decimal(inner as nat);
    let far = decimal(outer as nat);
    let ns = own.namespace;
    seq![
        seq!["link"@, "set"@, "dev"@, own.bridge, "mtu"@, near],
        seq!["link"@, "set"@, "dev"@, own.host_veth, "mtu"@, near],
        in_namespace(ns, seq!["ip"@, "link"@, "set"@, "dev"@, own.realm_veth, "mtu"@, near]),
        in_namespace(ns, seq!["ip"@, "link"@, "set"@, "dev"@, own.fabric_veth, "mtu"@, far]),
        in_namespace(
            fabric_ns,
            seq!["ip"@, "link"@, "set"@, "dev"@, own.fabric_realm_veth, "mtu"@, far],
        ),
    ]
}

/// The words that give a realm its gateway address: the first one behind the network address.
pub open spec fn gateway_words(
    own: RealmOwnershipView,
    network: u32,
    prefix_len: u8,
) -> Seq<Seq<char>> {
    in_namespace(
        own.namespace,
        seq![
            "ip"@,
            "addr"@,
            "replace"@,
            ipv4_text((network + 1) as u32) + "/"@ + decimal(prefix_len as nat),
            "dev"@,
            own.realm_veth,
        ],
    )
}

proof fn lemma_addressed(
    t: Trace,
    t1: Trace,
    cfg: LinuxFabricConfigView,
    own: RealmOwnershipView,
    plan: NamespacedRoutedFabricPlanView,
    v: Trace,
)
    requires
        extends(t, t1),
        address_realm_run(cfg, own, plan, t1) == (v, Ok::<(), Stop<LinuxFabricError>>(())),
    ensures
        plan.realm_prefix.network < u32::MAX,
        plan.realm_prefix.has((plan.realm_prefix.network + 1) as u32),
        carried_out(
            t,
            v,
            "ip"@,
            gateway_words(own, plan.realm_prefix.network, plan.realm_prefix.prefix_len),
        ),
        all_carried_out(
            t,
            v,
            "ip"@,
            size_words(own, cfg.fabric_namespace, plan.tenant_mtu, plan.local_fabric_mtu),
        ),
        was_issued(
            t,
            v,
            "sysctl"@,
            seq!["-w"@, "net.ipv4.conf."@ + own.realm_veth + ".proxy_arp=1"@],
        ),
{
    let failed = LinuxFabricError::CommandFailed;
    let io = LinuxFabricError::Storage;
    let prefix = plan.realm_prefix;
    let cidr = ipv4_text((prefix.network + 1) as u32) + "/"@ + decimal(prefix.prefix_len as nat);
    let c = ns_addr_replace_cmd(own.namespace, cidr, own.realm_veth);
    let d = sysctl_write_cmd("net.ipv4.conf."@ + own.realm_veth + ".proxy_arp=1"@);
    let cs = realm_mtu_cmds(cfg, own, plan);
    let t2 = t1.after(EffectView::Run(c));
    let t3 = t2.after(EffectView::Run(d));
    lemma_and_then(t, t1, EffectView::Run(c));
    lemma_and_then(t, t2, EffectView::Run(d));
    lemma_extends_self(v);
    lemma_extends_self(t2);
    lemma_extends_self(t3);
    lemma_and_then(t2, t2, EffectView::Run(d));
    lemma_runs(t2, t3, cs);
    lemma_runs(t3, t3, cs);
    let words = gateway_words(own, prefix.network, prefix.prefix_len);
    assert(c.args =~= words);
    lemma_one_carried_out(t1, c, failed, io);
    lemma_later(t1, t2, v, "ip"@, words);
    lemma_earlier(t, t1, v, "ip"@, words);
    lemma_all_done(
        t,
        t3,
        cs,
        failed,
        io,
        v,
        "ip"@,
        size_words(own, cfg.fabric_namespace, plan.tenant_mtu, plan.local_fabric_mtu),
    );
    let args = seq!["-w"@, "net.ipv4.conf."@ + own.realm_veth + ".proxy_arp=1"@];
    assert(d.args =~= args);
    let k = t2.issued.len() as int;
    assert(v.issued[k] == v.issued.take(t3.issued.len() as int)[k]);
    assert(v.issued[k] == EffectView::Run(d));
}

proof fn lemma_made_realm(
    t: Trace,
    t1: Trace,
    cfg: LinuxFabricConfigView,
    st: ProviderStateView,
    own: RealmOwnershipView,
    v: Trace,
)
    requires
        extends(t, t1),
        make_realm_run(cfg, st, own, t1).2 is Ok,
        extends(make_realm_run(cfg, st, own, t1).1, v),
    ensures
        all_carried_out(t, v, "ip"@, realm_words(own, cfg.fabric_namespace)),
{
    let failed = LinuxFabricError::CommandFailed;
    let io = LinuxFabricError::Storage;
    let a = EffectView::Query(ns_probe_cmd(own.namespace));
    lemma_and_then(t, t1, a);
    lemma_absent(realm_links(own), 0, t1.after(a));
    let t2 = links_absent_run(realm_links(own), 0, t1.after(a)).0;
    lemma_extends_transitive(t, t1.after(a), t2);
    lemma_and_then(t, t2, EffectView::Save);
    lemma_all_done(
        t,
        t2.after(EffectView::Save),
        realm_cmds(own, cfg.fabric_namespace),
        failed,
        io,
        v,
        "ip"@,
        realm_words(own, cfg.fabric_namespace),
    );
}

/// The realm of a plan is there once it is ensured: its bridge was found where it was recorded, or
/// all of it was made; it has its gateway address, the first one of the plan's prefix, and its
/// links have their sizes.
pub proof fn lemma_realm_stands(
    cfg: LinuxFabricConfigView,
    st: ProviderStateView,
    plan: NamespacedRoutedFabricPlanView,
    t: Trace,
    st1: ProviderStateView,
    u: Trace,
)
    requires
        id_sorted::<RealmOwnership>(st.realms),
        ensure_realm_run(cfg, st, plan, t) == (st1, u, Ok::<(), Stop<LinuxFabricError>>(())),
    ensures
        st1.realm(plan.realm_id) matches Some(own) && own.directory_generation
            == plan.directory_generation && own.local_fabric_generation
            == plan.local_fabric_generation && ((st.realm(plan.realm_id) is Some && was_found(
            t,
            u,
            "ip"@,
            seq!["link"@, "show"@, "dev"@, own.bridge],
        )) || all_carried_out(t, u, "ip"@, realm_words(own, cfg.fabric_namespace)))
            && carried_out(
            t,
            u,
            "ip"@,
            gateway_words(own, plan.realm_prefix.network, plan.realm_prefix.prefix_len),
        ) && all_carried_out(
            t,
            u,
            "ip"@,
            size_words(own, cfg.fabric_namespace, plan.tenant_mtu, plan.local_fabric_mtu),
        ),
{
    let recorded = st.realm(plan.realm_id);
    let own = match recorded {
        Some(prior) => carried_realm(prior, plan),
        None => new_realm(plan),
    };
    lemma_extends_self(t);
    let c = link_show_cmd(own.bridge);
    let q = EffectView::Query(c);
    let d = EffectView::Run(super::commands::netns_delete_cmd(own.namespace));
    lemma_and_then(t, t, q);
    lemma_and_then(t, t.after(q), d);
    lemma_and_then(t, t.after(q).after(d), EffectView::Save);
    let (sa, ta, ra) = if recorded is Some {
        forget_lost_realm_run(st, own, t)
    } else {
        (st, t, Ok(()))
    };
    let (sb, tb, rb) = settle_realm_run(cfg, sa, own, ta);
    lemma_extends_self(ta);
    lemma_make_realm(cfg, sa, own, ta);
    lemma_and_then(ta, ta, EffectView::Save);
    lemma_extends_transitive(t, ta, tb);
    lemma_address(cfg, own, plan, tb);
    lemma_addressed(t, tb, cfg, own, plan, u);
    lemma_id_slot::<RealmOwnership>(st.realms, plan.realm_id);
    if recorded is Some {
        lemma_id_cut_sorted::<RealmOwnership>(st.realms, own.realm_id);
    }
    lemma_id_put_get::<RealmOwnership>(sa.realms, own, plan.realm_id);
    let lost = sa.realm(plan.realm_id) is None;
    if lost {
        lemma_made_realm(t, ta, cfg, sa, own, u);
    } else {
        let (found, text) = queried(t.reply(), LinuxFabricError::Storage)->Ok_0;
        let words = seq!["link"@, "show"@, "dev"@, own.bridge];
        lemma_extends_self(t.after(q));
        lemma_extends_transitive(t.after(q), tb, u);
        lemma_told(t, t, c, found, text, u, words);
        assert(told(t, u, "ip"@, words, true, text));
    }
}

} // verus!
