//! The course of applying a plan: each stage goes on from where the one before it ended.
use super::backend::LinuxFabricBackendView;
use super::config::{LinuxFabricConfigView, LinuxFabricError};
use super::geneve::{
    attach_bridge_run, attach_veth_run, bridge_cmds, check_tunnels_run, ensure_attachment_run,
    ensure_geneve_run, realize_tunnel_run, realize_tunnels_run, record_tunnels_run,
    remove_tunnels_run, tunnel_cmds, veth_cmds, wanted_tunnels,
};
use super::lifecycle::{stage_run, stages, stages_run, Stage};
use super::plan::{FabricEndpointRouteView, NamespacedRoutedFabricPlanView};
use super::policy::{drop_ns_table_run, ensure_policy_run, policy_table_cmds};
use super::public::{
    build_public_run, clear_public_run, ensure_public_run, ensure_public_veth_run,
    public_route_cmds, public_table_cmds, run_lists, transit_link_cmds, with_public, PublicFound,
};
use super::realm::{
    address_realm_run, carried_realm, ensure_realm_run, forget_lost_realm_run, links_absent_run,
    make_realm_run, new_realm, realize_routes_run, realm_cmds, realm_links, realm_mtu_cmds,
    route_cmds, settle_realm_run,
};
use super::removal::{
    lemma_clear_public, lemma_configure, lemma_ns_table, lemma_taps, lemma_tunnels,
};
use super::state::{
    EndpointTapOwnershipView, FabricAttachmentOwnership, GeneveOwnershipView, ProviderStateView,
    RealmOwnershipView,
};
use super::taps::{
    announce_taps_run, change_taps_run, ensure_each_tap_run, ensure_endpoint_taps_run,
    ensure_tap_run, local_taps, remove_taps_run, tap_cmds,
};
use super::underlay::{
    build_fabric_run, ensure_fabric_run, key_path, make_fabric_run, passage_cmds, provide_key_run,
    uplink_cmds, wireguard_cmds,
};
use crate::reading::{lemma_attempts_extend, lemma_extends_self};
use crate::session::{
    attempt_all, extends, lemma_extends_after, lemma_extends_transitive, lemma_run_all_extends,
    queried, run_all, CommandView, EffectView, Trace,
};
use crate::table::name_get;
use vstd::prelude::*;

verus! {

pub(crate) proof fn lemma_and_then(t: Trace, u: Trace, e: EffectView)
    requires
        extends(t, u),
    ensures
        extends(t, u.after(e)),
{
    lemma_extends_after(u, e);
    lemma_extends_transitive(t, u, u.after(e));
}

pub(crate) proof fn lemma_runs(t: Trace, u: Trace, cs: Seq<CommandView>)
    requires
        extends(t, u),
    ensures
        extends(
            t,
            run_all(u, cs, LinuxFabricError::CommandFailed, LinuxFabricError::Storage).0,
        ),
        extends(
            u,
            run_all(u, cs, LinuxFabricError::CommandFailed, LinuxFabricError::Storage).0,
        ),
{
    let v = run_all(u, cs, LinuxFabricError::CommandFailed, LinuxFabricError::Storage).0;
    lemma_run_all_extends(u, cs, LinuxFabricError::CommandFailed, LinuxFabricError::Storage);
    lemma_extends_transitive(t, u, v);
}

pub(crate) proof fn lemma_tries(t: Trace, u: Trace, cs: Seq<CommandView>)
    requires
        extends(t, u),
    ensures
        extends(t, attempt_all::<LinuxFabricError>(u, cs).0),
{
    lemma_attempts_extend::<LinuxFabricError>(u, cs);
    lemma_extends_transitive(t, u, attempt_all::<LinuxFabricError>(u, cs).0);
}

// ---------------------------------------------------------------------------
// The stages
// ---------------------------------------------------------------------------

pub(crate) proof fn lemma_key(path: Seq<char>, t: Trace)
    ensures
        extends(t, provide_key_run(path, t).0),
{
    let a = EffectView::ReadKey(path);
    let b = EffectView::Query(super::commands::genkey_cmd());
    lemma_extends_self(t);
    lemma_and_then(t, t, a);
    lemma_and_then(t, t.after(a), b);
    match queried(t.after(a).reply(), LinuxFabricError::Storage) {
        Ok((_, key)) => lemma_and_then(
            t,
            t.after(a).after(b),
            EffectView::WriteKey(path, crate::text::trim(key) + "\n"@),
        ),
        Err(_) => {},
    }
}

proof fn lemma_make_fabric(
    cfg: LinuxFabricConfigView,
    st: ProviderStateView,
    plan: NamespacedRoutedFabricPlanView,
    t: Trace,
)
    ensures
        extends(t, make_fabric_run(cfg, st, plan, t).1),
{
    let a = EffectView::Query(super::commands::ns_probe_cmd(cfg.fabric_namespace));
    let b = EffectView::Query(super::commands::link_show_cmd(cfg.fabric_interface));
    lemma_extends_self(t);
    lemma_and_then(t, t, a);
    lemma_and_then(t, t.after(a), b);
    let t2 = t.after(a).after(b);
    lemma_key(key_path(cfg), t2);
    let t3 = provide_key_run(key_path(cfg), t2).0;
    lemma_extends_transitive(t, t2, t3);
    lemma_build_fabric(cfg, plan, t3);
    let t4 = build_fabric_run(cfg, plan, t3).0;
    lemma_extends_transitive(t, t3, t4);
    lemma_and_then(t, t4, EffectView::Save);
}

pub(crate) proof fn lemma_build_fabric(
    cfg: LinuxFabricConfigView,
    plan: NamespacedRoutedFabricPlanView,
    t: Trace,
)
    ensures
        extends(t, build_fabric_run(cfg, plan, t).0),
{
    let failed = LinuxFabricError::CommandFailed;
    let io = LinuxFabricError::Storage;
    lemma_extends_self(t);
    lemma_runs(t, t, wireguard_cmds(cfg, plan));
    let t1 = run_all(t, wireguard_cmds(cfg, plan), failed, io).0;
    let d = EffectView::Run(super::commands::link_del_cmd("o3k-u"@));
    lemma_and_then(t, t1, d);
    lemma_runs(t, t1.after(d), uplink_cmds(cfg.fabric_namespace));
    let t3 = run_all(t1.after(d), uplink_cmds(cfg.fabric_namespace), failed, io).0;
    lemma_tries(t, t3, passage_cmds(cfg));
}

proof fn lemma_fabric_stage(
    cfg: LinuxFabricConfigView,
    st: ProviderStateView,
    plan: NamespacedRoutedFabricPlanView,
    t: Trace,
)
    ensures
        extends(t, ensure_fabric_run(cfg, st, plan, t).1),
{
    let ns = cfg.fabric_namespace;
    let a = EffectView::Query(super::commands::ns_link_show_cmd(ns, cfg.fabric_interface));
    let cs = Seq::empty().push(super::commands::link_del_cmd("o3k-u"@)).push(
        super::commands::netns_del_cmd(ns),
    );
    lemma_extends_self(t);
    lemma_make_fabric(cfg, st, plan, t);
    lemma_and_then(t, t, a);
    let t1 = t.after(a);
    lemma_tries(t, t1, cs);
    let t2 = attempt_all::<LinuxFabricError>(t1, cs).0;
    let bare = ProviderStateView { fabric: None, ..st };
    lemma_make_fabric(cfg, bare, plan, t2);
    lemma_extends_transitive(t, t2, make_fabric_run(cfg, bare, plan, t2).1);
}

pub(crate) proof fn lemma_absent(names: Seq<Seq<char>>, i: int, t: Trace)
    ensures
        extends(t, links_absent_run(names, i, t).0),
    decreases names.len() - i,
{
    lemma_extends_self(t);
    if 0 <= i < names.len() {
        let e = EffectView::Query(super::commands::link_show_cmd(names[i]));
        lemma_and_then(t, t, e);
        lemma_absent(names, i + 1, t.after(e));
        lemma_extends_transitive(t, t.after(e), links_absent_run(names, i + 1, t.after(e)).0);
    }
}

pub(crate) proof fn lemma_make_realm(
    cfg: LinuxFabricConfigView,
    st: ProviderStateView,
    own: RealmOwnershipView,
    t: Trace,
)
    ensures
        extends(t, make_realm_run(cfg, st, own, t).1),
{
    let a = EffectView::Query(super::commands::ns_probe_cmd(own.namespace));
    lemma_extends_self(t);
    lemma_and_then(t, t, a);
    lemma_absent(realm_links(own), 0, t.after(a));
    let t2 = links_absent_run(realm_links(own), 0, t.after(a)).0;
    lemma_extends_transitive(t, t.after(a), t2);
    lemma_and_then(t, t2, EffectView::Save);
    lemma_runs(t, t2.after(EffectView::Save), realm_cmds(own, cfg.fabric_namespace));
}

pub(crate) proof fn lemma_address(
    cfg: LinuxFabricConfigView,
    own: RealmOwnershipView,
    plan: NamespacedRoutedFabricPlanView,
    t: Trace,
)
    ensures
        extends(t, address_realm_run(cfg, own, plan, t).0),
{
    let prefix = plan.realm_prefix;
    let cidr = crate::ipv4::ipv4_text((prefix.network + 1) as u32) + "/"@ + crate::render::decimal(
        prefix.prefix_len as nat,
    );
    let a = EffectView::Run(
        super::commands::ns_addr_replace_cmd(own.namespace, cidr, own.realm_veth),
    );
    let b = EffectView::Run(
        super::commands::sysctl_write_cmd("net.ipv4.conf."@ + own.realm_veth + ".proxy_arp=1"@),
    );
    lemma_extends_self(t);
    lemma_and_then(t, t, a);
    lemma_and_then(t, t.after(a), b);
    lemma_runs(t, t.after(a).after(b), realm_mtu_cmds(cfg, own, plan));
}

proof fn lemma_realm_stage(
    cfg: LinuxFabricConfigView,
    st: ProviderStateView,
    plan: NamespacedRoutedFabricPlanView,
    t: Trace,
)
    ensures
        extends(t, ensure_realm_run(cfg, st, plan, t).1),
{
    let recorded = st.realm(plan.realm_id);
    let own = match recorded {
        Some(prior) => carried_realm(prior, plan),
        None => new_realm(plan),
    };
    lemma_extends_self(t);
    let q = EffectView::Query(super::commands::link_show_cmd(own.bridge));
    let d = EffectView::Run(super::commands::netns_delete_cmd(own.namespace));
    lemma_and_then(t, t, q);
    lemma_and_then(t, t.after(q), d);
    lemma_and_then(t, t.after(q).after(d), EffectView::Save);
    let (st1, t1, r1) = if recorded is Some {
        forget_lost_realm_run(st, own, t)
    } else {
        (st, t, Ok(()))
    };
    assert(extends(t, t1));
    lemma_extends_self(t1);
    lemma_make_realm(cfg, st1, own, t1);
    lemma_and_then(t1, t1, EffectView::Save);
    let t2 = settle_realm_run(cfg, st1, own, t1).1;
    lemma_extends_transitive(t, t1, t2);
    lemma_address(cfg, own, plan, t2);
    lemma_extends_transitive(t, t2, address_realm_run(cfg, own, plan, t2).0);
}

pub(crate) proof fn lemma_attachment_extends(
    cfg: LinuxFabricConfigView,
    st: ProviderStateView,
    realm_id: u128,
    g: GeneveOwnershipView,
    t: Trace,
)
    ensures
        extends(t, ensure_attachment_run(cfg, st, realm_id, g, t).0),
{
    lemma_extends_self(t);
    match st.realm(realm_id) {
        None => {},
        Some(own) => {
            let ns = cfg.fabric_namespace;
            lemma_bridge_extends(ns, g, t);
            let t1 = attach_bridge_run(ns, g, t).0;
            lemma_veth_extends(ns, own.namespace, g, t1);
            lemma_extends_transitive(t, t1, attach_veth_run(ns, own.namespace, g, t1).0);
        },
    }
}

pub(crate) proof fn lemma_bridge_extends(ns: Seq<char>, g: GeneveOwnershipView, t: Trace)
    ensures
        extends(t, attach_bridge_run(ns, g, t).0),
{
    let q = EffectView::Query(super::commands::ns_link_show_cmd(ns, g.bridge));
    lemma_extends_self(t);
    lemma_and_then(t, t, q);
    lemma_runs(t, t.after(q), bridge_cmds(ns, g, true));
    lemma_runs(t, t.after(q), bridge_cmds(ns, g, false));
}

pub(crate) proof fn lemma_veth_extends(
    ns: Seq<char>,
    realm_ns: Seq<char>,
    g: GeneveOwnershipView,
    t: Trace,
)
    ensures
        extends(t, attach_veth_run(ns, realm_ns, g, t).0),
{
    let q = EffectView::Query(super::commands::ns_link_show_cmd(realm_ns, g.realm_veth));
    let p = EffectView::Query(super::commands::ns_link_detail_cmd(ns, g.fabric_veth));
    lemma_extends_self(t);
    lemma_and_then(t, t, q);
    lemma_and_then(t, t.after(q), p);
    lemma_runs(t, t.after(q).after(p), veth_cmds(ns, realm_ns, g, true));
    lemma_runs(t, t.after(q).after(p), veth_cmds(ns, realm_ns, g, false));
}

pub(crate) proof fn lemma_tunnel_extends(
    cfg: LinuxFabricConfigView,
    st: ProviderStateView,
    plan: NamespacedRoutedFabricPlanView,
    g: GeneveOwnershipView,
    t: Trace,
)
    ensures
        extends(t, realize_tunnel_run(cfg, st, plan, g, t).1),
{
    let q = EffectView::Query(
        super::commands::ns_link_detail_cmd(cfg.fabric_namespace, g.interface),
    );
    lemma_extends_self(t);
    lemma_and_then(t, t, q);
    match queried(t.reply(), LinuxFabricError::Storage) {
        Err(_) => {},
        Ok((exists, _)) => {
            let cs = tunnel_cmds(cfg, plan.tenant_mtu, g, exists);
            lemma_runs(t, t.after(q), cs);
            let t2 = run_all(
                t.after(q),
                cs,
                LinuxFabricError::CommandFailed,
                LinuxFabricError::Storage,
            ).0;
            lemma_attachment_extends(cfg, st, plan.realm_id, g, t2);
            let t3 = ensure_attachment_run(cfg, st, plan.realm_id, g, t2).0;
            lemma_extends_transitive(t, t2, t3);
            lemma_and_then(t, t3, EffectView::Save);
        },
    }
}

pub(crate) proof fn lemma_tunnels_extend(
    cfg: LinuxFabricConfigView,
    st: ProviderStateView,
    plan: NamespacedRoutedFabricPlanView,
    wanted: Seq<GeneveOwnershipView>,
    i: int,
    t: Trace,
)
    ensures
        extends(t, realize_tunnels_run(cfg, st, plan, wanted, i, t).1),
    decreases wanted.len() - i,
{
    lemma_extends_self(t);
    if 0 <= i < wanted.len() {
        lemma_tunnel_extends(cfg, st, plan, wanted[i], t);
        let (st1, t1, r1) = realize_tunnel_run(cfg, st, plan, wanted[i], t);
        lemma_tunnels_extend(cfg, st1, plan, wanted, i + 1, t1);
        lemma_extends_transitive(
            t,
            t1,
            realize_tunnels_run(cfg, st1, plan, wanted, i + 1, t1).1,
        );
    }
}

pub(crate) proof fn lemma_check_extends(
    cfg: LinuxFabricConfigView,
    known: Seq<GeneveOwnershipView>,
    wanted: Seq<GeneveOwnershipView>,
    i: int,
    t: Trace,
)
    ensures
        extends(t, check_tunnels_run(cfg, known, wanted, i, t).1),
    decreases wanted.len() - i,
{
    lemma_extends_self(t);
    if 0 <= i < wanted.len() {
        let g = wanted[i];
        let q = EffectView::Query(
            super::commands::ns_link_detail_cmd(cfg.fabric_namespace, g.interface),
        );
        lemma_and_then(t, t, q);
        let changed = wanted.update(i, GeneveOwnershipView { realized: false, ..g });
        lemma_check_extends(cfg, known, wanted, i + 1, t.after(q));
        lemma_check_extends(cfg, known, changed, i + 1, t.after(q));
        lemma_extends_transitive(
            t,
            t.after(q),
            check_tunnels_run(cfg, known, wanted, i + 1, t.after(q)).1,
        );
        lemma_extends_transitive(
            t,
            t.after(q),
            check_tunnels_run(cfg, known, changed, i + 1, t.after(q)).1,
        );
    }
}

proof fn lemma_tunnel_stage(
    b: LinuxFabricBackendView,
    plan: NamespacedRoutedFabricPlanView,
    t: Trace,
)
    ensures
        extends(t, ensure_geneve_run(b, plan, t).1),
{
    lemma_extends_self(t);
    match b.state.realm(plan.realm_id) {
        None => {},
        Some(own) => {
            let wanted = wanted_tunnels(Seq::empty(), plan, own.geneve, 0);
            lemma_tunnels(b.config, own.namespace, own.geneve, wanted, 0, t);
            let t1 = remove_tunnels_run(b.config, own.namespace, own.geneve, wanted, 0, t).0;
            lemma_check_extends(b.config, own.geneve, wanted, 0, t1);
            let (checked, t2, r2) = check_tunnels_run(b.config, own.geneve, wanted, 0, t1);
            lemma_extends_transitive(t, t1, t2);
            lemma_and_then(t, t2, EffectView::Save);
            let (st3, t3, r3) = record_tunnels_run(b.state, own, checked, t2);
            lemma_tunnels_extend(b.config, st3, plan, checked, 0, t3);
            lemma_extends_transitive(
                t,
                t3,
                realize_tunnels_run(b.config, st3, plan, checked, 0, t3).1,
            );
        },
    }
}

pub(crate) proof fn lemma_each_tap_extends(
    own: RealmOwnershipView,
    wanted: Seq<EndpointTapOwnershipView>,
    i: int,
    t: Trace,
)
    ensures
        extends(t, ensure_each_tap_run(own, wanted, i, t).0),
    decreases wanted.len() - i,
{
    lemma_extends_self(t);
    if 0 <= i < wanted.len() {
        lemma_one_tap_extends(own, wanted[i], t);
        let t1 = ensure_tap_run(own, wanted[i], t).0;
        lemma_each_tap_extends(own, wanted, i + 1, t1);
        lemma_extends_transitive(t, t1, ensure_each_tap_run(own, wanted, i + 1, t1).0);
    }
}

pub(crate) proof fn lemma_one_tap_extends(
    own: RealmOwnershipView,
    wanted: EndpointTapOwnershipView,
    t: Trace,
)
    ensures
        extends(t, ensure_tap_run(own, wanted, t).0),
{
    let q = EffectView::Query(super::commands::link_detail_cmd(wanted.interface));
    lemma_extends_self(t);
    lemma_and_then(t, t, q);
    lemma_runs(t, t.after(q), tap_cmds(wanted, own.bridge));
}

proof fn lemma_tap_stage(st: ProviderStateView, plan: NamespacedRoutedFabricPlanView, t: Trace)
    ensures
        extends(t, ensure_endpoint_taps_run(st, plan, t).1),
{
    lemma_extends_self(t);
    let wanted = local_taps(Seq::empty(), plan, 0);
    match st.realm(plan.realm_id) {
        None => {},
        Some(own) => {
            lemma_and_then(t, t, EffectView::Save);
            let (st1, t1, r1) = announce_taps_run(st, own, wanted, t);
            lemma_taps(own.endpoint_taps, wanted, own.bridge, 0, t1);
            let t2 = remove_taps_run(own.endpoint_taps, wanted, own.bridge, 0, t1).0;
            lemma_extends_transitive(t, t1, t2);
            lemma_each_tap_extends(own, wanted, 0, t2);
            lemma_extends_transitive(t, t2, ensure_each_tap_run(own, wanted, 0, t2).0);
            let t3 = change_taps_run(own, wanted, t1).0;
            assert(extends(t, t3));
            lemma_and_then(t, t3, EffectView::Save);
        },
    }
}

proof fn lemma_policy_stage(st: ProviderStateView, plan: NamespacedRoutedFabricPlanView, t: Trace)
    ensures
        extends(t, ensure_policy_run(st, plan, t).1),
{
    lemma_extends_self(t);
    match st.realm(plan.realm_id) {
        None => {},
        Some(own) => {
            let table = super::naming::provider_name_text("p"@, plan.realm_id, "policy"@);
            lemma_ns_table(own.namespace, table, "o3k-p11-policy"@, t);
            let u = drop_ns_table_run(own.namespace, table, "o3k-p11-policy"@, t).0;
            lemma_and_then(t, u, EffectView::Save);
            let q = EffectView::Query(
                super::commands::ns_table_list_cmd(own.namespace, table),
            );
            lemma_and_then(t, t, q);
            lemma_and_then(t, t.after(q), EffectView::Save);
            lemma_runs(
                t,
                t.after(q).after(EffectView::Save),
                policy_table_cmds(own.namespace, plan, true),
            );
            lemma_runs(
                t,
                t.after(q).after(EffectView::Save),
                policy_table_cmds(own.namespace, plan, false),
            );
        },
    }
}

pub(crate) proof fn lemma_lists(t: Trace, u: Trace, lists: Seq<Seq<CommandView>>)
    requires
        extends(t, u),
    ensures
        extends(t, run_lists(u, lists).0),
    decreases lists.len(),
{
    if lists.len() > 0 {
        lemma_lists(t, u, lists.drop_last());
        lemma_runs(t, run_lists(u, lists.drop_last()).0, lists.last());
    }
}

pub(crate) proof fn lemma_transit_extends(own: RealmOwnershipView, t: Trace)
    ensures
        extends(t, ensure_public_veth_run(own, t).0),
{
    let a = EffectView::Query(super::commands::link_show_cmd(own.public_host_veth));
    let b = EffectView::Query(
        super::commands::ns_link_show_cmd(own.namespace, own.public_realm_veth),
    );
    lemma_extends_self(t);
    lemma_and_then(t, t, a);
    lemma_and_then(t, t.after(a), b);
    lemma_runs(t, t.after(a).after(b), transit_link_cmds(own));
}

pub(crate) proof fn lemma_build_public_extends(
    own: RealmOwnershipView,
    uplink: Seq<char>,
    plan: NamespacedRoutedFabricPlanView,
    root_table: bool,
    realm_table: bool,
    t: Trace,
)
    ensures
        extends(t, build_public_run(own, uplink, plan, root_table, realm_table, t).0),
{
    lemma_transit_extends(own, t);
    let t1 = ensure_public_veth_run(own, t).0;
    lemma_runs(t, t1, public_route_cmds(own, uplink, plan));
    let t2 = run_all(
        t1,
        public_route_cmds(own, uplink, plan),
        LinuxFabricError::CommandFailed,
        LinuxFabricError::Storage,
    ).0;
    let q = EffectView::Query(super::commands::rule_list_cmd());
    lemma_and_then(t, t2, q);
    lemma_lists(
        t,
        t2.after(q),
        public_table_cmds(own, uplink, plan, PublicFound { rule: true, root_table, realm_table }),
    );
    lemma_lists(
        t,
        t2.after(q),
        public_table_cmds(own, uplink, plan, PublicFound { rule: false, root_table, realm_table }),
    );
}

proof fn lemma_public_stage(
    cfg: LinuxFabricConfigView,
    st: ProviderStateView,
    plan: NamespacedRoutedFabricPlanView,
    t: Trace,
)
    ensures
        extends(t, ensure_public_run(cfg, st, plan, t).1),
{
    lemma_extends_self(t);
    match (st.realm(plan.realm_id), cfg.public_uplink) {
        (Some(own), Some(uplink)) => {
            lemma_clear_public(own, uplink, plan, t);
            lemma_and_then(t, clear_public_run(own, uplink, plan, t).0, EffectView::Save);
            let a = EffectView::Query(
                super::commands::table_list_cmd(
                    super::naming::provider_name_text("u"@, plan.realm_id, "public"@),
                ),
            );
            let b = EffectView::Query(
                super::commands::ns_table_list_cmd(
                    own.namespace,
                    super::naming::provider_name_text("n"@, plan.realm_id, "public"@),
                ),
            );
            lemma_and_then(t, t, a);
            lemma_and_then(t, t.after(a), b);
            lemma_and_then(t, t.after(a).after(b), EffectView::Save);
            let t3 = t.after(a).after(b).after(EffectView::Save);
            let next = with_public(own, plan);
            let io = LinuxFabricError::Storage;
            match (queried(t.reply(), io), queried(t.after(a).reply(), io)) {
                (Ok((x, _)), Ok((y, _))) => {
                    lemma_build_public_extends(next, uplink, plan, x, y, t3);
                    lemma_extends_transitive(
                        t,
                        t3,
                        build_public_run(next, uplink, plan, x, y, t3).0,
                    );
                },
                _ => {},
            }
        },
        _ => {},
    }
}

pub(crate) proof fn lemma_routes_extend(
    routes: Seq<FabricEndpointRouteView>,
    own: RealmOwnershipView,
    i: int,
    t: Trace,
)
    ensures
        extends(t, realize_routes_run(routes, own, i, t).0),
    decreases routes.len() - i,
{
    lemma_extends_self(t);
    if 0 <= i < routes.len() {
        match name_get::<FabricAttachmentOwnership>(own.attachments, routes[i].target_host) {
            None => {},
            Some(a) => {
                let cs = route_cmds(own, routes[i], a.realm_veth, a.remote_tunnel_mac);
                lemma_runs(t, t, cs);
                let t1 = run_all(
                    t,
                    cs,
                    LinuxFabricError::CommandFailed,
                    LinuxFabricError::Storage,
                ).0;
                lemma_routes_extend(routes, own, i + 1, t1);
                lemma_extends_transitive(t, t1, realize_routes_run(routes, own, i + 1, t1).0);
            },
        }
    }
}

proof fn lemma_stage_extends(
    stage: Stage,
    b: LinuxFabricBackendView,
    plan: NamespacedRoutedFabricPlanView,
    t: Trace,
)
    ensures
        extends(t, stage_run(stage, b, plan, t).1),
{
    lemma_extends_self(t);
    match stage {
        Stage::Fabric => lemma_fabric_stage(b.config, b.state, plan, t),
        Stage::Plan => lemma_and_then(t, t, EffectView::SavePlan),
        Stage::Realm => lemma_realm_stage(b.config, b.state, plan, t),
        Stage::Peers => lemma_configure(b, t),
        Stage::Tunnels => lemma_tunnel_stage(b, plan, t),
        Stage::Taps => lemma_tap_stage(b.state, plan, t),
        Stage::Policy => lemma_policy_stage(b.state, plan, t),
        Stage::Public => lemma_public_stage(b.config, b.state, plan, t),
        Stage::Routes => {
            match b.state.realm(plan.realm_id) {
                None => {},
                Some(own) => lemma_routes_extend(plan.routes, own, 0, t),
            }
        },
    }
}

/// Where all stages succeed, so does each of them, and the trace goes on from each.
pub(crate) proof fn lemma_stage_succeeds(
    n: int,
    m: int,
    b: LinuxFabricBackendView,
    plan: NamespacedRoutedFabricPlanView,
    t: Trace,
)
    requires
        0 <= n < m,
        stages_run(m, b, plan, t).2 is Ok,
    ensures
        stages_run(n, b, plan, t).2 is Ok,
        stage_run(
            stages()[n],
            stages_run(n, b, plan, t).0,
            plan,
            stages_run(n, b, plan, t).1,
        ).2 is Ok,
        stages_run(n + 1, b, plan, t) == stage_run(
            stages()[n],
            stages_run(n, b, plan, t).0,
            plan,
            stages_run(n, b, plan, t).1,
        ),
        extends(t, stages_run(n, b, plan, t).1),
        extends(stages_run(n + 1, b, plan, t).1, stages_run(m, b, plan, t).1),
    decreases m,
{
    lemma_course(n, b, plan, t);
    if n == m - 1 {
        lemma_extends_self(stages_run(m, b, plan, t).1);
    } else {
        lemma_stage_succeeds(n, m - 1, b, plan, t);
        let (b1, t1, r1) = stages_run(m - 1, b, plan, t);
        lemma_stage_extends(stages()[m - 1], b1, plan, t1);
        lemma_extends_transitive(
            stages_run(n + 1, b, plan, t).1,
            t1,
            stages_run(m, b, plan, t).1,
        );
    }
}

proof fn lemma_course(
    n: int,
    b: LinuxFabricBackendView,
    plan: NamespacedRoutedFabricPlanView,
    t: Trace,
)
    ensures
        extends(t, stages_run(n, b, plan, t).1),
    decreases n,
{
    lemma_extends_self(t);
    if n > 0 {
        lemma_course(n - 1, b, plan, t);
        let (b1, t1, r1) = stages_run(n - 1, b, plan, t);
        lemma_stage_extends(stages()[n - 1], b1, plan, t1);
        lemma_extends_transitive(t, t1, stage_run(stages()[n - 1], b1, plan, t1).1);
    }
}

} // verus!
