//! What applying a plan and removing it leave as it is.
use super::backend::LinuxFabricBackendView;
use super::config::{LinuxFabricConfigView, LinuxFabricError};
use super::geneve::{
    attachments_of, check_tunnels_run, ensure_geneve_run, realize_tunnel_run, realize_tunnels_run,
    record_tunnels_run, remove_attachment_run, remove_bridge_run, remove_tunnel_run,
    remove_tunnels_run, wanted_tunnels,
};
use super::laws::{
    lemma_apply_keeps_order, lemma_local_taps_sorted, lemma_public_sorted, lemma_realm_sorted,
    lemma_recorded_tunnels_sorted, lemma_removed_realm_is_gone, lemma_stages_sorted,
    lemma_with_realized_sorted, lemma_with_realm_sorted, lemma_without_realm_sorted,
};
use super::lifecycle::{
    apply_run, is_removed, realm_removal_cmds, remove_links_run, remove_plan_run, remove_run,
    settle_fabric_run, stage_run, stages, stages_run, Stage,
};
use super::plan::{FabricPeerView, NamespacedRoutedFabricPlan, NamespacedRoutedFabricPlanView};
use super::policy::{drop_ns_table_run, remove_policy_run};
use super::public::{
    clear_public_run, drop_root_table_run, drop_transit_run, remove_public_run, unroute_run,
    with_public, without_public,
};
use super::realm::{carried_realm, ensure_realm_run, forget_lost_realm_run, new_realm};
use super::state::{
    EndpointTapOwnershipView, FabricOwnershipView, GeneveOwnership, GeneveOwnershipView,
    ProviderStateView, RealmOwnership, RealmOwnershipView,
};
use super::taps::{
    announce_taps_run, ensure_endpoint_taps_run, local_taps, remove_tap_run, remove_taps_run,
};
use super::underlay::{
    configure_each_run, configure_peer_run, configure_peers_run, drop_wireguard_run, merge_plans,
    peer_keys, remove_fabric_run, removal_cmds, stale_peer_cmds,
};
use crate::session::{
    attempt_all, extends, lemma_extends_after, lemma_extends_transitive, lemma_run_all_extends,
    run_all, CommandView, EffectView, Trace,
};
use crate::table::{id_get, lemma_id_cut_get, lemma_id_put_get, name_get, name_put};
use vstd::prelude::*;

verus! {

// ---------------------------------------------------------------------------
// The private key
// ---------------------------------------------------------------------------

/// Whether an effect neither writes the private key file nor removes a file that is kept with it.
pub open spec fn spares_key(e: EffectView) -> bool {
    !(e is WriteKey) && !(e is RemoveRecords)
}

/// Whether every effect behind a trace leaves the private key file alone.
pub open spec fn key_spared(t: Trace, u: Trace) -> bool {
    &&& extends(t, u)
    &&& forall|i: int|
        t.issued.len() <= i < u.issued.len() ==> spares_key(#[trigger] u.issued[i])
}

pub(crate) proof fn lemma_start(t: Trace)
    ensures
        key_spared(t, t),
{
    assert(t.issued.take(t.issued.len() as int) =~= t.issued);
}

pub(crate) proof fn lemma_step(t: Trace, u: Trace, e: EffectView)
    requires
        key_spared(t, u),
        spares_key(e),
    ensures
        key_spared(t, u.after(e)),
{
    lemma_extends_after(u, e);
    lemma_extends_transitive(t, u, u.after(e));
    let v = u.after(e);
    assert forall|i: int| t.issued.len() <= i < v.issued.len() implies spares_key(
        #[trigger] v.issued[i],
    ) by {
        if i < u.issued.len() {
            assert(v.issued[i] == u.issued[i]);
        }
    }
}

pub(crate) proof fn lemma_join(t: Trace, u: Trace, v: Trace)
    requires
        key_spared(t, u),
        key_spared(u, v),
    ensures
        key_spared(t, v),
{
    lemma_extends_transitive(t, u, v);
    assert forall|i: int| t.issued.len() <= i < v.issued.len() implies spares_key(
        #[trigger] v.issued[i],
    ) by {
        if i < u.issued.len() {
            assert(v.issued[i] == v.issued.take(u.issued.len() as int)[i]);
            assert(spares_key(u.issued[i]));
        }
    }
}

/// One effect, or two in a row, leave the key alone.
pub(crate) proof fn lemma_steps(t: Trace, a: EffectView, b: EffectView)
    requires
        spares_key(a),
        spares_key(b),
    ensures
        key_spared(t, t),
        key_spared(t, t.after(a)),
        key_spared(t, t.after(a).after(b)),
{
    lemma_start(t);
    lemma_step(t, t, a);
    lemma_step(t, t.after(a), b);
}

pub(crate) proof fn lemma_all(t: Trace, cs: Seq<CommandView>, failed: LinuxFabricError, io: LinuxFabricError)
    ensures
        key_spared(t, run_all(t, cs, failed, io).0),
{
    lemma_run_all_extends(t, cs, failed, io);
}

pub(crate) proof fn lemma_attempts(t: Trace, cs: Seq<CommandView>)
    ensures
        key_spared(t, attempt_all::<LinuxFabricError>(t, cs).0),
    decreases cs.len(),
{
    lemma_start(t);
    if cs.len() > 0 {
        lemma_attempts(t, cs.drop_last());
        let u = attempt_all::<LinuxFabricError>(t, cs.drop_last()).0;
        lemma_step(t, u, EffectView::Run(cs.last()));
    }
}

pub(crate) proof fn lemma_bridge(ns: Seq<char>, g: GeneveOwnershipView, t: Trace)
    ensures
        key_spared(t, remove_bridge_run(ns, g, t).0),
{
    let q = EffectView::Query(super::commands::ns_link_detail_cmd(ns, g.bridge));
    let p = EffectView::Query(super::commands::ns_bridge_ports_cmd(ns, g.bridge));
    lemma_steps(t, q, p);
    lemma_step(
        t,
        t.after(q).after(p),
        EffectView::Run(super::commands::ns_link_del_cmd(ns, g.bridge)),
    );
}

pub(crate) proof fn lemma_attachment(ns: Seq<char>, realm_ns: Seq<char>, g: GeneveOwnershipView, t: Trace)
    ensures
        key_spared(t, remove_attachment_run(ns, realm_ns, g, t).0),
{
    lemma_bridge(ns, g, t);
    let u = remove_bridge_run(ns, g, t).0;
    let q = EffectView::Query(super::commands::ns_link_show_cmd(realm_ns, g.realm_veth));
    lemma_step(t, u, q);
    lemma_step(
        t,
        u.after(q),
        EffectView::Run(super::commands::ns_link_del_cmd(realm_ns, g.realm_veth)),
    );
}

pub(crate) proof fn lemma_tunnel(
    cfg: LinuxFabricConfigView,
    realm_ns: Seq<char>,
    g: GeneveOwnershipView,
    t: Trace,
)
    ensures
        key_spared(t, remove_tunnel_run(cfg, realm_ns, g, t).0),
{
    let ns = cfg.fabric_namespace;
    lemma_attachment(ns, realm_ns, g, t);
    let u = remove_attachment_run(ns, realm_ns, g, t).0;
    let q = EffectView::Query(super::commands::ns_link_detail_cmd(ns, g.interface));
    lemma_step(t, u, q);
    lemma_step(
        t,
        u.after(q),
        EffectView::Run(super::commands::ns_link_del_cmd(ns, g.interface)),
    );
}

pub(crate) proof fn lemma_tunnels(
    cfg: LinuxFabricConfigView,
    realm_ns: Seq<char>,
    known: Seq<GeneveOwnershipView>,
    kept: Seq<GeneveOwnershipView>,
    i: int,
    t: Trace,
)
    ensures
        key_spared(t, remove_tunnels_run(cfg, realm_ns, known, kept, i, t).0),
    decreases known.len() - i,
{
    lemma_start(t);
    if 0 <= i < known.len() {
        lemma_tunnel(cfg, realm_ns, known[i], t);
        let u = remove_tunnel_run(cfg, realm_ns, known[i], t).0;
        lemma_tunnels(cfg, realm_ns, known, kept, i + 1, t);
        lemma_tunnels(cfg, realm_ns, known, kept, i + 1, u);
        lemma_join(t, u, remove_tunnels_run(cfg, realm_ns, known, kept, i + 1, u).0);
    }
}

pub(crate) proof fn lemma_taps(
    taps: Seq<EndpointTapOwnershipView>,
    kept: Seq<EndpointTapOwnershipView>,
    bridge: Seq<char>,
    i: int,
    t: Trace,
)
    ensures
        key_spared(t, remove_taps_run(taps, kept, bridge, i, t).0),
    decreases taps.len() - i,
{
    lemma_start(t);
    if 0 <= i < taps.len() {
        let name = taps[i].interface;
        lemma_steps(
            t,
            EffectView::Query(super::commands::link_detail_cmd(name)),
            EffectView::Run(super::commands::link_del_dev_cmd(name)),
        );
        let u = remove_tap_run(taps[i], bridge, t).0;
        lemma_taps(taps, kept, bridge, i + 1, t);
        lemma_taps(taps, kept, bridge, i + 1, u);
        lemma_join(t, u, remove_taps_run(taps, kept, bridge, i + 1, u).0);
    }
}

pub(crate) proof fn lemma_ns_table(ns: Seq<char>, table: Seq<char>, marker: Seq<char>, t: Trace)
    ensures
        key_spared(t, drop_ns_table_run(ns, table, marker, t).0),
{
    lemma_steps(
        t,
        EffectView::Query(super::commands::ns_table_list_cmd(ns, table)),
        EffectView::Run(super::commands::ns_table_del_cmd(ns, table)),
    );
}

pub(crate) proof fn lemma_unroute(
    own: RealmOwnershipView,
    uplink: Seq<char>,
    plan: NamespacedRoutedFabricPlanView,
    t: Trace,
)
    ensures
        key_spared(t, unroute_run(own, uplink, plan.public_bindings, t).0),
{
    let q = EffectView::Query(
        super::commands::route_show_cmd(crate::render::decimal(own.public_route_table as nat)),
    );
    lemma_steps(t, q, q);
    let u = unroute_run(own, uplink, plan.public_bindings, t).0;
    let t1 = t.after(q);
    let addresses = if own.public_addresses.len() == 0 {
        super::public::addresses_of(plan.public_bindings)
    } else {
        own.public_addresses
    };
    match crate::session::queried(t.reply(), LinuxFabricError::Storage) {
        Ok((true, listing)) => {
            lemma_all(
                t1,
                super::public::unroute_cmds(own, uplink, addresses, listing),
                LinuxFabricError::CommandFailed,
                LinuxFabricError::Storage,
            );
            lemma_join(t, t1, u);
        },
        _ => {},
    }
}

pub(crate) proof fn lemma_transit(own: RealmOwnershipView, t: Trace)
    ensures
        key_spared(t, drop_transit_run(own, t).0),
{
    let mark = crate::render::decimal(own.public_mark as nat);
    let table = crate::render::decimal(own.public_route_table as nat);
    let q = EffectView::Query(super::commands::rule_list_cmd());
    let d = EffectView::Run(super::commands::rule_del_cmd(mark, table));
    let s = EffectView::Query(super::commands::link_show_cmd(own.public_host_veth));
    let x = EffectView::Run(super::commands::link_del_cmd(own.public_host_veth));
    lemma_steps(t, q, d);
    lemma_steps(t, q, s);
    lemma_step(t, t.after(q).after(s), x);
    lemma_step(t, t.after(q).after(d), s);
    lemma_step(t, t.after(q).after(d).after(s), x);
}

pub(crate) proof fn lemma_clear_public(
    own: RealmOwnershipView,
    uplink: Seq<char>,
    plan: NamespacedRoutedFabricPlanView,
    t: Trace,
)
    ensures
        key_spared(t, clear_public_run(own, uplink, plan, t).0),
{
    let root = super::naming::provider_name_text("u"@, plan.realm_id, "public"@);
    let realm = super::naming::provider_name_text("n"@, plan.realm_id, "public"@);
    lemma_steps(
        t,
        EffectView::Query(super::commands::table_list_cmd(root)),
        EffectView::Run(super::commands::table_del_cmd(root)),
    );
    let t1 = drop_root_table_run(root, t).0;
    lemma_ns_table(own.namespace, realm, "o3k-p11-public"@, t1);
    let t2 = drop_ns_table_run(own.namespace, realm, "o3k-p11-public"@, t1).0;
    lemma_join(t, t1, t2);
    lemma_unroute(own, uplink, plan, t2);
    let t3 = unroute_run(own, uplink, plan.public_bindings, t2).0;
    lemma_join(t, t2, t3);
    lemma_transit(own, t3);
    lemma_join(t, t3, drop_transit_run(own, t3).0);
}

pub(crate) proof fn lemma_peers(
    fabric: FabricOwnershipView,
    peers: Seq<FabricPeerView>,
    i: int,
    t: Trace,
)
    ensures
        key_spared(t, configure_each_run(fabric, peers, i, t).0),
    decreases peers.len() - i,
{
    lemma_start(t);
    if 0 <= i < peers.len() {
        let e = EffectView::CheckEndpoint(peers[i].underlay_endpoint);
        let t1 = t.after(e);
        lemma_step(t, t, e);
        lemma_all(
            t1,
            super::underlay::peer_cmds(fabric, peers[i]),
            LinuxFabricError::CommandFailed,
            LinuxFabricError::Storage,
        );
        lemma_join(
            t,
            t1,
            run_all(
                t1,
                super::underlay::peer_cmds(fabric, peers[i]),
                LinuxFabricError::CommandFailed,
                LinuxFabricError::Storage,
            ).0,
        );
        let u = configure_peer_run(fabric, peers[i], t).0;
        lemma_peers(fabric, peers, i + 1, u);
        lemma_join(t, u, configure_each_run(fabric, peers, i + 1, u).0);
    }
}

pub(crate) proof fn lemma_configure(b: LinuxFabricBackendView, t: Trace)
    ensures
        key_spared(t, configure_peers_run(b, t).1),
        configure_peers_run(b, t).0.realms == b.state.realms,
{
    lemma_start(t);
    let st = b.state;
    match st.fabric {
        None => {},
        Some(fabric) => match merge_plans(Seq::empty(), b.plans, st.realms, 0) {
            None => {},
            Some(peers) => {
                let keys = peer_keys(Seq::empty(), peers, 0);
                let cs = stale_peer_cmds(fabric, fabric.managed_peers, keys);
                lemma_all(t, cs, LinuxFabricError::CommandFailed, LinuxFabricError::Storage);
                let t1 = run_all(
                    t,
                    cs,
                    LinuxFabricError::CommandFailed,
                    LinuxFabricError::Storage,
                ).0;
                lemma_peers(fabric, peers, 0, t1);
                let t2 = configure_each_run(fabric, peers, 0, t1).0;
                lemma_join(t, t1, t2);
                lemma_step(t, t2, EffectView::Save);
            },
        },
    }
}

pub(crate) proof fn lemma_fabric(
    cfg: LinuxFabricConfigView,
    st: ProviderStateView,
    generation: u64,
    t: Trace,
)
    ensures
        key_spared(t, remove_fabric_run(cfg, st, generation, t).1),
        remove_fabric_run(cfg, st, generation, t).0.realms == st.realms,
{
    lemma_start(t);
    match st.fabric {
        Some(fabric) => {
            let q = EffectView::Query(super::commands::ns_probe_cmd(fabric.namespace));
            let s = EffectView::Query(
                super::commands::ns_link_show_cmd(fabric.namespace, fabric.interface),
            );
            lemma_steps(t, q, s);
            lemma_step(
                t,
                t.after(q).after(s),
                EffectView::Run(
                    super::commands::ns_link_del_cmd(fabric.namespace, fabric.interface),
                ),
            );
            let t1 = drop_wireguard_run(fabric, t).0;
            let cs = removal_cmds(cfg, fabric.namespace);
            lemma_attempts(t1, cs);
            let t2 = attempt_all::<LinuxFabricError>(t1, cs).0;
            lemma_join(t, t1, t2);
            lemma_step(t, t2, EffectView::Save);
        },
        None => {},
    }
}

pub(crate) proof fn lemma_links(cfg: LinuxFabricConfigView, own: RealmOwnershipView, t: Trace)
    ensures
        key_spared(t, remove_links_run(cfg, own, t).0),
{
    lemma_taps(own.endpoint_taps, Seq::empty(), own.bridge, 0, t);
    let t1 = remove_taps_run(own.endpoint_taps, Seq::empty(), own.bridge, 0, t).0;
    lemma_taps(own.pending_endpoint_taps, own.endpoint_taps, own.bridge, 0, t1);
    let t2 = remove_taps_run(
        own.pending_endpoint_taps,
        own.endpoint_taps,
        own.bridge,
        0,
        t1,
    ).0;
    lemma_join(t, t1, t2);
    lemma_tunnels(cfg, own.namespace, own.geneve, Seq::empty(), 0, t2);
    let t3 = remove_tunnels_run(cfg, own.namespace, own.geneve, Seq::empty(), 0, t2).0;
    lemma_join(t, t2, t3);
    lemma_all(
        t3,
        realm_removal_cmds(own),
        LinuxFabricError::CommandFailed,
        LinuxFabricError::Storage,
    );
    lemma_join(
        t,
        t3,
        run_all(
            t3,
            realm_removal_cmds(own),
            LinuxFabricError::CommandFailed,
            LinuxFabricError::Storage,
        ).0,
    );
}

pub(crate) proof fn lemma_settle(b: LinuxFabricBackendView, generation: u64, t: Trace)
    ensures
        key_spared(t, settle_fabric_run(b, generation, t).1),
        settle_fabric_run(b, generation, t).0.state.realms == b.state.realms,
        settle_fabric_run(b, generation, t).0.plans == b.plans,
{
    lemma_start(t);
    lemma_configure(b, t);
    let (st1, t1, r1) = if b.state.realms.len() > 0 {
        configure_peers_run(b, t)
    } else {
        (b.state, t, Ok(()))
    };
    lemma_fabric(b.config, st1, generation, t1);
    lemma_join(t, t1, remove_fabric_run(b.config, st1, generation, t1).1);
}

// ---------------------------------------------------------------------------
// Other realms
// ---------------------------------------------------------------------------

/// Whether what is recorded of a realm is the same.
pub open spec fn same_realm(
    a: LinuxFabricBackendView,
    b: LinuxFabricBackendView,
    id: u128,
) -> bool {
    &&& a.state.realm(id) == b.state.realm(id)
    &&& id_get::<NamespacedRoutedFabricPlan>(a.plans, id) == id_get::<NamespacedRoutedFabricPlan>(
        b.plans,
        id,
    )
}

/// Removing a plan leaves every other realm recorded as it was, with its plan, and leaves the
/// private key file alone, whatever the host replies and also when the last realm goes.
pub proof fn lemma_removal_keeps_the_rest(
    b: LinuxFabricBackendView,
    plan: NamespacedRoutedFabricPlanView,
    t: Trace,
    id: u128,
)
    requires
        b.sorted(),
        id != plan.realm_id,
    ensures
        same_realm(remove_run(b, plan, t).0, b, id),
        key_spared(t, remove_run(b, plan, t).1),
{
    lemma_start(t);
    match b.state.realm(plan.realm_id) {
        None => lemma_fabric(b.config, b.state, plan.local_fabric_generation, t),
        Some(own) => {
            let (st1, t1, r1) = remove_public_run(b.config, b.state, plan, t);
            lemma_public(b.config, b.state, plan, t, id);
            let (st2, t2, r2) = remove_policy_run(st1, plan.realm_id, t1);
            lemma_policy(st1, plan.realm_id, t1, id);
            lemma_join(t, t1, t2);
            lemma_links(b.config, own, t2);
            let (t3, r3) = remove_links_run(b.config, own, t2);
            lemma_join(t, t2, t3);
            let b2 = b.with_state(st2);
            let (b4, t4, r4) = remove_plan_run(b2, plan.realm_id, t3);
            lemma_step(t, t3, EffectView::RemovePlan);
            lemma_step(t, t3.after(EffectView::RemovePlan), EffectView::Save);
            lemma_id_cut_get::<NamespacedRoutedFabricPlan>(b.plans, plan.realm_id, id);
            lemma_id_cut_get::<RealmOwnership>(st2.realms, plan.realm_id, id);
            assert(same_realm(b4, b, id));
            lemma_settle(b4, plan.local_fabric_generation, t4);
            lemma_join(t, t4, settle_fabric_run(b4, plan.local_fabric_generation, t4).1);
        },
    }
}

pub(crate) proof fn lemma_public(
    cfg: LinuxFabricConfigView,
    st: ProviderStateView,
    plan: NamespacedRoutedFabricPlanView,
    t: Trace,
    id: u128,
)
    requires
        st.sorted(),
        id != plan.realm_id,
    ensures
        key_spared(t, remove_public_run(cfg, st, plan, t).1),
        remove_public_run(cfg, st, plan, t).0.realm(id) == st.realm(id),
        remove_public_run(cfg, st, plan, t).0.sorted(),
{
    lemma_start(t);
    lemma_public_sorted(cfg, st, plan, t);
    match st.realm(plan.realm_id) {
        Some(own) => {
            lemma_realm_sorted(st, plan.realm_id);
            lemma_id_put_get::<RealmOwnership>(st.realms, without_public(own), id);
            match cfg.public_uplink {
                Some(uplink) => {
                    lemma_clear_public(own, uplink, plan, t);
                    lemma_step(t, clear_public_run(own, uplink, plan, t).0, EffectView::Save);
                },
                None => {},
            }
        },
        None => {},
    }
}

pub(crate) proof fn lemma_policy(st: ProviderStateView, realm_id: u128, t: Trace, id: u128)
    requires
        st.sorted(),
        id != realm_id,
    ensures
        key_spared(t, remove_policy_run(st, realm_id, t).1),
        remove_policy_run(st, realm_id, t).0.realm(id) == st.realm(id),
        id_sorted_realms(remove_policy_run(st, realm_id, t).0),
{
    lemma_start(t);
    match st.realm(realm_id) {
        Some(own) => {
            lemma_realm_sorted(st, realm_id);
            let cleared = RealmOwnershipView {
                policy_generation: 0,
                policy_fingerprint: Seq::empty(),
                ..own
            };
            lemma_id_put_get::<RealmOwnership>(st.realms, cleared, id);
            crate::table::lemma_id_put_sorted::<RealmOwnership>(st.realms, cleared);
            let table = super::naming::provider_name_text("p"@, realm_id, "policy"@);
            lemma_ns_table(own.namespace, table, "o3k-p11-policy"@, t);
            let u = drop_ns_table_run(own.namespace, table, "o3k-p11-policy"@, t).0;
            lemma_step(t, u, EffectView::Save);
        },
        None => {},
    }
}

/// Whether the realms of a record are in the order of their identifiers.
pub open spec fn id_sorted_realms(st: ProviderStateView) -> bool {
    crate::table::id_sorted::<RealmOwnership>(st.realms)
}

// ---------------------------------------------------------------------------
// Applying leaves other realms alone
// ---------------------------------------------------------------------------

pub(crate) proof fn lemma_with(st: ProviderStateView, own: RealmOwnershipView, id: u128)
    requires
        st.sorted(),
        own.realm_id != id,
    ensures
        st.with_realm(own).realm(id) == st.realm(id),
{
    lemma_id_put_get::<RealmOwnership>(st.realms, own, id);
}

pub(crate) proof fn lemma_realized_others(
    cfg: LinuxFabricConfigView,
    st: ProviderStateView,
    plan: NamespacedRoutedFabricPlanView,
    wanted: Seq<GeneveOwnershipView>,
    i: int,
    t: Trace,
    id: u128,
)
    requires
        st.sorted(),
        id != plan.realm_id,
    ensures
        realize_tunnels_run(cfg, st, plan, wanted, i, t).0.realm(id) == st.realm(id),
    decreases wanted.len() - i,
{
    if 0 <= i < wanted.len() {
        let host = wanted[i].target_host;
        let (st1, t1, r1) = realize_tunnel_run(cfg, st, plan, wanted[i], t);
        lemma_with_realized_sorted(st, plan.realm_id, host);
        lemma_realm_sorted(st, plan.realm_id);
        match st.realm(plan.realm_id) {
            Some(own) => match name_get::<GeneveOwnership>(own.geneve, host) {
                Some(g) => lemma_with(
                    st,
                    RealmOwnershipView {
                        geneve: name_put::<GeneveOwnership>(
                            own.geneve,
                            GeneveOwnershipView { realized: true, ..g },
                        ),
                        ..own
                    },
                    id,
                ),
                None => {},
            },
            None => {},
        }
        assert(st1.sorted() && st1.realm(id) == st.realm(id));
        if r1 is Ok {
            lemma_realized_others(cfg, st1, plan, wanted, i + 1, t1, id);
        }
    }
}

pub(crate) proof fn lemma_realm_stage_others(
    cfg: LinuxFabricConfigView,
    st: ProviderStateView,
    plan: NamespacedRoutedFabricPlanView,
    t: Trace,
    id: u128,
)
    requires
        st.sorted(),
        id != plan.realm_id,
    ensures
        ensure_realm_run(cfg, st, plan, t).0.realm(id) == st.realm(id),
{
    lemma_realm_sorted(st, plan.realm_id);
    let recorded = st.realm(plan.realm_id);
    let own = match recorded {
        Some(prior) => carried_realm(prior, plan),
        None => new_realm(plan),
    };
    assert(own.realm_id == plan.realm_id);
    lemma_id_cut_get::<RealmOwnership>(st.realms, own.realm_id, id);
    lemma_without_realm_sorted(st, own.realm_id);
    let st1 = if recorded is Some {
        forget_lost_realm_run(st, own, t).0
    } else {
        st
    };
    assert(st1.sorted() && st1.realm(id) == st.realm(id));
    lemma_with(st1, own, id);
}

pub(crate) proof fn lemma_tunnel_stage_others(
    b: LinuxFabricBackendView,
    plan: NamespacedRoutedFabricPlanView,
    t: Trace,
    id: u128,
)
    requires
        b.state.sorted(),
        id != plan.realm_id,
    ensures
        ensure_geneve_run(b, plan, t).0.realm(id) == b.state.realm(id),
{
    lemma_realm_sorted(b.state, plan.realm_id);
    match b.state.realm(plan.realm_id) {
        None => {},
        Some(own) => {
            let wanted = wanted_tunnels(Seq::empty(), plan, own.geneve, 0);
            let t1 = remove_tunnels_run(b.config, own.namespace, own.geneve, wanted, 0, t).0;
            let (checked, t2, r2) = check_tunnels_run(b.config, own.geneve, wanted, 0, t1);
            let next = RealmOwnershipView {
                geneve: checked,
                attachments: attachments_of(checked),
                ..own
            };
            lemma_with(b.state, next, id);
            let (st3, t3, r3) = record_tunnels_run(b.state, own, checked, t2);
            lemma_recorded_tunnels_sorted(b.config, b.state, own, plan, t1);
            lemma_realized_others(b.config, st3, plan, checked, 0, t3, id);
        },
    }
}

pub(crate) proof fn lemma_tap_stage_others(
    st: ProviderStateView,
    plan: NamespacedRoutedFabricPlanView,
    t: Trace,
    id: u128,
)
    requires
        st.sorted(),
        id != plan.realm_id,
    ensures
        ensure_endpoint_taps_run(st, plan, t).0.realm(id) == st.realm(id),
{
    lemma_realm_sorted(st, plan.realm_id);
    let wanted = local_taps(Seq::empty(), plan, 0);
    lemma_local_taps_sorted(Seq::empty(), plan, 0);
    match st.realm(plan.realm_id) {
        None => {},
        Some(own) => {
            let announced = RealmOwnershipView { pending_endpoint_taps: wanted, ..own };
            assert(announced.sorted());
            lemma_with_realm_sorted(st, announced);
            lemma_with(st, announced, id);
            let st1 = announce_taps_run(st, own, wanted, t).0;
            lemma_realm_sorted(st1, own.realm_id);
            match st1.realm(own.realm_id) {
                None => {},
                Some(current) => lemma_with(
                    st1,
                    RealmOwnershipView {
                        endpoint_taps: wanted,
                        pending_endpoint_taps: Seq::empty(),
                        ..current
                    },
                    id,
                ),
            }
        },
    }
}

pub(crate) proof fn lemma_stage_others(
    stage: Stage,
    b: LinuxFabricBackendView,
    plan: NamespacedRoutedFabricPlanView,
    t: Trace,
    id: u128,
)
    requires
        b.sorted(),
        id != plan.realm_id,
    ensures
        same_realm(stage_run(stage, b, plan, t).0, b, id),
{
    lemma_realm_sorted(b.state, plan.realm_id);
    match stage {
        Stage::Fabric => {},
        Stage::Plan => lemma_id_put_get::<NamespacedRoutedFabricPlan>(b.plans, plan, id),
        Stage::Realm => lemma_realm_stage_others(b.config, b.state, plan, t, id),
        Stage::Peers => lemma_configure(b, t),
        Stage::Tunnels => lemma_tunnel_stage_others(b, plan, t, id),
        Stage::Taps => lemma_tap_stage_others(b.state, plan, t, id),
        Stage::Policy => {
            lemma_policy(b.state, plan.realm_id, t, id);
            match b.state.realm(plan.realm_id) {
                Some(own) => lemma_with(
                    b.state,
                    RealmOwnershipView {
                        policy_generation: plan.policy_generation,
                        policy_fingerprint: super::policy::policy_fingerprint_text(plan),
                        ..own
                    },
                    id,
                ),
                None => {},
            }
        },
        Stage::Public => {
            lemma_public(b.config, b.state, plan, t, id);
            match b.state.realm(plan.realm_id) {
                Some(own) => lemma_with(b.state, with_public(own, plan), id),
                None => {},
            }
        },
        Stage::Routes => {},
    }
}

pub(crate) proof fn lemma_stages_others(
    n: int,
    b: LinuxFabricBackendView,
    plan: NamespacedRoutedFabricPlanView,
    t: Trace,
    id: u128,
)
    requires
        b.sorted(),
        id != plan.realm_id,
    ensures
        same_realm(stages_run(n, b, plan, t).0, b, id),
    decreases n,
{
    if n > 0 {
        lemma_stages_others(n - 1, b, plan, t, id);
        lemma_stages_sorted(n - 1, b, plan, t);
        let (b1, t1, r1) = stages_run(n - 1, b, plan, t);
        lemma_stage_others(stages()[n - 1], b1, plan, t1, id);
    }
}

/// Applying a plan leaves every other realm recorded as it was, with its plan, whatever the host
/// replies; where it succeeds, the realm of the plan is recorded.
pub proof fn lemma_application_keeps_the_rest(
    b: LinuxFabricBackendView,
    plan: NamespacedRoutedFabricPlanView,
    t: Trace,
    id: u128,
)
    requires
        b.sorted(),
        id != plan.realm_id,
    ensures
        same_realm(apply_run(b, plan, t).0, b, id),
        apply_run(b, plan, t).2 is Ok ==> apply_run(b, plan, t).0.state.realm(plan.realm_id) is Some,
{
    lemma_stages_others(9, b, plan, t, id);
    reveal_with_fuel(stages_run, 2);
}

/// A plan that was applied and then removed has left nothing: neither its realm nor the plan is
/// recorded, every other realm is recorded as it was before, and the removal left the private key
/// file alone.
pub proof fn lemma_applied_plan_is_removed(
    b: LinuxFabricBackendView,
    plan: NamespacedRoutedFabricPlanView,
    t: Trace,
    u: Trace,
    id: u128,
)
    requires
        b.sorted(),
        id != plan.realm_id,
        apply_run(b, plan, t).2 is Ok,
        remove_run(apply_run(b, plan, t).0, plan, u).2 is Ok,
    ensures
        is_removed(remove_run(apply_run(b, plan, t).0, plan, u).0, plan.realm_id),
        same_realm(remove_run(apply_run(b, plan, t).0, plan, u).0, b, id),
        key_spared(u, remove_run(apply_run(b, plan, t).0, plan, u).1),
{
    lemma_application_keeps_the_rest(b, plan, t, id);
    lemma_apply_keeps_order(b, plan, t);
    let applied = apply_run(b, plan, t).0;
    lemma_removal_keeps_the_rest(applied, plan, u, id);
    lemma_removed_realm_is_gone(applied, plan, u);
}

} // verus!
