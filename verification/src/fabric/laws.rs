//! What holds of the fabric as a whole.
use super::backend::LinuxFabricBackendView;
use super::commands::ns_probe_cmd;
use super::config::{FabricError, LinuxFabricConfigView, LinuxFabricError};
use super::geneve::{
    attachment_of, attachments_of, check_tunnels_run, ensure_geneve_run, realize_tunnel_run,
    realize_tunnels_run, record_tunnels_run, tunnel, wanted_tunnels, was_realized, with_realized,
};
use super::lifecycle::{
    apply_run, is_removed, plan_acceptable, remove_plan_run, remove_run, stage_run, stages,
    stages_run, Stage,
};
use super::plan::{NamespacedRoutedFabricPlan, NamespacedRoutedFabricPlanView};
use super::policy::{ensure_policy_run, remove_policy_run, replace_policy_run};
use super::public::{
    build_public_run, ensure_public_run, realize_public_run, remove_public_run, run_lists, with_public,
};
use super::realm::{
    carried_realm, ensure_realm_run, forget_lost_realm_run, links_absent_run, make_realm_run,
    new_realm, realm_links,
};
use super::state::{
    EndpointTapOwnership, EndpointTapOwnershipView, FabricAttachmentOwnership, GeneveOwnership,
    GeneveOwnershipView, ProviderStateView, RealmOwnership, RealmOwnershipView,
};
use super::taps::{announce_taps_run, endpoint_tap, ensure_endpoint_taps_run, local_taps};
use super::underlay::provide_key_run;
use crate::session::{
    extends, lemma_extends_after, lemma_extends_transitive, lemma_run_all_extends,
    lemma_saved_before_runs, queried, run_all, saved_before_runs, CommandView, EffectView, ReplyView,
    Stop, Trace,
};
use crate::table::{
    id_put, id_sorted, lemma_id_cut_sorted, lemma_id_put_sorted, lemma_id_slot,
    lemma_name_put_sorted, name_put, name_sorted,
};
use vstd::prelude::*;

verus! {

// ---------------------------------------------------------------------------
// The order of the record
// ---------------------------------------------------------------------------

pub(crate) proof fn lemma_with_realm_sorted(st: ProviderStateView, own: RealmOwnershipView)
    requires
        st.sorted(),
        own.sorted(),
    ensures
        st.with_realm(own).sorted(),
{
    lemma_id_put_sorted::<RealmOwnership>(st.realms, own);
    lemma_id_slot::<RealmOwnership>(st.realms, own.realm_id);
    let r = st.with_realm(own).realms;
    let n = crate::table::id_slot::<RealmOwnership>(st.realms, own.realm_id);
    assert forall|i: int| 0 <= i < r.len() implies (#[trigger] r[i]).sorted() by {
        if n < st.realms.len() && st.realms[n].realm_id == own.realm_id {
            if i != n {
                assert(r[i] == st.realms[i]);
            }
        } else if i < n {
            assert(r[i] == st.realms[i]);
        } else if i > n {
            assert(r[i] == st.realms[i - 1]);
        }
    }
}

pub(crate) proof fn lemma_without_realm_sorted(st: ProviderStateView, id: u128)
    requires
        st.sorted(),
    ensures
        st.without_realm(id).sorted(),
        st.without_realm(id).realm(id) is None,
{
    lemma_id_cut_sorted::<RealmOwnership>(st.realms, id);
    lemma_id_slot::<RealmOwnership>(st.realms, id);
    let r = st.without_realm(id).realms;
    let n = crate::table::id_slot::<RealmOwnership>(st.realms, id);
    assert forall|i: int| 0 <= i < r.len() implies (#[trigger] r[i]).sorted() by {
        if n < st.realms.len() && st.realms[n].realm_id == id {
            if i < n {
                assert(r[i] == st.realms[i]);
            } else {
                assert(r[i] == st.realms[i + 1]);
            }
        } else {
            assert(r[i] == st.realms[i]);
        }
    }
}

pub(crate) proof fn lemma_realm_sorted(st: ProviderStateView, id: u128)
    requires
        st.sorted(),
    ensures
        st.realm(id) matches Some(own) ==> own.sorted() && own.realm_id == id,
{
    lemma_id_slot::<RealmOwnership>(st.realms, id);
}

pub(crate) proof fn lemma_local_taps_sorted(
    taps: Seq<EndpointTapOwnershipView>,
    plan: NamespacedRoutedFabricPlanView,
    i: int,
)
    requires
        id_sorted::<EndpointTapOwnership>(taps),
    ensures
        id_sorted::<EndpointTapOwnership>(local_taps(taps, plan, i)),
    decreases plan.directory.entries.len() - i,
{
    let entries = plan.directory.entries;
    if 0 <= i < entries.len() {
        if entries[i].selected_host == plan.local_host {
            let tap = endpoint_tap(plan.realm_id, entries[i].endpoint_id);
            lemma_id_put_sorted::<EndpointTapOwnership>(taps, tap);
            lemma_local_taps_sorted(id_put::<EndpointTapOwnership>(taps, tap), plan, i + 1);
        } else {
            lemma_local_taps_sorted(taps, plan, i + 1);
        }
    }
}

pub(crate) proof fn lemma_wanted_tunnels_sorted(
    table: Seq<GeneveOwnershipView>,
    plan: NamespacedRoutedFabricPlanView,
    known: Seq<GeneveOwnershipView>,
    i: int,
)
    requires
        name_sorted::<GeneveOwnership>(table),
    ensures
        name_sorted::<GeneveOwnership>(wanted_tunnels(table, plan, known, i)),
    decreases plan.peers.len() - i,
{
    if 0 <= i < plan.peers.len() {
        let peer = plan.peers[i];
        let g = tunnel(plan, peer, was_realized(known, peer.host_id));
        lemma_name_put_sorted::<GeneveOwnership>(table, g);
        lemma_wanted_tunnels_sorted(
            name_put::<GeneveOwnership>(table, g),
            plan,
            known,
            i + 1,
        );
        lemma_wanted_tunnels_sorted(table, plan, known, i + 1);
    }
}

pub(crate) proof fn lemma_check_tunnels_sorted(
    cfg: LinuxFabricConfigView,
    known: Seq<GeneveOwnershipView>,
    wanted: Seq<GeneveOwnershipView>,
    i: int,
    t: Trace,
)
    requires
        name_sorted::<GeneveOwnership>(wanted),
    ensures
        name_sorted::<GeneveOwnership>(check_tunnels_run(cfg, known, wanted, i, t).0),
    decreases wanted.len() - i,
{
    if 0 <= i < wanted.len() {
        let g = wanted[i];
        let changed = wanted.update(i, GeneveOwnershipView { realized: false, ..g });
        assert(name_sorted::<GeneveOwnership>(changed)) by {
            assert forall|a: int, b: int| 0 <= a < b < changed.len() implies crate::order::before(
                (#[trigger] changed[a]).target_host,
                (#[trigger] changed[b]).target_host,
            ) by {
                assert(changed[a].target_host == wanted[a].target_host);
                assert(changed[b].target_host == wanted[b].target_host);
            }
        }
        let t1 = t.after(
            EffectView::Query(
                super::commands::ns_link_detail_cmd(cfg.fabric_namespace, g.interface),
            ),
        );
        lemma_check_tunnels_sorted(cfg, known, wanted, i + 1, t1);
        lemma_check_tunnels_sorted(cfg, known, changed, i + 1, t1);
    }
}

proof fn lemma_attachments_sorted(gs: Seq<GeneveOwnershipView>)
    requires
        name_sorted::<GeneveOwnership>(gs),
    ensures
        name_sorted::<FabricAttachmentOwnership>(attachments_of(gs)),
{
    let s = attachments_of(gs);
    assert forall|a: int, b: int| 0 <= a < b < s.len() implies crate::order::before(
        (#[trigger] s[a]).target_host,
        (#[trigger] s[b]).target_host,
    ) by {
        assert(s[a] == attachment_of(gs[a]) && s[b] == attachment_of(gs[b]));
        assert(crate::order::before(gs[a].target_host, gs[b].target_host));
    }
}

pub(crate) proof fn lemma_with_realized_sorted(st: ProviderStateView, realm_id: u128, host: Seq<char>)
    requires
        st.sorted(),
    ensures
        with_realized(st, realm_id, host).sorted(),
{
    lemma_realm_sorted(st, realm_id);
    match st.realm(realm_id) {
        Some(own) => match crate::table::name_get::<GeneveOwnership>(own.geneve, host) {
            Some(g) => {
                let g1 = GeneveOwnershipView { realized: true, ..g };
                lemma_name_put_sorted::<GeneveOwnership>(own.geneve, g1);
                lemma_with_realm_sorted(
                    st,
                    RealmOwnershipView {
                        geneve: name_put::<GeneveOwnership>(own.geneve, g1),
                        ..own
                    },
                );
            },
            None => {},
        },
        None => {},
    }
}

proof fn lemma_realize_tunnels_sorted(
    cfg: LinuxFabricConfigView,
    st: ProviderStateView,
    plan: NamespacedRoutedFabricPlanView,
    wanted: Seq<GeneveOwnershipView>,
    i: int,
    t: Trace,
)
    requires
        st.sorted(),
    ensures
        realize_tunnels_run(cfg, st, plan, wanted, i, t).0.sorted(),
    decreases wanted.len() - i,
{
    if 0 <= i < wanted.len() {
        lemma_with_realized_sorted(st, plan.realm_id, wanted[i].target_host);
        let (st1, t1, r1) = realize_tunnel_run(cfg, st, plan, wanted[i], t);
        assert(st1.sorted());
        if r1 is Ok {
            lemma_realize_tunnels_sorted(cfg, st1, plan, wanted, i + 1, t1);
        }
    }
}

proof fn lemma_realm_stage_sorted(
    cfg: LinuxFabricConfigView,
    st: ProviderStateView,
    plan: NamespacedRoutedFabricPlanView,
    t: Trace,
)
    requires
        st.sorted(),
    ensures
        ensure_realm_run(cfg, st, plan, t).0.sorted(),
{
    lemma_realm_sorted(st, plan.realm_id);
    let recorded = st.realm(plan.realm_id);
    let own = match recorded {
        Some(prior) => carried_realm(prior, plan),
        None => new_realm(plan),
    };
    assert(own.sorted());
    lemma_without_realm_sorted(st, own.realm_id);
    let st1 = if recorded is Some {
        forget_lost_realm_run(st, own, t).0
    } else {
        st
    };
    assert(st1.sorted());
    lemma_with_realm_sorted(st1, own);
}

pub(crate) proof fn lemma_recorded_tunnels_sorted(
    cfg: LinuxFabricConfigView,
    st: ProviderStateView,
    own: RealmOwnershipView,
    plan: NamespacedRoutedFabricPlanView,
    t: Trace,
)
    requires
        st.sorted(),
        own.sorted(),
    ensures
        ({
            let wanted = wanted_tunnels(Seq::empty(), plan, own.geneve, 0);
            let (checked, t2, r2) = check_tunnels_run(cfg, own.geneve, wanted, 0, t);
            record_tunnels_run(st, own, checked, t2).0.sorted()
        }),
{
    let wanted = wanted_tunnels(Seq::empty(), plan, own.geneve, 0);
    lemma_wanted_tunnels_sorted(Seq::empty(), plan, own.geneve, 0);
    let (checked, t2, r2) = check_tunnels_run(cfg, own.geneve, wanted, 0, t);
    lemma_check_tunnels_sorted(cfg, own.geneve, wanted, 0, t);
    lemma_attachments_sorted(checked);
    let next = RealmOwnershipView { geneve: checked, attachments: attachments_of(checked), ..own };
    lemma_with_realm_sorted(st, next);
}

proof fn lemma_tunnel_stage_sorted(
    b: LinuxFabricBackendView,
    plan: NamespacedRoutedFabricPlanView,
    t: Trace,
)
    requires
        b.state.sorted(),
    ensures
        ensure_geneve_run(b, plan, t).0.sorted(),
{
    lemma_realm_sorted(b.state, plan.realm_id);
    match b.state.realm(plan.realm_id) {
        None => {},
        Some(own) => {
            let wanted = wanted_tunnels(Seq::empty(), plan, own.geneve, 0);
            let (t1, r1) = super::geneve::remove_tunnels_run(
                b.config,
                own.namespace,
                own.geneve,
                wanted,
                0,
                t,
            );
            let (checked, t2, r2) = check_tunnels_run(b.config, own.geneve, wanted, 0, t1);
            lemma_recorded_tunnels_sorted(b.config, b.state, own, plan, t1);
            let (st3, t3, r3) = record_tunnels_run(b.state, own, checked, t2);
            lemma_realize_tunnels_sorted(b.config, st3, plan, checked, 0, t3);
        },
    }
}

proof fn lemma_tap_stage_sorted(
    st: ProviderStateView,
    plan: NamespacedRoutedFabricPlanView,
    t: Trace,
)
    requires
        st.sorted(),
    ensures
        ensure_endpoint_taps_run(st, plan, t).0.sorted(),
{
    lemma_realm_sorted(st, plan.realm_id);
    let wanted = local_taps(Seq::empty(), plan, 0);
    lemma_local_taps_sorted(Seq::empty(), plan, 0);
    match st.realm(plan.realm_id) {
        None => {},
        Some(own) => {
            let announced = RealmOwnershipView { pending_endpoint_taps: wanted, ..own };
            assert(announced.sorted());
            lemma_with_realm_sorted(st, announced);
            let st1 = announce_taps_run(st, own, wanted, t).0;
            assert(st1.sorted());
            lemma_realm_sorted(st1, own.realm_id);
            match st1.realm(own.realm_id) {
                None => {},
                Some(current) => {
                    let done = RealmOwnershipView {
                        endpoint_taps: wanted,
                        pending_endpoint_taps: Seq::empty(),
                        ..current
                    };
                    assert(done.sorted());
                    lemma_with_realm_sorted(st1, done);
                },
            }
        },
    }
}

proof fn lemma_policy_sorted(st: ProviderStateView, plan: NamespacedRoutedFabricPlanView, t: Trace)
    requires
        st.sorted(),
    ensures
        ensure_policy_run(st, plan, t).0.sorted(),
        remove_policy_run(st, plan.realm_id, t).0.sorted(),
{
    lemma_realm_sorted(st, plan.realm_id);
    match st.realm(plan.realm_id) {
        None => {},
        Some(own) => {
            let cleared = RealmOwnershipView {
                policy_generation: 0,
                policy_fingerprint: Seq::empty(),
                ..own
            };
            let set = RealmOwnershipView {
                policy_generation: plan.policy_generation,
                policy_fingerprint: super::policy::policy_fingerprint_text(plan),
                ..own
            };
            assert(cleared.sorted() && set.sorted());
            lemma_with_realm_sorted(st, cleared);
            lemma_with_realm_sorted(st, set);
        },
    }
}

pub(crate) proof fn lemma_public_sorted(
    cfg: LinuxFabricConfigView,
    st: ProviderStateView,
    plan: NamespacedRoutedFabricPlanView,
    t: Trace,
)
    requires
        st.sorted(),
    ensures
        ensure_public_run(cfg, st, plan, t).0.sorted(),
        remove_public_run(cfg, st, plan, t).0.sorted(),
{
    lemma_realm_sorted(st, plan.realm_id);
    match st.realm(plan.realm_id) {
        None => {},
        Some(own) => {
            let cleared = super::public::without_public(own);
            let set = with_public(own, plan);
            assert(cleared.sorted() && set.sorted());
            lemma_with_realm_sorted(st, cleared);
            lemma_with_realm_sorted(st, set);
        },
    }
}

proof fn lemma_stage_sorted(
    stage: Stage,
    b: LinuxFabricBackendView,
    plan: NamespacedRoutedFabricPlanView,
    t: Trace,
)
    requires
        b.sorted(),
    ensures
        stage_run(stage, b, plan, t).0.sorted(),
{
    match stage {
        Stage::Fabric => {},
        Stage::Plan => {
            lemma_id_put_sorted::<NamespacedRoutedFabricPlan>(b.plans, plan);
        },
        Stage::Realm => {
            lemma_realm_stage_sorted(b.config, b.state, plan, t);
        },
        Stage::Peers => {},
        Stage::Tunnels => {
            lemma_tunnel_stage_sorted(b, plan, t);
        },
        Stage::Taps => {
            lemma_tap_stage_sorted(b.state, plan, t);
        },
        Stage::Policy => {
            lemma_policy_sorted(b.state, plan, t);
        },
        Stage::Public => {
            lemma_public_sorted(b.config, b.state, plan, t);
        },
        Stage::Routes => {},
    }
}

pub(crate) proof fn lemma_stages_sorted(
    n: int,
    b: LinuxFabricBackendView,
    plan: NamespacedRoutedFabricPlanView,
    t: Trace,
)
    requires
        b.sorted(),
    ensures
        stages_run(n, b, plan, t).0.sorted(),
    decreases n,
{
    if n > 0 {
        lemma_stages_sorted(n - 1, b, plan, t);
        let (b1, t1, r1) = stages_run(n - 1, b, plan, t);
        lemma_stage_sorted(stages()[n - 1], b1, plan, t1);
    }
}

/// Applying a plan keeps the tables of the fabric in the order of their keys, whatever the host
/// replies.
pub proof fn lemma_apply_keeps_order(
    b: LinuxFabricBackendView,
    plan: NamespacedRoutedFabricPlanView,
    t: Trace,
)
    requires
        b.sorted(),
    ensures
        apply_run(b, plan, t).0.sorted(),
{
    lemma_stages_sorted(9, b, plan, t);
}

/// Removing a plan keeps the tables of the fabric in the order of their keys, whatever the host
/// replies.
pub proof fn lemma_remove_keeps_order(
    b: LinuxFabricBackendView,
    plan: NamespacedRoutedFabricPlanView,
    t: Trace,
)
    requires
        b.sorted(),
    ensures
        remove_run(b, plan, t).0.sorted(),
{
    lemma_public_sorted(b.config, b.state, plan, t);
    let (st1, t1, r1) = remove_public_run(b.config, b.state, plan, t);
    lemma_policy_sorted(st1, plan, t1);
    let (st2, t2, r2) = remove_policy_run(st1, plan.realm_id, t1);
    lemma_without_realm_sorted(st2, plan.realm_id);
    lemma_id_cut_sorted::<NamespacedRoutedFabricPlan>(b.plans, plan.realm_id);
}

// ---------------------------------------------------------------------------
// Refusals
// ---------------------------------------------------------------------------

/// A plan with policies or public addresses that cannot be realized is rejected before anything
/// is asked of the host, and nothing changes.
pub proof fn lemma_unacceptable_plan_changes_nothing(
    b: LinuxFabricBackendView,
    plan: NamespacedRoutedFabricPlanView,
    t: Trace,
)
    requires
        !plan_acceptable(plan),
    ensures
        apply_run(b, plan, t) == (
            b,
            t,
            Err::<(), Stop<FabricError>>(
                Stop::Failed(FabricError::Backend(LinuxFabricError::OwnershipConflict)),
            ),
        ),
{
}

proof fn lemma_first_stage_stops(
    b: LinuxFabricBackendView,
    plan: NamespacedRoutedFabricPlanView,
    t: Trace,
    n: int,
)
    requires
        stage_run(Stage::Fabric, b, plan, t).2 is Err,
        n >= 1,
    ensures
        stages_run(n, b, plan, t) == stage_run(Stage::Fabric, b, plan, t),
    decreases n,
{
    reveal_with_fuel(stages_run, 2);
    if n > 1 {
        lemma_first_stage_stops(b, plan, t, n - 1);
    }
}

/// A namespace of the fabric's name that is not recorded is foreign: applying a plan finds it
/// with its first question, changes nothing and fails.
pub proof fn lemma_foreign_namespace_is_refused(
    b: LinuxFabricBackendView,
    plan: NamespacedRoutedFabricPlanView,
    t: Trace,
    output: Seq<char>,
)
    requires
        plan_acceptable(plan),
        b.state.fabric is None,
        t.reply() == Some(ReplyView::Printed(true, output)),
    ensures
        apply_run(b, plan, t) == (
            b,
            t.after(EffectView::Query(ns_probe_cmd(b.config.fabric_namespace))),
            Err::<(), Stop<FabricError>>(
                Stop::Failed(FabricError::Backend(LinuxFabricError::ForeignState)),
            ),
        ),
{
    lemma_first_stage_stops(b, plan, t, 9);
}

/// A plan of another fabric generation than the recorded one is a conflict, and nothing is asked
/// of the host.
pub proof fn lemma_other_generation_is_refused(
    b: LinuxFabricBackendView,
    plan: NamespacedRoutedFabricPlanView,
    t: Trace,
)
    requires
        plan_acceptable(plan),
        b.state.fabric is Some,
        b.state.fabric->0.fabric_generation != plan.local_fabric_generation,
    ensures
        apply_run(b, plan, t) == (
            b,
            t,
            Err::<(), Stop<FabricError>>(
                Stop::Failed(FabricError::Backend(LinuxFabricError::OwnershipConflict)),
            ),
        ),
{
    lemma_first_stage_stops(b, plan, t, 9);
}

/// The private key file is written only where there was none: operator-provisioned material is
/// never overwritten.
pub proof fn lemma_key_never_overwritten(path: Seq<char>, t: Trace, k: int)
    requires
        t.issued.len() <= k < provide_key_run(path, t).0.issued.len(),
        provide_key_run(path, t).0.issued[k] is WriteKey,
    ensures
        t.reply() == Some(ReplyView::NoKey),
{
}

// ---------------------------------------------------------------------------
// Removal
// ---------------------------------------------------------------------------

/// After a recorded realm was removed successfully nothing of it is recorded.
pub proof fn lemma_removed_realm_is_gone(
    b: LinuxFabricBackendView,
    plan: NamespacedRoutedFabricPlanView,
    t: Trace,
)
    requires
        b.sorted(),
        b.state.realm(plan.realm_id) is Some,
        remove_run(b, plan, t).2 is Ok,
    ensures
        is_removed(remove_run(b, plan, t).0, plan.realm_id),
{
    let id = plan.realm_id;
    let own = b.state.realm(id)->0;
    lemma_public_sorted(b.config, b.state, plan, t);
    let (st1, t1, r1) = remove_public_run(b.config, b.state, plan, t);
    lemma_policy_sorted(st1, plan, t1);
    let (st2, t2, r2) = remove_policy_run(st1, id, t1);
    lemma_without_realm_sorted(st2, id);
    lemma_id_cut_sorted::<NamespacedRoutedFabricPlan>(b.plans, id);
    let (t3, r3) = super::lifecycle::remove_links_run(b.config, own, t2);
    let (b4, t4, r4) = remove_plan_run(b.with_state(st2), id, t3);
    assert(is_removed(b4, id));
}

// ---------------------------------------------------------------------------
// The record comes before the change
// ---------------------------------------------------------------------------

proof fn lemma_links_absent_extends(names: Seq<Seq<char>>, i: int, t: Trace)
    ensures
        extends(t, links_absent_run(names, i, t).0),
        forall|k: int|
            t.issued.len() <= k < links_absent_run(names, i, t).0.issued.len()
                ==> (#[trigger] links_absent_run(names, i, t).0.issued[k]) is Query,
    decreases names.len() - i,
{
    if 0 <= i < names.len() {
        let e = EffectView::Query(super::commands::link_show_cmd(names[i]));
        lemma_extends_after(t, e);
        let t1 = t.after(e);
        lemma_links_absent_extends(names, i + 1, t1);
        let t2 = links_absent_run(names, i + 1, t1).0;
        lemma_extends_transitive(t, t1, t2);
        assert(t2.issued[t.issued.len() as int] == t2.issued.take(t1.issued.len() as int)[t.issued.len() as int]);
    } else {
        assert(t.issued.take(t.issued.len() as int) =~= t.issued);
    }
}

/// A realm is recorded durably before the first command that makes it.
pub proof fn lemma_realm_is_recorded_first(
    cfg: LinuxFabricConfigView,
    st: ProviderStateView,
    own: RealmOwnershipView,
    t: Trace,
)
    ensures
        saved_before_runs(t, make_realm_run(cfg, st, own, t).1),
{
    let e = EffectView::Query(ns_probe_cmd(own.namespace));
    let t1 = t.after(e);
    lemma_extends_after(t, e);
    lemma_links_absent_extends(realm_links(own), 0, t1);
    let (t2, r2) = links_absent_run(realm_links(own), 0, t1);
    lemma_extends_transitive(t, t1, t2);
    let t3 = t2.after(EffectView::Save);
    lemma_extends_after(t2, EffectView::Save);
    lemma_extends_transitive(t, t2, t3);
    assert(t2.issued[t.issued.len() as int] == t2.issued.take(t1.issued.len() as int)[t.issued.len() as int]);
    let cs = super::realm::realm_cmds(own, cfg.fabric_namespace);
    lemma_run_all_extends(t3, cs, LinuxFabricError::CommandFailed, LinuxFabricError::Storage);
    let t4 = run_all(t3, cs, LinuxFabricError::CommandFailed, LinuxFabricError::Storage).0;
    lemma_saved_before_runs(t, t3, t4);
    assert(t3.issued.take(t3.issued.len() as int) =~= t3.issued);
    lemma_saved_before_runs(t, t3, t3);
}

/// New policies are recorded durably before the first command that touches their table.
pub proof fn lemma_policy_is_recorded_first(
    st: ProviderStateView,
    own: RealmOwnershipView,
    plan: NamespacedRoutedFabricPlanView,
    t: Trace,
)
    ensures
        saved_before_runs(t, replace_policy_run(st, own, plan, t).1),
{
    let table = super::naming::provider_name_text("p"@, plan.realm_id, "policy"@);
    let e = EffectView::Query(super::commands::ns_table_list_cmd(own.namespace, table));
    let t1 = t.after(e);
    lemma_extends_after(t, e);
    let t2 = t1.after(EffectView::Save);
    lemma_extends_after(t1, EffectView::Save);
    lemma_extends_transitive(t, t1, t2);
    let cs = super::policy::policy_table_cmds(own.namespace, plan, true);
    let ds = super::policy::policy_table_cmds(own.namespace, plan, false);
    let failed = LinuxFabricError::CommandFailed;
    let io = LinuxFabricError::Storage;
    lemma_run_all_extends(t2, cs, failed, io);
    lemma_run_all_extends(t2, ds, failed, io);
    lemma_saved_before_runs(t, t2, run_all(t2, cs, failed, io).0);
    lemma_saved_before_runs(t, t2, run_all(t2, ds, failed, io).0);
    assert(t2.issued.take(t2.issued.len() as int) =~= t2.issued);
    lemma_saved_before_runs(t, t2, t2);
}

proof fn lemma_run_lists_extends(t: Trace, lists: Seq<Seq<CommandView>>)
    ensures
        extends(t, run_lists(t, lists).0),
    decreases lists.len(),
{
    if lists.len() == 0 {
        assert(t.issued.take(t.issued.len() as int) =~= t.issued);
    } else {
        lemma_run_lists_extends(t, lists.drop_last());
        let t1 = run_lists(t, lists.drop_last()).0;
        let failed = LinuxFabricError::CommandFailed;
        let io = LinuxFabricError::Storage;
        lemma_run_all_extends(t1, lists.last(), failed, io);
        lemma_extends_transitive(t, t1, run_all(t1, lists.last(), failed, io).0);
    }
}

proof fn lemma_build_public_extends(
    own: RealmOwnershipView,
    uplink: Seq<char>,
    plan: NamespacedRoutedFabricPlanView,
    root_table: bool,
    realm_table: bool,
    t: Trace,
)
    ensures
        extends(t, build_public_run(own, uplink, plan, root_table, realm_table, t).0),
{
    let failed = LinuxFabricError::CommandFailed;
    let io = LinuxFabricError::Storage;
    let e1 = EffectView::Query(super::commands::link_show_cmd(own.public_host_veth));
    let e2 = EffectView::Query(
        super::commands::ns_link_show_cmd(own.namespace, own.public_realm_veth),
    );
    lemma_extends_after(t, e1);
    lemma_extends_after(t.after(e1), e2);
    lemma_extends_transitive(t, t.after(e1), t.after(e1).after(e2));
    let cs = super::public::transit_link_cmds(own);
    lemma_run_all_extends(t.after(e1).after(e2), cs, failed, io);
    lemma_extends_transitive(
        t,
        t.after(e1).after(e2),
        run_all(t.after(e1).after(e2), cs, failed, io).0,
    );
    let (t1, r1) = super::public::ensure_public_veth_run(own, t);
    assert(extends(t, t1));
    let routes = super::public::public_route_cmds(own, uplink, plan);
    lemma_run_all_extends(t1, routes, failed, io);
    let (t2, r2) = run_all(t1, routes, failed, io);
    lemma_extends_transitive(t, t1, t2);
    let e3 = EffectView::Query(super::commands::rule_list_cmd());
    lemma_extends_after(t2, e3);
    let t3 = t2.after(e3);
    lemma_extends_transitive(t, t2, t3);
    match queried(t2.reply(), io) {
        Err(_) => {},
        Ok((listed, listing)) => {
            let rule = "fwmark "@ + crate::render::decimal(
                super::naming::public_mark_of(plan.realm_id) as nat,
            ) + " lookup "@ + crate::render::decimal(
                super::naming::public_route_table_of(plan.realm_id) as nat,
            );
            let lists = super::public::public_table_cmds(
                own,
                uplink,
                plan,
                super::public::PublicFound {
                    rule: listed && crate::text::contains(listing, rule),
                    root_table,
                    realm_table,
                },
            );
            lemma_run_lists_extends(t3, lists);
            lemma_extends_transitive(t, t3, run_lists(t3, lists).0);
        },
    }
}

/// New public addresses are recorded durably before the first command that realizes them.
pub proof fn lemma_public_is_recorded_first(
    st: ProviderStateView,
    own: RealmOwnershipView,
    uplink: Seq<char>,
    plan: NamespacedRoutedFabricPlanView,
    t: Trace,
)
    ensures
        saved_before_runs(t, realize_public_run(st, own, uplink, plan, t).1),
{
    let io = LinuxFabricError::Storage;
    let e1 = EffectView::Query(
        super::commands::table_list_cmd(
            super::naming::provider_name_text("u"@, plan.realm_id, "public"@),
        ),
    );
    let e2 = EffectView::Query(
        super::commands::ns_table_list_cmd(
            own.namespace,
            super::naming::provider_name_text("n"@, plan.realm_id, "public"@),
        ),
    );
    let t1 = t.after(e1);
    let t2 = t1.after(e2);
    let t3 = t2.after(EffectView::Save);
    lemma_extends_after(t, e1);
    lemma_extends_after(t1, e2);
    lemma_extends_after(t2, EffectView::Save);
    lemma_extends_transitive(t, t1, t2);
    lemma_extends_transitive(t, t2, t3);
    assert(t3.issued.take(t3.issued.len() as int) =~= t3.issued);
    lemma_saved_before_runs(t, t3, t3);
    match (queried(t.reply(), io), queried(t1.reply(), io)) {
        (Ok((root_table, _)), Ok((realm_table, _))) => {
            let next = with_public(own, plan);
            lemma_build_public_extends(next, uplink, plan, root_table, realm_table, t3);
            let t4 = build_public_run(next, uplink, plan, root_table, realm_table, t3).0;
            lemma_saved_before_runs(t, t3, t4);
        },
        _ => {},
    }
}

/// After public addresses were realized no other realm has one of them.
pub proof fn lemma_public_addresses_are_exclusive(
    cfg: LinuxFabricConfigView,
    st: ProviderStateView,
    plan: NamespacedRoutedFabricPlanView,
    t: Trace,
)
    requires
        st.sorted(),
        plan.public_bindings.len() > 0,
        ensure_public_run(cfg, st, plan, t).2 is Ok,
    ensures
        !super::public::address_taken(
            ensure_public_run(cfg, st, plan, t).0.realms,
            plan.realm_id,
            plan.public_bindings,
        ),
{
    let own = st.realm(plan.realm_id)->0;
    lemma_realm_sorted(st, plan.realm_id);
    let set = with_public(own, plan);
    let r = st.with_realm(set).realms;
    lemma_id_slot::<RealmOwnership>(st.realms, plan.realm_id);
    let n = crate::table::id_slot::<RealmOwnership>(st.realms, plan.realm_id);
    assert(ensure_public_run(cfg, st, plan, t).0.realms == r);
    assert forall|i: int, j: int|
        0 <= i < r.len() && 0 <= j < plan.public_bindings.len() && (#[trigger] r[i]).realm_id
            != plan.realm_id implies !r[i].public_addresses.contains(
        (#[trigger] plan.public_bindings[j]).public_address,
    ) by {
        assert(i != n);
        assert(r[i] == st.realms[i]);
    }
}

} // verus!
