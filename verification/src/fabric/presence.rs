//! Which endpoints are present on a host: what was carried out for their tap devices.
use super::backend::LinuxFabricBackendView;
use super::commands::link_detail_cmd;
use super::config::LinuxFabricError;
use super::course::{
    lemma_and_then, lemma_each_tap_extends, lemma_one_tap_extends, lemma_stage_succeeds,
};
use super::laws::{lemma_local_taps_sorted, lemma_stages_sorted};
use super::lifecycle::{apply_run, stages, stages_run, Stage};
use super::naming::{endpoint_hash, endpoint_tap_name_text, hash_mac};
use super::plan::NamespacedRoutedFabricPlanView;
use super::removal::lemma_taps;
use super::state::{
    EndpointTapOwnership, EndpointTapOwnershipView, ProviderStateView, RealmOwnership,
    RealmOwnershipView,
};
use super::taps::{
    announce_taps_run, change_taps_run, endpoint_tap, ensure_each_tap_run, ensure_endpoint_taps_run,
    ensure_tap_run, local_taps, remove_tap_run, remove_taps_run, tap_cmds,
};
use crate::reading::{
    carried_out, lemma_done, lemma_earlier, lemma_extends_self, lemma_later, lemma_one_carried_out,
    lemma_told, told, was_missing,
};
use crate::session::{extends, lemma_extends_transitive, queried, EffectView, Stop, Trace};
use crate::table::{
    id_get, id_put, id_slot, id_sorted, lemma_id_put_get, lemma_id_put_sorted, lemma_id_slot,
};
use crate::text::contains;
use vstd::prelude::*;

verus! {

/// The words that ask for a link in detail.
pub open spec fn detail_words(dev: Seq<char>) -> Seq<Seq<char>> {
    seq!["-d"@, "link"@, "show"@, "dev"@, dev]
}

/// Whether the host described a link as a tap device with a hardware address on a bridge.
pub open spec fn described_as_tap(
    t: Trace,
    u: Trace,
    dev: Seq<char>,
    mac: Seq<char>,
    bridge: Seq<char>,
) -> bool {
    exists|text: Seq<char>| #[trigger]
        told(t, u, "ip"@, detail_words(dev), true, text) && contains(text, "tun"@) && contains(
            text,
            "link/ether "@ + mac,
        ) && contains(text, "master "@ + bridge)
}

/// Whether a tap device was made, given its hardware address, put on a bridge and started.
pub open spec fn made_as_tap(
    t: Trace,
    u: Trace,
    dev: Seq<char>,
    mac: Seq<char>,
    bridge: Seq<char>,
) -> bool {
    &&& carried_out(t, u, "ip"@, seq!["tuntap"@, "add"@, "dev"@, dev, "mode"@, "tap"@])
    &&& carried_out(t, u, "ip"@, seq!["link"@, "set"@, "dev"@, dev, "address"@, mac])
    &&& carried_out(t, u, "ip"@, seq!["link"@, "set"@, "dev"@, dev, "master"@, bridge])
    &&& carried_out(t, u, "ip"@, seq!["link"@, "set"@, "dev"@, dev, "up"@])
}

/// Whether a tap device is there: the host described it, or it was made.
pub open spec fn tap_is_there(
    t: Trace,
    u: Trace,
    tap: EndpointTapOwnershipView,
    bridge: Seq<char>,
) -> bool {
    ||| described_as_tap(t, u, tap.interface, tap.mac, bridge)
    ||| made_as_tap(t, u, tap.interface, tap.mac, bridge)
}

/// Whether a tap device is not there: the host did not find it, or it was removed.
pub open spec fn tap_is_gone(t: Trace, u: Trace, tap: EndpointTapOwnershipView) -> bool {
    ||| was_missing(t, u, "ip"@, detail_words(tap.interface))
    ||| carried_out(t, u, "ip"@, seq!["link"@, "del"@, "dev"@, tap.interface])
}

proof fn lemma_tap_is_there(
    t: Trace,
    t1: Trace,
    own: RealmOwnershipView,
    wanted: EndpointTapOwnershipView,
    v: Trace,
)
    requires
        extends(t, t1),
        ensure_tap_run(own, wanted, t1).1 is Ok,
        extends(ensure_tap_run(own, wanted, t1).0, v),
    ensures
        tap_is_there(t, v, wanted, own.bridge),
{
    let failed = LinuxFabricError::CommandFailed;
    let io = LinuxFabricError::Storage;
    let dev = wanted.interface;
    let c = link_detail_cmd(dev);
    let t2 = t1.after(EffectView::Query(c));
    lemma_and_then(t, t1, EffectView::Query(c));
    let (found, text) = queried(t1.reply(), io)->Ok_0;
    if found {
        lemma_told(t, t1, c, found, text, v, detail_words(dev));
        assert(told(t, v, "ip"@, detail_words(dev), true, text));
        assert(described_as_tap(t, v, dev, wanted.mac, own.bridge));
    } else {
        let cs = tap_cmds(wanted, own.bridge);
        lemma_done(
            t,
            t2,
            cs,
            failed,
            io,
            v,
            0,
            seq!["tuntap"@, "add"@, "dev"@, dev, "mode"@, "tap"@],
        );
        lemma_done(
            t,
            t2,
            cs,
            failed,
            io,
            v,
            1,
            seq!["link"@, "set"@, "dev"@, dev, "address"@, wanted.mac],
        );
        lemma_done(
            t,
            t2,
            cs,
            failed,
            io,
            v,
            2,
            seq!["link"@, "set"@, "dev"@, dev, "master"@, own.bridge],
        );
        lemma_done(t, t2, cs, failed, io, v, 3, seq!["link"@, "set"@, "dev"@, dev, "up"@]);
    }
}

proof fn lemma_each_is_there(
    t: Trace,
    t1: Trace,
    own: RealmOwnershipView,
    wanted: Seq<EndpointTapOwnershipView>,
    i: int,
    v: Trace,
    k: int,
)
    requires
        extends(t, t1),
        0 <= i <= k < wanted.len(),
        ensure_each_tap_run(own, wanted, i, t1).1 is Ok,
        extends(ensure_each_tap_run(own, wanted, i, t1).0, v),
    ensures
        tap_is_there(t, v, wanted[k], own.bridge),
    decreases wanted.len() - i,
{
    let t2 = ensure_tap_run(own, wanted[i], t1).0;
    lemma_one_tap_extends(own, wanted[i], t1);
    lemma_extends_transitive(t, t1, t2);
    if k == i {
        lemma_each_tap_extends(own, wanted, i + 1, t2);
        lemma_extends_transitive(t2, ensure_each_tap_run(own, wanted, i + 1, t2).0, v);
        lemma_tap_is_there(t, t1, own, wanted[i], v);
    } else {
        lemma_each_is_there(t, t2, own, wanted, i + 1, v, k);
    }
}

/// A recorded tap device that was removed is gone.
pub proof fn lemma_removed_tap_is_gone(
    t: Trace,
    t1: Trace,
    tap: EndpointTapOwnershipView,
    bridge: Seq<char>,
    v: Trace,
)
    requires
        extends(t, t1),
        remove_tap_run(tap, bridge, t1).1 is Ok,
        extends(remove_tap_run(tap, bridge, t1).0, v),
    ensures
        tap_is_gone(t, v, tap),
{
    let failed = LinuxFabricError::CommandFailed;
    let io = LinuxFabricError::Storage;
    let c = link_detail_cmd(tap.interface);
    let t2 = t1.after(EffectView::Query(c));
    lemma_and_then(t, t1, EffectView::Query(c));
    let (found, text) = queried(t1.reply(), io)->Ok_0;
    let words = detail_words(tap.interface);
    if found {
        let d = super::commands::link_del_dev_cmd(tap.interface);
        let gone = seq!["link"@, "del"@, "dev"@, tap.interface];
        assert(d.args =~= gone);
        lemma_one_carried_out(t2, d, failed, io);
        lemma_later(t2, t2.after(EffectView::Run(d)), v, "ip"@, gone);
        lemma_earlier(t, t2, v, "ip"@, gone);
    } else {
        lemma_told(t, t1, c, found, text, v, words);
        assert(told(t, v, "ip"@, words, false, text));
        assert(was_missing(t, v, "ip"@, words));
    }
}

pub(crate) proof fn lemma_others_are_gone(
    t: Trace,
    t1: Trace,
    taps: Seq<EndpointTapOwnershipView>,
    kept: Seq<EndpointTapOwnershipView>,
    bridge: Seq<char>,
    i: int,
    v: Trace,
    k: int,
)
    requires
        extends(t, t1),
        0 <= i <= k < taps.len(),
        id_get::<EndpointTapOwnership>(kept, taps[k].endpoint_id) is None,
        remove_taps_run(taps, kept, bridge, i, t1).1 is Ok,
        extends(remove_taps_run(taps, kept, bridge, i, t1).0, v),
    ensures
        tap_is_gone(t, v, taps[k]),
    decreases taps.len() - i,
{
    if id_get::<EndpointTapOwnership>(kept, taps[i].endpoint_id) is Some {
        lemma_others_are_gone(t, t1, taps, kept, bridge, i + 1, v, k);
    } else {
        let t2 = remove_tap_run(taps[i], bridge, t1).0;
        let c = link_detail_cmd(taps[i].interface);
        let d = super::commands::link_del_dev_cmd(taps[i].interface);
        lemma_and_then(t, t1, EffectView::Query(c));
        lemma_and_then(t, t1.after(EffectView::Query(c)), EffectView::Run(d));
        if k == i {
            lemma_taps(taps, kept, bridge, i + 1, t2);
            lemma_extends_transitive(t2, remove_taps_run(taps, kept, bridge, i + 1, t2).0, v);
            lemma_removed_tap_is_gone(t, t1, taps[i], bridge, v);
        } else {
            lemma_others_are_gone(t, t2, taps, kept, bridge, i + 1, v, k);
        }
    }
}

/// Whether an endpoint of a plan is on the plan's own host.
pub open spec fn is_local(plan: NamespacedRoutedFabricPlanView, endpoint_id: u128) -> bool {
    exists|i: int|
        0 <= i < plan.directory.entries.len() && (
        #[trigger] plan.directory.entries[i]).endpoint_id == endpoint_id
            && plan.directory.entries[i].selected_host == plan.local_host
}

proof fn lemma_local_taps(
    taps: Seq<EndpointTapOwnershipView>,
    plan: NamespacedRoutedFabricPlanView,
    i: int,
    id: u128,
)
    requires
        0 <= i <= plan.directory.entries.len(),
        id_sorted::<EndpointTapOwnership>(taps),
        id_get::<EndpointTapOwnership>(taps, id) matches Some(tap) ==> tap == endpoint_tap(
            plan.realm_id,
            id,
        ),
    ensures
        ({
            let all = local_taps(taps, plan, i);
            let entries = plan.directory.entries;
            &&& id_get::<EndpointTapOwnership>(all, id) matches Some(tap) ==> tap == endpoint_tap(
                plan.realm_id,
                id,
            )
            &&& id_get::<EndpointTapOwnership>(all, id) is Some <==> id_get::<
                EndpointTapOwnership,
            >(taps, id) is Some || exists|k: int|
                i <= k < entries.len() && (#[trigger] entries[k]).endpoint_id == id
                    && entries[k].selected_host == plan.local_host
        }),
    decreases plan.directory.entries.len() - i,
{
    let entries = plan.directory.entries;
    if i < entries.len() {
        if entries[i].selected_host == plan.local_host {
            let tap = endpoint_tap(plan.realm_id, entries[i].endpoint_id);
            lemma_id_put_sorted::<EndpointTapOwnership>(taps, tap);
            lemma_id_put_get::<EndpointTapOwnership>(taps, tap, id);
            lemma_local_taps(id_put::<EndpointTapOwnership>(taps, tap), plan, i + 1, id);
        } else {
            lemma_local_taps(taps, plan, i + 1, id);
        }
    }
}

proof fn lemma_listed_tap(taps: Seq<EndpointTapOwnershipView>, k: int)
    requires
        id_sorted::<EndpointTapOwnership>(taps),
        0 <= k < taps.len(),
    ensures
        id_get::<EndpointTapOwnership>(taps, taps[k].endpoint_id) == Some(taps[k]),
{
    let key = taps[k].endpoint_id;
    lemma_id_slot::<EndpointTapOwnership>(taps, key);
    let n = id_slot::<EndpointTapOwnership>(taps, key);
    if n < k {
        assert(taps[n].endpoint_id < taps[k].endpoint_id);
    }
    if k < n {
        assert(taps[k].endpoint_id < key);
    }
    assert(n == k);
}

/// Whether the tap devices of a realm are those of the endpoints on the plan's host: each is there
/// on the realm's bridge, and none is of another endpoint.
pub open spec fn locals_are_present(
    t: Trace,
    u: Trace,
    own: RealmOwnershipView,
    plan: NamespacedRoutedFabricPlanView,
) -> bool {
    &&& own.pending_endpoint_taps.len() == 0
    &&& forall|k: int|
        0 <= k < own.endpoint_taps.len() ==> is_local(
            plan,
            (#[trigger] own.endpoint_taps[k]).endpoint_id,
        ) && own.endpoint_taps[k].interface == endpoint_tap_name_text(
            plan.realm_id,
            own.endpoint_taps[k].endpoint_id,
        ) && own.endpoint_taps[k].mac == hash_mac(
            endpoint_hash(plan.realm_id, own.endpoint_taps[k].endpoint_id),
        ) && tap_is_there(t, u, own.endpoint_taps[k], own.bridge)
    &&& forall|i: int|
        0 <= i < plan.directory.entries.len() ==> ((
        #[trigger] plan.directory.entries[i]).selected_host == plan.local_host ==> exists|k: int|
            0 <= k < own.endpoint_taps.len() && (#[trigger] own.endpoint_taps[k]).endpoint_id
                == plan.directory.entries[i].endpoint_id)
}

proof fn lemma_wanted_tap(plan: NamespacedRoutedFabricPlanView, k: int)
    requires
        0 <= k < local_taps(Seq::empty(), plan, 0).len(),
    ensures
        ({
            let tap = local_taps(Seq::empty(), plan, 0)[k];
            is_local(plan, tap.endpoint_id) && tap == endpoint_tap(plan.realm_id, tap.endpoint_id)
        }),
{
    let wanted = local_taps(Seq::empty(), plan, 0);
    lemma_local_taps_sorted(Seq::empty(), plan, 0);
    lemma_listed_tap(wanted, k);
    lemma_local_taps(Seq::empty(), plan, 0, wanted[k].endpoint_id);
}

proof fn lemma_local_is_wanted(plan: NamespacedRoutedFabricPlanView, id: u128) -> (k: int)
    ensures
        ({
            let wanted = local_taps(Seq::empty(), plan, 0);
            &&& id_get::<EndpointTapOwnership>(wanted, id) is Some <==> is_local(plan, id)
            &&& is_local(plan, id) ==> 0 <= k < wanted.len() && wanted[k].endpoint_id == id
        }),
{
    let wanted = local_taps(Seq::empty(), plan, 0);
    lemma_local_taps_sorted(Seq::empty(), plan, 0);
    lemma_local_taps(Seq::empty(), plan, 0, id);
    lemma_id_slot::<EndpointTapOwnership>(wanted, id);
    id_slot::<EndpointTapOwnership>(wanted, id)
}

/// Once the tap devices of a realm are in line with its plan, exactly the endpoints on the plan's
/// host have one: each is there, with its hardware address and on the realm's bridge, and the
/// recorded ones of other endpoints are gone.
pub proof fn lemma_local_endpoints_are_present(
    st: ProviderStateView,
    own: RealmOwnershipView,
    plan: NamespacedRoutedFabricPlanView,
    t: Trace,
    st1: ProviderStateView,
    u: Trace,
)
    requires
        id_sorted::<RealmOwnership>(st.realms),
        st.realm(plan.realm_id) == Some(own),
        own.realm_id == plan.realm_id,
        ensure_endpoint_taps_run(st, plan, t) == (st1, u, Ok::<(), Stop<LinuxFabricError>>(())),
    ensures
        st1.realm(plan.realm_id) matches Some(own1) && own1.bridge == own.bridge
            && locals_are_present(t, u, own1, plan),
        forall|k: int|
            0 <= k < own.endpoint_taps.len() ==> (is_local(
                plan,
                (#[trigger] own.endpoint_taps[k]).endpoint_id,
            ) || tap_is_gone(t, u, own.endpoint_taps[k])),
{
    let wanted = local_taps(Seq::empty(), plan, 0);
    let (sa, ta, ra) = announce_taps_run(st, own, wanted, t);
    lemma_extends_self(t);
    lemma_and_then(t, t, EffectView::Save);
    let (tb, rb) = remove_taps_run(own.endpoint_taps, wanted, own.bridge, 0, ta);
    let (tc, rc) = ensure_each_tap_run(own, wanted, 0, tb);
    assert(change_taps_run(own, wanted, ta) == (tc, rc));
    lemma_taps(own.endpoint_taps, wanted, own.bridge, 0, ta);
    lemma_extends_transitive(t, ta, tb);
    lemma_each_tap_extends(own, wanted, 0, tb);
    lemma_extends_self(tc);
    lemma_and_then(tc, tc, EffectView::Save);
    lemma_extends_transitive(tb, tc, u);
    assert forall|k: int| 0 <= k < wanted.len() implies tap_is_there(
        t,
        u,
        #[trigger] wanted[k],
        own.bridge,
    ) by {
        lemma_each_is_there(t, tb, own, wanted, 0, u, k);
    }
    assert forall|k: int| 0 <= k < own.endpoint_taps.len() implies (is_local(
        plan,
        (#[trigger] own.endpoint_taps[k]).endpoint_id,
    ) || tap_is_gone(t, u, own.endpoint_taps[k])) by {
        lemma_local_is_wanted(plan, own.endpoint_taps[k].endpoint_id);
        if id_get::<EndpointTapOwnership>(wanted, own.endpoint_taps[k].endpoint_id) is None {
            lemma_others_are_gone(
                t,
                ta,
                own.endpoint_taps,
                wanted,
                own.bridge,
                0,
                u,
                k,
            );
        }
    }
    let announced = RealmOwnershipView { pending_endpoint_taps: wanted, ..own };
    lemma_id_put_get::<RealmOwnership>(st.realms, announced, plan.realm_id);
    lemma_id_put_sorted::<RealmOwnership>(st.realms, announced);
    let current = sa.realm(plan.realm_id)->Some_0;
    let done = RealmOwnershipView {
        endpoint_taps: wanted,
        pending_endpoint_taps: Seq::empty(),
        ..current
    };
    lemma_id_put_get::<RealmOwnership>(sa.realms, done, plan.realm_id);
    let own1 = st1.realm(plan.realm_id)->Some_0;
    assert(own1.endpoint_taps == wanted);
    assert forall|k: int| 0 <= k < own1.endpoint_taps.len() implies is_local(
        plan,
        (#[trigger] own1.endpoint_taps[k]).endpoint_id,
    ) && own1.endpoint_taps[k].interface == endpoint_tap_name_text(
        plan.realm_id,
        own1.endpoint_taps[k].endpoint_id,
    ) && own1.endpoint_taps[k].mac == hash_mac(
        endpoint_hash(plan.realm_id, own1.endpoint_taps[k].endpoint_id),
    ) && tap_is_there(t, u, own1.endpoint_taps[k], own1.bridge) by {
        lemma_wanted_tap(plan, k);
        assert(tap_is_there(t, u, wanted[k], own.bridge));
    }
    assert forall|i: int|
        0 <= i < plan.directory.entries.len() && (
        #[trigger] plan.directory.entries[i]).selected_host == plan.local_host implies exists|
        k: int,
    |
        0 <= k < own1.endpoint_taps.len() && (#[trigger] own1.endpoint_taps[k]).endpoint_id
            == plan.directory.entries[i].endpoint_id by {
        let k = lemma_local_is_wanted(plan, plan.directory.entries[i].endpoint_id);
        assert(own1.endpoint_taps[k].endpoint_id == plan.directory.entries[i].endpoint_id);
    }
}

/// Once a plan is applied, exactly the endpoints on its host have their tap devices.
pub proof fn lemma_applied_endpoints_are_present(
    b: LinuxFabricBackendView,
    plan: NamespacedRoutedFabricPlanView,
    t: Trace,
)
    requires
        b.sorted(),
        apply_run(b, plan, t).2 is Ok,
    ensures
        stages_run(6, b, plan, t).0.state.realm(plan.realm_id) matches Some(own)
            && locals_are_present(
            stages_run(5, b, plan, t).1,
            stages_run(6, b, plan, t).1,
            own,
            plan,
        ),
        extends(t, stages_run(5, b, plan, t).1),
        extends(stages_run(6, b, plan, t).1, apply_run(b, plan, t).1),
{
    lemma_stage_succeeds(5, 9, b, plan, t);
    assert(stages()[5] == Stage::Taps);
    let (b5, t5, r5) = stages_run(5, b, plan, t);
    let (b6, t6, r6) = stages_run(6, b, plan, t);
    lemma_stages_sorted(5, b, plan, t);
    let own = b5.state.realm(plan.realm_id)->Some_0;
    lemma_id_slot::<RealmOwnership>(b5.state.realms, plan.realm_id);
    lemma_local_endpoints_are_present(b5.state, own, plan, t5, b6.state, t6);
}

} // verus!
