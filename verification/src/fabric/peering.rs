//! How a host joins the fabric and knows the other hosts: what was carried out for the link that
//! all realms share and for its peers.
use super::backend::LinuxFabricBackendView;
use super::commands::peer_remove_cmd;
use super::config::LinuxFabricError;
use super::course::{lemma_and_then, lemma_runs};
use super::naming::is_wireguard_key;
use super::plan::{FabricPeer, FabricPeerView, NamespacedRoutedFabricPlanView};
use super::reach::in_namespace;
use super::removal::lemma_peers;
use super::state::{FabricOwnershipView, ProviderStateView, RealmOwnership, RealmOwnershipView};
use super::underlay::{
    configure_each_run, configure_peer_run, configure_peers_run, merge_peers, merge_plans,
    peer_cmds, peer_keys, stale_peer_cmds,
};
use crate::ipv4::ipv4_text;
use crate::reading::{carried_out, lemma_done, lemma_extends_self};
use crate::session::{extends, lemma_extends_transitive, run_all, EffectView, Stop, Trace};
use crate::table::{id_get, lemma_name_slot, name_get, name_put, name_slot};
use vstd::prelude::*;

verus! {

// ---------------------------------------------------------------------------
// Peers
// ---------------------------------------------------------------------------

/// Whether a peer is needed: a plan of a recorded realm has it.
pub open spec fn is_needed(
    plans: Seq<NamespacedRoutedFabricPlanView>,
    realms: Seq<RealmOwnershipView>,
    peer: FabricPeerView,
) -> bool {
    exists|i: int|
        0 <= i < plans.len() && id_get::<RealmOwnership>(
            realms,
            (#[trigger] plans[i]).realm_id,
        ) is Some && plans[i].peers.contains(peer)
}

/// The words that make a peer of the shared link known: its key, where it is found, and the one
/// address that it may use.
pub open spec fn peer_words(fabric: FabricOwnershipView, peer: FabricPeerView) -> Seq<Seq<char>> {
    in_namespace(
        fabric.namespace,
        seq![
            "wg"@,
            "set"@,
            fabric.interface,
            "peer"@,
            peer.public_key,
            "endpoint"@,
            peer.underlay_endpoint,
            "allowed-ips"@,
            ipv4_text(peer.fabric_transport_ip) + "/32"@,
        ],
    )
}

/// The words that route to a peer over the shared link.
pub open spec fn peer_route_words(fabric: FabricOwnershipView, peer: FabricPeerView) -> Seq<
    Seq<char>,
> {
    in_namespace(
        fabric.namespace,
        seq![
            "ip"@,
            "route"@,
            "replace"@,
            ipv4_text(peer.fabric_transport_ip) + "/32"@,
            "dev"@,
            fabric.interface,
        ],
    )
}

/// The words that make the shared link forget a key.
pub open spec fn forget_words(fabric: FabricOwnershipView, key: Seq<char>) -> Seq<Seq<char>> {
    in_namespace(
        fabric.namespace,
        seq!["wg"@, "set"@, fabric.interface, "peer"@, key, "remove"@],
    )
}

/// Whether a peer is known by the shared link and routed to over it.
pub open spec fn peer_is_known(
    t: Trace,
    u: Trace,
    fabric: FabricOwnershipView,
    peer: FabricPeerView,
) -> bool {
    &&& is_wireguard_key(peer.public_key)
    &&& carried_out(t, u, "ip"@, peer_words(fabric, peer))
    &&& carried_out(t, u, "ip"@, peer_route_words(fabric, peer))
}

proof fn lemma_inserted<A>(s: Seq<A>, n: int, x: A, y: A)
    requires
        0 <= n <= s.len(),
    ensures
        s.insert(n, x).contains(y) <==> s.contains(y) || y == x,
{
    let r = s.insert(n, x);
    assert(r[n] == x);
    if s.contains(y) {
        let k = choose|k: int| 0 <= k < s.len() && s[k] == y;
        if k < n {
            assert(r[k] == y);
        } else {
            assert(r[k + 1] == y);
        }
    }
    if r.contains(y) && y != x {
        let k = choose|k: int| 0 <= k < r.len() && r[k] == y;
        if k < n {
            assert(s[k] == y);
        } else {
            assert(s[k - 1] == y);
        }
    }
}

proof fn lemma_merged_peers(
    table: Seq<FabricPeerView>,
    peers: Seq<FabricPeerView>,
    i: int,
    r: Seq<FabricPeerView>,
    peer: FabricPeerView,
)
    requires
        0 <= i <= peers.len(),
        merge_peers(table, peers, i) == Some(r),
    ensures
        table.contains(peer) ==> r.contains(peer),
        forall|k: int| i <= k < peers.len() && #[trigger] peers[k] == peer ==> r.contains(peer),
        r.contains(peer) ==> table.contains(peer) || peers.contains(peer),
    decreases peers.len() - i,
{
    if i < peers.len() {
        let p = peers[i];
        lemma_name_slot::<FabricPeer>(table, p.host_id);
        let n = name_slot::<FabricPeer>(table, p.host_id);
        match name_get::<FabricPeer>(table, p.host_id) {
            Some(existing) => {
                lemma_merged_peers(table, peers, i + 1, r, peer);
                assert(table[n] == p);
            },
            None => {
                lemma_merged_peers(table.insert(n, p), peers, i + 1, r, peer);
                lemma_inserted(table, n, p, peer);
                assert(peers.contains(p));
            },
        }
    }
}

proof fn lemma_merged_plans(
    table: Seq<FabricPeerView>,
    plans: Seq<NamespacedRoutedFabricPlanView>,
    realms: Seq<RealmOwnershipView>,
    i: int,
    r: Seq<FabricPeerView>,
    peer: FabricPeerView,
)
    requires
        0 <= i <= plans.len(),
        merge_plans(table, plans, realms, i) == Some(r),
    ensures
        table.contains(peer) ==> r.contains(peer),
        forall|k: int|
            i <= k < plans.len() && id_get::<RealmOwnership>(
                realms,
                (#[trigger] plans[k]).realm_id,
            ) is Some && plans[k].peers.contains(peer) ==> r.contains(peer),
        r.contains(peer) ==> table.contains(peer) || is_needed(plans, realms, peer),
    decreases plans.len() - i,
{
    if i < plans.len() {
        if id_get::<RealmOwnership>(realms, plans[i].realm_id) is None {
            lemma_merged_plans(table, plans, realms, i + 1, r, peer);
        } else {
            let more = merge_peers(table, plans[i].peers, 0)->Some_0;
            lemma_merged_peers(table, plans[i].peers, 0, more, peer);
            lemma_merged_plans(more, plans, realms, i + 1, r, peer);
        }
    }
}

proof fn lemma_keys(keys: Seq<Seq<char>>, peers: Seq<FabricPeerView>, i: int, key: Seq<char>)
    requires
        0 <= i <= peers.len(),
    ensures
        peer_keys(keys, peers, i).contains(key) <==> keys.contains(key) || exists|k: int|
            i <= k < peers.len() && (#[trigger] peers[k]).public_key == key,
    decreases peers.len() - i,
{
    if i < peers.len() {
        let x = peers[i].public_key;
        let more = name_put::<String>(keys, x);
        lemma_name_slot::<String>(keys, x);
        let n = name_slot::<String>(keys, x);
        lemma_keys(more, peers, i + 1, key);
        lemma_inserted(keys, n, x, key);
        if n < keys.len() && keys[n] == x {
            assert(more =~= keys);
        }
    }
}

proof fn lemma_stale(
    fabric: FabricOwnershipView,
    managed: Seq<Seq<char>>,
    wanted: Seq<Seq<char>>,
    k: int,
) -> (i: int)
    requires
        0 <= k < managed.len(),
        name_get::<String>(wanted, managed[k]) is None,
    ensures
        0 <= i < stale_peer_cmds(fabric, managed, wanted).len(),
        stale_peer_cmds(fabric, managed, wanted)[i] == peer_remove_cmd(
            fabric.namespace,
            fabric.interface,
            managed[k],
        ),
    decreases managed.len(),
{
    if k == managed.len() - 1 {
        stale_peer_cmds(fabric, managed.drop_last(), wanted).len() as int
    } else {
        lemma_stale(fabric, managed.drop_last(), wanted, k)
    }
}

proof fn lemma_each_is_known(
    t: Trace,
    t1: Trace,
    fabric: FabricOwnershipView,
    peers: Seq<FabricPeerView>,
    i: int,
    v: Trace,
    k: int,
)
    requires
        extends(t, t1),
        0 <= i <= k < peers.len(),
        configure_each_run(fabric, peers, i, t1).1 is Ok,
        extends(configure_each_run(fabric, peers, i, t1).0, v),
    ensures
        peer_is_known(t, v, fabric, peers[k]),
    decreases peers.len() - i,
{
    let failed = LinuxFabricError::CommandFailed;
    let io = LinuxFabricError::Storage;
    let e = EffectView::CheckEndpoint(peers[i].underlay_endpoint);
    let cs = peer_cmds(fabric, peers[i]);
    lemma_and_then(t, t1, e);
    lemma_runs(t, t1.after(e), cs);
    let t2 = configure_peer_run(fabric, peers[i], t1).0;
    if k == i {
        lemma_peers(fabric, peers, i + 1, t2);
        lemma_extends_transitive(t2, configure_each_run(fabric, peers, i + 1, t2).0, v);
        lemma_done(t, t1.after(e), cs, failed, io, v, 0, peer_words(fabric, peers[i]));
        lemma_done(t, t1.after(e), cs, failed, io, v, 1, peer_route_words(fabric, peers[i]));
    } else {
        lemma_each_is_known(t, t2, fabric, peers, i + 1, v, k);
    }
}

/// Once the peers are in line, every peer that a recorded realm needs is known by the shared link
/// and is routed to, with no other address than its own; a managed key that no needed peer has is
/// forgotten; and the recorded keys are those of the needed peers.
pub proof fn lemma_needed_peers_are_known(
    b: LinuxFabricBackendView,
    t: Trace,
    st1: ProviderStateView,
    u: Trace,
    peer: FabricPeerView,
    key: Seq<char>,
)
    requires
        configure_peers_run(b, t) == (st1, u, Ok::<(), Stop<LinuxFabricError>>(())),
    ensures
        b.state.fabric matches Some(fabric) && (is_needed(b.plans, b.state.realms, peer)
            ==> peer_is_known(t, u, fabric, peer)),
        st1.fabric matches Some(fabric) && (fabric.managed_peers.contains(key) <==> exists|
            p: FabricPeerView,
        | #[trigger]
            is_needed(b.plans, b.state.realms, p) && p.public_key == key),
        b.state.fabric matches Some(fabric) && (fabric.managed_peers.contains(key) && !(
        st1.fabric matches Some(now) && now.managed_peers.contains(key)) ==> carried_out(
            t,
            u,
            "ip"@,
            forget_words(fabric, key),
        )),
{
    let failed = LinuxFabricError::CommandFailed;
    let io = LinuxFabricError::Storage;
    let fabric = b.state.fabric->Some_0;
    let peers = merge_plans(Seq::empty(), b.plans, b.state.realms, 0)->Some_0;
    let keys = peer_keys(Seq::empty(), peers, 0);
    let cs = stale_peer_cmds(fabric, fabric.managed_peers, keys);
    let t1 = run_all(t, cs, failed, io).0;
    let t2 = configure_each_run(fabric, peers, 0, t1).0;
    lemma_extends_self(t);
    lemma_runs(t, t, cs);
    lemma_peers(fabric, peers, 0, t1);
    lemma_extends_self(t2);
    lemma_and_then(t2, t2, EffectView::Save);
    lemma_extends_transitive(t1, t2, u);
    lemma_merged_plans(Seq::empty(), b.plans, b.state.realms, 0, peers, peer);
    if is_needed(b.plans, b.state.realms, peer) {
        assert(peers.contains(peer));
        let k = choose|k: int| 0 <= k < peers.len() && peers[k] == peer;
        lemma_each_is_known(t, t1, fabric, peers, 0, u, k);
    }
    lemma_keys(Seq::empty(), peers, 0, key);
    if keys.contains(key) {
        let k = choose|k: int| 0 <= k < peers.len() && (#[trigger] peers[k]).public_key == key;
        lemma_merged_plans(Seq::empty(), b.plans, b.state.realms, 0, peers, peers[k]);
        assert(peers.contains(peers[k]));
        assert(is_needed(b.plans, b.state.realms, peers[k]));
    }
    if exists|p: FabricPeerView| #[trigger]
        is_needed(b.plans, b.state.realms, p) && p.public_key == key {
        let p = choose|p: FabricPeerView| #[trigger]
            is_needed(b.plans, b.state.realms, p) && p.public_key == key;
        lemma_merged_plans(Seq::empty(), b.plans, b.state.realms, 0, peers, p);
        assert(peers.contains(p));
        let k = choose|k: int| 0 <= k < peers.len() && peers[k] == p;
        assert(peers[k].public_key == key);
    }
    if fabric.managed_peers.contains(key) && !keys.contains(key) {
        let k = choose|k: int|
            0 <= k < fabric.managed_peers.len() && fabric.managed_peers[k] == key;
        lemma_name_slot::<String>(keys, key);
        let n = name_slot::<String>(keys, key);
        if n < keys.len() && keys[n] == key {
            assert(keys.contains(key));
        }
        let i = lemma_stale(fabric, fabric.managed_peers, keys, k);
        lemma_done(t, t, cs, failed, io, u, i, forget_words(fabric, key));
    }
}

} // verus!
