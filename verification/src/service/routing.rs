//! What the routing of a gateway comes to for the realms that are attached to it.
use super::errors::NetworkErrorView;
use super::gateways::{
    active_realms, gateway_intents, lemma_routes_reach_others, local_gateway, pool_gateway,
    reaches, realm_intents, realm_prefixes, remote_routes, AttachedRealm, GatewayIntentsView,
    RealmPools, RealmPoolsView, RealmPrefix,
};
use super::records::{
    CanonicalAddressPoolRecordView, CanonicalAddressRealmRecordView,
    CanonicalL3GatewayAttachmentRecordView, CanonicalL3GatewayRecordView,
};
use crate::domain::GatewayIntent;
use crate::ipv4::{prefix_value, Ipv4Prefix};
use crate::table::{id_get, id_put, id_sorted, lemma_id_put_get, lemma_id_put_sorted, lemma_id_slot};
use vstd::prelude::*;

verus! {

/// Whether a realm is actively attached to a gateway.
pub open spec fn is_attached_to(
    gateway: CanonicalL3GatewayRecordView,
    attachments: Seq<CanonicalL3GatewayAttachmentRecordView>,
    realm_id: u128,
) -> bool {
    exists|a: int|
        0 <= a < attachments.len() && (#[trigger] attachments[a]).realm_id == realm_id
            && attachments[a].state == "active"@ && attachments[a].project_id == gateway.project_id
}

/// Whether a prefix is that of an active realm of the gateway's project.
pub open spec fn is_prefix_of(
    gateway: CanonicalL3GatewayRecordView,
    realms: Seq<CanonicalAddressRealmRecordView>,
    realm_id: u128,
    prefix: Ipv4Prefix,
) -> bool {
    exists|x: int|
        0 <= x < realms.len() && (#[trigger] realms[x]).id == realm_id && realms[x].state
            == "active"@ && realms[x].project_id == gateway.project_id && prefix_value(
            realms[x].prefix,
        ) == Some(prefix)
}

/// Whether an address is the one by which a realm reaches its gateway: the first one that a pool of
/// the realm names, or the first address behind the network address where none does.
pub open spec fn is_local_gateway(
    prefix: Ipv4Prefix,
    pools: Seq<CanonicalAddressPoolRecordView>,
    address: u32,
) -> bool {
    ||| exists|i: int|
        0 <= i < pools.len() && (#[trigger] pools[i]).gateway == Some(address) && forall|j: int|
            0 <= j < i ==> (#[trigger] pools[j]).gateway is None
    ||| address == prefix.network + 1 && forall|j: int|
        0 <= j < pools.len() ==> (#[trigger] pools[j]).gateway is None
}

/// The pools of a realm.
pub open spec fn pools_of(pools: Seq<RealmPoolsView>, realm_id: u128) -> Seq<
    CanonicalAddressPoolRecordView,
> {
    match id_get::<RealmPools>(pools, realm_id) {
        Some(entry) => entry.pools,
        None => Seq::empty(),
    }
}

proof fn lemma_active(
    gateway: CanonicalL3GatewayRecordView,
    attachments: Seq<CanonicalL3GatewayAttachmentRecordView>,
    i: int,
    known: Seq<AttachedRealm>,
    id: u128,
)
    requires
        0 <= i <= attachments.len(),
        id_sorted::<AttachedRealm>(known),
    ensures
        ({
            let all = active_realms(gateway, attachments, i, known);
            &&& id_sorted::<AttachedRealm>(all)
            &&& id_get::<AttachedRealm>(all, id) is Some <==> id_get::<AttachedRealm>(
                known,
                id,
            ) is Some || exists|a: int|
                i <= a < attachments.len() && (#[trigger] attachments[a]).realm_id == id
                    && attachments[a].state == "active"@ && attachments[a].project_id
                    == gateway.project_id
        }),
    decreases attachments.len() - i,
{
    if i < attachments.len() {
        if attachments[i].project_id == gateway.project_id && attachments[i].state == "active"@ {
            let r = AttachedRealm { realm_id: attachments[i].realm_id };
            lemma_id_put_sorted::<AttachedRealm>(known, r);
            lemma_id_put_get::<AttachedRealm>(known, r, id);
            lemma_active(gateway, attachments, i + 1, id_put::<AttachedRealm>(known, r), id);
        } else {
            lemma_active(gateway, attachments, i + 1, known, id);
        }
    }
}

proof fn lemma_prefixes(
    gateway: CanonicalL3GatewayRecordView,
    realms: Seq<CanonicalAddressRealmRecordView>,
    i: int,
    known: Seq<RealmPrefix>,
    id: u128,
)
    requires
        0 <= i <= realms.len(),
        id_sorted::<RealmPrefix>(known),
        realm_prefixes(gateway, realms, i, known) is Some,
        id_get::<RealmPrefix>(known, id) matches Some(p) ==> is_prefix_of(
            gateway,
            realms,
            id,
            p.prefix,
        ),
    ensures
        id_get::<RealmPrefix>(
            realm_prefixes(gateway, realms, i, known)->Some_0,
            id,
        ) matches Some(p) ==> is_prefix_of(gateway, realms, id, p.prefix),
    decreases realms.len() - i,
{
    if i < realms.len() {
        if realms[i].project_id != gateway.project_id || realms[i].state != "active"@ {
            lemma_prefixes(gateway, realms, i + 1, known, id);
        } else {
            let prefix = prefix_value(realms[i].prefix)->Some_0;
            let r = RealmPrefix { realm_id: realms[i].id, prefix };
            lemma_id_put_sorted::<RealmPrefix>(known, r);
            lemma_id_put_get::<RealmPrefix>(known, r, id);
            assert(realms[i].id == r.realm_id);
            lemma_prefixes(gateway, realms, i + 1, id_put::<RealmPrefix>(known, r), id);
        }
    }
}

/// Whether a route leads to the prefix of an attached realm other than the given one.
spec fn to_another(
    route: GatewayIntent,
    realm_id: u128,
    address: u32,
    attached: Seq<AttachedRealm>,
    prefixes: Seq<RealmPrefix>,
) -> bool {
    &&& !route.external
    &&& route.gateway == address
    &&& exists|j: int|
        0 <= j < attached.len() && (#[trigger] attached[j]).realm_id != realm_id && (id_get::<
            RealmPrefix,
        >(prefixes, attached[j].realm_id) matches Some(p) && p.prefix == route.destination)
}

proof fn lemma_routes(
    realm_id: u128,
    address: u32,
    attached: Seq<AttachedRealm>,
    prefixes: Seq<RealmPrefix>,
    i: int,
    known: Seq<GatewayIntent>,
    routes: Seq<GatewayIntent>,
    k: int,
)
    requires
        0 <= i <= attached.len(),
        remote_routes(realm_id, address, attached, prefixes, i, known) == Some(routes),
        forall|n: int|
            0 <= n < known.len() ==> to_another(
                #[trigger] known[n],
                realm_id,
                address,
                attached,
                prefixes,
            ),
        0 <= k < routes.len(),
    ensures
        to_another(routes[k], realm_id, address, attached, prefixes),
    decreases attached.len() - i,
{
    if i < attached.len() {
        if attached[i].realm_id == realm_id {
            lemma_routes(realm_id, address, attached, prefixes, i + 1, known, routes, k);
        } else {
            let remote = id_get::<RealmPrefix>(prefixes, attached[i].realm_id)->Some_0;
            let route = GatewayIntent {
                destination: remote.prefix,
                gateway: address,
                external: false,
            };
            assert(attached[i].realm_id != realm_id);
            assert(to_another(route, realm_id, address, attached, prefixes));
            lemma_routes(
                realm_id,
                address,
                attached,
                prefixes,
                i + 1,
                known.push(route),
                routes,
                k,
            );
        }
    }
}

proof fn lemma_realm_entries(
    gateway: CanonicalL3GatewayRecordView,
    attached: Seq<AttachedRealm>,
    prefixes: Seq<RealmPrefix>,
    pools: Seq<RealmPoolsView>,
    i: int,
    known: Seq<GatewayIntentsView>,
    k: int,
)
    requires
        0 <= i <= attached.len(),
        known.len() == i,
        realm_intents(gateway, attached, prefixes, pools, i, known) is Ok,
    ensures
        ({
            let v = realm_intents(gateway, attached, prefixes, pools, i, known)->Ok_0;
            &&& v.len() == attached.len()
            &&& v.take(i) == known
            &&& i <= k < attached.len() ==> {
                let local = id_get::<RealmPrefix>(prefixes, attached[k].realm_id);
                &&& v[k].realm_id == attached[k].realm_id
                &&& local is Some
                &&& local_gateway(
                    local->Some_0.prefix,
                    id_get::<RealmPools>(pools, attached[k].realm_id),
                ) matches Some(address) && remote_routes(
                    attached[k].realm_id,
                    address,
                    attached,
                    prefixes,
                    0,
                    Seq::empty(),
                ) == Some(v[k].routes)
                &&& gateway.external_realm_id is None ==> v[k].egress.len() == 0
                &&& gateway.external_realm_id matches Some(external) ==> v[k].egress.len() == 1
                    && v[k].egress[0].external_realm_id == external && v[k].egress[0].enabled
                    && v[k].egress[0].nat == gateway.enable_snat
            }
        }),
    decreases attached.len() - i,
{
    let v = realm_intents(gateway, attached, prefixes, pools, i, known)->Ok_0;
    if i < attached.len() {
        let realm_id = attached[i].realm_id;
        let local = id_get::<RealmPrefix>(prefixes, realm_id)->Some_0;
        let address = local_gateway(local.prefix, id_get::<RealmPools>(pools, realm_id))->Some_0;
        let routes = remote_routes(realm_id, address, attached, prefixes, 0, Seq::empty())->Some_0;
        let entry = GatewayIntentsView {
            realm_id,
            routes,
            egress: super::gateways::egress_of(gateway),
        };
        let next = known.push(entry);
        lemma_realm_entries(gateway, attached, prefixes, pools, i + 1, next, k);
        assert(v[i] == v.take(i + 1)[i]);
        assert(v.take(i) =~= v.take(i + 1).take(i));
        assert(next.take(i) =~= known);
    } else {
        assert(known.take(i) =~= known);
    }
}

proof fn lemma_local(prefix: Ipv4Prefix, pools: Seq<CanonicalAddressPoolRecordView>, i: int)
    requires
        0 <= i <= pools.len(),
    ensures
        match pool_gateway(pools, i) {
            Some(g) => exists|k: int|
                i <= k < pools.len() && (#[trigger] pools[k]).gateway == Some(g) && forall|j: int|
                    i <= j < k ==> (#[trigger] pools[j]).gateway is None,
            None => forall|j: int| i <= j < pools.len() ==> (#[trigger] pools[j]).gateway is None,
        },
    decreases pools.len() - i,
{
    if i < pools.len() {
        if pools[i].gateway is None {
            lemma_local(prefix, pools, i + 1);
            match pool_gateway(pools, i + 1) {
                Some(g) => {
                    let k = choose|k: int|
                        i + 1 <= k < pools.len() && (#[trigger] pools[k]).gateway == Some(g)
                            && forall|j: int|
                            i + 1 <= j < k ==> (#[trigger] pools[j]).gateway is None;
                    assert(pools[k].gateway == Some(g));
                },
                None => {},
            }
        } else {
            assert(pools[i].gateway == pool_gateway(pools, i));
        }
    }
}

/// Only an active gateway with a generation routes, and it routes exactly the realms that are
/// actively attached to it, each once and in order.
pub proof fn lemma_gateway_routes_attached_realms(
    gateway: CanonicalL3GatewayRecordView,
    attachments: Seq<CanonicalL3GatewayAttachmentRecordView>,
    realms: Seq<CanonicalAddressRealmRecordView>,
    pools: Seq<RealmPoolsView>,
    v: Seq<GatewayIntentsView>,
    id: u128,
)
    requires
        gateway_intents(gateway, attachments, realms, pools) == Ok::<
            Seq<GatewayIntentsView>,
            NetworkErrorView,
        >(v),
    ensures
        gateway.state == "active"@,
        gateway.generation > 0,
        forall|i: int, j: int|
            0 <= i < j < v.len() ==> (#[trigger] v[i]).realm_id < (#[trigger] v[j]).realm_id,
        is_attached_to(gateway, attachments, id) <==> exists|k: int|
            0 <= k < v.len() && (#[trigger] v[k]).realm_id == id,
{
    let prefixes = realm_prefixes(gateway, realms, 0, Seq::empty())->Some_0;
    let attached = active_realms(gateway, attachments, 0, Seq::empty());
    lemma_active(gateway, attachments, 0, Seq::empty(), id);
    lemma_realm_entries(gateway, attached, prefixes, pools, 0, Seq::empty(), 0);
    assert forall|k: int| 0 <= k < v.len() implies (#[trigger] v[k]).realm_id
        == attached[k].realm_id by {
        lemma_realm_entries(gateway, attached, prefixes, pools, 0, Seq::empty(), k);
    }
    lemma_id_slot::<AttachedRealm>(attached, id);
    let n = crate::table::id_slot::<AttachedRealm>(attached, id);
    if id_get::<AttachedRealm>(attached, id) is Some {
        assert(v[n].realm_id == id);
    }
    if exists|k: int| 0 <= k < v.len() && (#[trigger] v[k]).realm_id == id {
        let k = choose|k: int| 0 <= k < v.len() && (#[trigger] v[k]).realm_id == id;
        assert(attached[k].realm_id == id);
        if n < k {
            assert(attached[n].realm_id < attached[k].realm_id);
        }
        if k < n {
            assert(attached[k].realm_id < id);
        }
        assert(n == k);
    }
}

/// A realm has no way outside where its gateway has none, and exactly one where it has: an enabled
/// way to the gateway's external realm, which translates addresses if and only if the gateway
/// does.
pub proof fn lemma_way_outside_is_that_of_the_gateway(
    gateway: CanonicalL3GatewayRecordView,
    attachments: Seq<CanonicalL3GatewayAttachmentRecordView>,
    realms: Seq<CanonicalAddressRealmRecordView>,
    pools: Seq<RealmPoolsView>,
    v: Seq<GatewayIntentsView>,
    k: int,
)
    requires
        gateway_intents(gateway, attachments, realms, pools) == Ok::<
            Seq<GatewayIntentsView>,
            NetworkErrorView,
        >(v),
        0 <= k < v.len(),
    ensures
        match gateway.external_realm_id {
            None => v[k].egress.len() == 0,
            Some(external) => {
                &&& v[k].egress.len() == 1
                &&& v[k].egress[0].external_realm_id == external
                &&& v[k].egress[0].enabled
                &&& v[k].egress[0].nat <==> gateway.enable_snat
            },
        },
{
    let prefixes = realm_prefixes(gateway, realms, 0, Seq::empty())->Some_0;
    let attached = active_realms(gateway, attachments, 0, Seq::empty());
    lemma_realm_entries(gateway, attached, prefixes, pools, 0, Seq::empty(), k);
}

/// Whether a route leads from a realm through an address to the prefix of another routed realm.
pub open spec fn leads_elsewhere(
    gateway: CanonicalL3GatewayRecordView,
    realms: Seq<CanonicalAddressRealmRecordView>,
    v: Seq<GatewayIntentsView>,
    k: int,
    address: u32,
    route: GatewayIntent,
) -> bool {
    &&& !route.external
    &&& route.gateway == address
    &&& exists|j: int|
        0 <= j < v.len() && j != k && is_prefix_of(
            gateway,
            realms,
            (#[trigger] v[j]).realm_id,
            route.destination,
        )
}

/// Whether a route of a list leads through an address to the prefix of a realm.
pub open spec fn is_led_to(
    gateway: CanonicalL3GatewayRecordView,
    realms: Seq<CanonicalAddressRealmRecordView>,
    routes: Seq<GatewayIntent>,
    address: u32,
    realm_id: u128,
) -> bool {
    exists|n: int|
        0 <= n < routes.len() && (#[trigger] routes[n]).gateway == address && !routes[n].external
            && is_prefix_of(gateway, realms, realm_id, routes[n].destination)
}

/// Every routed realm reaches every other one, and its routes lead nowhere else: each goes through
/// the address by which the realm reaches its gateway to the prefix of another routed realm.
pub proof fn lemma_routed_realms_reach_each_other(
    gateway: CanonicalL3GatewayRecordView,
    attachments: Seq<CanonicalL3GatewayAttachmentRecordView>,
    realms: Seq<CanonicalAddressRealmRecordView>,
    pools: Seq<RealmPoolsView>,
    v: Seq<GatewayIntentsView>,
    k: int,
)
    requires
        gateway_intents(gateway, attachments, realms, pools) == Ok::<
            Seq<GatewayIntentsView>,
            NetworkErrorView,
        >(v),
        0 <= k < v.len(),
    ensures
        exists|prefix: Ipv4Prefix, address: u32|
            #![trigger is_local_gateway(prefix, pools_of(pools, v[k].realm_id), address)]
            is_prefix_of(gateway, realms, v[k].realm_id, prefix) && is_local_gateway(
                prefix,
                pools_of(pools, v[k].realm_id),
                address,
            ) && (forall|n: int|
                0 <= n < v[k].routes.len() ==> leads_elsewhere(
                    gateway,
                    realms,
                    v,
                    k,
                    address,
                    #[trigger] v[k].routes[n],
                )) && (forall|j: int|
                0 <= j < v.len() && j != k ==> is_led_to(
                    gateway,
                    realms,
                    v[k].routes,
                    address,
                    (#[trigger] v[j]).realm_id,
                )),
{
    let prefixes = realm_prefixes(gateway, realms, 0, Seq::empty())->Some_0;
    let attached = active_realms(gateway, attachments, 0, Seq::empty());
    lemma_active(gateway, attachments, 0, Seq::empty(), 0);
    lemma_realm_entries(gateway, attached, prefixes, pools, 0, Seq::empty(), k);
    let id = v[k].realm_id;
    let local = id_get::<RealmPrefix>(prefixes, id)->Some_0;
    lemma_prefixes(gateway, realms, 0, Seq::empty(), id);
    let address = local_gateway(local.prefix, id_get::<RealmPools>(pools, id))->Some_0;
    lemma_local(local.prefix, pools_of(pools, id), 0);
    assert(is_local_gateway(local.prefix, pools_of(pools, id), address));
    assert forall|n: int| 0 <= n < v.len() implies (#[trigger] v[n]).realm_id
        == attached[n].realm_id by {
        lemma_realm_entries(gateway, attached, prefixes, pools, 0, Seq::empty(), n);
    }
    let routes = v[k].routes;
    assert(remote_routes(id, address, attached, prefixes, 0, Seq::empty()) == Some(routes));
    assert forall|n: int| 0 <= n < routes.len() implies leads_elsewhere(
        gateway,
        realms,
        v,
        k,
        address,
        #[trigger] routes[n],
    ) by {
        lemma_routes(id, address, attached, prefixes, 0, Seq::empty(), routes, n);
        let j = choose|j: int|
            0 <= j < attached.len() && (#[trigger] attached[j]).realm_id != id && (id_get::<
                RealmPrefix,
            >(prefixes, attached[j].realm_id) matches Some(p) && p.prefix
                == routes[n].destination);
        lemma_prefixes(gateway, realms, 0, Seq::empty(), attached[j].realm_id);
        assert(v[j].realm_id == attached[j].realm_id);
    }
    assert forall|j: int| 0 <= j < v.len() && j != k implies is_led_to(
        gateway,
        realms,
        routes,
        address,
        (#[trigger] v[j]).realm_id,
    ) by {
        lemma_routes_reach_others(id, address, attached, prefixes, 0, Seq::empty(), j);
        if j < k {
            assert(attached[j].realm_id < attached[k].realm_id);
        } else {
            assert(attached[k].realm_id < attached[j].realm_id);
        }
        let remote = id_get::<RealmPrefix>(prefixes, attached[j].realm_id);
        assert(reaches(routes, remote, address));
        lemma_prefixes(gateway, realms, 0, Seq::empty(), attached[j].realm_id);
        let n = choose|n: int|
            0 <= n < routes.len() && #[trigger] routes[n] == (GatewayIntent {
                destination: remote->Some_0.prefix,
                gateway: address,
                external: false,
            });
        assert(routes[n].gateway == address);
    }
}

} // verus!
