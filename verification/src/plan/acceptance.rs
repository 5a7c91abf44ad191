//! What is accepted for a plan and why the rest is rejected, said of the intent itself.
use super::admission::{
    defaults_known, fabric_admissible, peer_complete, peer_has_route, peers_valid, policies_known,
    route_has_peer, route_valid, routes_valid,
};
use super::compile::{
    broadcast, egress_enabled, endpoint_error, endpoint_repeated, endpoints_error, first_missing,
    has_endpoint, network_policy_valid, overlaps_other, pool_gateway, pool_valid, realm_gateway,
    rejection, required,
};
use super::types::NetworkPlanError;
use crate::domain::{
    AddressPoolView, AddressRealmView, NetworkCapability, NetworkIntentView, NetworkProtocol,
    PolicyDirection, PolicyIntent, PolicyStatefulMode,
};
use crate::fabric::naming::is_mac;
use crate::fabric::plan::{locate, NamespacedRoutedFabricPlanView};
use crate::fabric::public::{binding_valid, bindings_valid};
use crate::ipv4::{
    block, is_loopback, is_unspecified, lemma_block_bound, lemma_overlap_shares_address, Ipv4Prefix,
};
use crate::text::lower;
use vstd::prelude::*;
use vstd::utf8::encode_utf8;

verus! {

// ---------------------------------------------------------------------------
// Intents
// ---------------------------------------------------------------------------

/// Whether the provider can do all that an intent asks for.
pub open spec fn is_provided(intent: NetworkIntentView, caps: Seq<NetworkCapability>) -> bool {
    let out = exists|i: int| 0 <= i < intent.egress.len() && (#[trigger] intent.egress[i]).enabled;
    let translated = exists|i: int|
        0 <= i < intent.egress.len() && (#[trigger] intent.egress[i]).nat;
    &&& caps.contains(NetworkCapability::Ipv4)
    &&& caps.contains(NetworkCapability::EndpointAttachment)
    &&& intent.routes.len() > 0 || intent.gateways.len() > 0 || out ==> caps.contains(
        NetworkCapability::Routing,
    )
    &&& out && translated ==> caps.contains(NetworkCapability::Nat)
    &&& intent.public_addresses.len() > 0 ==> caps.contains(
        NetworkCapability::PublicAddressRealization,
    )
    &&& intent.policies.len() > 0 ==> caps.contains(NetworkCapability::StatefulPolicy)
}

/// Whether a realm shares an address with another realm.
pub open spec fn shares_addresses(realms: Seq<AddressRealmView>, realm: AddressRealmView) -> bool {
    exists|i: int, a: u32|
        0 <= i < realms.len() && (#[trigger] realms[i]).id != realm.id && realms[i].prefix.has(a)
            && #[trigger] realm.prefix.has(a)
}

/// Whether an address is one that a host under a prefix can have.
pub open spec fn is_host_under(prefix: Ipv4Prefix, a: u32) -> bool {
    prefix.has(a) && a != prefix.network && a != prefix.network + block(prefix.prefix_len as int)
        - 1
}

/// Whether a pool is sound: it is of the network's project and realm, its prefix is a part of that
/// of the realm, its first and last address are hosts under it, and no gateway is in it.
pub open spec fn is_sound_pool(
    intent: NetworkIntentView,
    pool: AddressPoolView,
    gateway: u32,
) -> bool {
    &&& pool.project_id == intent.project_id
    &&& pool.realm_id == intent.realm.id
    &&& intent.realm.prefix.has(pool.prefix.network)
    &&& intent.realm.prefix.prefix_len <= pool.prefix.prefix_len
    &&& is_host_under(pool.prefix, pool.first_usable)
    &&& is_host_under(pool.prefix, pool.last_usable)
    &&& pool.first_usable <= pool.last_usable
    &&& gateway < pool.first_usable || pool.last_usable < gateway
    &&& pool.gateway matches Some(own) ==> is_host_under(pool.prefix, own) && (own
        < pool.first_usable || pool.last_usable < own)
}

/// Whether an address is the gateway of an intent: the first one that a pool names, or the first
/// address behind the network address where none does.
pub open spec fn is_gateway_of(intent: NetworkIntentView, gateway: u32) -> bool {
    let pools = intent.address_pools;
    ||| exists|i: int|
        0 <= i < pools.len() && (#[trigger] pools[i]).gateway == Some(gateway) && forall|j: int|
            0 <= j < i ==> (#[trigger] pools[j]).gateway is None
    ||| gateway == intent.realm.prefix.network + 1 && forall|j: int|
        0 <= j < pools.len() ==> (#[trigger] pools[j]).gateway is None
}

/// Whether the endpoints are sound: each is of the project, has a host address of the realm that is
/// not the gateway's and a well-formed hardware address, and no two share anything.
pub open spec fn are_sound_endpoints(intent: NetworkIntentView, gateway: u32) -> bool {
    let es = intent.endpoints;
    &&& forall|i: int|
        0 <= i < es.len() ==> (#[trigger] es[i]).project_id == intent.project_id && is_host_under(
            intent.realm.prefix,
            es[i].fixed_ip,
        ) && es[i].fixed_ip != gateway && is_mac(lower(es[i].mac))
    &&& forall|i: int, j: int|
        0 <= i < j < es.len() ==> (#[trigger] es[i]).id != (#[trigger] es[j]).id && es[i].fixed_ip
            != es[j].fixed_ip && lower(es[i].mac) != lower(es[j].mac)
}

/// Whether one of the endpoints has an identity.
pub open spec fn is_endpoint_of(intent: NetworkIntentView, id: u128) -> bool {
    exists|i: int| 0 <= i < intent.endpoints.len() && (#[trigger] intent.endpoints[i]).id == id
}

/// Whether a policy makes sense: ports belong to a protocol that has them, and only the far end is
/// restricted.
pub open spec fn is_sound_policy(p: PolicyIntent) -> bool {
    &&& p.ports matches Some(ports) ==> ports.start <= ports.end && (p.protocol
        == NetworkProtocol::Tcp || p.protocol == NetworkProtocol::Udp)
    &&& p.source is Some ==> p.direction == PolicyDirection::Ingress
    &&& p.destination is Some ==> p.direction == PolicyDirection::Egress
}

/// Whether what hangs on the endpoints is sound: public addresses, policies and gateways.
pub open spec fn are_sound_parts(intent: NetworkIntentView) -> bool {
    let bs = intent.public_addresses;
    &&& forall|i: int|
        0 <= i < bs.len() ==> (#[trigger] bs[i]).project_id == intent.project_id && is_endpoint_of(
            intent,
            bs[i].endpoint_id,
        )
    &&& forall|i: int, j: int|
        0 <= i < j < bs.len() ==> (#[trigger] bs[i]).public_address != (
        #[trigger] bs[j]).public_address
    &&& forall|i: int|
        0 <= i < intent.policies.len() ==> is_endpoint_of(
            intent,
            (#[trigger] intent.policies[i]).endpoint_id,
        ) && is_sound_policy(intent.policies[i])
    &&& forall|i: int|
        0 <= i < intent.gateways.len() ==> (#[trigger] intent.gateways[i]).external
            || intent.realm.prefix.has(intent.gateways[i].gateway)
}

proof fn lemma_nothing_missing(
    needed: Seq<NetworkCapability>,
    caps: Seq<NetworkCapability>,
    i: int,
)
    requires
        0 <= i <= needed.len(),
    ensures
        first_missing(needed, caps, i) is None <==> forall|k: int|
            i <= k < needed.len() ==> caps.contains(#[trigger] needed[k]),
    decreases needed.len() - i,
{
    if i < needed.len() && caps.contains(needed[i]) {
        lemma_nothing_missing(needed, caps, i + 1);
    }
}

proof fn lemma_needed(intent: NetworkIntentView, c: NetworkCapability)
    ensures
        ({
            let out = egress_enabled(intent.egress);
            let translated = exists|i: int|
                0 <= i < intent.egress.len() && (#[trigger] intent.egress[i]).nat;
            required(intent).contains(c) <==> {
                ||| c == NetworkCapability::Ipv4
                ||| c == NetworkCapability::EndpointAttachment
                ||| c == NetworkCapability::Routing && (intent.routes.len() > 0
                    || intent.gateways.len() > 0 || out)
                ||| c == NetworkCapability::Nat && out && translated
                ||| c == NetworkCapability::PublicAddressRealization
                    && intent.public_addresses.len() > 0
                ||| c == NetworkCapability::StatefulPolicy && intent.policies.len() > 0
            }
        }),
{
    let c0 = Seq::empty().push(NetworkCapability::Ipv4).push(NetworkCapability::EndpointAttachment);
    let c1 = if intent.routes.len() > 0 {
        c0.push(NetworkCapability::Routing)
    } else {
        c0
    };
    let c2 = if intent.gateways.len() > 0 {
        c1.push(NetworkCapability::Routing)
    } else {
        c1
    };
    let c3 = if egress_enabled(intent.egress) {
        let d = c2.push(NetworkCapability::Routing);
        if super::compile::egress_nat(intent.egress) {
            d.push(NetworkCapability::Nat)
        } else {
            d
        }
    } else {
        c2
    };
    let c4 = if intent.public_addresses.len() > 0 {
        c3.push(NetworkCapability::PublicAddressRealization)
    } else {
        c3
    };
    let none = Seq::<NetworkCapability>::empty();
    lemma_pushed(none, NetworkCapability::Ipv4, c);
    lemma_pushed(
        none.push(NetworkCapability::Ipv4),
        NetworkCapability::EndpointAttachment,
        c,
    );
    lemma_pushed(c0, NetworkCapability::Routing, c);
    lemma_pushed(c1, NetworkCapability::Routing, c);
    lemma_pushed(c2, NetworkCapability::Routing, c);
    lemma_pushed(c2.push(NetworkCapability::Routing), NetworkCapability::Nat, c);
    lemma_pushed(c3, NetworkCapability::PublicAddressRealization, c);
    lemma_pushed(c4, NetworkCapability::StatefulPolicy, c);
}

proof fn lemma_pushed(s: Seq<NetworkCapability>, x: NetworkCapability, c: NetworkCapability)
    ensures
        s.push(x).contains(c) <==> s.contains(c) || c == x,
{
    let r = s.push(x);
    assert(r[s.len() as int] == x);
    if s.contains(c) {
        let k = choose|k: int| 0 <= k < s.len() && s[k] == c;
        assert(r[k] == c);
    }
    if r.contains(c) && c != x {
        let k = choose|k: int| 0 <= k < r.len() && r[k] == c;
        assert(s[k] == c);
    }
}

/// Nothing is missing exactly if the provider can do all that the intent asks for.
pub proof fn lemma_capabilities_suffice(intent: NetworkIntentView, caps: Seq<NetworkCapability>)
    ensures
        first_missing(required(intent), caps, 0) is None <==> is_provided(intent, caps),
{
    let needed = required(intent);
    lemma_nothing_missing(needed, caps, 0);
    lemma_needed(intent, NetworkCapability::Ipv4);
    lemma_needed(intent, NetworkCapability::EndpointAttachment);
    lemma_needed(intent, NetworkCapability::Routing);
    lemma_needed(intent, NetworkCapability::Nat);
    lemma_needed(intent, NetworkCapability::PublicAddressRealization);
    lemma_needed(intent, NetworkCapability::StatefulPolicy);
    if first_missing(needed, caps, 0) is None {
        assert forall|c: NetworkCapability| #[trigger] needed.contains(c) implies caps.contains(
            c,
        ) by {
            let k = choose|k: int| 0 <= k < needed.len() && needed[k] == c;
            assert(caps.contains(needed[k]));
        }
    }
    if is_provided(intent, caps) {
        assert forall|k: int| 0 <= k < needed.len() implies caps.contains(
            #[trigger] needed[k],
        ) by {
            lemma_needed(intent, needed[k]);
            assert(needed.contains(needed[k]));
        }
    }
}

proof fn lemma_first_gateway(pools: Seq<AddressPoolView>, i: int)
    requires
        0 <= i <= pools.len(),
    ensures
        match pool_gateway(pools, i) {
            Some(g) => exists|k: int|
                i <= k < pools.len() && (#[trigger] pools[k]).gateway == Some(g) && forall|j: int|
                    i <= j < k ==> (#[trigger] pools[j]).gateway is None,
            None => forall|j: int| i <= j < pools.len() ==> (#[trigger] pools[j]).gateway is None,
        },
    decreases pools.len() - i,
{
    if i < pools.len() {
        if pools[i].gateway is None {
            lemma_first_gateway(pools, i + 1);
            match pool_gateway(pools, i + 1) {
                Some(g) => {
                    let k = choose|k: int|
                        i + 1 <= k < pools.len() && (#[trigger] pools[k]).gateway == Some(g)
                            && forall|j: int|
                            i + 1 <= j < k ==> (#[trigger] pools[j]).gateway is None;
                    assert(pools[k].gateway == Some(g));
                },
                None => {},
            }
        } else {
            assert(pools[i].gateway == pool_gateway(pools, i));
        }
    }
}

/// The gateway of an intent is the first one that a pool names, or the first address behind the
/// network address where none does.
pub proof fn lemma_gateway_is_found(intent: NetworkIntentView)
    ensures
        realm_gateway(intent.realm.prefix, intent.address_pools) matches Some(g) ==> is_gateway_of(
            intent,
            g,
        ),
        realm_gateway(intent.realm.prefix, intent.address_pools) is None ==> forall|g: u32|
            !#[trigger] is_gateway_of(intent, g),
        forall|g: u32| #[trigger]
            is_gateway_of(intent, g) ==> realm_gateway(
                intent.realm.prefix,
                intent.address_pools,
            ) == Some(g),
{
    let pools = intent.address_pools;
    lemma_first_gateway(pools, 0);
    assert forall|g: u32| #[trigger] is_gateway_of(intent, g) implies realm_gateway(
        intent.realm.prefix,
        pools,
    ) == Some(g) by {
        match pool_gateway(pools, 0) {
            None => {},
            Some(first) => {
                let k = choose|k: int|
                    0 <= k < pools.len() && (#[trigger] pools[k]).gateway == Some(first)
                        && forall|j: int| 0 <= j < k ==> (#[trigger] pools[j]).gateway is None;
                let i = choose|i: int|
                    0 <= i < pools.len() && (#[trigger] pools[i]).gateway == Some(g) && forall|
                        j: int,
                    |
                        0 <= j < i ==> (#[trigger] pools[j]).gateway is None;
                assert(pools[k].gateway is Some);
                if i < k {
                    assert(pools[i].gateway is None);
                }
                if k < i {
                    assert(pools[k].gateway is None);
                }
            },
        }
    }
}

proof fn lemma_endpoints_in_order(intent: NetworkIntentView, gateway: u32, i: int)
    requires
        0 <= i <= intent.endpoints.len(),
    ensures
        endpoints_error(intent, gateway, i) is None <==> forall|k: int|
            i <= k < intent.endpoints.len() ==> #[trigger] endpoint_error(intent, gateway, k)
                is None,
    decreases intent.endpoints.len() - i,
{
    if i < intent.endpoints.len() {
        lemma_endpoints_in_order(intent, gateway, i + 1);
    }
}

proof fn lemma_last_address(prefix: Ipv4Prefix, a: u32)
    requires
        prefix.wf(),
    ensures
        Some(a) == broadcast(prefix) <==> a == prefix.network + block(prefix.prefix_len as int)
            - 1,
{
    lemma_block_bound(prefix.prefix_len as int);
}

proof fn lemma_sound_endpoints(intent: NetworkIntentView, gateway: u32)
    requires
        intent.realm.prefix.wf(),
    ensures
        endpoints_error(intent, gateway, 0) is None <==> are_sound_endpoints(intent, gateway),
{
    let es = intent.endpoints;
    lemma_endpoints_in_order(intent, gateway, 0);
    if endpoints_error(intent, gateway, 0) is None {
        assert forall|i: int| 0 <= i < es.len() implies (#[trigger] es[i]).project_id
            == intent.project_id && is_host_under(intent.realm.prefix, es[i].fixed_ip)
            && es[i].fixed_ip != gateway && is_mac(lower(es[i].mac)) by {
            assert(endpoint_error(intent, gateway, i) is None);
            lemma_last_address(intent.realm.prefix, es[i].fixed_ip);
        }
        assert forall|i: int, j: int| 0 <= i < j < es.len() implies (#[trigger] es[i]).id != (
        #[trigger] es[j]).id && es[i].fixed_ip != es[j].fixed_ip && lower(es[i].mac) != lower(
            es[j].mac,
        ) by {
            assert(endpoint_error(intent, gateway, j) is None);
            assert(!endpoint_repeated(es, j));
        }
    }
    if are_sound_endpoints(intent, gateway) {
        assert forall|k: int| 0 <= k < es.len() implies #[trigger] endpoint_error(
            intent,
            gateway,
            k,
        ) is None by {
            assert(es[k].project_id == intent.project_id);
            lemma_last_address(intent.realm.prefix, es[k].fixed_ip);
            assert(!endpoint_repeated(es, k));
        }
    }
}

/// Whether an intent can be planned.
pub open spec fn is_acceptable(
    intent: NetworkIntentView,
    node_id: Seq<char>,
    caps: Seq<NetworkCapability>,
    realms: Seq<AddressRealmView>,
) -> bool {
    &&& node_id.len() > 0
    &&& intent.realm.project_id == intent.project_id
    &&& shares_addresses(realms, intent.realm) ==> intent.realm.overlapping_prefixes
        && caps.contains(NetworkCapability::OverlappingAddressRealms) && caps.contains(
        NetworkCapability::EncapsulationModes,
    )
    &&& is_provided(intent, caps)
    &&& exists|gateway: u32| #[trigger]
        is_gateway_of(intent, gateway) && (forall|i: int|
            0 <= i < intent.address_pools.len() ==> is_sound_pool(
                intent,
                #[trigger] intent.address_pools[i],
                gateway,
            )) && are_sound_endpoints(intent, gateway)
    &&& are_sound_parts(intent)
}

/// Whether every prefix of an intent and of the other realms is one.
pub open spec fn prefixes_are_wf(
    intent: NetworkIntentView,
    realms: Seq<AddressRealmView>,
) -> bool {
    &&& intent.realm.prefix.wf()
    &&& forall|i: int|
        0 <= i < intent.address_pools.len() ==> (#[trigger] intent.address_pools[i]).prefix.wf()
    &&& forall|i: int| 0 <= i < realms.len() ==> (#[trigger] realms[i]).prefix.wf()
}

proof fn lemma_overlap_is_shared(realms: Seq<AddressRealmView>, realm: AddressRealmView)
    requires
        realm.prefix.wf(),
        forall|i: int| 0 <= i < realms.len() ==> (#[trigger] realms[i]).prefix.wf(),
    ensures
        overlaps_other(realms, realm) <==> shares_addresses(realms, realm),
{
    if overlaps_other(realms, realm) {
        let i = choose|i: int|
            0 <= i < realms.len() && (#[trigger] realms[i]).id != realm.id
                && realms[i].prefix.meets(realm.prefix);
        lemma_overlap_shares_address(realms[i].prefix, realm.prefix);
        let a = choose|a: u32| realms[i].prefix.has(a) && realm.prefix.has(a);
        assert(realms[i].id != realm.id && realms[i].prefix.has(a) && realm.prefix.has(a));
    }
    if shares_addresses(realms, realm) {
        let (i, a) = choose|i: int, a: u32|
            0 <= i < realms.len() && (#[trigger] realms[i]).id != realm.id && realms[i].prefix.has(
                a,
            ) && #[trigger] realm.prefix.has(a);
        lemma_overlap_shares_address(realms[i].prefix, realm.prefix);
        assert(realms[i].prefix.has(a) && realm.prefix.has(a));
        assert(realms[i].prefix.meets(realm.prefix));
    }
}

proof fn lemma_sound_pools(intent: NetworkIntentView, gateway: u32)
    requires
        forall|i: int|
            0 <= i < intent.address_pools.len() ==> (
            #[trigger] intent.address_pools[i]).prefix.wf(),
    ensures
        super::compile::pools_valid(intent, gateway) <==> forall|i: int|
            0 <= i < intent.address_pools.len() ==> is_sound_pool(
                intent,
                #[trigger] intent.address_pools[i],
                gateway,
            ),
{
    let pools = intent.address_pools;
    assert forall|i: int| 0 <= i < pools.len() implies pool_valid(
        intent,
        #[trigger] pools[i],
        gateway,
    ) == is_sound_pool(intent, pools[i], gateway) by {
        lemma_last_address(pools[i].prefix, pools[i].first_usable);
        lemma_last_address(pools[i].prefix, pools[i].last_usable);
        if pools[i].gateway is Some {
            lemma_last_address(pools[i].prefix, pools[i].gateway->Some_0);
        }
    }
    if super::compile::pools_valid(intent, gateway) {
        assert forall|i: int| 0 <= i < pools.len() implies is_sound_pool(
            intent,
            #[trigger] pools[i],
            gateway,
        ) by {
            assert(pool_valid(intent, pools[i], gateway));
        }
    }
}

proof fn lemma_sound_parts(intent: NetworkIntentView)
    ensures
        (super::compile::public_addresses_valid(intent)
            && super::compile::network_policies_valid(intent) && super::compile::gateways_inside(
            intent,
        )) <==> are_sound_parts(intent),
{
    assert forall|id: u128| #[trigger]
        has_endpoint(intent.endpoints, id) == is_endpoint_of(intent, id) by {}
    assert forall|id: u128| #[trigger]
        is_endpoint_of(intent, id) == has_endpoint(intent.endpoints, id) by {}
    assert forall|i: int| 0 <= i < intent.policies.len() implies network_policy_valid(
        intent.endpoints,
        #[trigger] intent.policies[i],
    ) == (is_endpoint_of(intent, intent.policies[i].endpoint_id) && is_sound_policy(
        intent.policies[i],
    )) by {}
}

/// An intent is accepted exactly if it can be planned.
pub proof fn lemma_accepted_iff_acceptable(
    intent: NetworkIntentView,
    node_id: Seq<char>,
    caps: Seq<NetworkCapability>,
    realms: Seq<AddressRealmView>,
)
    requires
        prefixes_are_wf(intent, realms),
    ensures
        rejection(intent, node_id, caps, realms) is None <==> is_acceptable(
            intent,
            node_id,
            caps,
            realms,
        ),
{
    lemma_overlap_is_shared(realms, intent.realm);
    lemma_capabilities_suffice(intent, caps);
    lemma_gateway_is_found(intent);
    lemma_sound_parts(intent);
    match realm_gateway(intent.realm.prefix, intent.address_pools) {
        None => {},
        Some(g) => {
            lemma_sound_pools(intent, g);
            lemma_sound_endpoints(intent, g);
        },
    }
}

/// A rejected intent is told a reason that it gives: a foreign or missing owner or a public address
/// that is not its own, an overlap, something that the provider cannot do, an unsound pool, an
/// endpoint out of place or at odds with another, or a policy that makes no sense.
pub proof fn lemma_rejection_is_justified(
    intent: NetworkIntentView,
    node_id: Seq<char>,
    caps: Seq<NetworkCapability>,
    realms: Seq<AddressRealmView>,
    e: NetworkPlanError,
)
    requires
        prefixes_are_wf(intent, realms),
        rejection(intent, node_id, caps, realms) == Some(e),
    ensures
        node_id.len() == 0 || intent.realm.project_id != intent.project_id ==> e
            == NetworkPlanError::OwnershipViolation,
        e == NetworkPlanError::OverlappingRealm ==> shares_addresses(realms, intent.realm) && !(
        intent.realm.overlapping_prefixes && caps.contains(
            NetworkCapability::OverlappingAddressRealms,
        ) && caps.contains(NetworkCapability::EncapsulationModes)),
        e matches NetworkPlanError::UnsupportedCapability(c) ==> !caps.contains(c)
            && required(intent).contains(c) && !is_provided(intent, caps),
        e == NetworkPlanError::InvalidAddressPool ==> forall|g: u32| #[trigger]
            is_gateway_of(intent, g) ==> exists|i: int|
                0 <= i < intent.address_pools.len() && !is_sound_pool(
                    intent,
                    #[trigger] intent.address_pools[i],
                    g,
                ),
        e == NetworkPlanError::ConflictingEndpoint ==> forall|g: u32| #[trigger]
            is_gateway_of(intent, g) ==> !are_sound_endpoints(intent, g),
        e == NetworkPlanError::InvalidPolicy ==> exists|i: int|
            0 <= i < intent.policies.len() && !(is_endpoint_of(
                intent,
                (#[trigger] intent.policies[i]).endpoint_id,
            ) && is_sound_policy(intent.policies[i])),
{
    lemma_overlap_is_shared(realms, intent.realm);
    lemma_capabilities_suffice(intent, caps);
    lemma_gateway_is_found(intent);
    lemma_missing_is_needed(required(intent), caps, 0);
    match realm_gateway(intent.realm.prefix, intent.address_pools) {
        None => {},
        Some(g) => {
            lemma_sound_pools(intent, g);
            lemma_sound_endpoints(intent, g);
            lemma_endpoint_reasons(intent, g, 0);
        },
    }
    if e == NetworkPlanError::InvalidPolicy {
        let i = choose|i: int|
            0 <= i < intent.policies.len() && !network_policy_valid(
                intent.endpoints,
                #[trigger] intent.policies[i],
            );
        assert(!(is_endpoint_of(intent, intent.policies[i].endpoint_id) && is_sound_policy(
            intent.policies[i],
        )));
    }
}

proof fn lemma_missing_is_needed(
    needed: Seq<NetworkCapability>,
    caps: Seq<NetworkCapability>,
    i: int,
)
    requires
        0 <= i <= needed.len(),
    ensures
        first_missing(needed, caps, i) matches Some(c) ==> needed.contains(c) && !caps.contains(c),
    decreases needed.len() - i,
{
    if i < needed.len() {
        if caps.contains(needed[i]) {
            lemma_missing_is_needed(needed, caps, i + 1);
        } else {
            assert(needed.contains(needed[i]));
        }
    }
}

proof fn lemma_endpoint_reasons(intent: NetworkIntentView, gateway: u32, i: int)
    requires
        0 <= i <= intent.endpoints.len(),
    ensures
        endpoints_error(intent, gateway, i) matches Some(e) ==> e
            == NetworkPlanError::AddressOutsideRealm || e
            == NetworkPlanError::ConflictingEndpoint,
    decreases intent.endpoints.len() - i,
{
    if i < intent.endpoints.len() {
        lemma_endpoint_reasons(intent, gateway, i + 1);
    }
}

// ---------------------------------------------------------------------------
// Plans of realms
// ---------------------------------------------------------------------------

/// Whether the plan of a realm fits its node: it is for the node, complete, its sizes nest, its
/// segment and its directory are those of its realm, and every endpoint lies in the realm.
pub open spec fn fits_node(f: NamespacedRoutedFabricPlanView, node_id: Seq<char>) -> bool {
    &&& f.local_host == node_id && node_id.len() > 0
    &&& !is_unspecified(f.local_fabric_transport_ip) && !is_loopback(f.local_fabric_transport_ip)
    &&& f.local_fabric_generation > 0 && f.directory_generation > 0 && f.policy_generation > 0
    &&& 0 < f.tenant_mtu && f.tenant_mtu <= f.local_fabric_mtu && f.local_fabric_mtu
        <= f.local_underlay_mtu
    &&& encode_utf8(f.proxy_mac).len() == 17
    &&& f.encapsulation.realm_id == f.realm_id && f.encapsulation.binding_generation > 0
    &&& 1 <= f.encapsulation.provider_segment_id <= 1_048_575
    &&& f.directory.realm_id == f.realm_id && f.directory.prefix == f.realm_prefix
    &&& f.directory.directory_generation == f.directory_generation && f.directory.proxy_mac
        == f.proxy_mac
    &&& forall|i: int|
        0 <= i < f.directory.entries.len() ==> f.realm_prefix.has(
            (#[trigger] f.directory.entries[i]).fixed_ip,
        )
}

/// Whether a route leads to where its endpoint is: one endpoint of the directory, at its address,
/// on its host, which a peer of the plan stands for.
pub open spec fn leads_home(f: NamespacedRoutedFabricPlanView, i: int) -> bool {
    let route = f.routes[i];
    &&& route.destination.prefix_len == 32
    &&& route.realm_id == f.realm_id
    &&& route.target_host.len() > 0
    &&& !is_unspecified(route.target_fabric_transport_ip)
    &&& !is_loopback(route.target_fabric_transport_ip)
    &&& route.realm_binding_generation == f.encapsulation.binding_generation
    &&& route.endpoint_generation > 0 && route.placement_generation > 0 && route.fabric_generation
        > 0
    &&& locate(f.directory.entries, route.endpoint_id) matches Some(e) && e.fixed_ip
        == route.destination.network && e.selected_host == route.target_host
    &&& exists|k: int|
        0 <= k < f.peers.len() && (#[trigger] f.peers[k]).host_id == route.target_host
            && f.peers[k].fabric_transport_ip == route.target_fabric_transport_ip
}

/// Whether a peer is another host that some route leads to.
pub open spec fn is_led_to(f: NamespacedRoutedFabricPlanView, k: int) -> bool {
    let peer = f.peers[k];
    &&& peer.host_id != f.local_host && peer.host_id.len() > 0
    &&& peer.public_key.len() > 0 && peer.underlay_endpoint.len() > 0
    &&& peer.fabric_generation > 0
    &&& !is_unspecified(peer.fabric_transport_ip) && !is_loopback(peer.fabric_transport_ip)
    &&& exists|i: int|
        0 <= i < f.routes.len() && (#[trigger] f.routes[i]).target_host == peer.host_id
            && f.routes[i].target_fabric_transport_ip == peer.fabric_transport_ip
}

/// Whether what hangs on the endpoints of a realm is theirs: policies, defaults and public
/// addresses, each complete and none twice.
pub open spec fn parts_are_owned(f: NamespacedRoutedFabricPlanView) -> bool {
    let entries = f.directory.entries;
    let ps = f.policies;
    let ds = f.policy_defaults;
    let bs = f.public_bindings;
    &&& forall|i: int|
        0 <= i < ps.len() ==> (#[trigger] ps[i]).id != 0 && ps[i].endpoint_id != 0 && locate(
            entries,
            ps[i].endpoint_id,
        ) is Some
    &&& forall|i: int, j: int| 0 <= i < j < ps.len() ==> (#[trigger] ps[i]).id != (#[trigger] ps[j]).id
    &&& forall|i: int|
        0 <= i < ds.len() ==> (#[trigger] ds[i]).policy_id != 0 && ds[i].endpoint_id != 0
            && ds[i].generation > 0 && ds[i].stateful_mode == PolicyStatefulMode::Stateful
            && locate(entries, ds[i].endpoint_id) is Some
    &&& forall|i: int, j: int|
        0 <= i < j < ds.len() ==> (#[trigger] ds[i]).endpoint_id != (#[trigger] ds[j]).endpoint_id
    &&& forall|i: int|
        0 <= i < bs.len() ==> (#[trigger] bs[i]).id != 0 && bs[i].project_id.len() > 0
            && bs[i].generation > 0 && bs[i].public_address != 0 && (locate(
            entries,
            bs[i].endpoint_id,
        ) matches Some(e) && e.project_id == bs[i].project_id)
    &&& forall|i: int, j: int|
        0 <= i < j < bs.len() ==> (#[trigger] bs[i]).id != (#[trigger] bs[j]).id
            && bs[i].public_address != bs[j].public_address && bs[i].endpoint_id
            != bs[j].endpoint_id
}

/// Whether the routes and the peers of a plan stand for each other: the routes lead to where the
/// endpoints are and no two to the same, and the peers are other hosts that routes lead to, no two
/// the same.
pub open spec fn ways_are_sound(f: NamespacedRoutedFabricPlanView) -> bool {
    &&& forall|i: int| 0 <= i < f.routes.len() ==> #[trigger] leads_home(f, i)
    &&& forall|i: int, j: int|
        0 <= i < j < f.routes.len() ==> (#[trigger] f.routes[i]).endpoint_id != (
        #[trigger] f.routes[j]).endpoint_id && f.routes[i].destination != f.routes[j].destination
    &&& forall|k: int| 0 <= k < f.peers.len() ==> #[trigger] is_led_to(f, k)
    &&& forall|i: int, j: int|
        0 <= i < j < f.peers.len() ==> (#[trigger] f.peers[i]).host_id != (
        #[trigger] f.peers[j]).host_id && f.peers[i].fabric_transport_ip
            != f.peers[j].fabric_transport_ip
}

proof fn lemma_ways(f: NamespacedRoutedFabricPlanView)
    ensures
        (routes_valid(f) && peers_valid(f)) <==> ways_are_sound(f),
{
    if routes_valid(f) && peers_valid(f) {
        assert forall|i: int| 0 <= i < f.routes.len() implies #[trigger] leads_home(f, i) by {
            assert(route_valid(f, f.routes[i]));
        }
        assert forall|k: int| 0 <= k < f.peers.len() implies #[trigger] is_led_to(f, k) by {
            assert(peer_complete(f, f.peers[k]));
        }
    }
    if ways_are_sound(f) {
        assert forall|i: int| 0 <= i < f.routes.len() implies route_valid(
            f,
            #[trigger] f.routes[i],
        ) && route_has_peer(f.peers, f.routes[i]) by {
            assert(leads_home(f, i));
        }
        assert forall|k: int| 0 <= k < f.peers.len() implies peer_complete(
            f,
            #[trigger] f.peers[k],
        ) && peer_has_route(f.routes, f.peers[k]) by {
            assert(is_led_to(f, k));
        }
    }
}

proof fn lemma_owned(f: NamespacedRoutedFabricPlanView)
    ensures
        (policies_known(f.policies, f.directory.entries) && defaults_known(
            f.policy_defaults,
            f.directory.entries,
        ) && bindings_valid(f.public_bindings, f.directory.entries)) <==> parts_are_owned(f),
{
    let entries = f.directory.entries;
    let bs = f.public_bindings;
    if bindings_valid(bs, entries) {
        assert forall|i: int| 0 <= i < bs.len() implies (#[trigger] bs[i]).id != 0
            && bs[i].project_id.len() > 0 && bs[i].generation > 0 && bs[i].public_address != 0 && (
        locate(entries, bs[i].endpoint_id) matches Some(e) && e.project_id
            == bs[i].project_id) by {
            assert(binding_valid(bs, entries, i));
        }
        assert forall|i: int, j: int| 0 <= i < j < bs.len() implies (#[trigger] bs[i]).id != (
        #[trigger] bs[j]).id && bs[i].public_address != bs[j].public_address && bs[i].endpoint_id
            != bs[j].endpoint_id by {
            assert(binding_valid(bs, entries, j));
        }
    }
    if parts_are_owned(f) {
        assert forall|i: int| 0 <= i < bs.len() implies #[trigger] binding_valid(
            bs,
            entries,
            i,
        ) by {
            assert(bs[i].id != 0);
        }
    }
}

/// The plan of a realm is admitted to a node exactly if it fits the node, its routes and peers stand
/// for each other, and all that hangs on its endpoints is theirs.
pub proof fn lemma_admitted_iff_sound(f: NamespacedRoutedFabricPlanView, node_id: Seq<char>)
    ensures
        fabric_admissible(f, node_id) <==> fits_node(f, node_id) && ways_are_sound(f)
            && parts_are_owned(f),
{
    lemma_ways(f);
    lemma_owned(f);
}

} // verus!
