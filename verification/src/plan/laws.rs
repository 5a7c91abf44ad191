//! What holds of compiled plans.
use super::compile::{
    broadcast, compile_result, compiled, endpoint_error, endpoint_repeated, endpoints_error,
    plain_intents, realm_gateway, rejection,
};
use super::fingerprint::fingerprint;
use super::order::{intents_sorted, lemma_sort_permutes, lemma_sorted};
use super::types::{NetworkPlanError, NodeNetworkPlanView};
use crate::domain::{AddressRealmView, NetworkCapability, NetworkIntentView};
use crate::fabric::naming::is_mac;
use crate::text::lower;
use vstd::prelude::*;

verus! {

/// The fingerprint of a compiled plan is the one that an executor recomputes.
pub proof fn lemma_compiled_is_signed(
    intent: NetworkIntentView,
    node_id: Seq<char>,
    operation_id: u128,
    deadline_unix_ms: u64,
)
    ensures
        compiled(intent, node_id, operation_id, deadline_unix_ms).fingerprint_sha256 == fingerprint(
            compiled(intent, node_id, operation_id, deadline_unix_ms),
        ),
{
}

/// A retry of a compilation with another deadline gives the same fingerprint.
pub proof fn lemma_retry_keeps_fingerprint(
    intent: NetworkIntentView,
    node_id: Seq<char>,
    operation_id: u128,
    first: u64,
    second: u64,
)
    ensures
        compiled(intent, node_id, operation_id, first).fingerprint_sha256 == compiled(
            intent,
            node_id,
            operation_id,
            second,
        ).fingerprint_sha256,
{
}

/// The intents of a compiled plan are those of the network, in the order of their encodings.
pub proof fn lemma_compiled_intents(
    intent: NetworkIntentView,
    node_id: Seq<char>,
    operation_id: u128,
    deadline_unix_ms: u64,
)
    ensures
        ({
            let plan = compiled(intent, node_id, operation_id, deadline_unix_ms);
            let gateway = realm_gateway(intent.realm.prefix, intent.address_pools)->0;
            &&& intents_sorted(plan.intents)
            &&& plan.intents.to_multiset() == plain_intents(intent, gateway).to_multiset()
        }),
{
    let gateway = realm_gateway(intent.realm.prefix, intent.address_pools)->0;
    lemma_sorted(plain_intents(intent, gateway));
    lemma_sort_permutes(plain_intents(intent, gateway));
}

proof fn lemma_no_endpoint_error(intent: NetworkIntentView, gateway: u32, i: int, k: int)
    requires
        0 <= i <= k < intent.endpoints.len(),
        endpoints_error(intent, gateway, i) is None,
    ensures
        endpoint_error(intent, gateway, k) is None,
    decreases k - i,
{
    if i < k {
        lemma_no_endpoint_error(intent, gateway, i + 1, k);
    }
}

/// Every endpoint of an accepted intent has a host address of the realm that is not the gateway's
/// and a well-formed hardware address.
pub proof fn lemma_accepted_endpoint(
    intent: NetworkIntentView,
    node_id: Seq<char>,
    caps: Seq<NetworkCapability>,
    realms: Seq<AddressRealmView>,
    i: int,
)
    requires
        rejection(intent, node_id, caps, realms) is None,
        0 <= i < intent.endpoints.len(),
    ensures
        intent.realm.prefix.has(intent.endpoints[i].fixed_ip),
        intent.endpoints[i].fixed_ip != intent.realm.prefix.network,
        Some(intent.endpoints[i].fixed_ip) != broadcast(intent.realm.prefix),
        Some(intent.endpoints[i].fixed_ip) != realm_gateway(
            intent.realm.prefix,
            intent.address_pools,
        ),
        is_mac(lower(intent.endpoints[i].mac)),
{
    let gateway = realm_gateway(intent.realm.prefix, intent.address_pools)->0;
    lemma_no_endpoint_error(intent, gateway, 0, i);
}

/// No two endpoints of an accepted intent share an identity, an address or a hardware address,
/// whatever the case of its letters.
pub proof fn lemma_accepted_endpoints_differ(
    intent: NetworkIntentView,
    node_id: Seq<char>,
    caps: Seq<NetworkCapability>,
    realms: Seq<AddressRealmView>,
    i: int,
    j: int,
)
    requires
        rejection(intent, node_id, caps, realms) is None,
        0 <= i < j < intent.endpoints.len(),
    ensures
        intent.endpoints[i].id != intent.endpoints[j].id,
        intent.endpoints[i].fixed_ip != intent.endpoints[j].fixed_ip,
        lower(intent.endpoints[i].mac) != lower(intent.endpoints[j].mac),
{
    let gateway = realm_gateway(intent.realm.prefix, intent.address_pools)->0;
    lemma_no_endpoint_error(intent, gateway, 0, j);
    assert(!endpoint_repeated(intent.endpoints, j));
}

/// The gateway of an accepted intent can be allocated from none of its pools.
pub proof fn lemma_accepted_pool_spares_gateway(
    intent: NetworkIntentView,
    node_id: Seq<char>,
    caps: Seq<NetworkCapability>,
    realms: Seq<AddressRealmView>,
    i: int,
)
    requires
        rejection(intent, node_id, caps, realms) is None,
        0 <= i < intent.address_pools.len(),
    ensures
        ({
            let pool = intent.address_pools[i];
            let gateway = realm_gateway(intent.realm.prefix, intent.address_pools);
            &&& gateway matches Some(g)
            &&& !(pool.first_usable <= g <= pool.last_usable)
        }),
{
    let gateway = realm_gateway(intent.realm.prefix, intent.address_pools)->0;
    assert(super::compile::pool_valid(intent, intent.address_pools[i], gateway));
}

/// A prefix that overlaps another realm is rejected where the realm does not allow it, whatever
/// the provider can do.
pub proof fn lemma_overlap_needs_consent(
    intent: NetworkIntentView,
    node_id: Seq<char>,
    operation_id: u128,
    deadline_unix_ms: u64,
    caps: Seq<NetworkCapability>,
    realms: Seq<AddressRealmView>,
)
    requires
        node_id.len() > 0,
        intent.realm.project_id == intent.project_id,
        super::compile::overlaps_other(realms, intent.realm),
        !intent.realm.overlapping_prefixes,
    ensures
        compile_result(intent, node_id, operation_id, deadline_unix_ms, caps, realms) == Err::<
            NodeNetworkPlanView,
            NetworkPlanError,
        >(NetworkPlanError::OverlappingRealm),
{
}

} // verus!
