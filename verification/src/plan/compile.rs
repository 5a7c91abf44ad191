//! Compiling canonical intent into the plan of a node.
use super::fingerprint::{fingerprint, fingerprint_of};
use super::order::{sort_intents, sorted_intents};
use super::types::{
    plan_view, NetworkPlanError, NetworkPlanIntent, NetworkPlanIntentView, NodeNetworkPlan, NodeNetworkPlanView,
    ResourceGeneration, NODE_NETWORK_PLAN_SCHEMA_VERSION,
};
use crate::domain::{
    AddressPool, AddressPoolView, AddressRealm, AddressRealmView, EgressIntent, EndpointIntent,
    EndpointIntentView, GatewayIntent, NetworkCapability, NetworkIntent, NetworkIntentView,
    NetworkProtocol, PolicyDirection, PolicyIntent, PublicAddressBindingIntent,
    PublicAddressBindingIntentView, RouteIntent,
};
use crate::fabric::naming::{is_mac, valid_mac};
use crate::ipv4::{block, block_of, Ipv4Prefix};
use crate::model::{views, Model};
use crate::table::{id_put, put_id};
use crate::text::{lower, same, to_lower};
use vstd::prelude::*;

verus! {

// ---------------------------------------------------------------------------
// Realms and capabilities
// ---------------------------------------------------------------------------

/// Whether the prefix of a realm overlaps that of another realm.
pub open spec fn overlaps_other(realms: Seq<AddressRealmView>, realm: AddressRealmView) -> bool {
    exists|i: int|
        0 <= i < realms.len() && (#[trigger] realms[i]).id != realm.id && realms[i].prefix.meets(
            realm.prefix,
        )
}

fn overlaps_any(realms: &Vec<AddressRealm>, realm: &AddressRealm) -> (r: bool)
    ensures
        r == overlaps_other(views(realms@), realm@),
{
    let ghost rs = views(realms@);
    for i in 0..realms.len()
        invariant
            rs == views(realms@),
            forall|k: int|
                0 <= k < i ==> !((#[trigger] rs[k]).id != realm@.id && rs[k].prefix.meets(
                    realm@.prefix,
                )),
    {
        assert(rs[i as int] == realms@[i as int]@);
        if realms[i].id != realm.id && realms[i].prefix.overlaps(&realm.prefix) {
            return true;
        }
    }
    false
}

fn has_capability(caps: &Vec<NetworkCapability>, c: NetworkCapability) -> (r: bool)
    ensures
        r == caps@.contains(c),
{
    for i in 0..caps.len()
        invariant
            forall|k: int| 0 <= k < i ==> caps@[k] != c,
    {
        if caps[i] == c {
            assert(caps@[i as int] == c);
            return true;
        }
    }
    false
}

/// Whether some way to an external realm is enabled.
pub open spec fn egress_enabled(es: Seq<EgressIntent>) -> bool {
    exists|i: int| 0 <= i < es.len() && (#[trigger] es[i]).enabled
}

/// Whether some way to an external realm translates addresses.
pub open spec fn egress_nat(es: Seq<EgressIntent>) -> bool {
    exists|i: int| 0 <= i < es.len() && (#[trigger] es[i]).nat
}

/// The capabilities that an intent needs, in the order in which they are asked for.
pub open spec fn required(intent: NetworkIntentView) -> Seq<NetworkCapability> {
    let c0 = Seq::empty().push(NetworkCapability::Ipv4).push(NetworkCapability::EndpointAttachment);
    let c1 = if intent.routes.len() > 0 {
        c0.push(NetworkCapability::Routing)
    } else {
        c0
    };
    let c2 = if intent.gateways.len() > 0 {
        c1.push(NetworkCapability::Routing)
    } else {
        c1
    };
    let c3 = if egress_enabled(intent.egress) {
        let c = c2.push(NetworkCapability::Routing);
        if egress_nat(intent.egress) {
            c.push(NetworkCapability::Nat)
        } else {
            c
        }
    } else {
        c2
    };
    let c4 = if intent.public_addresses.len() > 0 {
        c3.push(NetworkCapability::PublicAddressRealization)
    } else {
        c3
    };
    if intent.policies.len() > 0 {
        c4.push(NetworkCapability::StatefulPolicy)
    } else {
        c4
    }
}

/// The first capability that is needed and not there.
pub open spec fn first_missing(
    needed: Seq<NetworkCapability>,
    caps: Seq<NetworkCapability>,
    i: int,
) -> Option<NetworkCapability>
    decreases needed.len() - i,
{
    if i < 0 || i >= needed.len() {
        None
    } else if caps.contains(needed[i]) {
        first_missing(needed, caps, i + 1)
    } else {
        Some(needed[i])
    }
}

fn required_of(intent: &NetworkIntent) -> (r: Vec<NetworkCapability>)
    ensures
        r@ == required(intent@),
{
    let ghost es = intent@.egress;
    let mut enabled = false;
    let mut translates = false;
    for i in 0..intent.egress.len()
        invariant
            es == intent@.egress,
            es == views(intent.egress@),
            enabled == exists|k: int| 0 <= k < i && (#[trigger] es[k]).enabled,
            translates == exists|k: int| 0 <= k < i && (#[trigger] es[k]).nat,
    {
        assert(es[i as int] == intent.egress@[i as int]);
        if intent.egress[i].enabled {
            assert(es[i as int].enabled);
            enabled = true;
        }
        if intent.egress[i].nat {
            assert(es[i as int].nat);
            translates = true;
        }
    }
    assert(enabled == egress_enabled(es) && translates == egress_nat(es));
    assert(intent@.routes.len() == intent.routes@.len());
    assert(intent@.gateways.len() == intent.gateways@.len());
    assert(intent@.public_addresses.len() == intent.public_addresses@.len());
    assert(intent@.policies.len() == intent.policies@.len());
    let mut c: Vec<NetworkCapability> = Vec::new();
    c.push(NetworkCapability::Ipv4);
    c.push(NetworkCapability::EndpointAttachment);
    if intent.routes.len() > 0 {
        c.push(NetworkCapability::Routing);
    }
    if intent.gateways.len() > 0 {
        c.push(NetworkCapability::Routing);
    }
    if enabled {
        c.push(NetworkCapability::Routing);
        if translates {
            c.push(NetworkCapability::Nat);
        }
    }
    if intent.public_addresses.len() > 0 {
        c.push(NetworkCapability::PublicAddressRealization);
    }
    if intent.policies.len() > 0 {
        c.push(NetworkCapability::StatefulPolicy);
    }
    c
}

fn first_missing_of(needed: &Vec<NetworkCapability>, caps: &Vec<NetworkCapability>) -> (r: Option<
    NetworkCapability,
>)
    ensures
        r == first_missing(needed@, caps@, 0),
{
    for i in 0..needed.len()
        invariant
            first_missing(needed@, caps@, 0) == first_missing(needed@, caps@, i as int),
    {
        if !has_capability(caps, needed[i]) {
            return Some(needed[i]);
        }
    }
    None
}

// ---------------------------------------------------------------------------
// Gateway and pools
// ---------------------------------------------------------------------------

/// The gateway of the first pool, from the one at `i` on, that has one.
pub open spec fn pool_gateway(pools: Seq<AddressPoolView>, i: int) -> Option<u32>
    decreases pools.len() - i,
{
    if i < 0 || i >= pools.len() {
        None
    } else if pools[i].gateway is Some {
        pools[i].gateway
    } else {
        pool_gateway(pools, i + 1)
    }
}

/// The gateway of a realm: that of a pool, or the first address behind the network address.
pub open spec fn realm_gateway(prefix: Ipv4Prefix, pools: Seq<AddressPoolView>) -> Option<u32> {
    match pool_gateway(pools, 0) {
        Some(g) => Some(g),
        None => if prefix.network < u32::MAX {
            Some((prefix.network + 1) as u32)
        } else {
            None
        },
    }
}

fn realm_gateway_of(prefix: &Ipv4Prefix, pools: &Vec<AddressPool>) -> (r: Option<u32>)
    ensures
        r == realm_gateway(*prefix, views(pools@)),
{
    let ghost ps = views(pools@);
    for i in 0..pools.len()
        invariant
            ps == views(pools@),
            pool_gateway(ps, 0) == pool_gateway(ps, i as int),
    {
        assert(ps[i as int] == pools@[i as int]@);
        if pools[i].gateway.is_some() {
            return pools[i].gateway;
        }
    }
    prefix.network.checked_add(1)
}

/// The last address under a prefix, where it is an address at all.
pub open spec fn broadcast(prefix: Ipv4Prefix) -> Option<u32> {
    let last = prefix.network + block(prefix.prefix_len as int) - 1;
    if last <= u32::MAX {
        Some(last as u32)
    } else {
        None
    }
}

/// Computes [`broadcast`].
pub fn broadcast_address(prefix: Ipv4Prefix) -> (r: Option<u32>)
    ensures
        r == broadcast(prefix),
{
    let last: u64 = prefix.network as u64 + block_of(prefix.prefix_len) - 1;
    if last <= u32::MAX as u64 {
        Some(last as u32)
    } else {
        None
    }
}

/// Whether a pool of a network is sound: it belongs to the network's project and realm, its range
/// lies inside its prefix and the realm, and neither its own gateway nor the realm's can be
/// allocated from it.
pub open spec fn pool_valid(intent: NetworkIntentView, pool: AddressPoolView, gateway: u32) -> bool {
    let last = broadcast(pool.prefix);
    &&& pool.project_id == intent.project_id
    &&& pool.realm_id == intent.realm.id
    &&& pool.prefix.prefix_len >= intent.realm.prefix.prefix_len
    &&& intent.realm.prefix.has(pool.prefix.network)
    &&& pool.prefix.has(pool.first_usable)
    &&& pool.prefix.has(pool.last_usable)
    &&& pool.first_usable != pool.prefix.network
    &&& pool.last_usable != pool.prefix.network
    &&& Some(pool.first_usable) != last
    &&& Some(pool.last_usable) != last
    &&& pool.first_usable <= pool.last_usable
    &&& pool.gateway matches Some(own) ==> pool.prefix.has(own) && own != pool.prefix.network
        && Some(own) != last && !(pool.first_usable <= own <= pool.last_usable)
    &&& !(pool.first_usable <= gateway <= pool.last_usable)
}

fn pool_is_valid(intent: &NetworkIntent, pool: &AddressPool, gateway: u32) -> (r: bool)
    ensures
        r == pool_valid(intent@, pool@, gateway),
{
    let last = broadcast_address(pool.prefix);
    let (ends_free, own_free) = match last {
        Some(b) => (
            pool.first_usable != b && pool.last_usable != b,
            match pool.gateway {
                Some(own) => own != b,
                None => true,
            },
        ),
        None => (true, true),
    };
    let own_ok = match pool.gateway {
        Some(own) => pool.prefix.contains(own) && own != pool.prefix.network && own_free && !(
        pool.first_usable <= own && own <= pool.last_usable),
        None => true,
    };
    same(pool.project_id.as_str(), intent.project_id.as_str()) && pool.realm_id == intent.realm.id
        && pool.prefix.prefix_len >= intent.realm.prefix.prefix_len && intent.realm.prefix.contains(
        pool.prefix.network,
    ) && pool.prefix.contains(pool.first_usable) && pool.prefix.contains(pool.last_usable)
        && pool.first_usable != pool.prefix.network && pool.last_usable != pool.prefix.network
        && ends_free && pool.first_usable <= pool.last_usable && own_ok && !(pool.first_usable
        <= gateway && gateway <= pool.last_usable)
}

/// Whether all pools of a network are sound.
pub open spec fn pools_valid(intent: NetworkIntentView, gateway: u32) -> bool {
    forall|i: int|
        0 <= i < intent.address_pools.len() ==> pool_valid(
            intent,
            #[trigger] intent.address_pools[i],
            gateway,
        )
}

fn pools_are_valid(intent: &NetworkIntent, gateway: u32) -> (r: bool)
    ensures
        r == pools_valid(intent@, gateway),
{
    let ghost ps = intent@.address_pools;
    for i in 0..intent.address_pools.len()
        invariant
            ps == intent@.address_pools,
            ps == views(intent.address_pools@),
            forall|k: int| 0 <= k < i ==> pool_valid(intent@, #[trigger] ps[k], gateway),
    {
        assert(ps[i as int] == intent.address_pools@[i as int]@);
        if !pool_is_valid(intent, &intent.address_pools[i], gateway) {
            return false;
        }
    }
    true
}

// ---------------------------------------------------------------------------
// Endpoints
// ---------------------------------------------------------------------------

/// Whether an endpoint belongs to the network's project and has a host address of its realm.
pub open spec fn endpoint_inside(intent: NetworkIntentView, e: EndpointIntentView) -> bool {
    &&& e.project_id == intent.project_id
    &&& intent.realm.prefix.has(e.fixed_ip)
    &&& e.fixed_ip != intent.realm.prefix.network
    &&& Some(e.fixed_ip) != broadcast(intent.realm.prefix)
}

/// Whether the endpoint at `i` has an identity, an address or a hardware address of one before
/// it.
pub open spec fn endpoint_repeated(es: Seq<EndpointIntentView>, i: int) -> bool {
    exists|k: int|
        0 <= k < i && ((#[trigger] es[k]).id == es[i].id || es[k].fixed_ip == es[i].fixed_ip
            || lower(es[k].mac) == lower(es[i].mac))
}

/// Why the endpoint at `i` is rejected.
pub open spec fn endpoint_error(intent: NetworkIntentView, gateway: u32, i: int) -> Option<
    NetworkPlanError,
> {
    let e = intent.endpoints[i];
    if !endpoint_inside(intent, e) {
        Some(NetworkPlanError::AddressOutsideRealm)
    } else if !is_mac(lower(e.mac)) || endpoint_repeated(intent.endpoints, i) || e.fixed_ip
        == gateway {
        Some(NetworkPlanError::ConflictingEndpoint)
    } else {
        None
    }
}

/// Why the first endpoint, from the one at `i` on, that is rejected is rejected.
pub open spec fn endpoints_error(intent: NetworkIntentView, gateway: u32, i: int) -> Option<
    NetworkPlanError,
>
    decreases intent.endpoints.len() - i,
{
    if i < 0 || i >= intent.endpoints.len() {
        None
    } else if endpoint_error(intent, gateway, i) is Some {
        endpoint_error(intent, gateway, i)
    } else {
        endpoints_error(intent, gateway, i + 1)
    }
}

fn endpoint_is_repeated(es: &Vec<EndpointIntent>, i: usize) -> (r: bool)
    requires
        i < es.len(),
    ensures
        r == endpoint_repeated(views(es@), i as int),
{
    let ghost vs = views(es@);
    let mac = to_lower(es[i].mac.as_str());
    assert(vs[i as int] == es@[i as int]@);
    for k in 0..i
        invariant
            i < es.len(),
            vs == views(es@),
            vs[i as int] == es@[i as int]@,
            mac@ == lower(vs[i as int].mac),
            forall|j: int|
                0 <= j < k ==> !((#[trigger] vs[j]).id == vs[i as int].id || vs[j].fixed_ip
                    == vs[i as int].fixed_ip || lower(vs[j].mac) == lower(vs[i as int].mac)),
    {
        assert(vs[k as int] == es@[k as int]@);
        let other = to_lower(es[k].mac.as_str());
        if es[k].id == es[i].id || es[k].fixed_ip == es[i].fixed_ip || same(
            other.as_str(),
            mac.as_str(),
        ) {
            return true;
        }
    }
    false
}

fn endpoint_is_inside(intent: &NetworkIntent, e: &EndpointIntent) -> (r: bool)
    ensures
        r == endpoint_inside(intent@, e@),
{
    let last_ok = match broadcast_address(intent.realm.prefix) {
        Some(b) => e.fixed_ip != b,
        None => true,
    };
    same(e.project_id.as_str(), intent.project_id.as_str()) && intent.realm.prefix.contains(
        e.fixed_ip,
    ) && e.fixed_ip != intent.realm.prefix.network && last_ok
}

fn endpoints_error_of(intent: &NetworkIntent, gateway: u32) -> (r: Option<NetworkPlanError>)
    ensures
        r == endpoints_error(intent@, gateway, 0),
{
    let ghost es = intent@.endpoints;
    for i in 0..intent.endpoints.len()
        invariant
            es == intent@.endpoints,
            es == views(intent.endpoints@),
            endpoints_error(intent@, gateway, 0) == endpoints_error(intent@, gateway, i as int),
    {
        let e = &intent.endpoints[i];
        assert(es[i as int] == e@);
        if !endpoint_is_inside(intent, e) {
            return Some(NetworkPlanError::AddressOutsideRealm);
        }
        let mac = to_lower(e.mac.as_str());
        if !valid_mac(mac.as_str()) || endpoint_is_repeated(&intent.endpoints, i) || e.fixed_ip
            == gateway {
            return Some(NetworkPlanError::ConflictingEndpoint);
        }
    }
    None
}

/// The generations of the endpoints, added to those in `table`, from the one at `i` on.
pub open spec fn endpoint_generations(
    table: Seq<ResourceGeneration>,
    es: Seq<EndpointIntentView>,
    i: int,
) -> Seq<ResourceGeneration>
    decreases es.len() - i,
{
    if i < 0 || i >= es.len() {
        table
    } else {
        endpoint_generations(
            id_put::<ResourceGeneration>(
                table,
                ResourceGeneration { id: es[i].id, generation: es[i].generation },
            ),
            es,
            i + 1,
        )
    }
}

fn endpoint_generations_of(es: &Vec<EndpointIntent>) -> (r: Vec<ResourceGeneration>)
    ensures
        views(r@) == endpoint_generations(Seq::empty(), views(es@), 0),
{
    let mut table: Vec<ResourceGeneration> = Vec::new();
    let ghost vs = views(es@);
    assert(views(table@) =~= Seq::<ResourceGeneration>::empty());
    for i in 0..es.len()
        invariant
            vs == views(es@),
            endpoint_generations(Seq::empty(), vs, 0) == endpoint_generations(
                views(table@),
                vs,
                i as int,
            ),
    {
        assert(vs[i as int] == es@[i as int]@);
        put_id(&mut table, ResourceGeneration { id: es[i].id, generation: es[i].generation });
    }
    table
}

/// Whether an endpoint of the network has an identity.
pub open spec fn has_endpoint(es: Seq<EndpointIntentView>, id: u128) -> bool {
    exists|i: int| 0 <= i < es.len() && (#[trigger] es[i]).id == id
}

fn has_endpoint_id(es: &Vec<EndpointIntent>, id: u128) -> (r: bool)
    ensures
        r == has_endpoint(views(es@), id),
{
    let ghost vs = views(es@);
    for i in 0..es.len()
        invariant
            vs == views(es@),
            forall|k: int| 0 <= k < i ==> (#[trigger] vs[k]).id != id,
    {
        assert(vs[i as int] == es@[i as int]@);
        if es[i].id == id {
            return true;
        }
    }
    false
}

// ---------------------------------------------------------------------------
// Public addresses, policies and gateways
// ---------------------------------------------------------------------------

/// Whether the public addresses belong to the network's project and endpoints and none occurs
/// twice.
pub open spec fn public_addresses_valid(intent: NetworkIntentView) -> bool {
    let bs = intent.public_addresses;
    &&& forall|i: int|
        0 <= i < bs.len() ==> (#[trigger] bs[i]).project_id == intent.project_id && has_endpoint(
            intent.endpoints,
            bs[i].endpoint_id,
        )
    &&& forall|i: int, j: int|
        0 <= i < j < bs.len() ==> (#[trigger] bs[i]).public_address != (
        #[trigger] bs[j]).public_address
}

fn public_addresses_are_valid(intent: &NetworkIntent) -> (r: bool)
    ensures
        r == public_addresses_valid(intent@),
{
    let ghost bs = intent@.public_addresses;
    for i in 0..intent.public_addresses.len()
        invariant
            bs == intent@.public_addresses,
            bs == views(intent.public_addresses@),
            forall|k: int|
                0 <= k < i ==> (#[trigger] bs[k]).project_id == intent@.project_id && has_endpoint(
                    intent@.endpoints,
                    bs[k].endpoint_id,
                ),
            forall|k: int, j: int|
                0 <= k < j < i ==> (#[trigger] bs[k]).public_address != (
                #[trigger] bs[j]).public_address,
    {
        let b = &intent.public_addresses[i];
        assert(bs[i as int] == b@);
        if !same(b.project_id.as_str(), intent.project_id.as_str()) || !has_endpoint_id(
            &intent.endpoints,
            b.endpoint_id,
        ) {
            return false;
        }
        for k in 0..i
            invariant
                i < intent.public_addresses.len(),
                bs == intent@.public_addresses,
                bs == views(intent.public_addresses@),
                b@ == bs[i as int],
                forall|j: int|
                    0 <= j < k ==> (#[trigger] bs[j]).public_address != b@.public_address,
        {
            assert(bs[k as int] == intent.public_addresses@[k as int]@);
            if intent.public_addresses[k].public_address == b.public_address {
                return false;
            }
        }
    }
    true
}

/// Whether a policy is well formed and of one of the network's endpoints.
pub open spec fn network_policy_valid(es: Seq<EndpointIntentView>, p: PolicyIntent) -> bool {
    has_endpoint(es, p.endpoint_id) && policy_shape_valid(p)
}

/// Whether the ports of a policy are a range of a protocol that has ports, and only the other end
/// of the traffic is restricted.
pub open spec fn policy_shape_valid(p: PolicyIntent) -> bool {
    &&& p.ports matches Some(ports) ==> ports.start <= ports.end && p.protocol
        != NetworkProtocol::Any && p.protocol != NetworkProtocol::Icmp
    &&& p.direction == PolicyDirection::Ingress ==> p.destination is None
    &&& p.direction == PolicyDirection::Egress ==> p.source is None
}

/// Decides [`policy_shape_valid`].
pub fn policy_shape_ok(p: &PolicyIntent) -> (r: bool)
    ensures
        r == policy_shape_valid(*p),
{
    match p.ports {
        Some(ports) => {
            if ports.start > ports.end || p.protocol == NetworkProtocol::Any || p.protocol
                == NetworkProtocol::Icmp {
                return false;
            }
        },
        None => {},
    }
    match p.direction {
        PolicyDirection::Ingress => p.destination.is_none(),
        PolicyDirection::Egress => p.source.is_none(),
    }
}

/// Whether all policies of a network are well formed and of its endpoints.
pub open spec fn network_policies_valid(intent: NetworkIntentView) -> bool {
    forall|i: int|
        0 <= i < intent.policies.len() ==> network_policy_valid(
            intent.endpoints,
            #[trigger] intent.policies[i],
        )
}

fn network_policies_are_valid(intent: &NetworkIntent) -> (r: bool)
    ensures
        r == network_policies_valid(intent@),
{
    let ghost ps = intent@.policies;
    for i in 0..intent.policies.len()
        invariant
            ps == intent@.policies,
            ps == views(intent.policies@),
            forall|k: int|
                0 <= k < i ==> network_policy_valid(intent@.endpoints, #[trigger] ps[k]),
    {
        let p = &intent.policies[i];
        assert(ps[i as int] == *p);
        if !has_endpoint_id(&intent.endpoints, p.endpoint_id) || !policy_shape_ok(p) {
            return false;
        }
    }
    true
}

/// Whether all gateways that are not external lie in the realm.
pub open spec fn gateways_inside(intent: NetworkIntentView) -> bool {
    forall|i: int|
        0 <= i < intent.gateways.len() ==> (#[trigger] intent.gateways[i]).external
            || intent.realm.prefix.has(intent.gateways[i].gateway)
}

fn gateways_are_inside(intent: &NetworkIntent) -> (r: bool)
    ensures
        r == gateways_inside(intent@),
{
    let ghost gs = intent@.gateways;
    for i in 0..intent.gateways.len()
        invariant
            gs == intent@.gateways,
            gs == views(intent.gateways@),
            forall|k: int|
                0 <= k < i ==> (#[trigger] gs[k]).external || intent@.realm.prefix.has(
                    gs[k].gateway,
                ),
    {
        let g = intent.gateways[i];
        assert(gs[i as int] == g);
        if !g.external && !intent.realm.prefix.contains(g.gateway) {
            return false;
        }
    }
    true
}

// ---------------------------------------------------------------------------
// The intents of the plan
// ---------------------------------------------------------------------------

/// The intents of the endpoints.
pub open spec fn endpoint_intents(es: Seq<EndpointIntentView>) -> Seq<NetworkPlanIntentView>
    decreases es.len(),
{
    if es.len() == 0 {
        Seq::empty()
    } else {
        let e = es.last();
        endpoint_intents(es.drop_last()).push(
            NetworkPlanIntentView::EndpointAttachment {
                endpoint_id: e.id,
                mac: lower(e.mac),
                fixed_ip: e.fixed_ip,
                generation: e.generation,
            },
        ).push(
            NetworkPlanIntentView::AddressAssignment {
                endpoint_id: e.id,
                address: e.fixed_ip,
                generation: e.generation,
            },
        )
    }
}

/// The intents of a network before they are put in order.
pub open spec fn plain_intents(intent: NetworkIntentView, gateway: u32) -> Seq<
    NetworkPlanIntentView,
> {
    Seq::empty().push(
        NetworkPlanIntentView::AddressRealm {
            realm_id: intent.realm.id,
            prefix: intent.realm.prefix,
            gateway,
        },
    ) + endpoint_intents(intent.endpoints) + intent.routes.map_values(
        |x: RouteIntent| NetworkPlanIntentView::Route(x),
    ) + intent.gateways.map_values(|x: GatewayIntent| NetworkPlanIntentView::Gateway(x))
        + intent.egress.map_values(|x: EgressIntent| NetworkPlanIntentView::Egress(x))
        + intent.public_addresses.map_values(
        |x: PublicAddressBindingIntentView| NetworkPlanIntentView::PublicAddressBinding(x),
    ) + intent.policies.map_values(|x: PolicyIntent| NetworkPlanIntentView::Policy(x))
}

fn add_endpoint_intents(out: &mut Vec<NetworkPlanIntent>, es: &Vec<EndpointIntent>)
    ensures
        views(final(out)@) == views(old(out)@) + endpoint_intents(views(es@)),
{
    let ghost start = views(out@);
    let ghost vs = views(es@);
    assert(vs.take(0) =~= Seq::<EndpointIntentView>::empty());
    assert(start + endpoint_intents(vs.take(0)) =~= start);
    for i in 0..es.len()
        invariant
            vs == views(es@),
            views(out@) == start + endpoint_intents(vs.take(i as int)),
    {
        let e = &es[i];
        assert(vs[i as int] == e@);
        assert(vs.take(i + 1).drop_last() =~= vs.take(i as int));
        let a = NetworkPlanIntent::EndpointAttachment {
            endpoint_id: e.id,
            mac: to_lower(e.mac.as_str()),
            fixed_ip: e.fixed_ip,
            generation: e.generation,
        };
        let b = NetworkPlanIntent::AddressAssignment {
            endpoint_id: e.id,
            address: e.fixed_ip,
            generation: e.generation,
        };
        let ghost before = views(out@);
        let ghost av = a@;
        let ghost bv = b@;
        out.push(a);
        out.push(b);
        assert(views(out@) =~= before.push(av).push(bv));
        assert(views(out@) =~= start + endpoint_intents(vs.take(i + 1)));
    }
    assert(vs.take(vs.len() as int) =~= vs);
}

fn add_routes(out: &mut Vec<NetworkPlanIntent>, xs: &Vec<RouteIntent>)
    ensures
        views(final(out)@) == views(old(out)@) + views(xs@).map_values(
            |x: RouteIntent| NetworkPlanIntentView::Route(x),
        ),
{
    let ghost start = views(out@);
    let ghost all = views(xs@).map_values(|x: RouteIntent| NetworkPlanIntentView::Route(x));
    assert(start + all.take(0) =~= start);
    for i in 0..xs.len()
        invariant
            all == views(xs@).map_values(|x: RouteIntent| NetworkPlanIntentView::Route(x)),
            views(out@) == start + all.take(i as int),
    {
        let ghost before = views(out@);
        out.push(NetworkPlanIntent::Route(xs[i]));
        assert(views(out@) =~= before.push(NetworkPlanIntentView::Route(xs@[i as int])));
        assert(views(out@) =~= start + all.take(i + 1));
    }
    assert(all.take(all.len() as int) =~= all);
}

/// Adds gateways to the intents of a plan.
pub fn add_gateways(out: &mut Vec<NetworkPlanIntent>, xs: &Vec<GatewayIntent>)
    ensures
        views(final(out)@) == views(old(out)@) + views(xs@).map_values(
            |x: GatewayIntent| NetworkPlanIntentView::Gateway(x),
        ),
{
    let ghost start = views(out@);
    let ghost all = views(xs@).map_values(|x: GatewayIntent| NetworkPlanIntentView::Gateway(x));
    assert(start + all.take(0) =~= start);
    for i in 0..xs.len()
        invariant
            all == views(xs@).map_values(|x: GatewayIntent| NetworkPlanIntentView::Gateway(x)),
            views(out@) == start + all.take(i as int),
    {
        let ghost before = views(out@);
        out.push(NetworkPlanIntent::Gateway(xs[i]));
        assert(views(out@) =~= before.push(NetworkPlanIntentView::Gateway(xs@[i as int])));
        assert(views(out@) =~= start + all.take(i + 1));
    }
    assert(all.take(all.len() as int) =~= all);
}

/// Adds ways to external realms to the intents of a plan.
pub fn add_egress(out: &mut Vec<NetworkPlanIntent>, xs: &Vec<EgressIntent>)
    ensures
        views(final(out)@) == views(old(out)@) + views(xs@).map_values(
            |x: EgressIntent| NetworkPlanIntentView::Egress(x),
        ),
{
    let ghost start = views(out@);
    let ghost all = views(xs@).map_values(|x: EgressIntent| NetworkPlanIntentView::Egress(x));
    assert(start + all.take(0) =~= start);
    for i in 0..xs.len()
        invariant
            all == views(xs@).map_values(|x: EgressIntent| NetworkPlanIntentView::Egress(x)),
            views(out@) == start + all.take(i as int),
    {
        let ghost before = views(out@);
        out.push(NetworkPlanIntent::Egress(xs[i]));
        assert(views(out@) =~= before.push(NetworkPlanIntentView::Egress(xs@[i as int])));
        assert(views(out@) =~= start + all.take(i + 1));
    }
    assert(all.take(all.len() as int) =~= all);
}

fn add_bindings(out: &mut Vec<NetworkPlanIntent>, xs: &Vec<PublicAddressBindingIntent>)
    ensures
        views(final(out)@) == views(old(out)@) + views(xs@).map_values(
            |x: PublicAddressBindingIntentView| NetworkPlanIntentView::PublicAddressBinding(x),
        ),
{
    let ghost start = views(out@);
    let ghost all = views(xs@).map_values(
        |x: PublicAddressBindingIntentView| NetworkPlanIntentView::PublicAddressBinding(x),
    );
    assert(start + all.take(0) =~= start);
    for i in 0..xs.len()
        invariant
            all == views(xs@).map_values(
                |x: PublicAddressBindingIntentView| NetworkPlanIntentView::PublicAddressBinding(x),
            ),
            views(out@) == start + all.take(i as int),
    {
        assert(views(xs@)[i as int] == xs@[i as int]@);
        let ghost before = views(out@);
        let x = NetworkPlanIntent::PublicAddressBinding(xs[i].copy());
        let ghost xv = x@;
        out.push(x);
        assert(views(out@) =~= before.push(xv));
        assert(views(out@) =~= start + all.take(i + 1));
    }
    assert(all.take(all.len() as int) =~= all);
}

fn add_policies(out: &mut Vec<NetworkPlanIntent>, xs: &Vec<PolicyIntent>)
    ensures
        views(final(out)@) == views(old(out)@) + views(xs@).map_values(
            |x: PolicyIntent| NetworkPlanIntentView::Policy(x),
        ),
{
    let ghost start = views(out@);
    let ghost all = views(xs@).map_values(|x: PolicyIntent| NetworkPlanIntentView::Policy(x));
    assert(start + all.take(0) =~= start);
    for i in 0..xs.len()
        invariant
            all == views(xs@).map_values(|x: PolicyIntent| NetworkPlanIntentView::Policy(x)),
            views(out@) == start + all.take(i as int),
    {
        let ghost before = views(out@);
        out.push(NetworkPlanIntent::Policy(xs[i]));
        assert(views(out@) =~= before.push(NetworkPlanIntentView::Policy(xs@[i as int])));
        assert(views(out@) =~= start + all.take(i + 1));
    }
    assert(all.take(all.len() as int) =~= all);
}

fn plain_intents_of(intent: &NetworkIntent, gateway: u32) -> (r: Vec<NetworkPlanIntent>)
    ensures
        views(r@) == plain_intents(intent@, gateway),
{
    let mut out: Vec<NetworkPlanIntent> = Vec::new();
    out.push(
        NetworkPlanIntent::AddressRealm {
            realm_id: intent.realm.id,
            prefix: intent.realm.prefix,
            gateway,
        },
    );
    assert(views(out@) =~= Seq::empty().push(
        NetworkPlanIntentView::AddressRealm {
            realm_id: intent@.realm.id,
            prefix: intent@.realm.prefix,
            gateway,
        },
    ));
    add_endpoint_intents(&mut out, &intent.endpoints);
    add_routes(&mut out, &intent.routes);
    add_gateways(&mut out, &intent.gateways);
    add_egress(&mut out, &intent.egress);
    add_bindings(&mut out, &intent.public_addresses);
    add_policies(&mut out, &intent.policies);
    out
}

// ---------------------------------------------------------------------------
// Compilation
// ---------------------------------------------------------------------------

/// Why an intent is rejected: the first reason in the order of the checks.
pub open spec fn rejection(
    intent: NetworkIntentView,
    node_id: Seq<char>,
    caps: Seq<NetworkCapability>,
    realms: Seq<AddressRealmView>,
) -> Option<NetworkPlanError> {
    let gateway = realm_gateway(intent.realm.prefix, intent.address_pools);
    if node_id.len() == 0 || intent.realm.project_id != intent.project_id {
        Some(NetworkPlanError::OwnershipViolation)
    } else if overlaps_other(realms, intent.realm) && !(intent.realm.overlapping_prefixes
        && caps.contains(NetworkCapability::OverlappingAddressRealms) && caps.contains(
        NetworkCapability::EncapsulationModes,
    )) {
        Some(NetworkPlanError::OverlappingRealm)
    } else if first_missing(required(intent), caps, 0) is Some {
        Some(NetworkPlanError::UnsupportedCapability(first_missing(required(intent), caps, 0)->0))
    } else if gateway is None || !pools_valid(intent, gateway->0) {
        Some(NetworkPlanError::InvalidAddressPool)
    } else if endpoints_error(intent, gateway->0, 0) is Some {
        endpoints_error(intent, gateway->0, 0)
    } else if !public_addresses_valid(intent) {
        Some(NetworkPlanError::OwnershipViolation)
    } else if !network_policies_valid(intent) {
        Some(NetworkPlanError::InvalidPolicy)
    } else if !gateways_inside(intent) {
        Some(NetworkPlanError::AddressOutsideRealm)
    } else {
        None
    }
}

/// A plan with its fingerprint.
pub open spec fn signed(plan: NodeNetworkPlanView) -> NodeNetworkPlanView {
    NodeNetworkPlanView { fingerprint_sha256: fingerprint(plan), ..plan }
}

/// The plan of an accepted intent.
pub open spec fn compiled(
    intent: NetworkIntentView,
    node_id: Seq<char>,
    operation_id: u128,
    deadline_unix_ms: u64,
) -> NodeNetworkPlanView {
    let gateway = realm_gateway(intent.realm.prefix, intent.address_pools)->0;
    signed(
        NodeNetworkPlanView {
            schema_version: NODE_NETWORK_PLAN_SCHEMA_VERSION,
            plan_id: intent.id,
            node_id,
            operation_id,
            deadline_unix_ms,
            resource_generations: endpoint_generations(Seq::empty(), intent.endpoints, 0),
            intents: sort_intents(plain_intents(intent, gateway)),
            fabric: None,
            gateway: None,
            fingerprint_sha256: Seq::empty(),
        },
    )
}

/// The plan of an intent, or the reason why it is rejected.
pub open spec fn compile_result(
    intent: NetworkIntentView,
    node_id: Seq<char>,
    operation_id: u128,
    deadline_unix_ms: u64,
    caps: Seq<NetworkCapability>,
    realms: Seq<AddressRealmView>,
) -> Result<NodeNetworkPlanView, NetworkPlanError> {
    match rejection(intent, node_id, caps, realms) {
        Some(e) => Err(e),
        None => Ok(compiled(intent, node_id, operation_id, deadline_unix_ms)),
    }
}

fn rejection_of(
    intent: &NetworkIntent,
    node_id: &str,
    caps: &Vec<NetworkCapability>,
    realms: &Vec<AddressRealm>,
) -> (r: Option<NetworkPlanError>)
    ensures
        r == rejection(intent@, node_id@, caps@, views(realms@)),
{
    if node_id.is_empty() || !same(
        intent.realm.project_id.as_str(),
        intent.project_id.as_str(),
    ) {
        return Some(NetworkPlanError::OwnershipViolation);
    }
    if overlaps_any(realms, &intent.realm) && (!intent.realm.overlapping_prefixes
        || !has_capability(caps, NetworkCapability::OverlappingAddressRealms) || !has_capability(
        caps,
        NetworkCapability::EncapsulationModes,
    )) {
        return Some(NetworkPlanError::OverlappingRealm);
    }
    match first_missing_of(&required_of(intent), caps) {
        Some(c) => return Some(NetworkPlanError::UnsupportedCapability(c)),
        None => {},
    }
    let gateway: u32 = match realm_gateway_of(&intent.realm.prefix, &intent.address_pools) {
        Some(g) => g,
        None => return Some(NetworkPlanError::InvalidAddressPool),
    };
    if !pools_are_valid(intent, gateway) {
        return Some(NetworkPlanError::InvalidAddressPool);
    }
    match endpoints_error_of(intent, gateway) {
        Some(e) => return Some(e),
        None => {},
    }
    if !public_addresses_are_valid(intent) {
        return Some(NetworkPlanError::OwnershipViolation);
    }
    if !network_policies_are_valid(intent) {
        return Some(NetworkPlanError::InvalidPolicy);
    }
    if !gateways_are_inside(intent) {
        return Some(NetworkPlanError::AddressOutsideRealm);
    }
    None
}

/// Compiles one canonical intent into a stable plan of a node. `realms` are the routed realms
/// that are there already; an overlap with one of them is rejected before a provider changes
/// anything, unless the realm and the provider both allow it.
pub fn compile_node_network_plan(
    intent: &NetworkIntent,
    node_id: &str,
    operation_id: u128,
    deadline_unix_ms: u64,
    capabilities: &Vec<NetworkCapability>,
    realms: &Vec<AddressRealm>,
) -> (r: Result<NodeNetworkPlan, NetworkPlanError>)
    ensures
        plan_view(r) == compile_result(
            intent@,
            node_id@,
            operation_id,
            deadline_unix_ms,
            capabilities@,
            views(realms@),
        ),
{
    match rejection_of(intent, node_id, capabilities, realms) {
        Some(e) => return Err(e),
        None => {},
    }
    let gateway: u32 = match realm_gateway_of(&intent.realm.prefix, &intent.address_pools) {
        Some(g) => g,
        None => return Err(NetworkPlanError::InvalidAddressPool),
    };
    let mut plan = NodeNetworkPlan {
        schema_version: NODE_NETWORK_PLAN_SCHEMA_VERSION,
        plan_id: intent.id,
        node_id: node_id.to_owned(),
        operation_id,
        deadline_unix_ms,
        resource_generations: endpoint_generations_of(&intent.endpoints),
        intents: sorted_intents(&plain_intents_of(intent, gateway)),
        fabric: None,
        gateway: None,
        fingerprint_sha256: String::new(),
    };
    plan.fingerprint_sha256 = fingerprint_of(&plan);
    Ok(plan)
}

} // verus!
