//! What the plan of a node holds: exactly what the intent asks for, each thing as often as it is
//! asked for.
use super::attach::{attachment_intent, attachment_result, with_routing, AttachmentPlanInput};
use super::compile::{
    compile_result, compiled, endpoint_intents, plain_intents, pool_gateway, realm_gateway,
};
use super::laws::{lemma_accepted_endpoints_differ, lemma_compiled_intents};
use super::order::lemma_sort_permutes;
use super::types::{
    NetworkPlanError, NetworkPlanIntentView, NodeNetworkPlanView, ResourceGeneration,
};
use crate::domain::{
    AddressPoolView, AddressRealmView, EgressIntent, EndpointIntentView, GatewayIntent,
    NetworkCapability, NetworkIntentView, PolicyDefaultIntent, PolicyIntent,
    PublicAddressBindingIntentView, RouteIntent,
};
use crate::ipv4::{prefix_value, Ipv4Prefix};
use crate::model::views;
use crate::table::{id_get, id_put, id_sorted, lemma_id_put_get, lemma_id_put_sorted};
use crate::text::lower;
use vstd::prelude::*;

verus! {

/// How often something occurs in a list.
pub open spec fn times<T>(s: Seq<T>, x: T) -> nat {
    s.to_multiset().count(x)
}

proof fn lemma_times_none<T>(x: T)
    ensures
        times(Seq::<T>::empty(), x) == 0,
{
    broadcast use vstd::seq_lib::group_to_multiset_ensures;

    Seq::<T>::empty().to_multiset_ensures();
    if times(Seq::<T>::empty(), x) > 0 {
        assert(Seq::<T>::empty().contains(x));
    }
}

proof fn lemma_times_push<T>(s: Seq<T>, y: T, x: T)
    ensures
        times(s.push(y), x) == times(s, x) + (if x == y {
            1nat
        } else {
            0
        }),
{
    broadcast use vstd::seq_lib::group_to_multiset_ensures;
    broadcast use vstd::multiset::group_multiset_axioms;

    assert(s.push(y).to_multiset() =~= s.to_multiset().insert(y));
}

proof fn lemma_times_add<T>(a: Seq<T>, b: Seq<T>, x: T)
    ensures
        times(a + b, x) == times(a, x) + times(b, x),
{
    broadcast use vstd::multiset::group_multiset_axioms;

    vstd::seq_lib::lemma_multiset_commutative(a, b);
}

proof fn lemma_times_contains<T>(s: Seq<T>, x: T)
    ensures
        times(s, x) > 0 <==> s.contains(x),
{
    s.to_multiset_ensures();
}

/// What a list is mapped to one for one occurs as often.
proof fn lemma_times_map<A>(s: Seq<A>, f: spec_fn(A) -> NetworkPlanIntentView, x: A)
    requires
        forall|a: A, b: A| #[trigger] f(a) == #[trigger] f(b) ==> a == b,
    ensures
        times(s.map_values(f), f(x)) == times(s, x),
    decreases s.len(),
{
    if s.len() == 0 {
        assert(s.map_values(f) =~= Seq::empty());
        assert(s =~= Seq::empty());
        lemma_times_none(f(x));
        lemma_times_none(x);
    } else {
        let head = s.drop_last();
        lemma_times_map(head, f, x);
        assert(s.map_values(f) =~= head.map_values(f).push(f(s.last())));
        assert(s =~= head.push(s.last()));
        lemma_times_push(head.map_values(f), f(s.last()), f(x));
        lemma_times_push(head, s.last(), x);
    }
}

/// What nothing of a list is mapped to does not occur.
proof fn lemma_times_other<A>(
    s: Seq<A>,
    f: spec_fn(A) -> NetworkPlanIntentView,
    x: NetworkPlanIntentView,
)
    requires
        forall|a: A| #[trigger] f(a) != x,
    ensures
        times(s.map_values(f), x) == 0,
{
    lemma_times_contains(s.map_values(f), x);
    if s.map_values(f).contains(x) {
        let i = choose|i: int| 0 <= i < s.map_values(f).len() && s.map_values(f)[i] == x;
        assert(f(s[i]) == x);
    }
}

// ---------------------------------------------------------------------------
// Endpoints
// ---------------------------------------------------------------------------

/// The intent that attaches an endpoint.
pub open spec fn attaches(e: EndpointIntentView) -> NetworkPlanIntentView {
    NetworkPlanIntentView::EndpointAttachment {
        endpoint_id: e.id,
        mac: lower(e.mac),
        fixed_ip: e.fixed_ip,
        generation: e.generation,
    }
}

/// The intent that gives an endpoint its address.
pub open spec fn addresses(e: EndpointIntentView) -> NetworkPlanIntentView {
    NetworkPlanIntentView::AddressAssignment {
        endpoint_id: e.id,
        address: e.fixed_ip,
        generation: e.generation,
    }
}

proof fn lemma_endpoint_part(es: Seq<EndpointIntentView>, i: int)
    requires
        0 <= i < es.len(),
        forall|a: int, b: int|
            0 <= a < b < es.len() ==> (#[trigger] es[a]).id != (#[trigger] es[b]).id,
    ensures
        times(endpoint_intents(es), attaches(es[i])) == 1,
        times(endpoint_intents(es), addresses(es[i])) == 1,
    decreases es.len(),
{
    let head = es.drop_last();
    let before = endpoint_intents(head);
    let e = es.last();
    assert forall|a: int, b: int| 0 <= a < b < head.len() implies (#[trigger] head[a]).id != (
    #[trigger] head[b]).id by {
        assert(head[a] == es[a] && head[b] == es[b]);
    }
    lemma_times_push(before, attaches(e), attaches(es[i]));
    lemma_times_push(before, attaches(e), addresses(es[i]));
    lemma_times_push(before.push(attaches(e)), addresses(e), attaches(es[i]));
    lemma_times_push(before.push(attaches(e)), addresses(e), addresses(es[i]));
    if i < head.len() {
        lemma_endpoint_part(head, i);
        assert(es[i].id != es[es.len() - 1].id);
    } else {
        lemma_endpoint_foreign(head, attaches(e));
        lemma_endpoint_foreign(head, addresses(e));
        lemma_times_contains(before, attaches(e));
        lemma_times_contains(before, addresses(e));
        assert forall|k: int| 0 <= k < head.len() implies (#[trigger] head[k]).id != e.id by {
            assert(head[k] == es[k]);
            assert(es[k].id != es[es.len() - 1].id);
        }
    }
}

/// Every intent of the endpoints attaches one or gives one its address.
proof fn lemma_endpoint_foreign(es: Seq<EndpointIntentView>, x: NetworkPlanIntentView)
    ensures
        endpoint_intents(es).contains(x) ==> exists|i: int|
            0 <= i < es.len() && (x == attaches(#[trigger] es[i]) || x == addresses(es[i])),
    decreases es.len(),
{
    if es.len() > 0 && endpoint_intents(es).contains(x) {
        let head = es.drop_last();
        let before = endpoint_intents(head);
        lemma_endpoint_foreign(head, x);
        let all = endpoint_intents(es);
        let k = choose|k: int| 0 <= k < all.len() && all[k] == x;
        if k < before.len() {
            assert(before[k] == x);
            let i = choose|i: int|
                0 <= i < head.len() && (x == attaches(#[trigger] head[i]) || x == addresses(
                    head[i],
                ));
            assert(es[i] == head[i]);
        } else {
            assert(x == attaches(es[es.len() - 1]) || x == addresses(es[es.len() - 1]));
        }
    }
}

// ---------------------------------------------------------------------------
// All intents
// ---------------------------------------------------------------------------

/// How often an intent occurs that is none of an endpoint, by what is asked for.
pub open spec fn asked_for(
    intent: NetworkIntentView,
    gateway: u32,
    x: NetworkPlanIntentView,
) -> nat {
    match x {
        NetworkPlanIntentView::AddressRealm { realm_id, prefix, gateway: g } => if realm_id
            == intent.realm.id && prefix == intent.realm.prefix && g == gateway {
            1
        } else {
            0
        },
        NetworkPlanIntentView::Route(r) => times(intent.routes, r),
        NetworkPlanIntentView::Gateway(g) => times(intent.gateways, g),
        NetworkPlanIntentView::Egress(e) => times(intent.egress, e),
        NetworkPlanIntentView::PublicAddressBinding(b) => times(intent.public_addresses, b),
        NetworkPlanIntentView::Policy(p) => times(intent.policies, p),
        _ => 0,
    }
}

proof fn lemma_plain_times(intent: NetworkIntentView, gateway: u32, x: NetworkPlanIntentView)
    ensures
        times(plain_intents(intent, gateway), x) == times(endpoint_intents(intent.endpoints), x)
            + asked_for(intent, gateway, x),
{
    let realm = NetworkPlanIntentView::AddressRealm {
        realm_id: intent.realm.id,
        prefix: intent.realm.prefix,
        gateway,
    };
    let fr = |x: RouteIntent| NetworkPlanIntentView::Route(x);
    let fg = |x: GatewayIntent| NetworkPlanIntentView::Gateway(x);
    let fe = |x: EgressIntent| NetworkPlanIntentView::Egress(x);
    let fb = |x: PublicAddressBindingIntentView| NetworkPlanIntentView::PublicAddressBinding(x);
    let fp = |x: PolicyIntent| NetworkPlanIntentView::Policy(x);
    let s0 = Seq::<NetworkPlanIntentView>::empty().push(realm);
    let s1 = s0 + endpoint_intents(intent.endpoints);
    let s2 = s1 + intent.routes.map_values(fr);
    let s3 = s2 + intent.gateways.map_values(fg);
    let s4 = s3 + intent.egress.map_values(fe);
    let s5 = s4 + intent.public_addresses.map_values(fb);
    lemma_times_none(x);
    lemma_times_push(Seq::empty(), realm, x);
    lemma_times_add(s0, endpoint_intents(intent.endpoints), x);
    lemma_times_add(s1, intent.routes.map_values(fr), x);
    lemma_times_add(s2, intent.gateways.map_values(fg), x);
    lemma_times_add(s3, intent.egress.map_values(fe), x);
    lemma_times_add(s4, intent.public_addresses.map_values(fb), x);
    lemma_times_add(s5, intent.policies.map_values(fp), x);
    match x {
        NetworkPlanIntentView::Route(y) => lemma_times_map(intent.routes, fr, y),
        _ => lemma_times_other(intent.routes, fr, x),
    }
    match x {
        NetworkPlanIntentView::Gateway(y) => lemma_times_map(intent.gateways, fg, y),
        _ => lemma_times_other(intent.gateways, fg, x),
    }
    match x {
        NetworkPlanIntentView::Egress(y) => lemma_times_map(intent.egress, fe, y),
        _ => lemma_times_other(intent.egress, fe, x),
    }
    match x {
        NetworkPlanIntentView::PublicAddressBinding(y) => lemma_times_map(
            intent.public_addresses,
            fb,
            y,
        ),
        _ => lemma_times_other(intent.public_addresses, fb, x),
    }
    match x {
        NetworkPlanIntentView::Policy(y) => lemma_times_map(intent.policies, fp, y),
        _ => lemma_times_other(intent.policies, fp, x),
    }
}

/// Whether an address is the gateway of a realm: that of the first pool that has one, or the first
/// address behind the network address where no pool has one.
pub open spec fn is_gateway(
    prefix: Ipv4Prefix,
    pools: Seq<AddressPoolView>,
    gateway: u32,
) -> bool {
    ||| exists|i: int|
        0 <= i < pools.len() && (#[trigger] pools[i]).gateway == Some(gateway) && forall|j: int|
            0 <= j < i ==> (#[trigger] pools[j]).gateway is None
    ||| gateway == prefix.network + 1 && forall|j: int|
        0 <= j < pools.len() ==> (#[trigger] pools[j]).gateway is None
}

proof fn lemma_pool_gateway(pools: Seq<AddressPoolView>, i: int)
    requires
        0 <= i <= pools.len(),
    ensures
        match pool_gateway(pools, i) {
            Some(g) => exists|k: int|
                i <= k < pools.len() && (#[trigger] pools[k]).gateway == Some(g) && forall|j: int|
                    i <= j < k ==> (#[trigger] pools[j]).gateway is None,
            None => forall|j: int| i <= j < pools.len() ==> (#[trigger] pools[j]).gateway is None,
        },
    decreases pools.len() - i,
{
    if i < pools.len() {
        if pools[i].gateway is None {
            lemma_pool_gateway(pools, i + 1);
            match pool_gateway(pools, i + 1) {
                Some(g) => {
                    let k = choose|k: int|
                        i + 1 <= k < pools.len() && (#[trigger] pools[k]).gateway == Some(g)
                            && forall|j: int| i + 1 <= j < k ==> (#[trigger] pools[j]).gateway is None;
                    assert(pools[k].gateway == Some(g));
                },
                None => {},
            }
        } else {
            assert(pools[i].gateway == pool_gateway(pools, i));
        }
    }
}

proof fn lemma_realm_gateway(prefix: Ipv4Prefix, pools: Seq<AddressPoolView>)
    requires
        realm_gateway(prefix, pools) is Some,
    ensures
        is_gateway(prefix, pools, realm_gateway(prefix, pools)->Some_0),
{
    lemma_pool_gateway(pools, 0);
}

/// Whether the plan of an intent is a certain one.
pub open spec fn plans(
    intent: NetworkIntentView,
    node_id: Seq<char>,
    operation_id: u128,
    deadline: u64,
    caps: Seq<NetworkCapability>,
    realms: Seq<AddressRealmView>,
    plan: NodeNetworkPlanView,
) -> bool {
    compile_result(intent, node_id, operation_id, deadline, caps, realms) == Ok::<
        NodeNetworkPlanView,
        NetworkPlanError,
    >(plan)
}

proof fn lemma_plan_times(
    intent: NetworkIntentView,
    node_id: Seq<char>,
    operation_id: u128,
    deadline: u64,
    caps: Seq<NetworkCapability>,
    realms: Seq<AddressRealmView>,
    plan: NodeNetworkPlanView,
    x: NetworkPlanIntentView,
)
    requires
        plans(intent, node_id, operation_id, deadline, caps, realms, plan),
    ensures
        realm_gateway(intent.realm.prefix, intent.address_pools) is Some,
        times(plan.intents, x) == times(endpoint_intents(intent.endpoints), x) + asked_for(
            intent,
            realm_gateway(intent.realm.prefix, intent.address_pools)->Some_0,
            x,
        ),
{
    lemma_compiled_intents(intent, node_id, operation_id, deadline);
    lemma_plain_times(
        intent,
        realm_gateway(intent.realm.prefix, intent.address_pools)->Some_0,
        x,
    );
}

/// Every endpoint of an accepted intent is attached by its plan exactly once, with its lower-case
/// hardware address, and is given its address exactly once.
pub proof fn lemma_endpoint_is_attached_once(
    intent: NetworkIntentView,
    node_id: Seq<char>,
    operation_id: u128,
    deadline: u64,
    caps: Seq<NetworkCapability>,
    realms: Seq<AddressRealmView>,
    plan: NodeNetworkPlanView,
    i: int,
)
    requires
        plans(intent, node_id, operation_id, deadline, caps, realms, plan),
        0 <= i < intent.endpoints.len(),
    ensures
        times(
            plan.intents,
            NetworkPlanIntentView::EndpointAttachment {
                endpoint_id: intent.endpoints[i].id,
                mac: lower(intent.endpoints[i].mac),
                fixed_ip: intent.endpoints[i].fixed_ip,
                generation: intent.endpoints[i].generation,
            },
        ) == 1,
        times(
            plan.intents,
            NetworkPlanIntentView::AddressAssignment {
                endpoint_id: intent.endpoints[i].id,
                address: intent.endpoints[i].fixed_ip,
                generation: intent.endpoints[i].generation,
            },
        ) == 1,
{
    let e = intent.endpoints[i];
    assert forall|a: int, b: int| 0 <= a < b < intent.endpoints.len() implies (
    #[trigger] intent.endpoints[a]).id != (#[trigger] intent.endpoints[b]).id by {
        lemma_accepted_endpoints_differ(intent, node_id, caps, realms, a, b);
    }
    lemma_endpoint_part(intent.endpoints, i);
    lemma_plan_times(intent, node_id, operation_id, deadline, caps, realms, plan, attaches(e));
    lemma_plan_times(intent, node_id, operation_id, deadline, caps, realms, plan, addresses(e));
}

/// A plan attaches and addresses nothing but the endpoints of its intent, each as the intent says.
pub proof fn lemma_only_endpoints_are_attached(
    intent: NetworkIntentView,
    node_id: Seq<char>,
    operation_id: u128,
    deadline: u64,
    caps: Seq<NetworkCapability>,
    realms: Seq<AddressRealmView>,
    plan: NodeNetworkPlanView,
    k: int,
)
    requires
        plans(intent, node_id, operation_id, deadline, caps, realms, plan),
        0 <= k < plan.intents.len(),
    ensures
        match plan.intents[k] {
            NetworkPlanIntentView::EndpointAttachment {
                endpoint_id,
                mac,
                fixed_ip,
                generation,
            } => exists|i: int|
                0 <= i < intent.endpoints.len() && (#[trigger] intent.endpoints[i]).id
                    == endpoint_id && lower(intent.endpoints[i].mac) == mac
                    && intent.endpoints[i].fixed_ip == fixed_ip && intent.endpoints[i].generation
                    == generation,
            NetworkPlanIntentView::AddressAssignment {
                endpoint_id,
                address,
                generation,
            } => exists|i: int|
                0 <= i < intent.endpoints.len() && (#[trigger] intent.endpoints[i]).id
                    == endpoint_id && intent.endpoints[i].fixed_ip == address
                    && intent.endpoints[i].generation == generation,
            _ => true,
        },
{
    let x = plan.intents[k];
    lemma_plan_times(intent, node_id, operation_id, deadline, caps, realms, plan, x);
    lemma_times_contains(plan.intents, x);
    assert(plan.intents.contains(x));
    lemma_times_contains(endpoint_intents(intent.endpoints), x);
    lemma_endpoint_foreign(intent.endpoints, x);
}

/// Apart from its endpoints, a plan holds exactly what the intent asks for and as often: its one
/// realm with the gateway, its routes, gateways and ways out, its public addresses and policies,
/// and no defaults.
pub proof fn lemma_plan_holds_what_is_asked_for(
    intent: NetworkIntentView,
    node_id: Seq<char>,
    operation_id: u128,
    deadline: u64,
    caps: Seq<NetworkCapability>,
    realms: Seq<AddressRealmView>,
    plan: NodeNetworkPlanView,
)
    requires
        plans(intent, node_id, operation_id, deadline, caps, realms, plan),
    ensures
        exists|g: u32|
            is_gateway(intent.realm.prefix, intent.address_pools, g) && times(
                plan.intents,
                #[trigger] realm_with(intent.realm, g),
            ) == 1,
        forall|k: int|
            0 <= k < plan.intents.len() && (#[trigger] plan.intents[k]) is AddressRealm ==> exists|
                g: u32,
            |
                is_gateway(intent.realm.prefix, intent.address_pools, g) && plan.intents[k]
                    == #[trigger] realm_with(intent.realm, g),
        forall|x: RouteIntent|
            #[trigger] times(plan.intents, NetworkPlanIntentView::Route(x)) == times(
                intent.routes,
                x,
            ),
        forall|x: GatewayIntent|
            #[trigger] times(plan.intents, NetworkPlanIntentView::Gateway(x)) == times(
                intent.gateways,
                x,
            ),
        forall|x: EgressIntent|
            #[trigger] times(plan.intents, NetworkPlanIntentView::Egress(x)) == times(
                intent.egress,
                x,
            ),
        forall|x: PublicAddressBindingIntentView|
            #[trigger] times(plan.intents, NetworkPlanIntentView::PublicAddressBinding(x)) == times(
                intent.public_addresses,
                x,
            ),
        forall|x: PolicyIntent|
            #[trigger] times(plan.intents, NetworkPlanIntentView::Policy(x)) == times(
                intent.policies,
                x,
            ),
        forall|x: PolicyDefaultIntent|
            #[trigger] times(plan.intents, NetworkPlanIntentView::PolicyDefault(x)) == 0,
{
    let g = realm_gateway(intent.realm.prefix, intent.address_pools)->Some_0;
    assert forall|x: NetworkPlanIntentView|
        !(x is EndpointAttachment) && !(x is AddressAssignment) implies #[trigger] times(
        plan.intents,
        x,
    ) == asked_for(intent, g, x) by {
        lemma_plan_times(intent, node_id, operation_id, deadline, caps, realms, plan, x);
        lemma_endpoint_foreign(intent.endpoints, x);
        lemma_times_contains(endpoint_intents(intent.endpoints), x);
    }
    lemma_plan_times(
        intent,
        node_id,
        operation_id,
        deadline,
        caps,
        realms,
        plan,
        realm_with(intent.realm, g),
    );
    lemma_realm_gateway(intent.realm.prefix, intent.address_pools);
    assert(times(plan.intents, realm_with(intent.realm, g)) == 1);
    assert forall|k: int|
        0 <= k < plan.intents.len() && (
        #[trigger] plan.intents[k]) is AddressRealm implies plan.intents[k] == realm_with(
        intent.realm,
        g,
    ) by {
        let x = plan.intents[k];
        lemma_times_contains(plan.intents, x);
        assert(plan.intents.contains(x));
        assert(times(plan.intents, x) == asked_for(intent, g, x));
    }
}

/// The intent of a realm with a gateway.
pub open spec fn realm_with(realm: AddressRealmView, gateway: u32) -> NetworkPlanIntentView {
    NetworkPlanIntentView::AddressRealm { realm_id: realm.id, prefix: realm.prefix, gateway }
}

// ---------------------------------------------------------------------------
// The rest of a plan
// ---------------------------------------------------------------------------

proof fn lemma_generations(
    table: Seq<ResourceGeneration>,
    es: Seq<EndpointIntentView>,
    i: int,
    id: u128,
)
    requires
        0 <= i <= es.len(),
        id_sorted::<ResourceGeneration>(table),
        forall|a: int, b: int|
            0 <= a < b < es.len() ==> (#[trigger] es[a]).id != (#[trigger] es[b]).id,
    ensures
        ({
            let all = super::compile::endpoint_generations(table, es, i);
            &&& id_sorted::<ResourceGeneration>(all)
            &&& forall|k: int|
                i <= k < es.len() && (#[trigger] es[k]).id == id ==> id_get::<ResourceGeneration>(
                    all,
                    id,
                ) == Some(ResourceGeneration { id, generation: es[k].generation })
            &&& (forall|k: int| i <= k < es.len() ==> (#[trigger] es[k]).id != id) ==> id_get::<
                ResourceGeneration,
            >(all, id) == id_get::<ResourceGeneration>(table, id)
        }),
    decreases es.len() - i,
{
    if i < es.len() {
        let g = ResourceGeneration { id: es[i].id, generation: es[i].generation };
        lemma_id_put_sorted::<ResourceGeneration>(table, g);
        lemma_id_put_get::<ResourceGeneration>(table, g, id);
        lemma_generations(id_put::<ResourceGeneration>(table, g), es, i + 1, id);
        let all = super::compile::endpoint_generations(table, es, i);
        assert forall|k: int|
            i <= k < es.len() && (#[trigger] es[k]).id == id implies id_get::<ResourceGeneration>(
            all,
            id,
        ) == Some(ResourceGeneration { id, generation: es[k].generation }) by {
            if k == i {
                assert forall|m: int| i + 1 <= m < es.len() implies (#[trigger] es[m]).id != id by {
                    assert(es[i].id != es[m].id);
                }
            }
        }
    }
}

/// A plan is for its node and its operation, of the network's identity, and names the generation
/// of every endpoint and of nothing else.
pub proof fn lemma_plan_is_for_its_node(
    intent: NetworkIntentView,
    node_id: Seq<char>,
    operation_id: u128,
    deadline: u64,
    caps: Seq<NetworkCapability>,
    realms: Seq<AddressRealmView>,
    plan: NodeNetworkPlanView,
    id: u128,
)
    requires
        plans(intent, node_id, operation_id, deadline, caps, realms, plan),
    ensures
        plan.schema_version == 1,
        plan.plan_id == intent.id,
        plan.node_id == node_id,
        plan.operation_id == operation_id,
        plan.deadline_unix_ms == deadline,
        plan.fabric is None,
        plan.gateway is None,
        forall|k: int|
            0 <= k < intent.endpoints.len() && (#[trigger] intent.endpoints[k]).id == id
                ==> id_get::<ResourceGeneration>(plan.resource_generations, id) == Some(
                ResourceGeneration { id, generation: intent.endpoints[k].generation },
            ),
        (forall|k: int|
            0 <= k < intent.endpoints.len() ==> (#[trigger] intent.endpoints[k]).id != id)
            ==> id_get::<ResourceGeneration>(plan.resource_generations, id) is None,
{
    assert forall|a: int, b: int| 0 <= a < b < intent.endpoints.len() implies (
    #[trigger] intent.endpoints[a]).id != (#[trigger] intent.endpoints[b]).id by {
        lemma_accepted_endpoints_differ(intent, node_id, caps, realms, a, b);
    }
    lemma_generations(Seq::empty(), intent.endpoints, 0, id);
}

// ---------------------------------------------------------------------------
// Attachments
// ---------------------------------------------------------------------------

/// The plan of an attachment holds its one endpoint, the binding of its public address where it
/// has one, the translated way to its external realm where it has one, its policies and the
/// defaults, all as often as they are given, and nothing else but its realm.
pub proof fn lemma_attachment_plan_content(
    input: AttachmentPlanInput<'_>,
    ds: Seq<PolicyDefaultIntent>,
    plan: NodeNetworkPlanView,
)
    requires
        attachment_result(input, ds) == Ok::<NodeNetworkPlanView, NetworkPlanError>(plan),
    ensures
        plan.plan_id == input.endpoint_id,
        plan.node_id == input.node_id@,
        plan.operation_id == input.operation_id,
        plan.deadline_unix_ms == input.deadline_unix_ms,
        times(
            plan.intents,
            NetworkPlanIntentView::EndpointAttachment {
                endpoint_id: input.endpoint_id,
                mac: lower(input.mac@),
                fixed_ip: input.fixed_ip,
                generation: 1,
            },
        ) == 1,
        times(
            plan.intents,
            NetworkPlanIntentView::AddressAssignment {
                endpoint_id: input.endpoint_id,
                address: input.fixed_ip,
                generation: 1,
            },
        ) == 1,
        forall|e: EgressIntent|
            #[trigger] times(plan.intents, NetworkPlanIntentView::Egress(e)) == (if
            input.external_realm_id == Some(e.external_realm_id) && e.enabled && e.nat {
                1nat
            } else {
                0
            }),
        forall|b: PublicAddressBindingIntentView|
            #[trigger] times(plan.intents, NetworkPlanIntentView::PublicAddressBinding(b)) == (if
            input.public_address == Some(b.public_address) && b.endpoint_id == input.endpoint_id
                && b.id == input.endpoint_id && b.project_id == input.project_id@ && b.generation
                == 1 {
                1nat
            } else {
                0
            }),
        forall|p: PolicyIntent|
            #[trigger] times(plan.intents, NetworkPlanIntentView::Policy(p)) == times(
                views(input.policies@),
                p,
            ),
        forall|d: PolicyDefaultIntent|
            #[trigger] times(plan.intents, NetworkPlanIntentView::PolicyDefault(d)) == times(ds, d),
        forall|r: RouteIntent|
            #[trigger] times(plan.intents, NetworkPlanIntentView::Route(r)) == 0,
        forall|g: GatewayIntent|
            #[trigger] times(plan.intents, NetworkPlanIntentView::Gateway(g)) == 0,
{
    let prefix = prefix_value(input.subnet_cidr@)->Some_0;
    let intent = attachment_intent(input, prefix);
    let caps = super::attach::attachment_capabilities(
        input,
        input.policies@.len() > 0 || ds.len() > 0,
    );
    let base = compiled(intent, input.node_id@, input.operation_id, input.deadline_unix_ms);
    let f = |d: PolicyDefaultIntent| NetworkPlanIntentView::PolicyDefault(d);
    assert(plans(
        intent,
        input.node_id@,
        input.operation_id,
        input.deadline_unix_ms,
        caps,
        Seq::empty(),
        base,
    ));
    lemma_plan_holds_what_is_asked_for(
        intent,
        input.node_id@,
        input.operation_id,
        input.deadline_unix_ms,
        caps,
        Seq::empty(),
        base,
    );
    lemma_endpoint_is_attached_once(
        intent,
        input.node_id@,
        input.operation_id,
        input.deadline_unix_ms,
        caps,
        Seq::empty(),
        base,
        0,
    );
    let all = base.intents + ds.map_values(f);
    lemma_sort_permutes(all);
    assert forall|x: NetworkPlanIntentView| #[trigger]
        times(plan.intents, x) == times(base.intents, x) + (match x {
            NetworkPlanIntentView::PolicyDefault(d) => times(ds, d),
            _ => 0,
        }) by {
        lemma_times_add(base.intents, ds.map_values(f), x);
        match x {
            NetworkPlanIntentView::PolicyDefault(d) => lemma_times_map(ds, f, d),
            _ => lemma_times_other(ds, f, x),
        }
    }
    assert forall|e: EgressIntent| #[trigger] times(intent.egress, e) == (if
    input.external_realm_id == Some(e.external_realm_id) && e.enabled && e.nat {
        1nat
    } else {
        0
    }) by {
        lemma_times_none(e);
        match input.external_realm_id {
            Some(r) => lemma_times_push(
                Seq::empty(),
                EgressIntent { external_realm_id: r, enabled: true, nat: true },
                e,
            ),
            None => {},
        }
    }
    assert forall|b: PublicAddressBindingIntentView| #[trigger]
        times(intent.public_addresses, b) == (if input.public_address == Some(b.public_address)
            && b.endpoint_id == input.endpoint_id && b.id == input.endpoint_id && b.project_id
            == input.project_id@ && b.generation == 1 {
            1nat
        } else {
            0
        }) by {
        lemma_times_none(b);
        match input.public_address {
            Some(a) => lemma_times_push(
                Seq::empty(),
                PublicAddressBindingIntentView {
                    id: input.endpoint_id,
                    project_id: input.project_id@,
                    public_address: a,
                    endpoint_id: input.endpoint_id,
                    generation: 1,
                },
                b,
            ),
            None => {},
        }
    }
    assert forall|r: RouteIntent| #[trigger] times(intent.routes, r) == 0 by {
        lemma_times_none(r);
    }
    assert forall|g: GatewayIntent| #[trigger] times(intent.gateways, g) == 0 by {
        lemma_times_none(g);
    }
}

/// Adding the routing of a gateway to a plan adds its routes and ways out and keeps all that the
/// plan holds, who it is for and what it is about.
pub proof fn lemma_routing_is_added(
    plan: NodeNetworkPlanView,
    routes: Seq<GatewayIntent>,
    egress: Seq<EgressIntent>,
    x: NetworkPlanIntentView,
)
    ensures
        ({
            let with = with_routing(plan, routes, egress);
            &&& times(with.intents, x) == times(plan.intents, x) + (match x {
                NetworkPlanIntentView::Gateway(g) => times(routes, g),
                NetworkPlanIntentView::Egress(e) => times(egress, e),
                _ => 0,
            })
            &&& with.plan_id == plan.plan_id
            &&& with.node_id == plan.node_id
            &&& with.operation_id == plan.operation_id
            &&& with.resource_generations == plan.resource_generations
            &&& with.fabric == plan.fabric
            &&& with.gateway == plan.gateway
        }),
{
    let fg = |x: GatewayIntent| NetworkPlanIntentView::Gateway(x);
    let fe = |x: EgressIntent| NetworkPlanIntentView::Egress(x);
    let s1 = plan.intents + routes.map_values(fg);
    let s2 = s1 + egress.map_values(fe);
    lemma_sort_permutes(s2);
    lemma_times_add(plan.intents, routes.map_values(fg), x);
    lemma_times_add(s1, egress.map_values(fe), x);
    match x {
        NetworkPlanIntentView::Gateway(y) => lemma_times_map(routes, fg, y),
        _ => lemma_times_other(routes, fg, x),
    }
    match x {
        NetworkPlanIntentView::Egress(y) => lemma_times_map(egress, fe, y),
        _ => lemma_times_other(egress, fe, x),
    }
    if routes.len() == 0 && egress.len() == 0 {
        assert(routes =~= Seq::empty() && egress =~= Seq::empty());
        match x {
            NetworkPlanIntentView::Gateway(y) => lemma_times_none(y),
            NetworkPlanIntentView::Egress(y) => lemma_times_none(y),
            _ => {},
        }
    }
}

} // verus!
