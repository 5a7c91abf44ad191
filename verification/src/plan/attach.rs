//! Plans of single attachments and of gateways between realms.
use super::compile::{add_egress, add_gateways, compile_node_network_plan, compile_result, signed};
use super::fingerprint::fingerprint_of;
use super::order::{sort_intents, sorted_intents};
use super::types::{
    plan_view, L3GatewayExecutionPlan, L3GatewayExecutionPlanView, NetworkPlanError,
    NetworkPlanIntent, NetworkPlanIntentView, NodeNetworkPlan, NodeNetworkPlanView,
    ResourceGeneration, NODE_NETWORK_PLAN_SCHEMA_VERSION,
};
use crate::domain::{
    AddressRealm, AddressRealmView, EgressIntent, EndpointIntent, EndpointIntentView, GatewayIntent,
    NetworkCapability, NetworkIntent, NetworkIntentState, NetworkIntentView, PolicyDefaultIntent,
    PolicyIntent, PolicyStatefulMode, PublicAddressBindingIntent, PublicAddressBindingIntentView,
};
use crate::ipv4::{prefix_value, prefix_value_of, Ipv4Prefix};
use crate::model::{copy_list, views};
use crate::table::{id_put, put_id};
use crate::text::{is_blank, trim};
use vstd::prelude::*;

verus! {

/// The attachment of one endpoint to a node.
pub struct AttachmentPlanInput<'a> {
    pub endpoint_id: u128,
    pub realm_id: u128,
    pub project_id: &'a str,
    pub mac: &'a str,
    pub fixed_ip: u32,
    pub subnet_cidr: &'a str,
    pub node_id: &'a str,
    pub operation_id: u128,
    pub deadline_unix_ms: u64,
    pub public_address: Option<u32>,
    pub external_realm_id: Option<u128>,
    pub policies: Vec<PolicyIntent>,
}

/// The canonical intent that an attachment stands for: a network of one endpoint.
pub open spec fn attachment_intent(input: AttachmentPlanInput<'_>, prefix: Ipv4Prefix) -> NetworkIntentView {
    NetworkIntentView {
        id: input.endpoint_id,
        project_id: input.project_id@,
        realm: AddressRealmView {
            id: input.realm_id,
            network_id: input.endpoint_id,
            project_id: input.project_id@,
            prefix,
            overlapping_prefixes: false,
        },
        address_pools: Seq::empty(),
        endpoints: Seq::empty().push(
            EndpointIntentView {
                id: input.endpoint_id,
                project_id: input.project_id@,
                realm_id: input.realm_id,
                mac: input.mac@,
                fixed_ip: input.fixed_ip,
                generation: 1,
            },
        ),
        routes: Seq::empty(),
        gateways: Seq::empty(),
        egress: match input.external_realm_id {
            Some(external_realm_id) => Seq::empty().push(
                EgressIntent { external_realm_id, enabled: true, nat: true },
            ),
            None => Seq::empty(),
        },
        public_addresses: match input.public_address {
            Some(public_address) => Seq::empty().push(
                PublicAddressBindingIntentView {
                    id: input.endpoint_id,
                    project_id: input.project_id@,
                    public_address,
                    endpoint_id: input.endpoint_id,
                    generation: 1,
                },
            ),
            None => Seq::empty(),
        },
        policies: views(input.policies@),
        generation: 1,
        state: NetworkIntentState::Requested,
    }
}

fn attachment_intent_of(input: &AttachmentPlanInput<'_>, prefix: Ipv4Prefix) -> (r: NetworkIntent)
    ensures
        r@ == attachment_intent(*input, prefix),
{
    let project = input.project_id.to_owned();
    let mut endpoints: Vec<EndpointIntent> = Vec::new();
    endpoints.push(
        EndpointIntent {
            id: input.endpoint_id,
            project_id: project.clone(),
            realm_id: input.realm_id,
            mac: input.mac.to_owned(),
            fixed_ip: input.fixed_ip,
            generation: 1,
        },
    );
    let mut egress: Vec<EgressIntent> = Vec::new();
    match input.external_realm_id {
        Some(external_realm_id) => {
            egress.push(EgressIntent { external_realm_id, enabled: true, nat: true });
        },
        None => {},
    }
    let mut public_addresses: Vec<PublicAddressBindingIntent> = Vec::new();
    match input.public_address {
        Some(public_address) => {
            public_addresses.push(
                PublicAddressBindingIntent {
                    id: input.endpoint_id,
                    project_id: project.clone(),
                    public_address,
                    endpoint_id: input.endpoint_id,
                    generation: 1,
                },
            );
        },
        None => {},
    }
    let r = NetworkIntent {
        id: input.endpoint_id,
        project_id: project.clone(),
        realm: AddressRealm {
            id: input.realm_id,
            network_id: input.endpoint_id,
            project_id: project.clone(),
            prefix,
            overlapping_prefixes: false,
        },
        address_pools: Vec::new(),
        endpoints,
        routes: Vec::new(),
        gateways: Vec::new(),
        egress,
        public_addresses,
        policies: copy_list(&input.policies),
        generation: 1,
        state: NetworkIntentState::Requested,
    };
    proof {
        let v = attachment_intent(*input, prefix);
        assert(r@.address_pools =~= v.address_pools);
        assert(r@.endpoints =~= v.endpoints);
        assert(r@.routes =~= v.routes);
        assert(r@.gateways =~= v.gateways);
        assert(r@.egress =~= v.egress);
        assert(r@.public_addresses =~= v.public_addresses);
        assert(r@ =~= v);
    }
    r
}

/// The capabilities that the provider of an attachment has: those that the attachment needs.
pub open spec fn attachment_capabilities(
    input: AttachmentPlanInput<'_>,
    has_policies: bool,
) -> Seq<NetworkCapability> {
    let c0 = Seq::empty().push(NetworkCapability::Ipv4).push(NetworkCapability::EndpointAttachment);
    let c1 = if input.public_address is Some {
        c0.push(NetworkCapability::PublicAddressRealization)
    } else {
        c0
    };
    let c2 = if input.external_realm_id is Some {
        c1.push(NetworkCapability::Routing).push(NetworkCapability::Nat)
    } else {
        c1
    };
    if has_policies {
        c2.push(NetworkCapability::StatefulPolicy)
    } else {
        c2
    }
}

fn attachment_capabilities_of(input: &AttachmentPlanInput<'_>, has_policies: bool) -> (r: Vec<
    NetworkCapability,
>)
    ensures
        r@ == attachment_capabilities(*input, has_policies),
{
    let mut c: Vec<NetworkCapability> = Vec::new();
    c.push(NetworkCapability::Ipv4);
    c.push(NetworkCapability::EndpointAttachment);
    if input.public_address.is_some() {
        c.push(NetworkCapability::PublicAddressRealization);
    }
    if input.external_realm_id.is_some() {
        c.push(NetworkCapability::Routing);
        c.push(NetworkCapability::Nat);
    }
    if has_policies {
        c.push(NetworkCapability::StatefulPolicy);
    }
    c
}

/// Whether a default is one of an endpoint and can be realized.
pub open spec fn default_valid(d: PolicyDefaultIntent, endpoint_id: u128) -> bool {
    &&& d.endpoint_id == endpoint_id
    &&& d.policy_id != 0
    &&& d.generation != 0
    &&& d.stateful_mode == PolicyStatefulMode::Stateful
}

/// Whether all defaults are those of an endpoint and can be realized.
pub open spec fn defaults_valid(ds: Seq<PolicyDefaultIntent>, endpoint_id: u128) -> bool {
    forall|i: int| 0 <= i < ds.len() ==> default_valid(#[trigger] ds[i], endpoint_id)
}

/// The generations with those of the defaults, from the one at `i` on, put among them.
pub open spec fn default_generations(
    table: Seq<ResourceGeneration>,
    ds: Seq<PolicyDefaultIntent>,
    i: int,
) -> Seq<ResourceGeneration>
    decreases ds.len() - i,
{
    if i < 0 || i >= ds.len() {
        table
    } else {
        default_generations(
            id_put::<ResourceGeneration>(
                table,
                ResourceGeneration { id: ds[i].policy_id, generation: ds[i].generation },
            ),
            ds,
            i + 1,
        )
    }
}

/// A plan with defaults added to it.
pub open spec fn with_defaults(
    plan: NodeNetworkPlanView,
    ds: Seq<PolicyDefaultIntent>,
) -> NodeNetworkPlanView {
    signed(
        NodeNetworkPlanView {
            resource_generations: default_generations(plan.resource_generations, ds, 0),
            intents: sort_intents(
                plan.intents + ds.map_values(
                    |d: PolicyDefaultIntent| NetworkPlanIntentView::PolicyDefault(d),
                ),
            ),
            ..plan
        },
    )
}

/// The plan of an attachment, or the reason why it is rejected.
pub open spec fn attachment_result(
    input: AttachmentPlanInput<'_>,
    ds: Seq<PolicyDefaultIntent>,
) -> Result<NodeNetworkPlanView, NetworkPlanError> {
    match prefix_value(input.subnet_cidr@) {
        None => Err(NetworkPlanError::InvalidPrefix),
        Some(prefix) => match compile_result(
            attachment_intent(input, prefix),
            input.node_id@,
            input.operation_id,
            input.deadline_unix_ms,
            attachment_capabilities(input, input.policies@.len() > 0 || ds.len() > 0),
            Seq::empty(),
        ) {
            Err(e) => Err(e),
            Ok(plan) => if defaults_valid(ds, input.endpoint_id) {
                Ok(with_defaults(plan, ds))
            } else {
                Err(NetworkPlanError::InvalidPolicy)
            },
        },
    }
}

/// Compiles the plan of an attachment without defaults.
pub fn compile_attachment_plan(input: AttachmentPlanInput<'_>) -> (r: Result<
    NodeNetworkPlan,
    NetworkPlanError,
>)
    ensures
        plan_view(r) == attachment_result(input, Seq::empty()),
{
    let none: Vec<PolicyDefaultIntent> = Vec::new();
    assert(views(none@) =~= Seq::<PolicyDefaultIntent>::empty());
    compile_attachment_plan_with_defaults(input, none)
}

/// Compiles the plan of an attachment and of what happens to traffic that no policy matches.
pub fn compile_attachment_plan_with_defaults(
    input: AttachmentPlanInput<'_>,
    policy_defaults: Vec<PolicyDefaultIntent>,
) -> (r: Result<NodeNetworkPlan, NetworkPlanError>)
    ensures
        plan_view(r) == attachment_result(input, views(policy_defaults@)),
{
    let ghost ds = views(policy_defaults@);
    let prefix = match prefix_value_of(input.subnet_cidr) {
        None => return Err(NetworkPlanError::InvalidPrefix),
        Some(prefix) => prefix,
    };
    let has_policies = input.policies.len() > 0 || policy_defaults.len() > 0;
    let intent = attachment_intent_of(&input, prefix);
    let capabilities = attachment_capabilities_of(&input, has_policies);
    let no_realms: Vec<AddressRealm> = Vec::new();
    assert(views(no_realms@) =~= Seq::<AddressRealmView>::empty());
    let mut plan = match compile_node_network_plan(
        &intent,
        input.node_id,
        input.operation_id,
        input.deadline_unix_ms,
        &capabilities,
        &no_realms,
    ) {
        Err(e) => return Err(e),
        Ok(plan) => plan,
    };
    let ghost base = plan@;
    let ghost more = ds.map_values(|d: PolicyDefaultIntent| NetworkPlanIntentView::PolicyDefault(d));
    assert(base.intents + more.take(0) =~= base.intents);
    for i in 0..policy_defaults.len()
        invariant
            ds == views(policy_defaults@),
            more == ds.map_values(
                |d: PolicyDefaultIntent| NetworkPlanIntentView::PolicyDefault(d),
            ),
            views(plan.intents@) == base.intents + more.take(i as int),
            default_generations(base.resource_generations, ds, 0) == default_generations(
                views(plan.resource_generations@),
                ds,
                i as int,
            ),
            plan@ == (NodeNetworkPlanView {
                resource_generations: plan@.resource_generations,
                intents: plan@.intents,
                ..base
            }),
            forall|k: int| 0 <= k < i ==> default_valid(#[trigger] ds[k], input.endpoint_id),
            prefix_value(input.subnet_cidr@) == Some(prefix),
            compile_result(
                attachment_intent(input, prefix),
                input.node_id@,
                input.operation_id,
                input.deadline_unix_ms,
                attachment_capabilities(input, input.policies@.len() > 0 || ds.len() > 0),
                Seq::empty(),
            ) == Ok::<NodeNetworkPlanView, NetworkPlanError>(base),
    {
        let d = policy_defaults[i];
        assert(ds[i as int] == d);
        if d.endpoint_id != input.endpoint_id || d.policy_id == 0 || d.generation == 0
            || d.stateful_mode != PolicyStatefulMode::Stateful {
            assert(!default_valid(ds[i as int], input.endpoint_id));
            return Err(NetworkPlanError::InvalidPolicy);
        }
        put_id(
            &mut plan.resource_generations,
            ResourceGeneration { id: d.policy_id, generation: d.generation },
        );
        let ghost before = views(plan.intents@);
        plan.intents.push(NetworkPlanIntent::PolicyDefault(d));
        assert(views(plan.intents@) =~= before.push(NetworkPlanIntentView::PolicyDefault(d)));
        assert(views(plan.intents@) =~= base.intents + more.take(i + 1));
    }
    assert(more.take(more.len() as int) =~= more);
    plan.intents = sorted_intents(&plan.intents);
    plan.fingerprint_sha256 = fingerprint_of(&plan);
    Ok(plan)
}

/// A plan with the routes and the ways out of a gateway added to it.
pub open spec fn with_routing(
    plan: NodeNetworkPlanView,
    routes: Seq<GatewayIntent>,
    egress: Seq<EgressIntent>,
) -> NodeNetworkPlanView {
    if routes.len() == 0 && egress.len() == 0 {
        plan
    } else {
        signed(
            NodeNetworkPlanView {
                intents: sort_intents(
                    plan.intents + routes.map_values(
                        |x: GatewayIntent| NetworkPlanIntentView::Gateway(x),
                    ) + egress.map_values(|x: EgressIntent| NetworkPlanIntentView::Egress(x)),
                ),
                ..plan
            },
        )
    }
}

/// Adds routing derived from the canonical gateway graph to the plan of an endpoint. Only the
/// derived plan changes; a plan without routing stays as it is. This never fails.
pub fn add_l3_gateway_routing(
    plan: NodeNetworkPlan,
    routes: Vec<GatewayIntent>,
    egress: Vec<EgressIntent>,
) -> (r: Result<NodeNetworkPlan, NetworkPlanError>)
    ensures
        plan_view(r) == Ok::<NodeNetworkPlanView, NetworkPlanError>(
            with_routing(plan@, views(routes@), views(egress@)),
        ),
{
    let mut plan = plan;
    if routes.len() == 0 && egress.len() == 0 {
        return Ok(plan);
    }
    add_gateways(&mut plan.intents, &routes);
    add_egress(&mut plan.intents, &egress);
    plan.intents = sorted_intents(&plan.intents);
    plan.fingerprint_sha256 = fingerprint_of(&plan);
    Ok(plan)
}

/// The plan whose only execution unit is one gateway.
pub open spec fn gateway_plan(
    gateway: L3GatewayExecutionPlanView,
    node_id: Seq<char>,
    operation_id: u128,
    deadline_unix_ms: u64,
) -> NodeNetworkPlanView {
    signed(
        NodeNetworkPlanView {
            schema_version: NODE_NETWORK_PLAN_SCHEMA_VERSION,
            plan_id: gateway.gateway_id,
            node_id,
            operation_id,
            deadline_unix_ms,
            resource_generations: Seq::empty().push(
                ResourceGeneration {
                    id: gateway.gateway_id,
                    generation: gateway.gateway_generation,
                },
            ),
            intents: Seq::empty(),
            fabric: None,
            gateway: Some(gateway),
            fingerprint_sha256: Seq::empty(),
        },
    )
}

/// Builds a plan whose only execution unit is one complete snapshot of a gateway. It serves the
/// operations of a gateway that no endpoint carries, such as deleting one that is not attached.
pub fn compile_l3_gateway_network_plan(
    gateway: L3GatewayExecutionPlan,
    node_id: &str,
    operation_id: u128,
    deadline_unix_ms: u64,
) -> (r: Result<NodeNetworkPlan, NetworkPlanError>)
    ensures
        plan_view(r) == (if trim(node_id@).len() == 0 {
            Err(NetworkPlanError::InvalidGatewayPlan)
        } else {
            Ok(gateway_plan(gateway@, node_id@, operation_id, deadline_unix_ms))
        }),
{
    if is_blank(node_id) {
        return Err(NetworkPlanError::InvalidGatewayPlan);
    }
    let mut generations: Vec<ResourceGeneration> = Vec::new();
    generations.push(
        ResourceGeneration { id: gateway.gateway_id, generation: gateway.gateway_generation },
    );
    let ghost gv = gateway@;
    let mut plan = NodeNetworkPlan {
        schema_version: NODE_NETWORK_PLAN_SCHEMA_VERSION,
        plan_id: gateway.gateway_id,
        node_id: node_id.to_owned(),
        operation_id,
        deadline_unix_ms,
        resource_generations: generations,
        intents: Vec::new(),
        fabric: None,
        gateway: Some(gateway),
        fingerprint_sha256: String::new(),
    };
    proof {
        assert(plan@.resource_generations =~= Seq::empty().push(
            ResourceGeneration { id: gv.gateway_id, generation: gv.gateway_generation },
        ));
        assert(plan@.intents =~= Seq::<NetworkPlanIntentView>::empty());
    }
    plan.fingerprint_sha256 = fingerprint_of(&plan);
    Ok(plan)
}

impl NodeNetworkPlan {
    /// Attaches the execution unit of a gateway and signs the plan anew. Whether the unit is
    /// acceptable to the provider is told by `accepted`.
    pub fn with_gateway(self, gateway: L3GatewayExecutionPlan, accepted: bool) -> (r: Result<
        NodeNetworkPlan,
        NetworkPlanError,
    >)
        ensures
            plan_view(r) == (if accepted {
                Ok(signed(NodeNetworkPlanView { gateway: Some(gateway@), ..self@ }))
            } else {
                Err(NetworkPlanError::InvalidGatewayPlan)
            }),
    {
        if !accepted {
            return Err(NetworkPlanError::InvalidGatewayPlan);
        }
        let mut plan = self;
        plan.gateway = Some(gateway);
        plan.fingerprint_sha256 = fingerprint_of(&plan);
        Ok(plan)
    }
}

} // verus!
