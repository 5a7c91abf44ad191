//! What the service asks of its store, and what the store answers.
//!
//! The service decides; the store keeps the records. A request runs until it needs an answer that
//! it does not have, and is run again with one more answer until it ends.
use super::errors::{
    map_failure, map_store_error, unexpected, unexpected_failure, NetworkError, NetworkErrorView,
    StoreFailure, StoreFailureView,
};
use super::records::{
    AcceptedOperation, AcceptedOperationView, AuditRecord, AuditRecordView,
    CanonicalAddressPoolRecord, CanonicalAddressPoolRecordView, CanonicalAddressRealmRecord,
    CanonicalAddressRealmRecordView, CanonicalEndpointRecord, CanonicalEndpointRecordView,
    CanonicalL3GatewayAttachmentRecord, CanonicalL3GatewayAttachmentRecordView,
    CanonicalL3GatewayRecord, CanonicalL3GatewayRecordView, CanonicalNetworkPolicyRecord,
    CanonicalNetworkPolicyRecordView, CanonicalNetworkPolicyRuleRecord,
    CanonicalNetworkPolicyRuleRecordView, CanonicalNetworkRecord, CanonicalNetworkRecordView,
    CanonicalOperationRecord, CanonicalOperationRecordView, CanonicalPolicyAttachmentRecord,
    CanonicalPolicyAttachmentRecordView, CanonicalRealmBindingRecord,
    CanonicalRealmBindingRecordView, CanonicalReusableNetworkPolicyRecord,
    CanonicalReusableNetworkPolicyRecordView, GatewayGraph, GatewayGraphView, LifecycleUpdate, LifecycleUpdateView, NetworkRecord,
    NetworkRecordView, OperationRecord, OperationRecordView, OperationState, PortRecord,
    PortRecordView, RealmDeletionRequest, RealmDeletionRequestView, ResourceRecord, ResourceRecordView, SubnetRecord, SubnetRecordView,
};
use crate::identity::fresh_id;
use crate::model::{copy_list, copy_opt, view_opt, views, Model};
use crate::session::Stop;
use vstd::prelude::*;

verus! {

/// What was decided on a request.
#[derive(Clone, Copy, Debug, PartialEq, Eq, Structural)]
pub enum Decision {
    Allowed,
    /// The resource belongs to another.
    ScopeMismatch,
    /// The resource belongs to nobody.
    MissingOwnership,
    /// The client may not do this, for a reason that whoever decides knows by a number.
    Denied(u64),
    /// The request cannot be put to the decision.
    Malformed,
}

/// Something the service asks of its store.
#[derive(Clone, Debug, PartialEq, Eq)]
pub enum StoreCall {
    /// Make an identifier that is not in use.
    NewId,
    /// Wait for some milliseconds. Holds `ms`.
    Sleep(u64),
    /// Decide whether the client may do something to a resource, or to all resources of a kind, of an owner. Holds `action`, `resource`, `resource_id`, `owner`.
    Authorize(String, String, Option<u128>, String),
    /// Tell what became of a request. Holds `record`.
    Audit(AuditRecord),
    /// Find the owner of a resource. Holds `resource`, `id`.
    GetOwner(String, u128),
    /// Complete what an earlier version stored.
    Backfill,
    /// Store a network as clients see it. Holds `network`.
    InsertNetwork(NetworkRecord),
    /// Remove a network as clients see it. Holds `project_id`, `id`.
    DeleteNetwork(String, u128),
    /// Store a subnet as clients see it. Holds `subnet`.
    InsertSubnet(SubnetRecord),
    /// Store a port as clients see it. Holds `port`.
    InsertPort(PortRecord),
    /// Put the file of an earlier version aside.
    RetireLegacyFile,
    /// List the networks of a project. Holds `project_id`.
    ListNetworks(String),
    /// Find a network. Holds `project_id`, `id`.
    GetNetwork(String, u128),
    /// Store a network. Holds `network`.
    InsertCanonicalNetwork(CanonicalNetworkRecord),
    /// Change a network that has the expected generation. Holds `project_id`, `id`, `expected_generation`, `name`, `admin_state_up`.
    UpdateCanonicalNetwork(String, u128, u64, String, bool),
    /// Remove a network. Holds `project_id`, `id`.
    DeleteCanonicalNetwork(String, u128),
    /// List the realms of a network. Holds `project_id`, `network_id`.
    ListRealms(String, u128),
    /// Find a realm. Holds `project_id`, `id`.
    GetRealm(String, u128),
    /// Store a realm. Holds `realm`.
    InsertRealm(CanonicalAddressRealmRecord),
    /// Remove a realm. Holds `project_id`, `id`.
    DeleteRealm(String, u128),
    /// Mark a realm that has the expected generation as being deleted. Holds `project_id`, `id`, `expected_generation`.
    BeginRealmDeletion(String, u128, u64),
    /// Remove a realm that is being deleted. Holds `project_id`, `id`, `expected_generation`.
    FinalizeRealmDeletion(String, u128, u64),
    /// List what providers hold for a realm. Holds `realm_id`.
    ListRealmBindings(u128),
    /// Forget what a provider held for a realm of a generation. Holds `binding`, `generation`.
    DeleteRealmBinding(CanonicalRealmBindingRecord, u64),
    /// List the pools of a realm. Holds `project_id`, `realm_id`.
    ListPools(String, u128),
    /// Store a pool. Holds `pool`.
    InsertPool(CanonicalAddressPoolRecord),
    /// Remove a pool. Holds `project_id`, `id`.
    DeletePool(String, u128),
    /// List the endpoints of a realm. Holds `project_id`, `realm_id`.
    ListEndpoints(String, u128),
    /// Find an endpoint. Holds `project_id`, `id`.
    GetEndpoint(String, u128),
    /// Store an endpoint. Holds `endpoint`.
    InsertEndpoint(CanonicalEndpointRecord),
    /// Remove an endpoint. Holds `project_id`, `id`.
    DeleteEndpoint(String, u128),
    /// List the gateways of a project. Holds `project_id`.
    ListGateways(String),
    /// Find a gateway. Holds `project_id`, `id`.
    GetGateway(String, u128),
    /// Store a gateway. Holds `gateway`.
    InsertGateway(CanonicalL3GatewayRecord),
    /// Change a gateway that has the expected generation. Holds `project_id`, `id`, `expected_generation`, `name`, `external_realm_id`, `enable_snat`.
    UpdateGateway(String, u128, u64, String, Option<u128>, bool),
    /// Mark a gateway that has the expected generation as being deleted. Holds `project_id`, `id`, `expected_generation`.
    BeginGatewayDeletion(String, u128, u64),
    /// Remove a gateway that is being deleted. Holds `project_id`, `id`, `expected_generation`.
    FinalizeGatewayDeletion(String, u128, u64),
    /// List the realms that are attached to a gateway. Holds `project_id`, `gateway_id`.
    ListAttachments(String, u128),
    /// Attach a realm to a gateway. Holds `attachment`.
    InsertAttachment(CanonicalL3GatewayAttachmentRecord),
    /// Mark an attachment that has the expected generation as being deleted. Holds `project_id`, `id`, `expected_generation`.
    BeginAttachmentDeletion(String, u128, u64),
    /// Remove an attachment that is being deleted. Holds `project_id`, `id`, `expected_generation`.
    FinalizeAttachmentDeletion(String, u128, u64),
    /// Compile the plan of a gateway from what is recorded, or refuse to. Holds `graph`.
    CompileGateway(GatewayGraph),
    /// Store the lifecycle of a resource. Holds `resource`.
    InsertResource(ResourceRecord),
    /// Change the lifecycle of a resource that has the expected generation. Holds `id`, `expected_generation`, `desired_state`, `observed_state`, `generation`.
    UpdateResource(u128, i64, String, String, i64),
    /// Accept the deletion of a realm as an operation, or find the one that was accepted before. Holds `request`.
    AcceptRealmDeletion(RealmDeletionRequest),
    /// List the operations that have not ended.
    ListOpenOperations,
    /// Find an operation. Holds `id`.
    GetOperation(u128),
    /// Find what is known of the course of an operation. Holds `id`.
    GetCanonicalOperation(u128),
    /// Take a step in the course of an operation. Holds `id`, `update`.
    UpdateLifecycle(u128, LifecycleUpdate),
    /// Tell how far an operation is, and why it failed. Holds `id`, `state`, `category`, `message`.
    UpdateOperation(u128, OperationState, String, String),
    /// Set aside one unit of a quota of a project for an operation. Holds `project_id`, `operation`, `key`.
    ReserveQuota(String, String, String),
    /// Use what was set aside. Holds `id`.
    CommitReservation(String),
    /// Give back what was set aside. Holds `id`.
    ReleaseReservation(String),
    /// Give back what was set aside for an operation. Holds `operation`.
    ReleaseForOperation(String),
    /// List the policies of a project that endpoints can share. Holds `project_id`.
    ListPolicies(String),
    /// Find a policy that endpoints can share. Holds `project_id`, `id`.
    GetPolicy(String, u128),
    /// Store a policy that endpoints can share. Holds `policy`.
    InsertPolicy(CanonicalReusableNetworkPolicyRecord),
    /// Change a policy that has the expected generation. Holds `policy`, `expected_generation`.
    UpdatePolicy(CanonicalReusableNetworkPolicyRecord, u64),
    /// Remove a policy that endpoints can share. Holds `project_id`, `id`.
    DeletePolicy(String, u128),
    /// List the rules of a policy. Holds `project_id`, `policy_id`.
    ListRules(String, u128),
    /// Find a rule of a policy. Holds `project_id`, `id`.
    GetRule(String, u128),
    /// Store a rule of a policy. Holds `rule`.
    InsertRule(CanonicalNetworkPolicyRuleRecord),
    /// Remove a rule of a policy. Holds `project_id`, `id`.
    DeleteRule(String, u128),
    /// List the policies that are attached to an endpoint. Holds `project_id`, `endpoint_id`.
    ListEndpointAttachments(String, u128),
    /// List the endpoints that a policy is attached to. Holds `project_id`, `policy_id`.
    ListPolicyAttachments(String, u128),
    /// Attach a policy to an endpoint. Holds `attachment`.
    InsertPolicyAttachment(CanonicalPolicyAttachmentRecord),
    /// Detach a policy from an endpoint. Holds `project_id`, `id`.
    DeletePolicyAttachment(String, u128),
    /// List the policy rules of the endpoints of a network. Holds `project_id`, `network_id`.
    ListNetworkPolicies(String, u128),
    /// Store or replace a policy rule of an endpoint. Holds `policy`.
    UpsertNetworkPolicy(CanonicalNetworkPolicyRecord),
    /// Remove a policy rule of an endpoint. Holds `project_id`, `id`.
    DeleteNetworkPolicy(String, u128),
    /// Find a subnet as clients see it. Holds `project_id`, `id`.
    GetSubnet(String, u128),
    /// Change a subnet as clients see it. Holds `subnet`.
    UpdateSubnet(SubnetRecord),
    /// Store a realm, its pool and the subnet that clients see, all or none. Holds `realm`, `pool`, `subnet`.
    InsertSubnetBundle(CanonicalAddressRealmRecord, CanonicalAddressPoolRecord, SubnetRecord),
    /// Change a subnet and the gateway of its pool, which has the expected generation. Holds `subnet`, `pool_id`, `expected_generation`.
    UpdateSubnetBundle(SubnetRecord, u128, u64),
    /// Remove a realm, its pools and the subnet that clients see. Holds `project_id`, `id`.
    DeleteSubnetBundle(String, u128),
    /// Find a port as clients see it. Holds `project_id`, `id`.
    GetPort(String, u128),
    /// Find a port as clients see it, whoever owns it. Holds `id`.
    GetPortById(u128),
    /// Store an endpoint and the port that clients see, both or none. Holds `endpoint`, `port`.
    InsertEndpointAndPort(CanonicalEndpointRecord, PortRecord),
    /// Remove an endpoint and the port that clients see. Holds `project_id`, `id`.
    DeleteEndpointAndPort(String, u128),
    /// Rename a port. Holds `project_id`, `id`, `name`.
    UpdatePortName(String, u128, String),
    /// Set the host of a port and the state of its binding. Holds `project_id`, `id`, `host`, `state`.
    UpdatePortBinding(String, u128, Option<String>, Option<String>),
}

/// The view of [`StoreCall`].
#[verifier::ext_equal]
pub enum StoreCallView {
    NewId,
    Sleep(u64),
    Authorize(Seq<char>, Seq<char>, Option<u128>, Seq<char>),
    Audit(AuditRecordView),
    GetOwner(Seq<char>, u128),
    Backfill,
    InsertNetwork(NetworkRecordView),
    DeleteNetwork(Seq<char>, u128),
    InsertSubnet(SubnetRecordView),
    InsertPort(PortRecordView),
    RetireLegacyFile,
    ListNetworks(Seq<char>),
    GetNetwork(Seq<char>, u128),
    InsertCanonicalNetwork(CanonicalNetworkRecordView),
    UpdateCanonicalNetwork(Seq<char>, u128, u64, Seq<char>, bool),
    DeleteCanonicalNetwork(Seq<char>, u128),
    ListRealms(Seq<char>, u128),
    GetRealm(Seq<char>, u128),
    InsertRealm(CanonicalAddressRealmRecordView),
    DeleteRealm(Seq<char>, u128),
    BeginRealmDeletion(Seq<char>, u128, u64),
    FinalizeRealmDeletion(Seq<char>, u128, u64),
    ListRealmBindings(u128),
    DeleteRealmBinding(CanonicalRealmBindingRecordView, u64),
    ListPools(Seq<char>, u128),
    InsertPool(CanonicalAddressPoolRecordView),
    DeletePool(Seq<char>, u128),
    ListEndpoints(Seq<char>, u128),
    GetEndpoint(Seq<char>, u128),
    InsertEndpoint(CanonicalEndpointRecordView),
    DeleteEndpoint(Seq<char>, u128),
    ListGateways(Seq<char>),
    GetGateway(Seq<char>, u128),
    InsertGateway(CanonicalL3GatewayRecordView),
    UpdateGateway(Seq<char>, u128, u64, Seq<char>, Option<u128>, bool),
    BeginGatewayDeletion(Seq<char>, u128, u64),
    FinalizeGatewayDeletion(Seq<char>, u128, u64),
    ListAttachments(Seq<char>, u128),
    InsertAttachment(CanonicalL3GatewayAttachmentRecordView),
    BeginAttachmentDeletion(Seq<char>, u128, u64),
    FinalizeAttachmentDeletion(Seq<char>, u128, u64),
    CompileGateway(GatewayGraphView),
    InsertResource(ResourceRecordView),
    UpdateResource(u128, i64, Seq<char>, Seq<char>, i64),
    AcceptRealmDeletion(RealmDeletionRequestView),
    ListOpenOperations,
    GetOperation(u128),
    GetCanonicalOperation(u128),
    UpdateLifecycle(u128, LifecycleUpdateView),
    UpdateOperation(u128, OperationState, Seq<char>, Seq<char>),
    ReserveQuota(Seq<char>, Seq<char>, Seq<char>),
    CommitReservation(Seq<char>),
    ReleaseReservation(Seq<char>),
    ReleaseForOperation(Seq<char>),
    ListPolicies(Seq<char>),
    GetPolicy(Seq<char>, u128),
    InsertPolicy(CanonicalReusableNetworkPolicyRecordView),
    UpdatePolicy(CanonicalReusableNetworkPolicyRecordView, u64),
    DeletePolicy(Seq<char>, u128),
    ListRules(Seq<char>, u128),
    GetRule(Seq<char>, u128),
    InsertRule(CanonicalNetworkPolicyRuleRecordView),
    DeleteRule(Seq<char>, u128),
    ListEndpointAttachments(Seq<char>, u128),
    ListPolicyAttachments(Seq<char>, u128),
    InsertPolicyAttachment(CanonicalPolicyAttachmentRecordView),
    DeletePolicyAttachment(Seq<char>, u128),
    ListNetworkPolicies(Seq<char>, u128),
    UpsertNetworkPolicy(CanonicalNetworkPolicyRecordView),
    DeleteNetworkPolicy(Seq<char>, u128),
    GetSubnet(Seq<char>, u128),
    UpdateSubnet(SubnetRecordView),
    InsertSubnetBundle(CanonicalAddressRealmRecordView, CanonicalAddressPoolRecordView, SubnetRecordView),
    UpdateSubnetBundle(SubnetRecordView, u128, u64),
    DeleteSubnetBundle(Seq<char>, u128),
    GetPort(Seq<char>, u128),
    GetPortById(u128),
    InsertEndpointAndPort(CanonicalEndpointRecordView, PortRecordView),
    DeleteEndpointAndPort(Seq<char>, u128),
    UpdatePortName(Seq<char>, u128, Seq<char>),
    UpdatePortBinding(Seq<char>, u128, Option<Seq<char>>, Option<Seq<char>>),
}

impl View for StoreCall {
    type V = StoreCallView;

    open spec fn view(&self) -> StoreCallView {
        match *self {
            StoreCall::NewId => StoreCallView::NewId,
            StoreCall::Sleep(ms) => StoreCallView::Sleep(ms),
            StoreCall::Authorize(action, resource, resource_id, owner) => StoreCallView::Authorize(action@, resource@, resource_id, owner@),
            StoreCall::Audit(record) => StoreCallView::Audit(record@),
            StoreCall::GetOwner(resource, id) => StoreCallView::GetOwner(resource@, id),
            StoreCall::Backfill => StoreCallView::Backfill,
            StoreCall::InsertNetwork(network) => StoreCallView::InsertNetwork(network@),
            StoreCall::DeleteNetwork(project_id, id) => StoreCallView::DeleteNetwork(project_id@, id),
            StoreCall::InsertSubnet(subnet) => StoreCallView::InsertSubnet(subnet@),
            StoreCall::InsertPort(port) => StoreCallView::InsertPort(port@),
            StoreCall::RetireLegacyFile => StoreCallView::RetireLegacyFile,
            StoreCall::ListNetworks(project_id) => StoreCallView::ListNetworks(project_id@),
            StoreCall::GetNetwork(project_id, id) => StoreCallView::GetNetwork(project_id@, id),
            StoreCall::InsertCanonicalNetwork(network) => StoreCallView::InsertCanonicalNetwork(network@),
            StoreCall::UpdateCanonicalNetwork(project_id, id, expected_generation, name, admin_state_up) => StoreCallView::UpdateCanonicalNetwork(project_id@, id, expected_generation, name@, admin_state_up),
            StoreCall::DeleteCanonicalNetwork(project_id, id) => StoreCallView::DeleteCanonicalNetwork(project_id@, id),
            StoreCall::ListRealms(project_id, network_id) => StoreCallView::ListRealms(project_id@, network_id),
            StoreCall::GetRealm(project_id, id) => StoreCallView::GetRealm(project_id@, id),
            StoreCall::InsertRealm(realm) => StoreCallView::InsertRealm(realm@),
            StoreCall::DeleteRealm(project_id, id) => StoreCallView::DeleteRealm(project_id@, id),
            StoreCall::BeginRealmDeletion(project_id, id, expected_generation) => StoreCallView::BeginRealmDeletion(project_id@, id, expected_generation),
            StoreCall::FinalizeRealmDeletion(project_id, id, expected_generation) => StoreCallView::FinalizeRealmDeletion(project_id@, id, expected_generation),
            StoreCall::ListRealmBindings(realm_id) => StoreCallView::ListRealmBindings(realm_id),
            StoreCall::DeleteRealmBinding(binding, generation) => StoreCallView::DeleteRealmBinding(binding@, generation),
            StoreCall::ListPools(project_id, realm_id) => StoreCallView::ListPools(project_id@, realm_id),
            StoreCall::InsertPool(pool) => StoreCallView::InsertPool(pool@),
            StoreCall::DeletePool(project_id, id) => StoreCallView::DeletePool(project_id@, id),
            StoreCall::ListEndpoints(project_id, realm_id) => StoreCallView::ListEndpoints(project_id@, realm_id),
            StoreCall::GetEndpoint(project_id, id) => StoreCallView::GetEndpoint(project_id@, id),
            StoreCall::InsertEndpoint(endpoint) => StoreCallView::InsertEndpoint(endpoint@),
            StoreCall::DeleteEndpoint(project_id, id) => StoreCallView::DeleteEndpoint(project_id@, id),
            StoreCall::ListGateways(project_id) => StoreCallView::ListGateways(project_id@),
            StoreCall::GetGateway(project_id, id) => StoreCallView::GetGateway(project_id@, id),
            StoreCall::InsertGateway(gateway) => StoreCallView::InsertGateway(gateway@),
            StoreCall::UpdateGateway(project_id, id, expected_generation, name, external_realm_id, enable_snat) => StoreCallView::UpdateGateway(project_id@, id, expected_generation, name@, external_realm_id, enable_snat),
            StoreCall::BeginGatewayDeletion(project_id, id, expected_generation) => StoreCallView::BeginGatewayDeletion(project_id@, id, expected_generation),
            StoreCall::FinalizeGatewayDeletion(project_id, id, expected_generation) => StoreCallView::FinalizeGatewayDeletion(project_id@, id, expected_generation),
            StoreCall::ListAttachments(project_id, gateway_id) => StoreCallView::ListAttachments(project_id@, gateway_id),
            StoreCall::InsertAttachment(attachment) => StoreCallView::InsertAttachment(attachment@),
            StoreCall::BeginAttachmentDeletion(project_id, id, expected_generation) => StoreCallView::BeginAttachmentDeletion(project_id@, id, expected_generation),
            StoreCall::FinalizeAttachmentDeletion(project_id, id, expected_generation) => StoreCallView::FinalizeAttachmentDeletion(project_id@, id, expected_generation),
            StoreCall::CompileGateway(graph) => StoreCallView::CompileGateway(graph@),
            StoreCall::InsertResource(resource) => StoreCallView::InsertResource(resource@),
            StoreCall::UpdateResource(id, expected_generation, desired_state, observed_state, generation) => StoreCallView::UpdateResource(id, expected_generation, desired_state@, observed_state@, generation),
            StoreCall::AcceptRealmDeletion(request) => StoreCallView::AcceptRealmDeletion(request@),
            StoreCall::ListOpenOperations => StoreCallView::ListOpenOperations,
            StoreCall::GetOperation(id) => StoreCallView::GetOperation(id),
            StoreCall::GetCanonicalOperation(id) => StoreCallView::GetCanonicalOperation(id),
            StoreCall::UpdateLifecycle(id, update) => StoreCallView::UpdateLifecycle(id, update@),
            StoreCall::UpdateOperation(id, state, category, message) => StoreCallView::UpdateOperation(id, state, category@, message@),
            StoreCall::ReserveQuota(project_id, operation, key) => StoreCallView::ReserveQuota(project_id@, operation@, key@),
            StoreCall::CommitReservation(id) => StoreCallView::CommitReservation(id@),
            StoreCall::ReleaseReservation(id) => StoreCallView::ReleaseReservation(id@),
            StoreCall::ReleaseForOperation(operation) => StoreCallView::ReleaseForOperation(operation@),
            StoreCall::ListPolicies(project_id) => StoreCallView::ListPolicies(project_id@),
            StoreCall::GetPolicy(project_id, id) => StoreCallView::GetPolicy(project_id@, id),
            StoreCall::InsertPolicy(policy) => StoreCallView::InsertPolicy(policy@),
            StoreCall::UpdatePolicy(policy, expected_generation) => StoreCallView::UpdatePolicy(policy@, expected_generation),
            StoreCall::DeletePolicy(project_id, id) => StoreCallView::DeletePolicy(project_id@, id),
            StoreCall::ListRules(project_id, policy_id) => StoreCallView::ListRules(project_id@, policy_id),
            StoreCall::GetRule(project_id, id) => StoreCallView::GetRule(project_id@, id),
            StoreCall::InsertRule(rule) => StoreCallView::InsertRule(rule@),
            StoreCall::DeleteRule(project_id, id) => StoreCallView::DeleteRule(project_id@, id),
            StoreCall::ListEndpointAttachments(project_id, endpoint_id) => StoreCallView::ListEndpointAttachments(project_id@, endpoint_id),
            StoreCall::ListPolicyAttachments(project_id, policy_id) => StoreCallView::ListPolicyAttachments(project_id@, policy_id),
            StoreCall::InsertPolicyAttachment(attachment) => StoreCallView::InsertPolicyAttachment(attachment@),
            StoreCall::DeletePolicyAttachment(project_id, id) => StoreCallView::DeletePolicyAttachment(project_id@, id),
            StoreCall::ListNetworkPolicies(project_id, network_id) => StoreCallView::ListNetworkPolicies(project_id@, network_id),
            StoreCall::UpsertNetworkPolicy(policy) => StoreCallView::UpsertNetworkPolicy(policy@),
            StoreCall::DeleteNetworkPolicy(project_id, id) => StoreCallView::DeleteNetworkPolicy(project_id@, id),
            StoreCall::GetSubnet(project_id, id) => StoreCallView::GetSubnet(project_id@, id),
            StoreCall::UpdateSubnet(subnet) => StoreCallView::UpdateSubnet(subnet@),
            StoreCall::InsertSubnetBundle(realm, pool, subnet) => StoreCallView::InsertSubnetBundle(realm@, pool@, subnet@),
            StoreCall::UpdateSubnetBundle(subnet, pool_id, expected_generation) => StoreCallView::UpdateSubnetBundle(subnet@, pool_id, expected_generation),
            StoreCall::DeleteSubnetBundle(project_id, id) => StoreCallView::DeleteSubnetBundle(project_id@, id),
            StoreCall::GetPort(project_id, id) => StoreCallView::GetPort(project_id@, id),
            StoreCall::GetPortById(id) => StoreCallView::GetPortById(id),
            StoreCall::InsertEndpointAndPort(endpoint, port) => StoreCallView::InsertEndpointAndPort(endpoint@, port@),
            StoreCall::DeleteEndpointAndPort(project_id, id) => StoreCallView::DeleteEndpointAndPort(project_id@, id),
            StoreCall::UpdatePortName(project_id, id, name) => StoreCallView::UpdatePortName(project_id@, id, name@),
            StoreCall::UpdatePortBinding(project_id, id, host, state) => StoreCallView::UpdatePortBinding(project_id@, id, view_opt(host), view_opt(state)),
        }
    }
}

/// What the store answers.
#[derive(Clone, Debug, PartialEq, Eq)]
pub enum StoreReply {
    /// The call failed.
    Failed(StoreFailure),
    /// The call was performed.
    Done,
    Network(Option<CanonicalNetworkRecord>),
    Networks(Vec<CanonicalNetworkRecord>),
    NetworkUpdated(CanonicalNetworkRecord),
    Realm(Option<CanonicalAddressRealmRecord>),
    Realms(Vec<CanonicalAddressRealmRecord>),
    RealmUpdated(CanonicalAddressRealmRecord),
    Pools(Vec<CanonicalAddressPoolRecord>),
    Endpoint(Option<CanonicalEndpointRecord>),
    Endpoints(Vec<CanonicalEndpointRecord>),
    Gateway(Option<CanonicalL3GatewayRecord>),
    Gateways(Vec<CanonicalL3GatewayRecord>),
    GatewayUpdated(CanonicalL3GatewayRecord),
    Attachments(Vec<CanonicalL3GatewayAttachmentRecord>),
    AttachmentUpdated(CanonicalL3GatewayAttachmentRecord),
    Policy(Option<CanonicalReusableNetworkPolicyRecord>),
    Policies(Vec<CanonicalReusableNetworkPolicyRecord>),
    PolicyUpdated(CanonicalReusableNetworkPolicyRecord),
    Rule(Option<CanonicalNetworkPolicyRuleRecord>),
    Rules(Vec<CanonicalNetworkPolicyRuleRecord>),
    PolicyAttachments(Vec<CanonicalPolicyAttachmentRecord>),
    NetworkPolicies(Vec<CanonicalNetworkPolicyRecord>),
    Port(Option<PortRecord>),
    PortUpdated(PortRecord),
    Subnet(Option<SubnetRecord>),
    Bindings(Vec<CanonicalRealmBindingRecord>),
    Operations(Vec<OperationRecord>),
    Operation(OperationRecord),
    CanonicalOperation(CanonicalOperationRecord),
    Accepted(Option<AcceptedOperation>),
    /// The encoding of the plan of a gateway, or that it is refused.
    GatewayPlan(Option<String>),
    Owner(Option<String>),
    Quota(String),
    Id(u128),
    Decision(Decision),
}

/// The view of [`StoreReply`].
#[verifier::ext_equal]
pub enum StoreReplyView {
    Failed(StoreFailureView),
    Done,
    Network(Option<CanonicalNetworkRecordView>),
    Networks(Seq<CanonicalNetworkRecordView>),
    NetworkUpdated(CanonicalNetworkRecordView),
    Realm(Option<CanonicalAddressRealmRecordView>),
    Realms(Seq<CanonicalAddressRealmRecordView>),
    RealmUpdated(CanonicalAddressRealmRecordView),
    Pools(Seq<CanonicalAddressPoolRecordView>),
    Endpoint(Option<CanonicalEndpointRecordView>),
    Endpoints(Seq<CanonicalEndpointRecordView>),
    Gateway(Option<CanonicalL3GatewayRecordView>),
    Gateways(Seq<CanonicalL3GatewayRecordView>),
    GatewayUpdated(CanonicalL3GatewayRecordView),
    Attachments(Seq<CanonicalL3GatewayAttachmentRecordView>),
    AttachmentUpdated(CanonicalL3GatewayAttachmentRecordView),
    Policy(Option<CanonicalReusableNetworkPolicyRecordView>),
    Policies(Seq<CanonicalReusableNetworkPolicyRecordView>),
    PolicyUpdated(CanonicalReusableNetworkPolicyRecordView),
    Rule(Option<CanonicalNetworkPolicyRuleRecordView>),
    Rules(Seq<CanonicalNetworkPolicyRuleRecordView>),
    PolicyAttachments(Seq<CanonicalPolicyAttachmentRecordView>),
    NetworkPolicies(Seq<CanonicalNetworkPolicyRecordView>),
    Port(Option<PortRecordView>),
    PortUpdated(PortRecordView),
    Subnet(Option<SubnetRecordView>),
    Bindings(Seq<CanonicalRealmBindingRecordView>),
    Operations(Seq<OperationRecordView>),
    Operation(OperationRecordView),
    CanonicalOperation(CanonicalOperationRecordView),
    Accepted(Option<AcceptedOperationView>),
    GatewayPlan(Option<Seq<char>>),
    Owner(Option<Seq<char>>),
    Quota(Seq<char>),
    Id(u128),
    Decision(Decision),
}

impl View for StoreReply {
    type V = StoreReplyView;

    open spec fn view(&self) -> StoreReplyView {
        match *self {
            StoreReply::Failed(f) => StoreReplyView::Failed(f@),
            StoreReply::Done => StoreReplyView::Done,
            StoreReply::Network(v) => StoreReplyView::Network(view_opt(v)),
            StoreReply::Networks(v) => StoreReplyView::Networks(views(v@)),
            StoreReply::NetworkUpdated(v) => StoreReplyView::NetworkUpdated(v@),
            StoreReply::Realm(v) => StoreReplyView::Realm(view_opt(v)),
            StoreReply::Realms(v) => StoreReplyView::Realms(views(v@)),
            StoreReply::RealmUpdated(v) => StoreReplyView::RealmUpdated(v@),
            StoreReply::Pools(v) => StoreReplyView::Pools(views(v@)),
            StoreReply::Endpoint(v) => StoreReplyView::Endpoint(view_opt(v)),
            StoreReply::Endpoints(v) => StoreReplyView::Endpoints(views(v@)),
            StoreReply::Gateway(v) => StoreReplyView::Gateway(view_opt(v)),
            StoreReply::Gateways(v) => StoreReplyView::Gateways(views(v@)),
            StoreReply::GatewayUpdated(v) => StoreReplyView::GatewayUpdated(v@),
            StoreReply::Attachments(v) => StoreReplyView::Attachments(views(v@)),
            StoreReply::AttachmentUpdated(v) => StoreReplyView::AttachmentUpdated(v@),
            StoreReply::Policy(v) => StoreReplyView::Policy(view_opt(v)),
            StoreReply::Policies(v) => StoreReplyView::Policies(views(v@)),
            StoreReply::PolicyUpdated(v) => StoreReplyView::PolicyUpdated(v@),
            StoreReply::Rule(v) => StoreReplyView::Rule(view_opt(v)),
            StoreReply::Rules(v) => StoreReplyView::Rules(views(v@)),
            StoreReply::PolicyAttachments(v) => StoreReplyView::PolicyAttachments(views(v@)),
            StoreReply::NetworkPolicies(v) => StoreReplyView::NetworkPolicies(views(v@)),
            StoreReply::Port(v) => StoreReplyView::Port(view_opt(v)),
            StoreReply::PortUpdated(v) => StoreReplyView::PortUpdated(v@),
            StoreReply::Subnet(v) => StoreReplyView::Subnet(view_opt(v)),
            StoreReply::Bindings(v) => StoreReplyView::Bindings(views(v@)),
            StoreReply::Operations(v) => StoreReplyView::Operations(views(v@)),
            StoreReply::Operation(v) => StoreReplyView::Operation(v@),
            StoreReply::CanonicalOperation(v) => StoreReplyView::CanonicalOperation(v@),
            StoreReply::Accepted(v) => StoreReplyView::Accepted(view_opt(v)),
            StoreReply::GatewayPlan(v) => StoreReplyView::GatewayPlan(view_opt(v)),
            StoreReply::Owner(v) => StoreReplyView::Owner(view_opt(v)),
            StoreReply::Quota(v) => StoreReplyView::Quota(v@),
            StoreReply::Id(v) => StoreReplyView::Id(v),
            StoreReply::Decision(v) => StoreReplyView::Decision(v),
        }
    }
}

/// The answers known so far and the calls made so far.
#[verifier::ext_equal]
pub struct Log {
    pub replies: Seq<StoreReplyView>,
    pub issued: Seq<StoreCallView>,
}

impl Log {
    /// The log after one more call.
    pub open spec fn after(self, call: StoreCallView) -> Log {
        Log { replies: self.replies, issued: self.issued.push(call) }
    }

    /// The answer to the next call, where it is known.
    pub open spec fn reply(self) -> Option<StoreReplyView> {
        if self.issued.len() < self.replies.len() {
            Some(self.replies[self.issued.len() as int])
        } else {
            None
        }
    }
}

/// The network service.
#[derive(Clone, Debug, PartialEq, Eq)]
pub struct NetworkService {
    pub replies: Vec<StoreReply>,
    pub issued: Vec<StoreCall>,
}

impl View for NetworkService {
    type V = Log;

    open spec fn view(&self) -> Log {
        Log { replies: views(self.replies@), issued: views(self.issued@) }
    }
}

/// What a request or a part of it comes to.
pub type Answer<T> = Result<T, Stop<NetworkErrorView>>;

/// Why a request stopped, by its view.
pub open spec fn stopped(stop: Stop<NetworkError>) -> Stop<NetworkErrorView> {
    match stop {
        Stop::Pending => Stop::Pending,
        Stop::Failed(e) => Stop::Failed(e@),
    }
}

/// An answer that is one record, by its view.
pub open spec fn one<T: View>(r: Result<T, Stop<NetworkError>>) -> Answer<T::V> {
    match r {
        Ok(v) => Ok(v@),
        Err(stop) => Err(stopped(stop)),
    }
}

/// An answer that is a list of records, by its view.
pub open spec fn many<T: View>(r: Result<Vec<T>, Stop<NetworkError>>) -> Answer<Seq<T::V>> {
    match r {
        Ok(v) => Ok(views(v@)),
        Err(stop) => Err(stopped(stop)),
    }
}

/// An answer that may be a record, by its view.
pub open spec fn maybe<T: View>(r: Result<Option<T>, Stop<NetworkError>>) -> Answer<Option<T::V>> {
    match r {
        Ok(v) => Ok(view_opt(v)),
        Err(stop) => Err(stopped(stop)),
    }
}

/// An answer without a value, by its view.
pub open spec fn unit(r: Result<(), Stop<NetworkError>>) -> Answer<()> {
    match r {
        Ok(()) => Ok(()),
        Err(stop) => Err(stopped(stop)),
    }
}

/// An answer that says whether a call failed, by its view.
pub open spec fn trial(r: Result<Result<(), StoreFailure>, Stop<NetworkError>>) -> Answer<
    Result<(), StoreFailureView>,
> {
    match r {
        Ok(Ok(())) => Ok(Ok(())),
        Ok(Err(f)) => Ok(Err(f@)),
        Err(stop) => Err(stopped(stop)),
    }
}

/// An answer that is a realm or says why the call failed, by its view.
pub open spec fn realm_trial(
    r: Result<Result<CanonicalAddressRealmRecord, StoreFailure>, Stop<NetworkError>>,
) -> Answer<Result<CanonicalAddressRealmRecordView, StoreFailureView>> {
    match r {
        Ok(Ok(v)) => Ok(Ok(v@)),
        Ok(Err(f)) => Ok(Err(f@)),
        Err(stop) => Err(stopped(stop)),
    }
}

/// What a call comes to whose outcome does not matter.
pub open spec fn heard(reply: Option<StoreReplyView>) -> Answer<()> {
    match reply {
        None => Err(Stop::Pending),
        Some(_) => Ok(()),
    }
}

/// What a call comes to that only has to be performed.
pub open spec fn tried(reply: Option<StoreReplyView>) -> Answer<Result<(), StoreFailureView>> {
    match reply {
        None => Err(Stop::Pending),
        Some(StoreReplyView::Done) => Ok(Ok(())),
        Some(StoreReplyView::Failed(f)) => Ok(Err(f)),
        Some(_) => Ok(Err(unexpected())),
    }
}

/// What a call comes to that changes a realm.
pub open spec fn tried_realm(reply: Option<StoreReplyView>) -> Answer<
    Result<CanonicalAddressRealmRecordView, StoreFailureView>,
> {
    match reply {
        None => Err(Stop::Pending),
        Some(StoreReplyView::RealmUpdated(v)) => Ok(Ok(v)),
        Some(StoreReplyView::Failed(f)) => Ok(Err(f)),
        Some(_) => Ok(Err(unexpected())),
    }
}

/// What a call comes to that has to be performed.
pub open spec fn done(reply: Option<StoreReplyView>) -> Answer<()> {
    match tried(reply) {
        Err(stop) => Err(stop),
        Ok(Ok(())) => Ok(()),
        Ok(Err(f)) => Err(Stop::Failed(map_failure(f))),
    }
}

/// What an answer comes to that is not the expected one.
pub open spec fn missed<T>(reply: StoreReplyView) -> Answer<T> {
    match reply {
        StoreReplyView::Failed(f) => Err(Stop::Failed(map_failure(f))),
        _ => Err(Stop::Failed(map_failure(unexpected()))),
    }
}

/// What a call comes to that is answered with [`StoreReply::Network`].
pub open spec fn network_in(reply: Option<StoreReplyView>) -> Answer<Option<CanonicalNetworkRecordView>> {
    match reply {
        None => Err(Stop::Pending),
        Some(StoreReplyView::Network(v)) => Ok(v),
        Some(other) => missed(other),
    }
}

/// What a call comes to that is answered with [`StoreReply::Networks`].
pub open spec fn networks_in(reply: Option<StoreReplyView>) -> Answer<Seq<CanonicalNetworkRecordView>> {
    match reply {
        None => Err(Stop::Pending),
        Some(StoreReplyView::Networks(v)) => Ok(v),
        Some(other) => missed(other),
    }
}

/// What a call comes to that is answered with [`StoreReply::NetworkUpdated`].
pub open spec fn updated_network_in(reply: Option<StoreReplyView>) -> Answer<CanonicalNetworkRecordView> {
    match reply {
        None => Err(Stop::Pending),
        Some(StoreReplyView::NetworkUpdated(v)) => Ok(v),
        Some(other) => missed(other),
    }
}

/// What a call comes to that is answered with [`StoreReply::Realm`].
pub open spec fn realm_in(reply: Option<StoreReplyView>) -> Answer<Option<CanonicalAddressRealmRecordView>> {
    match reply {
        None => Err(Stop::Pending),
        Some(StoreReplyView::Realm(v)) => Ok(v),
        Some(other) => missed(other),
    }
}

/// What a call comes to that is answered with [`StoreReply::Realms`].
pub open spec fn realms_in(reply: Option<StoreReplyView>) -> Answer<Seq<CanonicalAddressRealmRecordView>> {
    match reply {
        None => Err(Stop::Pending),
        Some(StoreReplyView::Realms(v)) => Ok(v),
        Some(other) => missed(other),
    }
}

/// What a call comes to that is answered with [`StoreReply::Pools`].
pub open spec fn pools_in(reply: Option<StoreReplyView>) -> Answer<Seq<CanonicalAddressPoolRecordView>> {
    match reply {
        None => Err(Stop::Pending),
        Some(StoreReplyView::Pools(v)) => Ok(v),
        Some(other) => missed(other),
    }
}

/// What a call comes to that is answered with [`StoreReply::Endpoint`].
pub open spec fn endpoint_in(reply: Option<StoreReplyView>) -> Answer<Option<CanonicalEndpointRecordView>> {
    match reply {
        None => Err(Stop::Pending),
        Some(StoreReplyView::Endpoint(v)) => Ok(v),
        Some(other) => missed(other),
    }
}

/// What a call comes to that is answered with [`StoreReply::Endpoints`].
pub open spec fn endpoints_in(reply: Option<StoreReplyView>) -> Answer<Seq<CanonicalEndpointRecordView>> {
    match reply {
        None => Err(Stop::Pending),
        Some(StoreReplyView::Endpoints(v)) => Ok(v),
        Some(other) => missed(other),
    }
}

/// What a call comes to that is answered with [`StoreReply::Gateway`].
pub open spec fn gateway_in(reply: Option<StoreReplyView>) -> Answer<Option<CanonicalL3GatewayRecordView>> {
    match reply {
        None => Err(Stop::Pending),
        Some(StoreReplyView::Gateway(v)) => Ok(v),
        Some(other) => missed(other),
    }
}

/// What a call comes to that is answered with [`StoreReply::Gateways`].
pub open spec fn gateways_in(reply: Option<StoreReplyView>) -> Answer<Seq<CanonicalL3GatewayRecordView>> {
    match reply {
        None => Err(Stop::Pending),
        Some(StoreReplyView::Gateways(v)) => Ok(v),
        Some(other) => missed(other),
    }
}

/// What a call comes to that is answered with [`StoreReply::GatewayUpdated`].
pub open spec fn updated_gateway_in(reply: Option<StoreReplyView>) -> Answer<CanonicalL3GatewayRecordView> {
    match reply {
        None => Err(Stop::Pending),
        Some(StoreReplyView::GatewayUpdated(v)) => Ok(v),
        Some(other) => missed(other),
    }
}

/// What a call comes to that is answered with [`StoreReply::Attachments`].
pub open spec fn attachments_in(reply: Option<StoreReplyView>) -> Answer<Seq<CanonicalL3GatewayAttachmentRecordView>> {
    match reply {
        None => Err(Stop::Pending),
        Some(StoreReplyView::Attachments(v)) => Ok(v),
        Some(other) => missed(other),
    }
}

/// What a call comes to that is answered with [`StoreReply::AttachmentUpdated`].
pub open spec fn updated_attachment_in(reply: Option<StoreReplyView>) -> Answer<CanonicalL3GatewayAttachmentRecordView> {
    match reply {
        None => Err(Stop::Pending),
        Some(StoreReplyView::AttachmentUpdated(v)) => Ok(v),
        Some(other) => missed(other),
    }
}

/// What a call comes to that is answered with [`StoreReply::Policy`].
pub open spec fn policy_in(reply: Option<StoreReplyView>) -> Answer<Option<CanonicalReusableNetworkPolicyRecordView>> {
    match reply {
        None => Err(Stop::Pending),
        Some(StoreReplyView::Policy(v)) => Ok(v),
        Some(other) => missed(other),
    }
}

/// What a call comes to that is answered with [`StoreReply::Policies`].
pub open spec fn policies_in(reply: Option<StoreReplyView>) -> Answer<Seq<CanonicalReusableNetworkPolicyRecordView>> {
    match reply {
        None => Err(Stop::Pending),
        Some(StoreReplyView::Policies(v)) => Ok(v),
        Some(other) => missed(other),
    }
}

/// What a call comes to that is answered with [`StoreReply::PolicyUpdated`].
pub open spec fn updated_policy_in(reply: Option<StoreReplyView>) -> Answer<CanonicalReusableNetworkPolicyRecordView> {
    match reply {
        None => Err(Stop::Pending),
        Some(StoreReplyView::PolicyUpdated(v)) => Ok(v),
        Some(other) => missed(other),
    }
}

/// What a call comes to that is answered with [`StoreReply::Rule`].
pub open spec fn rule_in(reply: Option<StoreReplyView>) -> Answer<Option<CanonicalNetworkPolicyRuleRecordView>> {
    match reply {
        None => Err(Stop::Pending),
        Some(StoreReplyView::Rule(v)) => Ok(v),
        Some(other) => missed(other),
    }
}

/// What a call comes to that is answered with [`StoreReply::Rules`].
pub open spec fn rules_in(reply: Option<StoreReplyView>) -> Answer<Seq<CanonicalNetworkPolicyRuleRecordView>> {
    match reply {
        None => Err(Stop::Pending),
        Some(StoreReplyView::Rules(v)) => Ok(v),
        Some(other) => missed(other),
    }
}

/// What a call comes to that is answered with [`StoreReply::PolicyAttachments`].
pub open spec fn policy_attachments_in(reply: Option<StoreReplyView>) -> Answer<Seq<CanonicalPolicyAttachmentRecordView>> {
    match reply {
        None => Err(Stop::Pending),
        Some(StoreReplyView::PolicyAttachments(v)) => Ok(v),
        Some(other) => missed(other),
    }
}

/// What a call comes to that is answered with [`StoreReply::NetworkPolicies`].
pub open spec fn network_policies_in(reply: Option<StoreReplyView>) -> Answer<Seq<CanonicalNetworkPolicyRecordView>> {
    match reply {
        None => Err(Stop::Pending),
        Some(StoreReplyView::NetworkPolicies(v)) => Ok(v),
        Some(other) => missed(other),
    }
}

/// What a call comes to that is answered with [`StoreReply::Port`].
pub open spec fn port_in(reply: Option<StoreReplyView>) -> Answer<Option<PortRecordView>> {
    match reply {
        None => Err(Stop::Pending),
        Some(StoreReplyView::Port(v)) => Ok(v),
        Some(other) => missed(other),
    }
}

/// What a call comes to that is answered with [`StoreReply::PortUpdated`].
pub open spec fn updated_port_in(reply: Option<StoreReplyView>) -> Answer<PortRecordView> {
    match reply {
        None => Err(Stop::Pending),
        Some(StoreReplyView::PortUpdated(v)) => Ok(v),
        Some(other) => missed(other),
    }
}

/// What a call comes to that is answered with [`StoreReply::Subnet`].
pub open spec fn subnet_in(reply: Option<StoreReplyView>) -> Answer<Option<SubnetRecordView>> {
    match reply {
        None => Err(Stop::Pending),
        Some(StoreReplyView::Subnet(v)) => Ok(v),
        Some(other) => missed(other),
    }
}

/// What a call comes to that is answered with [`StoreReply::Bindings`].
pub open spec fn bindings_in(reply: Option<StoreReplyView>) -> Answer<Seq<CanonicalRealmBindingRecordView>> {
    match reply {
        None => Err(Stop::Pending),
        Some(StoreReplyView::Bindings(v)) => Ok(v),
        Some(other) => missed(other),
    }
}

/// What a call comes to that is answered with [`StoreReply::Operations`].
pub open spec fn operations_in(reply: Option<StoreReplyView>) -> Answer<Seq<OperationRecordView>> {
    match reply {
        None => Err(Stop::Pending),
        Some(StoreReplyView::Operations(v)) => Ok(v),
        Some(other) => missed(other),
    }
}

/// What a call comes to that is answered with [`StoreReply::Operation`].
pub open spec fn operation_in(reply: Option<StoreReplyView>) -> Answer<OperationRecordView> {
    match reply {
        None => Err(Stop::Pending),
        Some(StoreReplyView::Operation(v)) => Ok(v),
        Some(other) => missed(other),
    }
}

/// What a call comes to that is answered with [`StoreReply::CanonicalOperation`].
pub open spec fn canonical_operation_in(reply: Option<StoreReplyView>) -> Answer<CanonicalOperationRecordView> {
    match reply {
        None => Err(Stop::Pending),
        Some(StoreReplyView::CanonicalOperation(v)) => Ok(v),
        Some(other) => missed(other),
    }
}

/// What a call comes to that is answered with [`StoreReply::Accepted`].
pub open spec fn accepted_in(reply: Option<StoreReplyView>) -> Answer<Option<AcceptedOperationView>> {
    match reply {
        None => Err(Stop::Pending),
        Some(StoreReplyView::Accepted(v)) => Ok(v),
        Some(other) => missed(other),
    }
}

/// What a call comes to that is answered with [`StoreReply::GatewayPlan`].
pub open spec fn gateway_plan_in(reply: Option<StoreReplyView>) -> Answer<Option<Seq<char>>> {
    match reply {
        None => Err(Stop::Pending),
        Some(StoreReplyView::GatewayPlan(v)) => Ok(v),
        Some(other) => missed(other),
    }
}

/// What a call comes to that is answered with [`StoreReply::Owner`].
pub open spec fn owner_in(reply: Option<StoreReplyView>) -> Answer<Option<Seq<char>>> {
    match reply {
        None => Err(Stop::Pending),
        Some(StoreReplyView::Owner(v)) => Ok(v),
        Some(other) => missed(other),
    }
}

/// What a call comes to that is answered with [`StoreReply::Quota`].
pub open spec fn reservation_in(reply: Option<StoreReplyView>) -> Answer<Seq<char>> {
    match reply {
        None => Err(Stop::Pending),
        Some(StoreReplyView::Quota(v)) => Ok(v),
        Some(other) => missed(other),
    }
}

/// What a call comes to that is answered with [`StoreReply::Id`].
pub open spec fn id_in(reply: Option<StoreReplyView>) -> Answer<u128> {
    match reply {
        None => Err(Stop::Pending),
        Some(StoreReplyView::Id(v)) => Ok(v),
        Some(other) => missed(other),
    }
}

/// What a call comes to that is answered with [`StoreReply::Decision`].
pub open spec fn decision_in(reply: Option<StoreReplyView>) -> Answer<Decision> {
    match reply {
        None => Err(Stop::Pending),
        Some(StoreReplyView::Decision(v)) => Ok(v),
        Some(other) => missed(other),
    }
}

impl NetworkService {
    /// A service that knows the given answers.
    pub fn with_replies(replies: Vec<StoreReply>) -> (r: NetworkService)
        ensures
            r@.replies == views(replies@),
            r@.issued == Seq::<StoreCallView>::empty(),
    {
        let r = NetworkService { replies, issued: Vec::new() };
        assert(r@.issued =~= Seq::<StoreCallView>::empty());
        r
    }

    fn record(&mut self, call: StoreCall) -> (r: Option<usize>)
        ensures
            final(self)@ == old(self)@.after(call@),
            final(self).replies == old(self).replies,
            match r {
                Some(i) => i < final(self).replies.len() && old(self)@.reply() == Some(
                    final(self).replies@[i as int]@,
                ),
                None => old(self)@.reply() is None,
            },
    {
        let at: usize = self.issued.len();
        let ghost before = self@;
        self.issued.push(call);
        proof {
            assert(self@.issued =~= before.issued.push(call@));
            assert(self@.replies =~= before.replies);
        }
        if at < self.replies.len() {
            Some(at)
        } else {
            None
        }
    }

    fn missed(&self, i: usize) -> (r: NetworkError)
        requires
            i < self.replies.len(),
        ensures
            r@ == match self.replies@[i as int]@ {
                StoreReplyView::Failed(f) => map_failure(f),
                _ => map_failure(unexpected()),
            },
    {
        match &self.replies[i] {
            StoreReply::Failed(f) => map_store_error(f),
            _ => map_store_error(&unexpected_failure()),
        }
    }

    /// Makes a call whose outcome does not matter.
    pub(crate) fn tell(&mut self, call: StoreCall) -> (r: Result<(), Stop<NetworkError>>)
        ensures
            final(self)@ == old(self)@.after(call@),
            unit(r) == heard(old(self)@.reply()),
    {
        match self.record(call) {
            None => Err(Stop::Pending),
            Some(_) => Ok(()),
        }
    }

    /// Makes a call that may fail.
    pub(crate) fn attempt(&mut self, call: StoreCall) -> (r: Result<
        Result<(), StoreFailure>,
        Stop<NetworkError>,
    >)
        ensures
            final(self)@ == old(self)@.after(call@),
            trial(r) == tried(old(self)@.reply()),
    {
        match self.record(call) {
            None => Err(Stop::Pending),
            Some(i) => match &self.replies[i] {
                StoreReply::Done => Ok(Ok(())),
                StoreReply::Failed(f) => Ok(Err(f.copy())),
                _ => Ok(Err(unexpected_failure())),
            },
        }
    }

    /// Makes a call that may fail and otherwise changes a realm.
    pub(crate) fn attempt_realm(&mut self, call: StoreCall) -> (r: Result<
        Result<CanonicalAddressRealmRecord, StoreFailure>,
        Stop<NetworkError>,
    >)
        ensures
            final(self)@ == old(self)@.after(call@),
            realm_trial(r) == tried_realm(old(self)@.reply()),
    {
        match self.record(call) {
            None => Err(Stop::Pending),
            Some(i) => match &self.replies[i] {
                StoreReply::RealmUpdated(v) => Ok(Ok(v.copy())),
                StoreReply::Failed(f) => Ok(Err(f.copy())),
                _ => Ok(Err(unexpected_failure())),
            },
        }
    }

    /// Makes a call that has to be performed.
    pub(crate) fn perform(&mut self, call: StoreCall) -> (r: Result<(), Stop<NetworkError>>)
        ensures
            final(self)@ == old(self)@.after(call@),
            unit(r) == done(old(self)@.reply()),
    {
        match self.attempt(call) {
            Err(stop) => Err(stop),
            Ok(Ok(())) => Ok(()),
            Ok(Err(f)) => Err(Stop::Failed(map_store_error(&f))),
        }
    }

    /// Makes a call that is answered with [`StoreReply::Network`].
    pub(crate) fn ask_network(&mut self, call: StoreCall) -> (r: Result<
        Option<CanonicalNetworkRecord>,
        Stop<NetworkError>,
    >)
        ensures
            final(self)@ == old(self)@.after(call@),
            maybe(r) == network_in(old(self)@.reply()),
    {
        match self.record(call) {
            None => Err(Stop::Pending),
            Some(i) => match &self.replies[i] {
                StoreReply::Network(v) => Ok(copy_opt(v)),
                _ => Err(Stop::Failed(self.missed(i))),
            },
        }
    }

    /// Makes a call that is answered with [`StoreReply::Networks`].
    pub(crate) fn ask_networks(&mut self, call: StoreCall) -> (r: Result<
        Vec<CanonicalNetworkRecord>,
        Stop<NetworkError>,
    >)
        ensures
            final(self)@ == old(self)@.after(call@),
            many(r) == networks_in(old(self)@.reply()),
    {
        match self.record(call) {
            None => Err(Stop::Pending),
            Some(i) => match &self.replies[i] {
                StoreReply::Networks(v) => Ok(copy_list(v)),
                _ => Err(Stop::Failed(self.missed(i))),
            },
        }
    }

    /// Makes a call that is answered with [`StoreReply::NetworkUpdated`].
    pub(crate) fn ask_updated_network(&mut self, call: StoreCall) -> (r: Result<
        CanonicalNetworkRecord,
        Stop<NetworkError>,
    >)
        ensures
            final(self)@ == old(self)@.after(call@),
            one(r) == updated_network_in(old(self)@.reply()),
    {
        match self.record(call) {
            None => Err(Stop::Pending),
            Some(i) => match &self.replies[i] {
                StoreReply::NetworkUpdated(v) => Ok(v.copy()),
                _ => Err(Stop::Failed(self.missed(i))),
            },
        }
    }

    /// Makes a call that is answered with [`StoreReply::Realm`].
    pub(crate) fn ask_realm(&mut self, call: StoreCall) -> (r: Result<
        Option<CanonicalAddressRealmRecord>,
        Stop<NetworkError>,
    >)
        ensures
            final(self)@ == old(self)@.after(call@),
            maybe(r) == realm_in(old(self)@.reply()),
    {
        match self.record(call) {
            None => Err(Stop::Pending),
            Some(i) => match &self.replies[i] {
                StoreReply::Realm(v) => Ok(copy_opt(v)),
                _ => Err(Stop::Failed(self.missed(i))),
            },
        }
    }

    /// Makes a call that is answered with [`StoreReply::Realms`].
    pub(crate) fn ask_realms(&mut self, call: StoreCall) -> (r: Result<
        Vec<CanonicalAddressRealmRecord>,
        Stop<NetworkError>,
    >)
        ensures
            final(self)@ == old(self)@.after(call@),
            many(r) == realms_in(old(self)@.reply()),
    {
        match self.record(call) {
            None => Err(Stop::Pending),
            Some(i) => match &self.replies[i] {
                StoreReply::Realms(v) => Ok(copy_list(v)),
                _ => Err(Stop::Failed(self.missed(i))),
            },
        }
    }

    /// Makes a call that is answered with [`StoreReply::Pools`].
    pub(crate) fn ask_pools(&mut self, call: StoreCall) -> (r: Result<
        Vec<CanonicalAddressPoolRecord>,
        Stop<NetworkError>,
    >)
        ensures
            final(self)@ == old(self)@.after(call@),
            many(r) == pools_in(old(self)@.reply()),
    {
        match self.record(call) {
            None => Err(Stop::Pending),
            Some(i) => match &self.replies[i] {
                StoreReply::Pools(v) => Ok(copy_list(v)),
                _ => Err(Stop::Failed(self.missed(i))),
            },
        }
    }

    /// Makes a call that is answered with [`StoreReply::Endpoint`].
    pub(crate) fn ask_endpoint(&mut self, call: StoreCall) -> (r: Result<
        Option<CanonicalEndpointRecord>,
        Stop<NetworkError>,
    >)
        ensures
            final(self)@ == old(self)@.after(call@),
            maybe(r) == endpoint_in(old(self)@.reply()),
    {
        match self.record(call) {
            None => Err(Stop::Pending),
            Some(i) => match &self.replies[i] {
                StoreReply::Endpoint(v) => Ok(copy_opt(v)),
                _ => Err(Stop::Failed(self.missed(i))),
            },
        }
    }

    /// Makes a call that is answered with [`StoreReply::Endpoints`].
    pub(crate) fn ask_endpoints(&mut self, call: StoreCall) -> (r: Result<
        Vec<CanonicalEndpointRecord>,
        Stop<NetworkError>,
    >)
        ensures
            final(self)@ == old(self)@.after(call@),
            many(r) == endpoints_in(old(self)@.reply()),
    {
        match self.record(call) {
            None => Err(Stop::Pending),
            Some(i) => match &self.replies[i] {
                StoreReply::Endpoints(v) => Ok(copy_list(v)),
                _ => Err(Stop::Failed(self.missed(i))),
            },
        }
    }

    /// Makes a call that is answered with [`StoreReply::Gateway`].
    pub(crate) fn ask_gateway(&mut self, call: StoreCall) -> (r: Result<
        Option<CanonicalL3GatewayRecord>,
        Stop<NetworkError>,
    >)
        ensures
            final(self)@ == old(self)@.after(call@),
            maybe(r) == gateway_in(old(self)@.reply()),
    {
        match self.record(call) {
            None => Err(Stop::Pending),
            Some(i) => match &self.replies[i] {
                StoreReply::Gateway(v) => Ok(copy_opt(v)),
                _ => Err(Stop::Failed(self.missed(i))),
            },
        }
    }

    /// Makes a call that is answered with [`StoreReply::Gateways`].
    pub(crate) fn ask_gateways(&mut self, call: StoreCall) -> (r: Result<
        Vec<CanonicalL3GatewayRecord>,
        Stop<NetworkError>,
    >)
        ensures
            final(self)@ == old(self)@.after(call@),
            many(r) == gateways_in(old(self)@.reply()),
    {
        match self.record(call) {
            None => Err(Stop::Pending),
            Some(i) => match &self.replies[i] {
                StoreReply::Gateways(v) => Ok(copy_list(v)),
                _ => Err(Stop::Failed(self.missed(i))),
            },
        }
    }

    /// Makes a call that is answered with [`StoreReply::GatewayUpdated`].
    pub(crate) fn ask_updated_gateway(&mut self, call: StoreCall) -> (r: Result<
        CanonicalL3GatewayRecord,
        Stop<NetworkError>,
    >)
        ensures
            final(self)@ == old(self)@.after(call@),
            one(r) == updated_gateway_in(old(self)@.reply()),
    {
        match self.record(call) {
            None => Err(Stop::Pending),
            Some(i) => match &self.replies[i] {
                StoreReply::GatewayUpdated(v) => Ok(v.copy()),
                _ => Err(Stop::Failed(self.missed(i))),
            },
        }
    }

    /// Makes a call that is answered with [`StoreReply::Attachments`].
    pub(crate) fn ask_attachments(&mut self, call: StoreCall) -> (r: Result<
        Vec<CanonicalL3GatewayAttachmentRecord>,
        Stop<NetworkError>,
    >)
        ensures
            final(self)@ == old(self)@.after(call@),
            many(r) == attachments_in(old(self)@.reply()),
    {
        match self.record(call) {
            None => Err(Stop::Pending),
            Some(i) => match &self.replies[i] {
                StoreReply::Attachments(v) => Ok(copy_list(v)),
                _ => Err(Stop::Failed(self.missed(i))),
            },
        }
    }

    /// Makes a call that is answered with [`StoreReply::AttachmentUpdated`].
    pub(crate) fn ask_updated_attachment(&mut self, call: StoreCall) -> (r: Result<
        CanonicalL3GatewayAttachmentRecord,
        Stop<NetworkError>,
    >)
        ensures
            final(self)@ == old(self)@.after(call@),
            one(r) == updated_attachment_in(old(self)@.reply()),
    {
        match self.record(call) {
            None => Err(Stop::Pending),
            Some(i) => match &self.replies[i] {
                StoreReply::AttachmentUpdated(v) => Ok(v.copy()),
                _ => Err(Stop::Failed(self.missed(i))),
            },
        }
    }

    /// Makes a call that is answered with [`StoreReply::Policy`].
    pub(crate) fn ask_policy(&mut self, call: StoreCall) -> (r: Result<
        Option<CanonicalReusableNetworkPolicyRecord>,
        Stop<NetworkError>,
    >)
        ensures
            final(self)@ == old(self)@.after(call@),
            maybe(r) == policy_in(old(self)@.reply()),
    {
        match self.record(call) {
            None => Err(Stop::Pending),
            Some(i) => match &self.replies[i] {
                StoreReply::Policy(v) => Ok(copy_opt(v)),
                _ => Err(Stop::Failed(self.missed(i))),
            },
        }
    }

    /// Makes a call that is answered with [`StoreReply::Policies`].
    pub(crate) fn ask_policies(&mut self, call: StoreCall) -> (r: Result<
        Vec<CanonicalReusableNetworkPolicyRecord>,
        Stop<NetworkError>,
    >)
        ensures
            final(self)@ == old(self)@.after(call@),
            many(r) == policies_in(old(self)@.reply()),
    {
        match self.record(call) {
            None => Err(Stop::Pending),
            Some(i) => match &self.replies[i] {
                StoreReply::Policies(v) => Ok(copy_list(v)),
                _ => Err(Stop::Failed(self.missed(i))),
            },
        }
    }

    /// Makes a call that is answered with [`StoreReply::PolicyUpdated`].
    pub(crate) fn ask_updated_policy(&mut self, call: StoreCall) -> (r: Result<
        CanonicalReusableNetworkPolicyRecord,
        Stop<NetworkError>,
    >)
        ensures
            final(self)@ == old(self)@.after(call@),
            one(r) == updated_policy_in(old(self)@.reply()),
    {
        match self.record(call) {
            None => Err(Stop::Pending),
            Some(i) => match &self.replies[i] {
                StoreReply::PolicyUpdated(v) => Ok(v.copy()),
                _ => Err(Stop::Failed(self.missed(i))),
            },
        }
    }

    /// Makes a call that is answered with [`StoreReply::Rule`].
    pub(crate) fn ask_rule(&mut self, call: StoreCall) -> (r: Result<
        Option<CanonicalNetworkPolicyRuleRecord>,
        Stop<NetworkError>,
    >)
        ensures
            final(self)@ == old(self)@.after(call@),
            maybe(r) == rule_in(old(self)@.reply()),
    {
        match self.record(call) {
            None => Err(Stop::Pending),
            Some(i) => match &self.replies[i] {
                StoreReply::Rule(v) => Ok(copy_opt(v)),
                _ => Err(Stop::Failed(self.missed(i))),
            },
        }
    }

    /// Makes a call that is answered with [`StoreReply::Rules`].
    pub(crate) fn ask_rules(&mut self, call: StoreCall) -> (r: Result<
        Vec<CanonicalNetworkPolicyRuleRecord>,
        Stop<NetworkError>,
    >)
        ensures
            final(self)@ == old(self)@.after(call@),
            many(r) == rules_in(old(self)@.reply()),
    {
        match self.record(call) {
            None => Err(Stop::Pending),
            Some(i) => match &self.replies[i] {
                StoreReply::Rules(v) => Ok(copy_list(v)),
                _ => Err(Stop::Failed(self.missed(i))),
            },
        }
    }

    /// Makes a call that is answered with [`StoreReply::PolicyAttachments`].
    pub(crate) fn ask_policy_attachments(&mut self, call: StoreCall) -> (r: Result<
        Vec<CanonicalPolicyAttachmentRecord>,
        Stop<NetworkError>,
    >)
        ensures
            final(self)@ == old(self)@.after(call@),
            many(r) == policy_attachments_in(old(self)@.reply()),
    {
        match self.record(call) {
            None => Err(Stop::Pending),
            Some(i) => match &self.replies[i] {
                StoreReply::PolicyAttachments(v) => Ok(copy_list(v)),
                _ => Err(Stop::Failed(self.missed(i))),
            },
        }
    }

    /// Makes a call that is answered with [`StoreReply::NetworkPolicies`].
    pub(crate) fn ask_network_policies(&mut self, call: StoreCall) -> (r: Result<
        Vec<CanonicalNetworkPolicyRecord>,
        Stop<NetworkError>,
    >)
        ensures
            final(self)@ == old(self)@.after(call@),
            many(r) == network_policies_in(old(self)@.reply()),
    {
        match self.record(call) {
            None => Err(Stop::Pending),
            Some(i) => match &self.replies[i] {
                StoreReply::NetworkPolicies(v) => Ok(copy_list(v)),
                _ => Err(Stop::Failed(self.missed(i))),
            },
        }
    }

    /// Makes a call that is answered with [`StoreReply::Port`].
    pub(crate) fn ask_port(&mut self, call: StoreCall) -> (r: Result<
        Option<PortRecord>,
        Stop<NetworkError>,
    >)
        ensures
            final(self)@ == old(self)@.after(call@),
            maybe(r) == port_in(old(self)@.reply()),
    {
        match self.record(call) {
            None => Err(Stop::Pending),
            Some(i) => match &self.replies[i] {
                StoreReply::Port(v) => Ok(copy_opt(v)),
                _ => Err(Stop::Failed(self.missed(i))),
            },
        }
    }

    /// Makes a call that is answered with [`StoreReply::PortUpdated`].
    pub(crate) fn ask_updated_port(&mut self, call: StoreCall) -> (r: Result<
        PortRecord,
        Stop<NetworkError>,
    >)
        ensures
            final(self)@ == old(self)@.after(call@),
            one(r) == updated_port_in(old(self)@.reply()),
    {
        match self.record(call) {
            None => Err(Stop::Pending),
            Some(i) => match &self.replies[i] {
                StoreReply::PortUpdated(v) => Ok(v.copy()),
                _ => Err(Stop::Failed(self.missed(i))),
            },
        }
    }

    /// Makes a call that is answered with [`StoreReply::Subnet`].
    pub(crate) fn ask_subnet(&mut self, call: StoreCall) -> (r: Result<
        Option<SubnetRecord>,
        Stop<NetworkError>,
    >)
        ensures
            final(self)@ == old(self)@.after(call@),
            maybe(r) == subnet_in(old(self)@.reply()),
    {
        match self.record(call) {
            None => Err(Stop::Pending),
            Some(i) => match &self.replies[i] {
                StoreReply::Subnet(v) => Ok(copy_opt(v)),
                _ => Err(Stop::Failed(self.missed(i))),
            },
        }
    }

    /// Makes a call that is answered with [`StoreReply::Bindings`].
    pub(crate) fn ask_bindings(&mut self, call: StoreCall) -> (r: Result<
        Vec<CanonicalRealmBindingRecord>,
        Stop<NetworkError>,
    >)
        ensures
            final(self)@ == old(self)@.after(call@),
            many(r) == bindings_in(old(self)@.reply()),
    {
        match self.record(call) {
            None => Err(Stop::Pending),
            Some(i) => match &self.replies[i] {
                StoreReply::Bindings(v) => Ok(copy_list(v)),
                _ => Err(Stop::Failed(self.missed(i))),
            },
        }
    }

    /// Makes a call that is answered with [`StoreReply::Operations`].
    pub(crate) fn ask_operations(&mut self, call: StoreCall) -> (r: Result<
        Vec<OperationRecord>,
        Stop<NetworkError>,
    >)
        ensures
            final(self)@ == old(self)@.after(call@),
            many(r) == operations_in(old(self)@.reply()),
    {
        match self.record(call) {
            None => Err(Stop::Pending),
            Some(i) => match &self.replies[i] {
                StoreReply::Operations(v) => Ok(copy_list(v)),
                _ => Err(Stop::Failed(self.missed(i))),
            },
        }
    }

    /// Makes a call that is answered with [`StoreReply::Operation`].
    pub(crate) fn ask_operation(&mut self, call: StoreCall) -> (r: Result<
        OperationRecord,
        Stop<NetworkError>,
    >)
        ensures
            final(self)@ == old(self)@.after(call@),
            one(r) == operation_in(old(self)@.reply()),
    {
        match self.record(call) {
            None => Err(Stop::Pending),
            Some(i) => match &self.replies[i] {
                StoreReply::Operation(v) => Ok(v.copy()),
                _ => Err(Stop::Failed(self.missed(i))),
            },
        }
    }

    /// Makes a call that is answered with [`StoreReply::CanonicalOperation`].
    pub(crate) fn ask_canonical_operation(&mut self, call: StoreCall) -> (r: Result<
        CanonicalOperationRecord,
        Stop<NetworkError>,
    >)
        ensures
            final(self)@ == old(self)@.after(call@),
            one(r) == canonical_operation_in(old(self)@.reply()),
    {
        match self.record(call) {
            None => Err(Stop::Pending),
            Some(i) => match &self.replies[i] {
                StoreReply::CanonicalOperation(v) => Ok(v.copy()),
                _ => Err(Stop::Failed(self.missed(i))),
            },
        }
    }

    /// Makes a call that is answered with [`StoreReply::Accepted`].
    pub(crate) fn ask_accepted(&mut self, call: StoreCall) -> (r: Result<
        Option<AcceptedOperation>,
        Stop<NetworkError>,
    >)
        ensures
            final(self)@ == old(self)@.after(call@),
            maybe(r) == accepted_in(old(self)@.reply()),
    {
        match self.record(call) {
            None => Err(Stop::Pending),
            Some(i) => match &self.replies[i] {
                StoreReply::Accepted(v) => Ok(copy_opt(v)),
                _ => Err(Stop::Failed(self.missed(i))),
            },
        }
    }

    /// Makes a call that is answered with [`StoreReply::GatewayPlan`].
    pub(crate) fn ask_gateway_plan(&mut self, call: StoreCall) -> (r: Result<
        Option<String>,
        Stop<NetworkError>,
    >)
        ensures
            final(self)@ == old(self)@.after(call@),
            maybe(r) == gateway_plan_in(old(self)@.reply()),
    {
        match self.record(call) {
            None => Err(Stop::Pending),
            Some(i) => match &self.replies[i] {
                StoreReply::GatewayPlan(v) => Ok(copy_opt(v)),
                _ => Err(Stop::Failed(self.missed(i))),
            },
        }
    }

    /// Makes a call that is answered with [`StoreReply::Owner`].
    pub(crate) fn ask_owner(&mut self, call: StoreCall) -> (r: Result<
        Option<String>,
        Stop<NetworkError>,
    >)
        ensures
            final(self)@ == old(self)@.after(call@),
            maybe(r) == owner_in(old(self)@.reply()),
    {
        match self.record(call) {
            None => Err(Stop::Pending),
            Some(i) => match &self.replies[i] {
                StoreReply::Owner(v) => Ok(copy_opt(v)),
                _ => Err(Stop::Failed(self.missed(i))),
            },
        }
    }

    /// Makes a call that is answered with [`StoreReply::Quota`].
    pub(crate) fn ask_reservation(&mut self, call: StoreCall) -> (r: Result<
        String,
        Stop<NetworkError>,
    >)
        ensures
            final(self)@ == old(self)@.after(call@),
            one(r) == reservation_in(old(self)@.reply()),
    {
        match self.record(call) {
            None => Err(Stop::Pending),
            Some(i) => match &self.replies[i] {
                StoreReply::Quota(v) => Ok(v.clone()),
                _ => Err(Stop::Failed(self.missed(i))),
            },
        }
    }

    /// Makes a call that is answered with [`StoreReply::Id`].
    pub(crate) fn ask_id(&mut self, call: StoreCall) -> (r: Result<
        u128,
        Stop<NetworkError>,
    >)
        ensures
            final(self)@ == old(self)@.after(call@),
            match r {
                Ok(v) => id_in(old(self)@.reply()) == Ok::<u128, Stop<NetworkErrorView>>(v),
                Err(stop) => id_in(old(self)@.reply()) == Err::<u128, Stop<NetworkErrorView>>(
                    stopped(stop),
                ),
            },
    {
        match self.record(call) {
            None => Err(Stop::Pending),
            Some(i) => match &self.replies[i] {
                StoreReply::Id(v) => Ok(*v),
                _ => Err(Stop::Failed(self.missed(i))),
            },
        }
    }

    /// Makes a call that is answered with [`StoreReply::Decision`].
    pub(crate) fn ask_decision(&mut self, call: StoreCall) -> (r: Result<
        Decision,
        Stop<NetworkError>,
    >)
        ensures
            final(self)@ == old(self)@.after(call@),
            match r {
                Ok(v) => decision_in(old(self)@.reply()) == Ok::<Decision, Stop<NetworkErrorView>>(v),
                Err(stop) => decision_in(old(self)@.reply()) == Err::<Decision, Stop<NetworkErrorView>>(
                    stopped(stop),
                ),
            },
    {
        match self.record(call) {
            None => Err(Stop::Pending),
            Some(i) => match &self.replies[i] {
                StoreReply::Decision(v) => Ok(*v),
                _ => Err(Stop::Failed(self.missed(i))),
            },
        }
    }
}

/// Answers a call that needs no store: a new identifier.
pub fn answer(call: &StoreCall) -> (r: Option<StoreReply>)
    ensures
        match r {
            Some(reply) => call@ == StoreCallView::NewId && reply@ is Id,
            None => call@ != StoreCallView::NewId,
        },
{
    match call {
        StoreCall::NewId => {
            let id: u128 = fresh_id();
            Some(StoreReply::Id(id))
        },
        _ => None,
    }
}

} // verus!
