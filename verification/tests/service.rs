//! The network service against a store in memory.
use o3k_network::domain::{
    NetworkProtocol, PolicyAction, PolicyDirection, PolicyIntent, PortRange,
};
use o3k_network::ipv4::{ipv4, Ipv4Prefix};
use o3k_network::plan::attach::{
    compile_attachment_plan, compile_attachment_plan_with_defaults, AttachmentPlanInput,
};
use o3k_network::plan::types::{GatewayAttachment, L3GatewayExecutionPlan, NetworkPlanIntent};
use o3k_network::service::binding::PortBindingState;
use o3k_network::service::calls::{answer, Decision, NetworkService, StoreCall, StoreReply};
use o3k_network::service::cleanup::{
    realm_delete_operation, RealmCleanupObservation, RealmCleanupProgress,
};
use o3k_network::service::errors::{NetworkError, StoreError, StoreFailure};
use o3k_network::service::legacy::{
    LegacyFile, LegacyMetadata, LegacyNetwork, LegacyPort, LegacySubnet,
};
use o3k_network::service::net::Ipv4Net;
use o3k_network::service::records::{
    AcceptedOperation, AuditOutcome, AuditRecord, CanonicalAddressPoolRecord,
    CanonicalAddressRealmRecord, CanonicalEndpointRecord, CanonicalL3GatewayAttachmentRecord,
    CanonicalL3GatewayRecord, CanonicalNetworkPolicyRecord, CanonicalNetworkPolicyRuleRecord,
    CanonicalNetworkRecord, CanonicalOperationRecord, CanonicalPolicyAttachmentRecord,
    CanonicalRealmBindingRecord, CanonicalReusableNetworkPolicyRecord, GatewayGraph, LifecycleUpdate,
    NetworkRecord, OperationRecord, OperationState, PortRecord, SubnetRecord,
};
use o3k_network::service::rules::deterministic_port_mac;
use o3k_network::session::Stop;
use o3k_network::vocabulary::NetworkVocabulary;
use std::collections::HashSet;

// ---------------------------------------------------------------------------
// A store in memory
// ---------------------------------------------------------------------------

#[derive(Default)]
struct MemoryStore {
    client: String,
    next_id: u128,
    networks: Vec<NetworkRecord>,
    subnets: Vec<SubnetRecord>,
    ports: Vec<PortRecord>,
    canonical_networks: Vec<CanonicalNetworkRecord>,
    realms: Vec<CanonicalAddressRealmRecord>,
    pools: Vec<CanonicalAddressPoolRecord>,
    endpoints: Vec<CanonicalEndpointRecord>,
    gateways: Vec<CanonicalL3GatewayRecord>,
    attachments: Vec<CanonicalL3GatewayAttachmentRecord>,
    policies: Vec<CanonicalReusableNetworkPolicyRecord>,
    rules: Vec<CanonicalNetworkPolicyRuleRecord>,
    policy_attachments: Vec<CanonicalPolicyAttachmentRecord>,
    network_policies: Vec<CanonicalNetworkPolicyRecord>,
    realm_bindings: Vec<CanonicalRealmBindingRecord>,
    operations: Vec<(OperationRecord, CanonicalOperationRecord, OperationState)>,
    limits: Vec<(String, String, u64)>,
    reservations: Vec<(String, String, String, String)>,
    resources: Vec<u128>,
    audit: Vec<AuditRecord>,
    served: Vec<StoreCall>,
    busy: u32,
    naps: u32,
    resources_fail: bool,
    compiler_refuses: bool,
    compiled: Option<GatewayGraph>,
    retired: bool,
}

fn failed(error: StoreError) -> StoreReply {
    let message = format!("{error:?}");
    StoreReply::Failed(StoreFailure { error, message })
}

fn text_of_id(id: u128) -> String {
    uuid::Uuid::from_u128(id).hyphenated().to_string()
}

fn or_missing<T>(value: Option<T>, reply: impl Fn(T) -> StoreReply) -> StoreReply {
    match value {
        Some(value) => reply(value),
        None => failed(StoreError::ResourceNotFound),
    }
}

impl MemoryStore {
    fn new() -> Self {
        Self {
            next_id: 0x1000,
            ..Self::default()
        }
    }

    fn endpoint_clash(&self, endpoint: &CanonicalEndpointRecord) -> bool {
        self.endpoints.iter().any(|known| {
            known.id == endpoint.id
                || known.mac.eq_ignore_ascii_case(&endpoint.mac)
                || (known.realm_id == endpoint.realm_id && known.fixed_ip == endpoint.fixed_ip)
        })
    }

    fn insert_endpoint(&mut self, endpoint: &CanonicalEndpointRecord) -> StoreReply {
        let active = self
            .realms
            .iter()
            .any(|realm| realm.id == endpoint.realm_id && realm.state == "active");
        if !active {
            return failed(StoreError::OwnershipConflict);
        }
        if self.endpoint_clash(endpoint) {
            return failed(StoreError::ResourceAlreadyExists);
        }
        self.endpoints.push(endpoint.clone());
        StoreReply::Done
    }

    fn delete_realm_rows(&mut self, id: u128) {
        self.realms.retain(|realm| realm.id != id);
        self.pools.retain(|pool| pool.realm_id != id);
        self.subnets.retain(|subnet| subnet.id != id);
    }

    fn backfill(&mut self) {
        for network in self.networks.clone() {
            if !self.canonical_networks.iter().any(|known| known.id == network.id) {
                self.canonical_networks.push(CanonicalNetworkRecord {
                    id: network.id,
                    project_id: network.project_id.clone(),
                    name: network.name.clone(),
                    admin_state_up: true,
                    generation: 1,
                    state: network.status.to_ascii_lowercase(),
                });
            }
        }
        for subnet in self.subnets.clone() {
            if !self.realms.iter().any(|known| known.id == subnet.id) {
                self.realms.push(CanonicalAddressRealmRecord {
                    id: subnet.id,
                    network_id: subnet.network_id,
                    project_id: subnet.project_id.clone(),
                    prefix: subnet.cidr.clone(),
                    overlapping_prefixes: false,
                    generation: 1,
                    state: "active".to_owned(),
                });
                self.next_id += 1;
                self.pools.push(CanonicalAddressPoolRecord {
                    id: self.next_id,
                    realm_id: subnet.id,
                    project_id: subnet.project_id.clone(),
                    prefix: subnet.cidr.clone(),
                    gateway: Some(subnet.gateway_ip),
                    first_usable: subnet.allocation_start,
                    last_usable: subnet.allocation_end,
                    generation: 1,
                    state: "active".to_owned(),
                });
            }
        }
        for port in self.ports.clone() {
            if !self.endpoints.iter().any(|known| known.id == port.id) {
                self.endpoints.push(CanonicalEndpointRecord {
                    id: port.id,
                    realm_id: port.subnet_id.expect("a subnet"),
                    project_id: port.project_id.clone(),
                    fixed_ip: port.fixed_ip,
                    mac: port.mac_address.clone(),
                    generation: 1,
                    state: port.status.to_ascii_lowercase(),
                });
            }
        }
    }

    fn owner(&self, resource: &str, id: u128) -> Option<String> {
        match resource {
            "network" => self
                .canonical_networks
                .iter()
                .find(|row| row.id == id)
                .map(|row| row.project_id.clone()),
            "address_realm" => self
                .realms
                .iter()
                .find(|row| row.id == id)
                .map(|row| row.project_id.clone()),
            "address_pool" => self
                .pools
                .iter()
                .find(|row| row.id == id)
                .map(|row| row.project_id.clone()),
            "endpoint" => self
                .endpoints
                .iter()
                .find(|row| row.id == id)
                .map(|row| row.project_id.clone()),
            _ => None,
        }
    }

    fn update_lifecycle(&mut self, id: u128, update: &LifecycleUpdate) -> StoreReply {
        for (record, canonical, state) in &mut self.operations {
            if record.id == id {
                *state = update.state;
                canonical.attempt = update.attempt;
                canonical.started_at = update.started_at.clone();
                return StoreReply::Done;
            }
        }
        failed(StoreError::ResourceNotFound)
    }

    fn reserve(&mut self, project: &str, operation: &str, key: &str) -> StoreReply {
        let used = self
            .reservations
            .iter()
            .filter(|(_, p, k, _)| p == project && k == key)
            .count() as u64;
        let limit = self
            .limits
            .iter()
            .find(|(p, k, _)| p == project && k == key)
            .map(|(_, _, limit)| *limit);
        if let Some(limit) = limit {
            if used + 1 > limit {
                return failed(StoreError::QuotaExceeded {
                    key: key.to_owned(),
                    limit: format!("{limit}"),
                    used,
                    requested: 1,
                });
            }
        }
        self.next_id += 1;
        let id = format!("reservation-{}", self.next_id);
        self.reservations.push((
            id.clone(),
            project.to_owned(),
            key.to_owned(),
            operation.to_owned(),
        ));
        StoreReply::Quota(id)
    }

    fn serve(&mut self, call: &StoreCall) -> StoreReply {
        self.served.push(call.clone());
        match call {
            StoreCall::NewId => {
                // Identifiers in the order of their making keep the tests readable.
                assert!(matches!(answer(call), Some(StoreReply::Id(_))));
                self.next_id += 1;
                StoreReply::Id(self.next_id)
            }
            StoreCall::Sleep(_) => {
                self.naps += 1;
                StoreReply::Done
            }
            StoreCall::Authorize(_, _, _, owner) => StoreReply::Decision(if *owner == self.client {
                Decision::Allowed
            } else {
                Decision::ScopeMismatch
            }),
            StoreCall::Audit(record) => {
                self.audit.push(record.clone());
                StoreReply::Done
            }
            StoreCall::GetOwner(resource, id) => StoreReply::Owner(self.owner(resource, *id)),
            StoreCall::Backfill => {
                self.backfill();
                StoreReply::Done
            }
            StoreCall::InsertNetwork(network) => {
                if self.networks.iter().any(|known| known.id == network.id) {
                    return failed(StoreError::ResourceAlreadyExists);
                }
                self.networks.push(network.clone());
                StoreReply::Done
            }
            StoreCall::DeleteNetwork(project, id) => {
                self.networks
                    .retain(|row| !(row.id == *id && row.project_id == *project));
                StoreReply::Done
            }
            StoreCall::InsertSubnet(subnet) => {
                if self.subnets.iter().any(|known| known.id == subnet.id) {
                    return failed(StoreError::ResourceAlreadyExists);
                }
                self.subnets.push(subnet.clone());
                StoreReply::Done
            }
            StoreCall::InsertPort(port) => {
                if self.ports.iter().any(|known| known.id == port.id) {
                    return failed(StoreError::ResourceAlreadyExists);
                }
                self.ports.push(port.clone());
                StoreReply::Done
            }
            StoreCall::RetireLegacyFile => {
                self.retired = true;
                StoreReply::Done
            }
            StoreCall::ListNetworks(project) => StoreReply::Networks(
                self.canonical_networks
                    .iter()
                    .filter(|row| row.project_id == *project)
                    .cloned()
                    .collect(),
            ),
            StoreCall::GetNetwork(project, id) => StoreReply::Network(
                self.canonical_networks
                    .iter()
                    .find(|row| row.id == *id && row.project_id == *project)
                    .cloned(),
            ),
            StoreCall::InsertCanonicalNetwork(network) => {
                if self.canonical_networks.iter().any(|row| {
                    row.project_id == network.project_id && row.name == network.name
                }) {
                    return failed(StoreError::ResourceAlreadyExists);
                }
                self.canonical_networks.push(network.clone());
                StoreReply::Done
            }
            StoreCall::UpdateCanonicalNetwork(project, id, expected, name, up) => {
                let Some(row) = self.canonical_networks.iter_mut().find(|row| {
                    row.id == *id && row.project_id == *project && row.generation == *expected
                }) else {
                    return failed(StoreError::OwnershipConflict);
                };
                row.name = name.clone();
                row.admin_state_up = *up;
                row.generation += 1;
                let updated = row.clone();
                for network in &mut self.networks {
                    if network.id == *id {
                        network.name = name.clone();
                    }
                }
                StoreReply::NetworkUpdated(updated)
            }
            StoreCall::DeleteCanonicalNetwork(project, id) => {
                if !self
                    .canonical_networks
                    .iter()
                    .any(|row| row.id == *id && row.project_id == *project)
                {
                    return failed(StoreError::NetworkNotFound);
                }
                if self.realms.iter().any(|realm| realm.network_id == *id) {
                    return failed(StoreError::NetworkInUse);
                }
                self.canonical_networks.retain(|row| row.id != *id);
                StoreReply::Done
            }
            StoreCall::ListRealms(project, network) => StoreReply::Realms(
                self.realms
                    .iter()
                    .filter(|row| row.project_id == *project && row.network_id == *network)
                    .cloned()
                    .collect(),
            ),
            StoreCall::GetRealm(project, id) => StoreReply::Realm(
                self.realms
                    .iter()
                    .find(|row| row.id == *id && row.project_id == *project)
                    .cloned(),
            ),
            StoreCall::InsertRealm(realm) => {
                self.realms.push(realm.clone());
                StoreReply::Done
            }
            StoreCall::DeleteRealm(_, id) => {
                self.delete_realm_rows(*id);
                StoreReply::Done
            }
            StoreCall::BeginRealmDeletion(_, id, expected) => {
                let used = self.endpoints.iter().any(|row| row.realm_id == *id)
                    || self.pools.iter().any(|row| row.realm_id == *id);
                if used {
                    return failed(StoreError::NetworkInUse);
                }
                let row = self
                    .realms
                    .iter_mut()
                    .find(|row| row.id == *id && row.generation == *expected);
                or_missing(
                    row.map(|row| {
                        row.state = "deleting".to_owned();
                        row.generation += 1;
                        row.clone()
                    }),
                    StoreReply::RealmUpdated,
                )
            }
            StoreCall::FinalizeRealmDeletion(_, id, expected) => {
                let ready = self.realms.iter().any(|row| {
                    row.id == *id && row.state == "deleting" && row.generation == *expected
                });
                if !ready {
                    return failed(StoreError::OwnershipConflict);
                }
                self.delete_realm_rows(*id);
                StoreReply::Done
            }
            StoreCall::ListRealmBindings(realm) => StoreReply::Bindings(
                self.realm_bindings
                    .iter()
                    .filter(|row| row.realm_id == *realm)
                    .cloned()
                    .collect(),
            ),
            StoreCall::DeleteRealmBinding(binding, _) => {
                self.realm_bindings.retain(|row| row != binding);
                StoreReply::Done
            }
            StoreCall::ListPools(project, realm) => StoreReply::Pools(
                self.pools
                    .iter()
                    .filter(|row| row.project_id == *project && row.realm_id == *realm)
                    .cloned()
                    .collect(),
            ),
            StoreCall::InsertPool(pool) => {
                self.pools.push(pool.clone());
                StoreReply::Done
            }
            StoreCall::DeletePool(_, id) => {
                self.pools.retain(|row| row.id != *id);
                StoreReply::Done
            }
            StoreCall::ListEndpoints(project, realm) => StoreReply::Endpoints(
                self.endpoints
                    .iter()
                    .filter(|row| row.project_id == *project && row.realm_id == *realm)
                    .cloned()
                    .collect(),
            ),
            StoreCall::GetEndpoint(project, id) => StoreReply::Endpoint(
                self.endpoints
                    .iter()
                    .find(|row| row.id == *id && row.project_id == *project)
                    .cloned(),
            ),
            StoreCall::InsertEndpoint(endpoint) => self.insert_endpoint(endpoint),
            StoreCall::DeleteEndpoint(_, id) => {
                self.endpoints.retain(|row| row.id != *id);
                StoreReply::Done
            }
            StoreCall::ListGateways(project) => StoreReply::Gateways(
                self.gateways
                    .iter()
                    .filter(|row| row.project_id == *project)
                    .cloned()
                    .collect(),
            ),
            StoreCall::GetGateway(project, id) => StoreReply::Gateway(
                self.gateways
                    .iter()
                    .find(|row| row.id == *id && row.project_id == *project)
                    .cloned(),
            ),
            StoreCall::InsertGateway(gateway) => {
                self.gateways.push(gateway.clone());
                StoreReply::Done
            }
            StoreCall::UpdateGateway(_, id, expected, name, external, snat) => {
                let row = self
                    .gateways
                    .iter_mut()
                    .find(|row| row.id == *id && row.generation == *expected);
                or_missing(
                    row.map(|row| {
                        row.name = name.clone();
                        row.external_realm_id = *external;
                        row.enable_snat = *snat;
                        row.generation += 1;
                        row.clone()
                    }),
                    StoreReply::GatewayUpdated,
                )
            }
            StoreCall::BeginGatewayDeletion(_, id, expected) => {
                let row = self
                    .gateways
                    .iter_mut()
                    .find(|row| row.id == *id && row.generation == *expected);
                or_missing(
                    row.map(|row| {
                        row.state = "deleting".to_owned();
                        row.generation += 1;
                        row.clone()
                    }),
                    StoreReply::GatewayUpdated,
                )
            }
            StoreCall::FinalizeGatewayDeletion(_, id, _) => {
                self.gateways.retain(|row| row.id != *id);
                StoreReply::Done
            }
            StoreCall::ListAttachments(project, gateway) => StoreReply::Attachments(
                self.attachments
                    .iter()
                    .filter(|row| row.project_id == *project && row.gateway_id == *gateway)
                    .cloned()
                    .collect(),
            ),
            StoreCall::InsertAttachment(attachment) => {
                self.attachments.push(attachment.clone());
                StoreReply::Done
            }
            StoreCall::BeginAttachmentDeletion(_, id, expected) => {
                let row = self
                    .attachments
                    .iter_mut()
                    .find(|row| row.id == *id && row.generation == *expected);
                or_missing(
                    row.map(|row| {
                        row.state = "deleting".to_owned();
                        row.generation += 1;
                        row.clone()
                    }),
                    StoreReply::AttachmentUpdated,
                )
            }
            StoreCall::FinalizeAttachmentDeletion(_, id, expected) => {
                self.attachments
                    .retain(|row| !(row.id == *id && row.generation == *expected));
                StoreReply::Done
            }
            StoreCall::CompileGateway(graph) => {
                assert_eq!(graph.gateway.state, "active");
                self.compiled = Some(graph.clone());
                StoreReply::GatewayPlan(if self.compiler_refuses {
                    None
                } else {
                    Some(format!("plan of {}", graph.gateway.name))
                })
            }
            StoreCall::InsertResource(resource) => {
                if self.resources_fail {
                    return failed(StoreError::Other);
                }
                self.resources.push(resource.id);
                StoreReply::Done
            }
            StoreCall::UpdateResource(_, _, _, _, _) => StoreReply::Done,
            StoreCall::AcceptRealmDeletion(request) => {
                let id = request.operation_id;
                if !self.operations.iter().any(|(record, _, _)| record.id == id) {
                    self.operations.push((
                        OperationRecord {
                            id,
                            resource_id: request.resource_id,
                            kind: request.kind.clone(),
                        },
                        CanonicalOperationRecord {
                            owner_scope: request.owner_scope.clone(),
                            resource_id: Some(text_of_id(request.resource_id)),
                            attempt: 0,
                            started_at: None,
                            created_at: "then".to_owned(),
                        },
                        request.state,
                    ));
                }
                StoreReply::Accepted(Some(AcceptedOperation {
                    operation_id: id,
                    created_at: "then".to_owned(),
                }))
            }
            StoreCall::ListOpenOperations => StoreReply::Operations(
                self.operations
                    .iter()
                    .filter(|(_, _, state)| {
                        !matches!(state, OperationState::Succeeded | OperationState::Failed)
                    })
                    .map(|(record, _, _)| record.clone())
                    .collect(),
            ),
            StoreCall::GetOperation(id) => or_missing(
                self.operations
                    .iter()
                    .find(|(record, _, _)| record.id == *id)
                    .map(|(record, _, _)| record.clone()),
                StoreReply::Operation,
            ),
            StoreCall::GetCanonicalOperation(id) => or_missing(
                self.operations
                    .iter()
                    .find(|(record, _, _)| record.id == *id)
                    .map(|(_, canonical, _)| canonical.clone()),
                StoreReply::CanonicalOperation,
            ),
            StoreCall::UpdateLifecycle(id, update) => self.update_lifecycle(*id, update),
            StoreCall::UpdateOperation(id, new_state, _, _) => {
                for (record, _, state) in &mut self.operations {
                    if record.id == *id {
                        *state = *new_state;
                    }
                }
                StoreReply::Done
            }
            StoreCall::ReserveQuota(project, operation, key) => self.reserve(project, operation, key),
            StoreCall::CommitReservation(id) => {
                assert!(self.reservations.iter().any(|(known, _, _, _)| known == id));
                StoreReply::Done
            }
            StoreCall::ReleaseReservation(id) => {
                self.reservations.retain(|(known, _, _, _)| known != id);
                StoreReply::Done
            }
            StoreCall::ReleaseForOperation(operation) => {
                self.reservations.retain(|(_, _, _, known)| known != operation);
                StoreReply::Done
            }
            StoreCall::ListPolicies(project) => StoreReply::Policies(
                self.policies
                    .iter()
                    .filter(|row| row.project_id == *project)
                    .cloned()
                    .collect(),
            ),
            StoreCall::GetPolicy(project, id) => StoreReply::Policy(
                self.policies
                    .iter()
                    .find(|row| row.id == *id && row.project_id == *project)
                    .cloned(),
            ),
            StoreCall::InsertPolicy(policy) => {
                self.policies.push(policy.clone());
                StoreReply::Done
            }
            StoreCall::UpdatePolicy(policy, expected) => {
                let row = self
                    .policies
                    .iter_mut()
                    .find(|row| row.id == policy.id && row.generation == *expected);
                or_missing(
                    row.map(|row| {
                        *row = policy.clone();
                        row.clone()
                    }),
                    StoreReply::PolicyUpdated,
                )
            }
            StoreCall::DeletePolicy(_, id) => {
                if self.policy_attachments.iter().any(|row| row.policy_id == *id) {
                    return failed(StoreError::NetworkInUse);
                }
                self.policies.retain(|row| row.id != *id);
                StoreReply::Done
            }
            StoreCall::ListRules(project, policy) => StoreReply::Rules(
                self.rules
                    .iter()
                    .filter(|row| row.project_id == *project && row.policy_id == *policy)
                    .cloned()
                    .collect(),
            ),
            StoreCall::GetRule(project, id) => StoreReply::Rule(
                self.rules
                    .iter()
                    .find(|row| row.id == *id && row.project_id == *project)
                    .cloned(),
            ),
            StoreCall::InsertRule(rule) => {
                if self.rules.iter().any(|row| {
                    row.policy_id == rule.policy_id && row.enforcement_key == rule.enforcement_key
                }) {
                    return failed(StoreError::ResourceAlreadyExists);
                }
                self.rules.push(rule.clone());
                StoreReply::Done
            }
            StoreCall::DeleteRule(_, id) => {
                self.rules.retain(|row| row.id != *id);
                StoreReply::Done
            }
            StoreCall::ListEndpointAttachments(project, endpoint) => StoreReply::PolicyAttachments(
                self.policy_attachments
                    .iter()
                    .filter(|row| row.project_id == *project && row.endpoint_id == *endpoint)
                    .cloned()
                    .collect(),
            ),
            StoreCall::ListPolicyAttachments(project, policy) => StoreReply::PolicyAttachments(
                self.policy_attachments
                    .iter()
                    .filter(|row| row.project_id == *project && row.policy_id == *policy)
                    .cloned()
                    .collect(),
            ),
            StoreCall::InsertPolicyAttachment(attachment) => {
                self.policy_attachments.push(attachment.clone());
                StoreReply::Done
            }
            StoreCall::DeletePolicyAttachment(_, id) => {
                self.policy_attachments.retain(|row| row.id != *id);
                StoreReply::Done
            }
            StoreCall::ListNetworkPolicies(project, network) => {
                let members: Vec<u128> = self
                    .endpoints
                    .iter()
                    .filter(|endpoint| {
                        self.realms.iter().any(|realm| {
                            realm.id == endpoint.realm_id && realm.network_id == *network
                        })
                    })
                    .map(|endpoint| endpoint.id)
                    .collect();
                StoreReply::NetworkPolicies(
                    self.network_policies
                        .iter()
                        .filter(|row| {
                            row.project_id == *project && members.contains(&row.endpoint_id)
                        })
                        .cloned()
                        .collect(),
                )
            }
            StoreCall::UpsertNetworkPolicy(policy) => {
                self.network_policies.retain(|row| row.id != policy.id);
                self.network_policies.push(policy.clone());
                StoreReply::Done
            }
            StoreCall::DeleteNetworkPolicy(_, id) => {
                self.network_policies.retain(|row| row.id != *id);
                StoreReply::Done
            }
            StoreCall::GetSubnet(project, id) => StoreReply::Subnet(
                self.subnets
                    .iter()
                    .find(|row| row.id == *id && row.project_id == *project)
                    .cloned(),
            ),
            StoreCall::UpdateSubnet(subnet) => {
                self.subnets.retain(|row| row.id != subnet.id);
                self.subnets.push(subnet.clone());
                StoreReply::Done
            }
            StoreCall::InsertSubnetBundle(realm, pool, subnet) => {
                if self.realms.iter().any(|row| {
                    row.network_id == realm.network_id && row.prefix == realm.prefix
                }) {
                    return failed(StoreError::ResourceAlreadyExists);
                }
                self.realms.push(realm.clone());
                self.pools.push(pool.clone());
                self.subnets.push(subnet.clone());
                StoreReply::Done
            }
            StoreCall::UpdateSubnetBundle(subnet, pool_id, expected) => {
                let Some(pool) = self
                    .pools
                    .iter_mut()
                    .find(|row| row.id == *pool_id && row.generation == *expected)
                else {
                    return failed(StoreError::OwnershipConflict);
                };
                pool.gateway = Some(subnet.gateway_ip);
                pool.generation += 1;
                self.subnets.retain(|row| row.id != subnet.id);
                self.subnets.push(subnet.clone());
                StoreReply::Done
            }
            StoreCall::DeleteSubnetBundle(_, id) => {
                if self.endpoints.iter().any(|row| row.realm_id == *id) {
                    return failed(StoreError::NetworkInUse);
                }
                self.delete_realm_rows(*id);
                StoreReply::Done
            }
            StoreCall::GetPort(project, id) => StoreReply::Port(
                self.ports
                    .iter()
                    .find(|row| row.id == *id && row.project_id == *project)
                    .cloned(),
            ),
            StoreCall::GetPortById(id) => {
                StoreReply::Port(self.ports.iter().find(|row| row.id == *id).cloned())
            }
            StoreCall::InsertEndpointAndPort(endpoint, port) => {
                if self.busy > 0 {
                    self.busy -= 1;
                    return StoreReply::Failed(StoreFailure {
                        error: StoreError::Other,
                        message: "the database is locked now".to_owned(),
                    });
                }
                let reply = self.insert_endpoint(endpoint);
                if matches!(reply, StoreReply::Done) {
                    self.ports.push(port.clone());
                }
                reply
            }
            StoreCall::DeleteEndpointAndPort(project, id) => {
                if !self
                    .endpoints
                    .iter()
                    .any(|row| row.id == *id && row.project_id == *project)
                {
                    return failed(StoreError::ResourceNotFound);
                }
                self.endpoints.retain(|row| row.id != *id);
                self.ports.retain(|row| row.id != *id);
                StoreReply::Done
            }
            StoreCall::UpdatePortName(_, id, name) => {
                for port in &mut self.ports {
                    if port.id == *id {
                        port.name = name.clone();
                    }
                }
                StoreReply::Done
            }
            StoreCall::UpdatePortBinding(_, id, host, state) => {
                let row = self.ports.iter_mut().find(|row| row.id == *id);
                or_missing(
                    row.map(|row| {
                        row.binding_host = host.clone();
                        row.binding_state = state.clone();
                        row.clone()
                    }),
                    StoreReply::PortUpdated,
                )
            }
        }
    }
}

// ---------------------------------------------------------------------------
// Requests
// ---------------------------------------------------------------------------

/// A request under way: what it knows so far.
struct Request<T> {
    replies: Vec<StoreReply>,
    operation: Box<dyn Fn(&mut NetworkService) -> Result<T, Stop<NetworkError>>>,
}

impl<T> Request<T> {
    fn new(
        operation: impl Fn(&mut NetworkService) -> Result<T, Stop<NetworkError>> + 'static,
    ) -> Self {
        Self {
            replies: Vec::new(),
            operation: Box::new(operation),
        }
    }

    /// Goes on by one call, or ends.
    fn step(&mut self, store: &mut MemoryStore) -> Option<Result<T, NetworkError>> {
        let mut service = NetworkService::with_replies(self.replies.clone());
        match (self.operation)(&mut service) {
            Ok(value) => Some(Ok(value)),
            Err(Stop::Failed(error)) => Some(Err(error)),
            Err(Stop::Pending) => {
                let reply = store.serve(service.issued.last().expect("a call to answer"));
                self.replies.push(reply);
                None
            }
        }
    }
}

fn run<T>(
    store: &mut MemoryStore,
    operation: impl Fn(&mut NetworkService) -> Result<T, Stop<NetworkError>> + 'static,
) -> Result<T, NetworkError> {
    let mut request = Request::new(operation);
    loop {
        if let Some(result) = request.step(store) {
            return result;
        }
    }
}

/// Runs requests side by side, one call of each in turn.
fn run_together<T>(
    store: &mut MemoryStore,
    mut requests: Vec<Request<T>>,
) -> Vec<Result<T, NetworkError>> {
    let mut results: Vec<Option<Result<T, NetworkError>>> =
        requests.iter().map(|_| None).collect();
    while results.iter().any(Option::is_none) {
        for (request, result) in requests.iter_mut().zip(results.iter_mut()) {
            if result.is_none() {
                *result = request.step(store);
            }
        }
    }
    results.into_iter().flatten().collect()
}

fn as_client<T>(
    store: &mut MemoryStore,
    client: &'static str,
    operation: impl Fn(&mut NetworkService) -> Result<T, Stop<NetworkError>> + 'static,
) -> Result<T, NetworkError> {
    store.client = client.to_owned();
    run(store, operation)
}

fn create_network(store: &mut MemoryStore, client: &'static str, name: &'static str) -> NetworkRecord {
    as_client(store, client, move |s| s.create_network(client, name.to_owned())).expect("network")
}

fn create_subnet(
    store: &mut MemoryStore,
    client: &'static str,
    network: u128,
    name: &'static str,
    cidr: &'static str,
) -> Result<SubnetRecord, NetworkError> {
    as_client(store, client, move |s| {
        s.create_subnet(client, network, name.to_owned(), cidr, None, None, None)
    })
}

fn create_port(
    store: &mut MemoryStore,
    client: &'static str,
    network: u128,
    name: &'static str,
) -> Result<PortRecord, NetworkError> {
    as_client(store, client, move |s| s.create_port(client, network, name.to_owned()))
}

fn get_port(store: &mut MemoryStore, client: &'static str, id: u128) -> Result<PortRecord, NetworkError> {
    as_client(store, client, move |s| s.get_port(client, id))
}

fn delete_port(store: &mut MemoryStore, client: &'static str, id: u128) -> Result<(), NetworkError> {
    as_client(store, client, move |s| s.delete_port(client, id))
}

fn create_realm(
    store: &mut MemoryStore,
    network: u128,
    prefix: &'static str,
    overlapping: bool,
) -> Result<CanonicalAddressRealmRecord, NetworkError> {
    run(store, move |s| {
        s.create_canonical_realm_for_project("project-a", network, prefix, overlapping)
    })
}

fn create_endpoint(
    store: &mut MemoryStore,
    realm: u128,
    ip: u32,
    mac: &'static str,
) -> Result<CanonicalEndpointRecord, NetworkError> {
    run(store, move |s| {
        s.create_canonical_endpoint_for_project("project-a", realm, ip, mac.to_owned())
    })
}

fn delete_realm(store: &mut MemoryStore, realm: u128) -> Result<(), NetworkError> {
    run(store, move |s| s.delete_canonical_realm_for_project("project-a", realm))
}

fn canonical_network(store: &mut MemoryStore, name: &'static str) -> CanonicalNetworkRecord {
    run(store, move |s| {
        s.create_canonical_network_for_project("project-a", name.to_owned())
    })
    .expect("network")
}

fn reopen(store: &mut MemoryStore) {
    run(store, |s| s.open(&LegacyMetadata::Absent)).expect("the service starts");
}

// ---------------------------------------------------------------------------
// Tests
// ---------------------------------------------------------------------------

#[test]
fn p9_vocabulary_is_typed_and_stable() {
    assert_eq!(NetworkVocabulary::actions().len(), 6);
    assert_eq!(NetworkVocabulary::resources().len(), 3);
    assert_eq!(NetworkVocabulary::quota_keys().len(), 3);
    assert_eq!(
        NetworkVocabulary::actions()[0].text(),
        "network:CreateNetworkIntent"
    );
    assert_eq!(
        NetworkVocabulary::resources()[0].text(),
        "network:network_intent"
    );
}

#[test]
fn canonical_service_reconstructs_zero_and_multiple_realms() {
    let mut store = MemoryStore::new();
    reopen(&mut store);
    let network = canonical_network(&mut store, "canonical");
    let id = network.id;
    let empty = run(&mut store, move |s| s.reconstruct_canonical_network("project-a", id))
        .expect("snapshot");
    assert!(empty.realms.is_empty());

    let realm_a = create_realm(&mut store, id, "10.0.0.0/24", true).expect("realm");
    let realm_b = create_realm(&mut store, id, "10.0.0.0/24", true).expect("realm");
    let realm_c = create_realm(&mut store, id, "10.1.0.0/24", false).expect("realm");
    let a = realm_a.id;
    let pool = run(&mut store, move |s| {
        s.create_canonical_pool_for_project(
            "project-a",
            a,
            "10.0.0.0/24",
            Some(ipv4(10, 0, 0, 1)),
            ipv4(10, 0, 0, 2),
            ipv4(10, 0, 0, 254),
        )
    })
    .expect("pool");
    let endpoint_a =
        create_endpoint(&mut store, a, ipv4(10, 0, 0, 10), "02:00:00:00:00:10").expect("endpoint");
    let endpoint_b =
        create_endpoint(&mut store, realm_b.id, ipv4(10, 0, 0, 10), "02:00:00:00:00:11")
            .expect("endpoint");
    assert_eq!(endpoint_a.fixed_ip, endpoint_b.fixed_ip);
    assert!(matches!(
        create_endpoint(&mut store, a, endpoint_a.fixed_ip, "02:00:00:00:00:12"),
        Err(NetworkError::Conflict)
    ));
    assert!(matches!(delete_realm(&mut store, a), Err(NetworkError::Conflict)));

    reopen(&mut store);
    let snapshot = run(&mut store, move |s| s.reconstruct_canonical_network("project-a", id))
        .expect("snapshot");
    assert_eq!(snapshot.network.id, id);
    assert_eq!(snapshot.realms.len(), 3);
    let pools = snapshot.pools.iter().find(|entry| entry.realm_id == a).expect("pools");
    assert_eq!(pools.pools, vec![pool]);
    let endpoints = snapshot
        .endpoints
        .iter()
        .find(|entry| entry.realm_id == a)
        .expect("endpoints");
    assert_eq!(endpoints.endpoints, vec![endpoint_a]);
    delete_realm(&mut store, realm_c.id).expect("realm removed");
    assert_eq!(
        run(&mut store, move |s| s.reconstruct_canonical_network("project-a", id))
            .expect("snapshot")
            .realms
            .len(),
        2
    );
    assert!(matches!(
        run(&mut store, move |s| s.delete_canonical_network_for_project("project-a", id)),
        Err(NetworkError::Conflict)
    ));
}

#[test]
fn network_rename_updates_projection_and_reopens_with_new_name() {
    let mut store = MemoryStore::new();
    let network = create_network(&mut store, "project-a", "before");
    let id = network.id;
    let renamed = as_client(&mut store, "project-a", move |s| {
        s.update_network("project-a", id, Some("after".to_owned()), Some(false))
    })
    .expect("renamed");
    assert_eq!(renamed.id, id);
    assert_eq!(renamed.name, "after");
    assert!(!store.canonical_networks[0].admin_state_up);
    assert_eq!(store.networks[0].name, "after");

    reopen(&mut store);
    let restored =
        as_client(&mut store, "project-a", move |s| s.get_network("project-a", id)).expect("network");
    assert_eq!(restored.id, id);
    assert_eq!(restored.project_id, "project-a");
    assert_eq!(restored.name, "after");
    assert!(!store.canonical_networks[0].admin_state_up);
    assert_eq!(store.networks[0].name, "after");
    assert!(store.networks.iter().any(|n| n.id == id && n.project_id == "project-a"));
}

#[test]
fn canonical_reads_do_not_require_projection_metadata() {
    let mut store = MemoryStore::new();
    let network = canonical_network(&mut store, "canonical");
    let realm = create_realm(&mut store, network.id, "10.20.0.0/24", false).expect("realm");
    let realm_id = realm.id;
    run(&mut store, move |s| {
        s.create_canonical_pool_for_project(
            "project-a",
            realm_id,
            "10.20.0.0/24",
            Some(ipv4(10, 20, 0, 1)),
            ipv4(10, 20, 0, 2),
            ipv4(10, 20, 0, 254),
        )
    })
    .expect("pool");
    let endpoint =
        create_endpoint(&mut store, realm_id, ipv4(10, 20, 0, 10), "02:00:00:20:00:10")
            .expect("endpoint");

    let subnet = run(&mut store, move |s| s.get_subnet_for_project("project-a", realm_id))
        .expect("subnet");
    assert_eq!(subnet.id, realm.id);
    assert_eq!(subnet.network_id, network.id);
    assert!(subnet.name.is_empty());

    let endpoint_id = endpoint.id;
    let port = run(&mut store, move |s| s.get_port_for_project("project-a", endpoint_id))
        .expect("port");
    assert_eq!(port.id, endpoint.id);
    assert_eq!(port.subnet_id, Some(realm.id));
    assert_eq!(port.fixed_ip, endpoint.fixed_ip);
    assert_eq!(port.mac_address, endpoint.mac);
    assert!(port.name.is_empty());
}

#[test]
fn authenticated_canonical_entry_points_enforce_scope_and_audit() {
    let mut store = MemoryStore::new();
    let network = as_client(&mut store, "project-a", |s| {
        s.create_canonical_network("project-a", "authorized".to_owned())
    })
    .expect("network");
    let id = network.id;
    let realm = as_client(&mut store, "project-a", move |s| {
        s.create_canonical_realm("project-a", id, "10.30.0.0/24", false)
    })
    .expect("realm");
    let realm_id = realm.id;
    assert!(matches!(
        as_client(&mut store, "project-b", move |s| s.delete_canonical_realm("project-b", realm_id)),
        Err(NetworkError::NotFound)
    ));
    assert!(store.audit.iter().any(|event| {
        event.action == "network:DeleteAddressRealm"
            && event.outcome == AuditOutcome::Denied
            && event.resource_id == Some(realm.id)
    }));
}

#[test]
fn authenticated_parent_actions_use_canonical_owner_and_audit_outcomes() {
    let mut store = MemoryStore::new();
    let network = as_client(&mut store, "project-a", |s| {
        s.create_canonical_network("project-a", "matrix".to_owned())
    })
    .expect("network");
    let network_id = network.id;
    let realm = as_client(&mut store, "project-a", move |s| {
        s.create_canonical_realm("project-a", network_id, "10.32.0.0/24", false)
    })
    .expect("realm");
    let realm_id = realm.id;

    assert!(matches!(
        as_client(&mut store, "project-b", move |s| {
            s.create_canonical_realm("project-b", network_id, "10.33.0.0/24", false)
        }),
        Err(NetworkError::NotFound)
    ));
    assert!(matches!(
        as_client(&mut store, "project-b", move |s| {
            s.create_canonical_pool(
                "project-b",
                realm_id,
                "10.32.0.0/24",
                Some(ipv4(10, 32, 0, 1)),
                ipv4(10, 32, 0, 2),
                ipv4(10, 32, 0, 254),
            )
        }),
        Err(NetworkError::NotFound)
    ));
    assert!(matches!(
        as_client(&mut store, "project-b", move |s| {
            s.create_canonical_endpoint(
                "project-b",
                realm_id,
                ipv4(10, 32, 0, 10),
                "02:00:00:32:00:10".to_owned(),
            )
        }),
        Err(NetworkError::NotFound)
    ));

    let pool = as_client(&mut store, "project-a", move |s| {
        s.create_canonical_pool(
            "project-a",
            realm_id,
            "10.32.0.0/24",
            Some(ipv4(10, 32, 0, 1)),
            ipv4(10, 32, 0, 2),
            ipv4(10, 32, 0, 254),
        )
    })
    .expect("pool");
    assert_eq!(
        as_client(&mut store, "project-a", move |s| s.list_canonical_pools("project-a", realm_id))
            .expect("pools")
            .len(),
        1
    );
    assert!(matches!(
        as_client(&mut store, "project-b", move |s| s.list_canonical_pools("project-b", realm_id)),
        Err(NetworkError::NotFound)
    ));
    let endpoint = as_client(&mut store, "project-a", move |s| {
        s.create_canonical_endpoint(
            "project-a",
            realm_id,
            ipv4(10, 32, 0, 10),
            "02:00:00:32:00:10".to_owned(),
        )
    })
    .expect("endpoint");
    let endpoint_id = endpoint.id;
    assert_eq!(
        as_client(&mut store, "project-a", move |s| s.get_canonical_realm("project-a", realm_id))
            .expect("realm")
            .id,
        realm.id
    );
    assert_eq!(
        as_client(&mut store, "project-a", move |s| {
            s.list_canonical_endpoints("project-a", realm_id)
        })
        .expect("endpoints")
        .len(),
        1
    );
    assert_eq!(
        as_client(&mut store, "project-a", move |s| {
            s.get_canonical_endpoint("project-a", endpoint_id)
        })
        .expect("endpoint")
        .id,
        endpoint.id
    );
    assert!(matches!(
        as_client(&mut store, "project-b", move |s| {
            s.get_canonical_endpoint("project-b", endpoint_id)
        }),
        Err(NetworkError::NotFound)
    ));
    assert!(matches!(
        as_client(&mut store, "project-a", |s| {
            s.create_canonical_network("project-a", "matrix".to_owned())
        }),
        Err(NetworkError::Conflict)
    ));

    let denied: Vec<_> = store
        .audit
        .iter()
        .filter(|event| event.outcome == AuditOutcome::Denied)
        .collect();
    assert!(denied.len() >= 3);
    assert!(denied.iter().all(|event| {
        event.decision == Some(Decision::ScopeMismatch)
            && event.owner.as_deref() == Some("project-a")
    }));
    assert!(store.audit.iter().any(|event| {
        event.action == "network:CreateNetwork" && event.outcome == AuditOutcome::Failed
    }));
    assert!(store.audit.iter().any(|event| {
        event.action == "network:CreateEndpoint" && event.outcome == AuditOutcome::Succeeded
    }));
    let pool_id = pool.id;
    as_client(&mut store, "project-a", move |s| {
        s.delete_canonical_endpoint("project-a", endpoint_id)
    })
    .expect("endpoint removed");
    as_client(&mut store, "project-a", move |s| s.delete_canonical_pool("project-a", pool_id))
        .expect("pool removed");
    as_client(&mut store, "project-a", move |s| s.delete_canonical_realm("project-a", realm_id))
        .expect("realm removed");
    as_client(&mut store, "project-a", move |s| {
        s.delete_canonical_network("project-a", network_id)
    })
    .expect("network removed");
    assert!(store.audit.iter().any(|event| {
        event.action == "network:DeleteNetwork" && event.outcome == AuditOutcome::Succeeded
    }));
}

#[test]
fn independent_services_preserve_canonical_endpoint_and_realm_races() {
    let mut store = MemoryStore::new();
    let network = canonical_network(&mut store, "races");
    let realm = create_realm(&mut store, network.id, "10.31.0.0/24", false).expect("realm");
    let realm_id = realm.id;
    let outcomes = run_together(
        &mut store,
        vec![
            Request::new(move |s: &mut NetworkService| {
                s.create_canonical_endpoint_for_project(
                    "project-a",
                    realm_id,
                    ipv4(10, 31, 0, 10),
                    "02:00:00:00:31:10".to_owned(),
                )
            }),
            Request::new(move |s: &mut NetworkService| {
                s.create_canonical_endpoint_for_project(
                    "project-a",
                    realm_id,
                    ipv4(10, 31, 0, 10),
                    "02:00:00:00:31:11".to_owned(),
                )
            }),
        ],
    );
    assert_eq!(outcomes.iter().filter(|result| result.is_ok()).count(), 1);

    let results = run_together(
        &mut store,
        vec![
            Request::new(move |s: &mut NetworkService| {
                s.delete_canonical_realm_for_project("project-a", realm_id)
            }),
            Request::new(move |s: &mut NetworkService| {
                s.create_canonical_endpoint_for_project(
                    "project-a",
                    realm_id,
                    ipv4(10, 31, 0, 11),
                    "02:00:00:00:31:12".to_owned(),
                )
                .map(|_| ())
            }),
        ],
    );
    let network_id = network.id;
    let realms = run(&mut store, move |s| s.reconstruct_canonical_network("project-a", network_id))
        .expect("snapshot")
        .realms;
    if results[0].is_ok() {
        assert!(results[1].is_err());
        assert!(realms.is_empty());
    } else {
        assert!(results[1].is_ok());
        assert!(realms.iter().any(|value| value.id == realm.id));
    }
}

#[test]
fn independent_services_preserve_network_realm_races() {
    let mut store = MemoryStore::new();
    let network = canonical_network(&mut store, "parent-race");
    let id = network.id;
    let created = run_together(
        &mut store,
        vec![
            Request::new(move |s: &mut NetworkService| {
                s.create_canonical_realm_for_project("project-a", id, "10.34.0.0/24", false)
            }),
            Request::new(move |s: &mut NetworkService| {
                s.create_canonical_realm_for_project("project-a", id, "10.35.0.0/24", false)
            }),
        ],
    );
    assert_eq!(created.into_iter().filter_map(Result::ok).count(), 2);
    let realms = run(&mut store, move |s| s.reconstruct_canonical_network("project-a", id))
        .expect("snapshot")
        .realms;
    assert_eq!(realms.len(), 2);
    assert!(realms.iter().all(|realm| realm.network_id == network.id));

    let outcomes = run_together(
        &mut store,
        vec![
            Request::new(move |s: &mut NetworkService| {
                s.delete_canonical_network_for_project("project-a", id)
            }),
            Request::new(move |s: &mut NetworkService| {
                s.create_canonical_realm_for_project("project-a", id, "10.36.0.0/24", false)
                    .map(|_| ())
            }),
        ],
    );
    assert!(outcomes[0].is_err());
    assert!(outcomes[1].is_ok());
    let snapshot = run(&mut store, move |s| s.reconstruct_canonical_network("project-a", id))
        .expect("snapshot");
    assert!(snapshot
        .realms
        .iter()
        .all(|realm| realm.network_id == snapshot.network.id));
}

fn realm_binding(realm_id: u128, segment: u32) -> CanonicalRealmBindingRecord {
    CanonicalRealmBindingRecord {
        fabric_domain_id: "fabric-a".to_owned(),
        realm_id,
        provider_kind: "geneve".to_owned(),
        provider_segment_id: segment,
        binding_generation: 1,
        state: "active".to_owned(),
    }
}

#[test]
fn realm_deletion_is_fenced_when_provider_binding_remains() {
    let mut store = MemoryStore::new();
    let network = canonical_network(&mut store, "fenced");
    let realm = create_realm(&mut store, network.id, "10.30.0.0/24", false).expect("realm");
    store.realm_bindings.push(realm_binding(realm.id, 300));

    assert!(matches!(delete_realm(&mut store, realm.id), Err(NetworkError::Conflict)));
    assert_eq!(store.realms[0].state, "deleting");
    assert!(matches!(
        create_endpoint(&mut store, realm.id, ipv4(10, 30, 0, 10), "02:00:00:30:00:10"),
        Err(NetworkError::InvalidRequest) | Err(NetworkError::Conflict)
    ));
    assert!(matches!(delete_realm(&mut store, realm.id), Err(NetworkError::Conflict)));
    let id = network.id;
    assert!(
        run(&mut store, move |s| s.get_canonical_network_for_project("project-a", id)).is_ok()
    );
}

#[test]
fn realm_cleanup_unknown_outcome_replays_and_finalizes_after_observation() {
    let mut store = MemoryStore::new();
    let network = canonical_network(&mut store, "recovery");
    let realm = create_realm(&mut store, network.id, "10.31.0.0/24", false).expect("realm");
    let realm_id = realm.id;
    let binding = realm_binding(realm_id, 301);
    store.realm_bindings.push(binding.clone());

    assert!(matches!(delete_realm(&mut store, realm_id), Err(NetworkError::Conflict)));
    let first = run(&mut store, move |s| {
        s.begin_canonical_realm_deletion_for_project("project-a", realm_id)
    })
    .expect("begun");
    let operation_id = match first {
        RealmCleanupProgress::AwaitingObservation { operation_id, .. } => operation_id,
        other => panic!("unexpected replay progress {other:?}"),
    };
    let lost = vec![RealmCleanupObservation::Unknown {
        binding: binding.clone(),
        reason: "provider response lost".to_owned(),
    }];
    let unknown = run(&mut store, move |s| {
        s.observe_canonical_realm_cleanup_for_project("project-a", realm_id, &lost)
    })
    .expect("observed");
    assert!(matches!(
        unknown,
        RealmCleanupProgress::AwaitingObservation { .. }
    ));
    assert_eq!(store.operations[0].2, OperationState::UnknownOutcome);

    reopen(&mut store);
    let replay = run(&mut store, move |s| {
        s.begin_canonical_realm_deletion_for_project("project-a", realm_id)
    })
    .expect("begun again");
    assert!(matches!(
        replay,
        RealmCleanupProgress::AwaitingObservation { operation_id: id, .. } if id == operation_id
    ));
    let there = vec![RealmCleanupObservation::Present(binding.clone())];
    let present = run(&mut store, move |s| {
        s.observe_canonical_realm_cleanup_for_project("project-a", realm_id, &there)
    })
    .expect("observed");
    assert!(matches!(
        present,
        RealmCleanupProgress::AwaitingObservation { .. }
    ));
    let gone = vec![RealmCleanupObservation::Absent(binding)];
    let removed = run(&mut store, move |s| {
        s.observe_canonical_realm_cleanup_for_project("project-a", realm_id, &gone)
    })
    .expect("observed");
    assert_eq!(removed, RealmCleanupProgress::Removed { operation_id });
    let id = network.id;
    assert!(
        run(&mut store, move |s| s.get_canonical_network_for_project("project-a", id)).is_ok()
    );
    assert!(matches!(
        run(&mut store, move |s| s.reconstruct_canonical_network("project-a", id)),
        Ok(snapshot) if snapshot.realms.is_empty()
    ));
}

#[test]
fn allocation_is_deterministic_collision_safe_and_restartable() {
    let mut store = MemoryStore::new();
    let network = create_network(&mut store, "project-a", "flat");
    let subnet = create_subnet(&mut store, "project-a", network.id, "lab", "192.0.2.0/29")
        .expect("subnet");
    let first = create_port(&mut store, "project-a", network.id, "one").expect("port");
    let second = create_port(&mut store, "project-a", network.id, "two").expect("port");
    assert_ne!(first.fixed_ip, second.fixed_ip);
    assert_ne!(first.mac_address, second.mac_address);
    assert_eq!(first.mac_address, deterministic_port_mac(first.id));
    assert_eq!(first.fixed_ip, subnet.allocation_start);
    reopen(&mut store);
    assert_eq!(get_port(&mut store, "project-a", first.id).expect("port"), first);
    delete_port(&mut store, "project-a", first.id).expect("removed");
    let replacement =
        create_port(&mut store, "project-a", network.id, "replacement").expect("port");
    assert_eq!(replacement.fixed_ip, first.fixed_ip);
}

fn legacy_port(id: u128, subnet_id: u128, name: &str, mac: &str, last: u8) -> LegacyPort {
    LegacyPort {
        id,
        network_id: 1,
        subnet_id,
        project_id: "project-a".to_owned(),
        name: name.to_owned(),
        mac_address: mac.to_owned(),
        fixed_ip: ipv4(192, 0, 2, last),
        status: "ACTIVE".to_owned(),
    }
}

#[test]
fn legacy_metadata_file_is_imported_once_and_never_read_again() {
    let mut store = MemoryStore::new();
    let legacy = LegacyFile {
        networks: vec![LegacyNetwork {
            id: 1,
            name: "flat".to_owned(),
            project_id: "project-a".to_owned(),
            status: "ACTIVE".to_owned(),
        }],
        subnets: vec![LegacySubnet {
            id: 2,
            network_id: 1,
            name: "lab".to_owned(),
            project_id: "project-a".to_owned(),
            cidr: "192.0.2.0/29".to_owned(),
            gateway_ip: ipv4(192, 0, 2, 1),
            allocation_start: ipv4(192, 0, 2, 2),
            allocation_end: ipv4(192, 0, 2, 14),
        }],
        ports: vec![
            legacy_port(3, 2, "with-mac", "02:00:00:00:00:99", 2),
            legacy_port(4, 2, "no-mac", "", 3),
            legacy_port(5, 0, "no-subnet", "02:00:00:00:00:98", 4),
        ],
    };
    let metadata = LegacyMetadata::Found(legacy.clone());
    run(&mut store, move |s| s.open(&metadata)).expect("imported");
    assert!(store.retired);
    let count = |store: &mut MemoryStore| {
        (
            as_client(store, "project-a", |s| s.list_networks("project-a")).expect("list").len(),
            as_client(store, "project-a", |s| s.list_subnets("project-a")).expect("list").len(),
            as_client(store, "project-a", |s| s.list_ports("project-a")).expect("list").len(),
        )
    };
    assert_eq!(count(&mut store), (1, 1, 3));
    let network =
        as_client(&mut store, "project-a", |s| s.get_network("project-a", 1)).expect("network");
    assert_eq!(network.id, 1);
    let subnet =
        as_client(&mut store, "project-a", |s| s.get_subnet("project-a", 2)).expect("subnet");
    assert_eq!(subnet.id, 2);
    let first = get_port(&mut store, "project-a", 3).expect("port");
    assert_eq!(first.mac_address, "02:00:00:00:00:99");
    assert_eq!(first.subnet_id, Some(2));
    let migrated_mac = get_port(&mut store, "project-a", 4).expect("port");
    assert_eq!(migrated_mac.mac_address, deterministic_port_mac(4));
    assert_eq!(migrated_mac.subnet_id, Some(2));
    let migrated_subnet = get_port(&mut store, "project-a", 5).expect("port");
    assert_eq!(migrated_subnet.subnet_id, Some(2));
    assert_eq!(migrated_subnet.mac_address, "02:00:00:00:00:98");
    // The file was put aside: the next start finds none.
    reopen(&mut store);
    assert_eq!(count(&mut store), (1, 1, 3));

    // A file that could not be put aside is taken over again, to no effect.
    let metadata = LegacyMetadata::Found(legacy);
    run(&mut store, move |s| s.open(&metadata)).expect("imported again");
    assert_eq!(count(&mut store), (1, 1, 3));

    let mut corrupt = MemoryStore::new();
    assert!(matches!(
        run(&mut corrupt, |s| s.open(&LegacyMetadata::Corrupt)),
        Err(NetworkError::CorruptMetadata)
    ));
    assert!(!corrupt.retired);

    let mut clashing = MemoryStore::new();
    let duplicated = LegacyFile {
        networks: vec![],
        subnets: vec![],
        ports: vec![
            legacy_port(6, 0, "one", "02:00:00:00:00:01", 2),
            legacy_port(7, 0, "two", "02:00:00:00:00:01", 3),
        ],
    };
    let metadata = LegacyMetadata::Found(duplicated);
    assert!(matches!(
        run(&mut clashing, move |s| s.open(&metadata)),
        Err(NetworkError::Conflict)
    ));
    assert!(!clashing.retired);
}

#[test]
fn concurrent_port_creation_never_allocates_duplicate_ips_or_macs() {
    let mut store = MemoryStore::new();
    let network = create_network(&mut store, "project-a", "flat");
    let subnet = create_subnet(&mut store, "project-a", network.id, "lab", "192.0.2.0/28")
        .expect("subnet");
    assert_eq!(subnet.cidr, "192.0.2.0/28");
    let network_id = network.id;
    let requests = (0..12)
        .map(|index| {
            Request::new(move |s: &mut NetworkService| {
                s.create_port("project-a", network_id, format!("port-{index}"))
            })
        })
        .collect();
    let mut ports = Vec::new();
    for outcome in run_together(&mut store, requests) {
        match outcome {
            Ok(port) => ports.push(port),
            Err(NetworkError::PoolExhausted) => {}
            Err(error) => panic!("{error:?}"),
        }
    }
    assert_eq!(ports.len(), 12);
    let ips: HashSet<u32> = ports.iter().map(|port| port.fixed_ip).collect();
    let macs: HashSet<String> = ports
        .iter()
        .map(|port| port.mac_address.to_ascii_lowercase())
        .collect();
    assert_eq!(ports.len(), ips.len());
    assert_eq!(ports.len(), macs.len());
}

#[test]
fn concurrent_explicit_fixed_ip_creation_has_one_winner() {
    let mut store = MemoryStore::new();
    let network = create_network(&mut store, "project-a", "flat");
    let network_id = network.id;
    let subnet = create_subnet(&mut store, "project-a", network_id, "lab", "192.0.2.0/28")
        .expect("subnet");
    let subnet_id = subnet.id;
    assert!(matches!(
        as_client(&mut store, "project-a", move |s| {
            s.create_port_with_fixed_ip(
                "project-a",
                network_id,
                "outside-pool".to_owned(),
                Some((subnet_id, Some(ipv4(203, 0, 113, 5)))),
            )
        }),
        Err(NetworkError::InvalidRequest)
    ));
    assert!(matches!(
        as_client(&mut store, "project-a", move |s| {
            s.create_port_with_fixed_ip(
                "project-a",
                network_id,
                "o3k-server:project-a:spoof".to_owned(),
                Some((subnet_id, None)),
            )
        }),
        Err(NetworkError::InvalidRequest)
    ));
    let server_port = run(&mut store, move |s| {
        s.create_port_for_project("project-a", network_id, "o3k-server:project-a:owned".to_owned())
    })
    .expect("port");
    let server_port_id = server_port.id;
    assert!(matches!(
        run(&mut store, move |s| {
            s.update_port_name_for_project("project-a", server_port_id, "renamed".to_owned())
        }),
        Err(NetworkError::Conflict)
    ));
    run(&mut store, move |s| s.delete_port_for_project("project-a", server_port_id))
        .expect("removed");

    let fixed_ip = ipv4(192, 0, 2, 5);
    let outcomes = run_together(
        &mut store,
        vec![
            Request::new(move |s: &mut NetworkService| {
                s.create_port_with_fixed_ip(
                    "project-a",
                    network_id,
                    "first".to_owned(),
                    Some((subnet_id, Some(fixed_ip))),
                )
            }),
            Request::new(move |s: &mut NetworkService| {
                s.create_port_with_fixed_ip(
                    "project-a",
                    network_id,
                    "second".to_owned(),
                    Some((subnet_id, Some(fixed_ip))),
                )
            }),
        ],
    );
    assert_eq!(outcomes.iter().filter(|result| result.is_ok()).count(), 1);
    assert_eq!(
        outcomes
            .iter()
            .filter(|result| matches!(result, Err(NetworkError::Conflict)))
            .count(),
        1
    );
}

fn pair<T>(
    store: &mut MemoryStore,
    operation: impl Fn(&mut NetworkService) -> Result<T, Stop<NetworkError>> + Clone + 'static,
) -> Vec<Result<T, NetworkError>> {
    run_together(
        store,
        vec![Request::new(operation.clone()), Request::new(operation)],
    )
}

#[test]
fn concurrent_cross_instance_writers_conflict_deterministically_without_duplicates() {
    let mut store = MemoryStore::new();
    store.client = "project-a".to_owned();
    // Two writers create a network with the same name: exactly one wins.
    let networks = pair(&mut store, |s: &mut NetworkService| {
        s.create_network("project-a", "flat".to_owned())
    });
    assert_eq!(networks.iter().filter(|r| r.is_ok()).count(), 1);
    assert_eq!(
        networks
            .iter()
            .filter(|r| matches!(r, Err(NetworkError::Conflict)))
            .count(),
        1
    );
    let network_id = networks
        .into_iter()
        .find_map(Result::ok)
        .expect("expected one network create to succeed")
        .id;
    // Same cidr on the same network: exactly one subnet survives.
    let subnets = pair(&mut store, move |s: &mut NetworkService| {
        s.create_subnet(
            "project-a",
            network_id,
            "lab".to_owned(),
            "192.0.2.0/27",
            None,
            None,
            None,
        )
    });
    assert_eq!(subnets.iter().filter(|r| r.is_ok()).count(), 1);
    assert_eq!(
        subnets
            .iter()
            .filter(|r| matches!(r, Err(NetworkError::Conflict)))
            .count(),
        1
    );
    // 40 port creates side by side over a 29-address pool: every allocation is
    // distinct and the pool is exhausted deterministically.
    let requests = (0..40)
        .map(|index| {
            Request::new(move |s: &mut NetworkService| {
                s.create_port("project-a", network_id, format!("port-{index}"))
            })
        })
        .collect();
    let mut ports = Vec::new();
    let mut exhausted = 0;
    for outcome in run_together(&mut store, requests) {
        match outcome {
            Ok(port) => ports.push(port),
            Err(NetworkError::PoolExhausted) => exhausted += 1,
            Err(error) => panic!("{error:?}"),
        }
    }
    assert_eq!(ports.len(), 29);
    assert_eq!(exhausted, 11);
    let ips: HashSet<u32> = ports.iter().map(|port| port.fixed_ip).collect();
    let macs: HashSet<String> = ports
        .iter()
        .map(|port| port.mac_address.to_ascii_lowercase())
        .collect();
    assert_eq!(ports.len(), ips.len());
    assert_eq!(ports.len(), macs.len());
    // Deletion of one port from both sides: exactly one writer wins.
    let port_id = ports[0].id;
    let deleted = pair(&mut store, move |s: &mut NetworkService| {
        s.delete_port("project-a", port_id)
    });
    assert_eq!(deleted.iter().filter(|r| r.is_ok()).count(), 1);
    assert_eq!(
        deleted
            .iter()
            .filter(|r| matches!(r, Err(NetworkError::NotFound)))
            .count(),
        1
    );
}

#[test]
fn binding_state_strings_round_trip_through_canonical_parsing() {
    for state in [
        PortBindingState::Binding,
        PortBindingState::Bound,
        PortBindingState::Down,
        PortBindingState::Error,
    ] {
        assert_eq!(PortBindingState::parse(state.as_str()), Some(state));
    }
    assert_eq!(PortBindingState::parse("unbound"), None);
    assert_eq!(PortBindingState::parse("banana"), None);
    assert_eq!(PortBindingState::parse(""), None);
}

fn observe(
    store: &mut MemoryStore,
    id: u128,
    host: &'static str,
    state: &'static str,
) -> Result<PortRecord, NetworkError> {
    run(store, move |s| s.project_binding_observation("project-a", id, host, state))
}

fn intend(store: &mut MemoryStore, id: u128, host: &'static str) -> Result<PortRecord, NetworkError> {
    run(store, move |s| s.record_binding_intent("project-a", id, host))
}

fn outcome(
    store: &mut MemoryStore,
    id: u128,
    state: PortBindingState,
) -> Result<PortRecord, NetworkError> {
    run(store, move |s| s.project_create_outcome("project-a", id, state))
}

#[test]
fn binding_intent_and_observation_projection_are_durable() {
    let mut store = MemoryStore::new();
    let network = create_network(&mut store, "project-a", "flat");
    create_subnet(&mut store, "project-a", network.id, "lab", "192.0.2.0/29").expect("subnet");
    let port = create_port(&mut store, "project-a", network.id, "one").expect("port");
    let intended = intend(&mut store, port.id, "compute-1").expect("intended");
    assert_eq!(intended.binding_host.as_deref(), Some("compute-1"));
    assert_eq!(intended.binding_state.as_deref(), Some("binding"));
    let observed = observe(&mut store, port.id, "compute-1", "bound").expect("observed");
    assert_eq!(observed.binding_host.as_deref(), Some("compute-1"));
    assert_eq!(observed.binding_state.as_deref(), Some("bound"));
    assert!(matches!(
        observe(&mut store, port.id, "compute-1", "banana"),
        Err(NetworkError::InvalidRequest)
    ));
    let replayed = intend(&mut store, port.id, "compute-1").expect("replayed");
    assert_eq!(replayed.binding_state.as_deref(), Some("bound"));
    let down = observe(&mut store, port.id, "compute-1", "down").expect("observed");
    assert_eq!(down.binding_state.as_deref(), Some("down"));
    let retried = intend(&mut store, port.id, "compute-1").expect("retried");
    assert_eq!(retried.binding_state.as_deref(), Some("binding"));
    assert!(matches!(
        observe(&mut store, port.id, "compute-2", "bound"),
        Err(NetworkError::Conflict)
    ));
    assert!(matches!(
        intend(&mut store, port.id, "compute-2"),
        Err(NetworkError::Conflict)
    ));
    assert!(matches!(
        observe(&mut store, 99, "compute-1", "bound"),
        Err(NetworkError::NotFound)
    ));
    assert!(matches!(
        intend(&mut store, port.id, "  "),
        Err(NetworkError::InvalidRequest)
    ));
    let final_observed = observe(&mut store, port.id, "compute-1", "bound").expect("observed");
    assert_eq!(final_observed.binding_state.as_deref(), Some("bound"));
    reopen(&mut store);
    let restored = get_port(&mut store, "project-a", port.id).expect("port");
    assert_eq!(restored.binding_host.as_deref(), Some("compute-1"));
    assert_eq!(restored.binding_state.as_deref(), Some("bound"));
}

#[test]
fn delete_cleanup_and_ip_reuse_after_restart() {
    let mut store = MemoryStore::new();
    let network = create_network(&mut store, "project-a", "flat");
    let subnet = create_subnet(&mut store, "project-a", network.id, "lab", "192.0.2.0/29")
        .expect("subnet");
    let port = create_port(&mut store, "project-a", network.id, "one").expect("port");
    delete_port(&mut store, "project-a", port.id).expect("removed");
    assert!(matches!(
        get_port(&mut store, "project-a", port.id),
        Err(NetworkError::NotFound)
    ));
    reopen(&mut store);
    let replacement =
        create_port(&mut store, "project-a", network.id, "replacement").expect("port");
    assert_eq!(replacement.fixed_ip, port.fixed_ip);
    assert_ne!(replacement.mac_address, port.mac_address);
    delete_port(&mut store, "project-a", replacement.id).expect("removed");
    let (subnet_id, network_id) = (subnet.id, network.id);
    as_client(&mut store, "project-a", move |s| s.delete_subnet("project-a", subnet_id))
        .expect("removed");
    as_client(&mut store, "project-a", move |s| s.delete_network("project-a", network_id))
        .expect("removed");
    assert!(matches!(
        as_client(&mut store, "project-a", move |s| s.get_network("project-a", network_id)),
        Err(NetworkError::NotFound)
    ));
}

#[test]
fn create_outcome_projection_and_unbind_are_durable_and_idempotent() {
    let mut store = MemoryStore::new();
    let network = create_network(&mut store, "project-a", "flat");
    create_subnet(&mut store, "project-a", network.id, "lab", "192.0.2.0/29").expect("subnet");
    let port = create_port(&mut store, "project-a", network.id, "one").expect("port");
    let id = port.id;
    assert!(matches!(
        outcome(&mut store, id, PortBindingState::Bound),
        Err(NetworkError::Conflict)
    ));
    intend(&mut store, id, "compute-1").expect("intended");
    let bound = outcome(&mut store, id, PortBindingState::Bound).expect("bound");
    assert_eq!(bound.binding_host.as_deref(), Some("compute-1"));
    assert_eq!(bound.binding_state.as_deref(), Some("bound"));
    observe(&mut store, id, "compute-1", "down").expect("observed");
    intend(&mut store, id, "compute-1").expect("intended");
    let errored = outcome(&mut store, id, PortBindingState::Error).expect("error");
    assert_eq!(errored.binding_state.as_deref(), Some("error"));
    assert!(matches!(
        outcome(&mut store, id, PortBindingState::Binding),
        Err(NetworkError::InvalidRequest)
    ));
    assert!(matches!(
        outcome(&mut store, 99, PortBindingState::Bound),
        Err(NetworkError::NotFound)
    ));
    let unbound = run(&mut store, move |s| s.unbind_port("project-a", id)).expect("unbound");
    assert_eq!(unbound.binding_host, None);
    assert_eq!(unbound.binding_state, None);
    let again = run(&mut store, move |s| s.unbind_port("project-a", id)).expect("unbound");
    assert_eq!(again.binding_host, None);
    assert!(matches!(
        run(&mut store, |s| s.unbind_port("project-a", 99)),
        Err(NetworkError::NotFound)
    ));
    reopen(&mut store);
    let restored = get_port(&mut store, "project-a", id).expect("port");
    assert_eq!(restored.binding_host, None);
    assert_eq!(restored.binding_state, None);
}

#[test]
fn invalid_cidr_exhaustion_and_project_isolation_are_enforced() {
    let mut store = MemoryStore::new();
    let network = create_network(&mut store, "project-a", "flat");
    let network_id = network.id;
    assert!(matches!(
        create_subnet(&mut store, "project-a", network_id, "bad", "192.0.2.1/31"),
        Err(NetworkError::InvalidRequest)
    ));
    as_client(&mut store, "project-a", move |s| {
        s.create_subnet(
            "project-a",
            network_id,
            "tiny".to_owned(),
            "192.0.2.0/30",
            None,
            Some(ipv4(192, 0, 2, 2)),
            Some(ipv4(192, 0, 2, 2)),
        )
    })
    .expect("subnet");
    create_port(&mut store, "project-a", network_id, "one").expect("port");
    assert!(matches!(
        create_port(&mut store, "project-a", network_id, "two"),
        Err(NetworkError::PoolExhausted)
    ));
    assert!(matches!(
        as_client(&mut store, "project-a", move |s| {
            s.create_subnet(
                "project-a",
                network_id,
                "gateway-overlap".to_owned(),
                "198.51.100.0/29",
                Some(ipv4(198, 51, 100, 3)),
                Some(ipv4(198, 51, 100, 2)),
                Some(ipv4(198, 51, 100, 4)),
            )
        }),
        Err(NetworkError::InvalidRequest)
    ));
    assert!(matches!(
        as_client(&mut store, "project-b", move |s| s.get_network("project-b", network_id)),
        Err(NetworkError::NotFound)
    ));
}

#[test]
fn network_quota_enforcement_and_isolation() {
    let mut store = MemoryStore::new();
    store.limits.push(("proj-a".to_owned(), "networks".to_owned(), 1));
    let net1 = create_network(&mut store, "proj-a", "net-1");
    assert_eq!(net1.name, "net-1");
    let res2 = as_client(&mut store, "proj-a", |s| {
        s.create_network("proj-a", "net-2".to_owned())
    });
    assert!(matches!(res2, Err(NetworkError::QuotaExceeded { .. })));
    let net_b = create_network(&mut store, "proj-b", "net-b");
    assert_eq!(net_b.name, "net-b");
    let id = net1.id;
    as_client(&mut store, "proj-a", move |s| s.delete_network("proj-a", id)).expect("removed");
    let net2 = create_network(&mut store, "proj-a", "net-2");
    assert_eq!(net2.name, "net-2");
}

#[test]
fn network_subnet_and_port_quota_enforcement() {
    let mut store = MemoryStore::new();
    let project = "proj-sub-port";
    store.limits.push((project.to_owned(), "subnets".to_owned(), 1));
    store.limits.push((project.to_owned(), "ports".to_owned(), 1));
    let net = create_network(&mut store, project, "net-main");
    let sub1 = create_subnet(&mut store, project, net.id, "sub-1", "10.0.0.0/24").expect("subnet");
    assert_eq!(sub1.network_id, net.id);
    let sub2_res = create_subnet(&mut store, project, net.id, "sub-2", "10.0.1.0/24");
    assert!(matches!(sub2_res, Err(NetworkError::QuotaExceeded { .. })));
    let port1 = create_port(&mut store, project, net.id, "port-1").expect("port");
    assert_eq!(port1.network_id, net.id);
    let port2_res = create_port(&mut store, project, net.id, "port-2");
    assert!(matches!(port2_res, Err(NetworkError::QuotaExceeded { .. })));
    delete_port(&mut store, project, port1.id).expect("removed");
    let sub1_id = sub1.id;
    as_client(&mut store, project, move |s| s.delete_subnet(project, sub1_id)).expect("removed");
    let sub2 = create_subnet(&mut store, project, net.id, "sub-2", "10.0.1.0/24").expect("subnet");
    assert_eq!(sub2.network_id, net.id);
    let port2 = create_port(&mut store, project, net.id, "port-2").expect("port");
    assert_eq!(port2.network_id, net.id);
}

fn attachment<'a>(
    port: &'a PortRecord,
    realm_id: u128,
    subnet_cidr: &'a str,
    policies: Vec<PolicyIntent>,
) -> AttachmentPlanInput<'a> {
    AttachmentPlanInput {
        endpoint_id: port.id,
        realm_id,
        project_id: "project-a",
        mac: &port.mac_address,
        fixed_ip: port.fixed_ip,
        subnet_cidr,
        node_id: "network-agent-1",
        operation_id: 77,
        deadline_unix_ms: 1,
        public_address: None,
        external_realm_id: None,
        policies,
    }
}

#[test]
fn policy_intent_is_durable_generation_fenced_and_compiled() {
    let mut store = MemoryStore::new();
    let project = "project-a";
    let network = create_network(&mut store, project, "policy-net");
    let network_id = network.id;
    create_subnet(&mut store, project, network_id, "policy-subnet", "10.20.0.0/24")
        .expect("subnet");
    let port = create_port(&mut store, project, network_id, "policy-port").expect("port");
    let policy_id = 0x7777;
    let policy = PolicyIntent {
        id: policy_id,
        endpoint_id: port.id,
        direction: PolicyDirection::Ingress,
        protocol: NetworkProtocol::Tcp,
        ports: Some(PortRange {
            start: 8080,
            end: 8080,
        }),
        source: Some(Ipv4Prefix::new(ipv4(198, 51, 100, 0), 24).expect("prefix")),
        destination: None,
        action: PolicyAction::Deny,
    };
    store.served.clear();
    run(&mut store, move |s| s.upsert_policy_for_project(project, network_id, policy))
        .expect("stored");
    assert_eq!(
        run(&mut store, move |s| s.list_policies_for_project(project, network_id)).expect("list"),
        vec![policy]
    );
    assert_eq!(store.network_policies.len(), 1);
    assert_eq!(store.network_policies[0].id, policy_id);
    assert_eq!(store.network_policies[0].source.as_deref(), Some("198.51.100.0/24"));
    // The policy is written to its own record and to no other.
    let told: Vec<_> = store
        .served
        .iter()
        .filter(|call| format!("{call:?}").contains(&policy_id.to_string()))
        .collect();
    assert_eq!(told.len(), 1);
    assert!(matches!(told[0], StoreCall::UpsertNetworkPolicy(_)));

    let compiled = compile_attachment_plan(attachment(&port, network_id, "10.20.0.0/24", vec![policy]))
        .expect("plan");
    assert!(compiled.intents.iter().any(|intent| matches!(
        intent,
        NetworkPlanIntent::Policy(value) if value == &policy
    )));

    run(&mut store, move |s| s.delete_policy_for_project(project, network_id, policy_id))
        .expect("removed");
    assert!(
        run(&mut store, move |s| s.list_policies_for_project(project, network_id))
            .expect("list")
            .is_empty()
    );
    assert!(matches!(
        run(&mut store, move |s| {
            s.delete_policy_for_project("other-project", network_id, policy_id)
        }),
        Err(NetworkError::NotFound)
    ));
}

#[test]
fn security_group_rules_project_to_endpoint_policy_and_enforce_scope() {
    let mut store = MemoryStore::new();
    let network = create_network(&mut store, "project-a", "net");
    let network_id = network.id;
    create_subnet(&mut store, "project-a", network_id, "subnet", "192.0.2.0/29").expect("subnet");
    let port = create_port(&mut store, "project-a", network_id, "port").expect("port");
    let port_id = port.id;
    let group = run(&mut store, |s| {
        s.create_security_group_for_project("project-a", "web".to_owned(), String::new())
    })
    .expect("group");
    let group_id = group.id;
    let rule = run(&mut store, move |s| {
        s.create_security_group_rule_for_project(
            "project-a",
            group_id,
            "ingress",
            "tcp",
            Some(443),
            Some(443),
            Some("0.0.0.0/0".to_owned()),
        )
    })
    .expect("rule");
    let groups = vec![group_id];
    run(&mut store, move |s| {
        s.replace_security_group_bindings_for_project("project-a", port_id, &groups)
    })
    .expect("bound");
    let updated_group = run(&mut store, move |s| {
        s.update_security_group_for_project(
            "project-a",
            group_id,
            "web-renamed".to_owned(),
            "updated".to_owned(),
        )
    })
    .expect("group");
    assert_eq!(updated_group.name, "web-renamed");
    let canonical_group = store.policies[0].clone();
    assert_eq!(canonical_group.generation, 2);
    assert_eq!(canonical_group.stateful_mode, "Stateful");
    assert_eq!(canonical_group.unmatched_action, "Deny");
    let defaults = run(&mut store, move |s| s.policy_defaults_for_endpoint("project-a", port_id))
        .expect("defaults");
    assert_eq!(defaults.len(), 1);
    assert_eq!(defaults[0].policy_id, group.id);
    assert_eq!(defaults[0].endpoint_id, port.id);
    assert_eq!(defaults[0].unmatched_action, PolicyAction::Deny);
    let default_plan = compile_attachment_plan_with_defaults(
        attachment(&port, network_id, "192.0.2.0/29", Vec::new()),
        defaults,
    )
    .expect("plan");
    assert!(default_plan.intents.iter().any(|intent| matches!(
        intent,
        NetworkPlanIntent::PolicyDefault(default)
            if default.policy_id == group.id
                && default.unmatched_action == PolicyAction::Deny
    )));
    assert_eq!(store.rules.len(), 1);
    assert_eq!(store.rules[0].id, rule.id);
    assert_eq!(store.rules[0].enforcement_key, "Ingress|Ipv4|Tcp|443-443|0.0.0.0/0|Allow");
    assert_eq!(rule.direction, "ingress");
    assert_eq!(rule.protocol, "tcp");
    assert_eq!(store.policy_attachments.len(), 1);
    assert_eq!(store.policy_attachments[0].policy_id, group.id);
    assert_ne!(store.policy_attachments[0].id, group.id);
    let policies = run(&mut store, move |s| s.list_policies_for_project("project-a", network_id))
        .expect("policies");
    assert!(policies.iter().any(|policy| policy.id == rule.id
        && policy.endpoint_id == port.id
        && policy.action == PolicyAction::Allow));
    assert!(
        run(&mut store, move |s| s.list_policies_for_project("project-b", network_id)).is_err()
    );
}

#[test]
fn gateway_delete_reservation_reconstructs_a_generation_fenced_snapshot() {
    let mut store = MemoryStore::new();
    let gateway = run(&mut store, |s| {
        s.create_l3_gateway_for_project("project-a", "edge".to_owned(), None, true)
    })
    .expect("gateway");
    let (id, generation) = (gateway.id, gateway.generation);
    let deleting = run(&mut store, move |s| {
        s.delete_l3_gateway_for_project("project-a", id, generation)
    })
    .expect("deleting");
    assert_eq!(deleting.state, "deleting");
    assert_eq!(deleting.generation, gateway.generation + 1);

    let snapshot = run(&mut store, move |s| {
        s.compile_l3_gateway_execution_plan_for_project("project-a", id)
    })
    .expect("snapshot");
    assert_eq!(snapshot.gateway_id, gateway.id);
    assert_eq!(snapshot.gateway_generation, deleting.generation);
    assert!(snapshot.attachments.is_empty());
    assert_eq!(store.gateways[0].state, "deleting");
}

#[test]
fn attachment_detach_reservation_is_gateway_scoped_and_not_finalized_implicitly() {
    let mut store = MemoryStore::new();
    let network = canonical_network(&mut store, "net");
    let realm = create_realm(&mut store, network.id, "192.0.2.0/24", false).expect("realm");
    let gateway = run(&mut store, |s| {
        s.create_l3_gateway_for_project("project-a", "edge".to_owned(), None, true)
    })
    .expect("gateway");
    let (gateway_id, realm_id) = (gateway.id, realm.id);
    let attachment = run(&mut store, move |s| {
        s.attach_l3_gateway_realm("project-a", gateway_id, realm_id)
    })
    .expect("attachment");
    let (attachment_id, generation) = (attachment.id, attachment.generation);
    let deleting = run(&mut store, move |s| {
        s.detach_l3_gateway_realm("project-a", attachment_id, generation)
    })
    .expect("deleting");
    assert_eq!(deleting.state, "deleting");
    assert_eq!(deleting.generation, attachment.generation + 1);
    assert!(matches!(
        run(&mut store, move |s| s.attach_l3_gateway_realm("project-a", gateway_id, realm_id)),
        Err(NetworkError::Conflict)
    ));

    // The relation remains present until an external provider observation authorizes
    // finalization, while the gateway snapshot excludes it.
    let snapshot = run(&mut store, move |s| {
        s.compile_l3_gateway_execution_plan_for_project("project-a", gateway_id)
    })
    .expect("snapshot");
    assert_eq!(snapshot.gateway_id, gateway.id);
    assert!(snapshot.attachments.is_empty());
    assert_eq!(store.attachments[0].state, "deleting");
    assert_eq!(store.attachments[0].generation, deleting.generation);

    let expected = deleting.generation;
    run(&mut store, move |s| {
        s.finalize_l3_gateway_realm_detachment_for_project("project-a", attachment_id, expected)
    })
    .expect("finalized");
    assert!(store.attachments.is_empty());
}

// ---------------------------------------------------------------------------
// More of the same library
// ---------------------------------------------------------------------------

#[test]
fn networks_have_one_spelling() {
    let net = Ipv4Net::parse("192.0.2.77/24").expect("network");
    assert_eq!(net.canonical(), "192.0.2.0/24");
    assert_eq!(net.broadcast, ipv4(192, 0, 2, 255));
    assert_eq!(net.first_host(), ipv4(192, 0, 2, 1));
    assert_eq!(net.last_host(), ipv4(192, 0, 2, 254));
    assert!(net.contains(ipv4(192, 0, 2, 255)));
    assert!(!net.contains(ipv4(192, 0, 3, 0)));
    let all = Ipv4Net::parse("10.1.2.3/0").expect("network");
    assert_eq!(all.canonical(), "0.0.0.0/0");
    assert_eq!(all.broadcast, u32::MAX);
    for bad in ["192.0.2.0", "192.0.2.0/31", "192.0.2/24", "192.0.2.0/x", "192.0.2.0/256", ""] {
        assert!(matches!(Ipv4Net::parse(bad), Err(NetworkError::InvalidRequest)));
    }
}

#[test]
fn a_busy_store_is_tried_again() {
    let mut store = MemoryStore::new();
    let network = create_network(&mut store, "project-a", "flat");
    create_subnet(&mut store, "project-a", network.id, "lab", "192.0.2.0/29").expect("subnet");
    store.busy = 3;
    create_port(&mut store, "project-a", network.id, "patient").expect("port");
    assert_eq!(store.naps, 3);
    store.busy = 8;
    let before = store.reservations.len();
    assert!(matches!(
        create_port(&mut store, "project-a", network.id, "unlucky"),
        Err(NetworkError::Store(message)) if message.contains("database is locked")
    ));
    assert_eq!(store.naps, 11);
    assert_eq!(store.reservations.len(), before, "the quota is given back");
}

#[test]
fn a_realm_without_a_lifecycle_is_undone() {
    let mut store = MemoryStore::new();
    let network = canonical_network(&mut store, "net");
    store.resources_fail = true;
    assert!(matches!(
        create_realm(&mut store, network.id, "10.0.0.0/24", false),
        Err(NetworkError::Store(_))
    ));
    assert!(store.realms.is_empty());
    store.resources_fail = false;
    create_realm(&mut store, network.id, "10.0.0.0/24", false).expect("realm");
    assert_eq!(store.resources.len(), 1);
}

#[test]
fn unfinished_deletions_are_taken_up_again() {
    let mut store = MemoryStore::new();
    let network = canonical_network(&mut store, "net");
    let realm = create_realm(&mut store, network.id, "10.0.0.0/24", false).expect("realm");
    let operation = |realm_id: u128, text: &str| {
        (
            OperationRecord {
                id: realm_id + 1,
                resource_id: realm_id,
                kind: "lifecycle:realm-delete".to_owned(),
            },
            CanonicalOperationRecord {
                owner_scope: "project-a".to_owned(),
                resource_id: Some(text.to_owned()),
                attempt: 4,
                started_at: None,
                created_at: "then".to_owned(),
            },
            OperationState::Retryable,
        )
    };
    let text = format!("00000000-0000-0000-0000-{:012x}", realm.id);
    store.operations.push(operation(realm.id, &text));
    store.operations.push(operation(0x99, "00000000-0000-0000-0000-000000000099"));
    reopen(&mut store);
    assert_eq!(store.realms[0].state, "deleting");
    assert_eq!(store.operations[0].2, OperationState::Running);
    assert_eq!(store.operations[0].1.attempt, 5);
    assert_eq!(store.operations[0].1.started_at.as_deref(), Some("then"));
    assert_eq!(store.operations[1].2, OperationState::Succeeded);
    store.operations.push(operation(0x55, "not an identifier"));
    assert!(matches!(
        run(&mut store, |s| s.open(&LegacyMetadata::Absent)),
        Err(NetworkError::InvalidRequest)
    ));
}

#[test]
fn subnets_are_changed_within_their_network() {
    let mut store = MemoryStore::new();
    let network = create_network(&mut store, "project-a", "flat");
    let subnet = as_client(&mut store, "project-a", {
        let id = network.id;
        move |s| {
            s.create_subnet(
                "project-a",
                id,
                "lab".to_owned(),
                "192.0.2.0/28",
                None,
                Some(ipv4(192, 0, 2, 4)),
                Some(ipv4(192, 0, 2, 8)),
            )
        }
    })
    .expect("subnet");
    let id = subnet.id;
    let change = move |store: &mut MemoryStore, gateway: u32| {
        as_client(store, "project-a", move |s| {
            s.update_subnet("project-a", id, None, Some(gateway), Some(false), None, None, None)
        })
    };
    let moved = change(&mut store, ipv4(192, 0, 2, 2)).expect("moved");
    assert_eq!(moved.gateway_ip, ipv4(192, 0, 2, 2));
    assert_eq!(moved.name, "lab");
    assert!(!moved.enable_dhcp);
    assert_eq!(store.pools[0].gateway, Some(ipv4(192, 0, 2, 2)));
    assert!(matches!(
        change(&mut store, ipv4(192, 0, 2, 5)),
        Err(NetworkError::Conflict)
    ));
    assert!(matches!(
        change(&mut store, ipv4(192, 0, 2, 15)),
        Err(NetworkError::InvalidRequest)
    ));
    assert!(matches!(
        as_client(&mut store, "project-a", move |s| {
            s.update_subnet("project-a", id, None, None, None, None, None, Some(6))
        }),
        Err(NetworkError::InvalidRequest)
    ));
}

#[test]
fn groups_and_their_ports_are_listed() {
    let mut store = MemoryStore::new();
    let network = create_network(&mut store, "project-a", "net");
    create_subnet(&mut store, "project-a", network.id, "subnet", "192.0.2.0/29").expect("subnet");
    let port = create_port(&mut store, "project-a", network.id, "port").expect("port");
    let port_id = port.id;
    let mut make = |name: &'static str| {
        run(&mut store, move |s| {
            s.create_security_group_for_project("project-a", name.to_owned(), String::new())
        })
        .expect("group")
        .id
    };
    let (a, b) = (make("a"), make("b"));
    let both = vec![a, b];
    run(&mut store, move |s| {
        s.replace_security_group_bindings_for_project("project-a", port_id, &both)
    })
    .expect("bound");
    let all = run(&mut store, |s| s.list_security_group_bindings_for_project("project-a", None))
        .expect("bindings");
    let of_port = run(&mut store, move |s| {
        s.list_security_group_bindings_for_project("project-a", Some(port_id))
    })
    .expect("bindings");
    assert_eq!(all.len(), 2);
    assert_eq!(of_port.len(), 2);
    assert_eq!(of_port[0].security_group_id, a);
    let missing = vec![a, 12345];
    assert!(matches!(
        run(&mut store, move |s| {
            s.replace_security_group_bindings_for_project("project-a", port_id, &missing)
        }),
        Err(NetworkError::NotFound)
    ));
    assert_eq!(store.policy_attachments.len(), 2, "nothing is changed");
    assert!(matches!(
        run(&mut store, move |s| s.delete_security_group_for_project("project-a", a)),
        Err(NetworkError::Conflict)
    ));
    for (direction, protocol, min, max, remote) in [
        ("sideways", "tcp", None, None, None),
        ("ingress", "sctp", None, None, None),
        ("ingress", "icmp", Some(1), Some(1), None),
        ("ingress", "tcp", Some(2), Some(1), None),
        ("ingress", "tcp", Some(2), None, None),
        ("ingress", "tcp", None, None, Some("10.0.0.1/24")),
    ] {
        assert!(matches!(
            run(&mut store, move |s| {
                s.create_security_group_rule_for_project(
                    "project-a",
                    a,
                    direction,
                    protocol,
                    min,
                    max,
                    remote.map(str::to_owned),
                )
            }),
            Err(NetworkError::InvalidRequest)
        ));
    }
    delete_port(&mut store, "project-a", port_id).expect("removed");
    assert!(store.policy_attachments.is_empty());
    assert_eq!(store.policies.len(), 2);
}

#[test]
fn store_failures_are_reported_in_the_words_of_the_service() {
    let mut store = MemoryStore::new();
    let error = run(&mut store, |s| s.delete_canonical_network_for_project("project-a", 1))
        .expect_err("not there");
    assert_eq!(error, NetworkError::NotFound);
    assert_eq!(error.message(), "network resource not found");
    let quota = NetworkError::QuotaExceeded {
        key: "ports".to_owned(),
        limit: "3".to_owned(),
        used: 3,
        requested: 1,
    };
    assert_eq!(
        quota.message(),
        "quota exceeded for ports: limit 3, used 3, requested 1"
    );
    let mut odd = NetworkService::with_replies(vec![StoreReply::Done]);
    assert_eq!(
        odd.get_canonical_network_for_project("project-a", 1),
        Err(Stop::Failed(NetworkError::Store("unexpected reply".to_owned())))
    );
    assert!(matches!(answer(&StoreCall::NewId), Some(StoreReply::Id(_))));
    assert!(answer(&StoreCall::Backfill).is_none());
}

#[test]
fn gateways_are_listed_changed_and_removed() {
    let mut store = MemoryStore::new();
    let network = canonical_network(&mut store, "net");
    let realm = create_realm(&mut store, network.id, "192.0.2.0/24", false).expect("realm");
    let gateway = run(&mut store, |s| {
        s.create_l3_gateway_for_project("project-a", "edge".to_owned(), None, false)
    })
    .expect("gateway");
    let (id, realm_id) = (gateway.id, realm.id);
    let changed = run(&mut store, move |s| {
        s.update_l3_gateway_for_project("project-a", id, 1, "border".to_owned(), None, true)
    })
    .expect("changed");
    assert_eq!(changed.name, "border");
    assert!(changed.enable_snat);
    assert_eq!(changed.generation, 2);
    assert_eq!(
        run(&mut store, |s| s.list_l3_gateways_for_project("project-a")).expect("list"),
        vec![changed]
    );
    let attached = run(&mut store, move |s| {
        s.attach_l3_gateway_realm("project-a", id, realm_id)
    })
    .expect("attached");
    assert_eq!(
        run(&mut store, move |s| s.list_l3_gateway_attachments("project-a", id)).expect("list"),
        vec![attached]
    );
    let deleting = run(&mut store, move |s| s.delete_l3_gateway_for_project("project-a", id, 2));
    match deleting {
        Ok(deleting) => assert_eq!(deleting.generation, 3),
        Err(error) => panic!("{error:?}"),
    }
    run(&mut store, move |s| s.finalize_l3_gateway_deletion_for_project("project-a", id, 3))
        .expect("removed");
    assert!(store.gateways.is_empty());
}

#[test]
fn group_rules_are_read_back_and_removed() {
    let mut store = MemoryStore::new();
    let group = run(&mut store, |s| {
        s.create_security_group_for_project("project-a", "web".to_owned(), "front".to_owned())
    })
    .expect("group");
    let group_id = group.id;
    assert_eq!(group.description, "front");
    assert_eq!(
        run(&mut store, |s| s.list_security_groups_for_project("project-a")).expect("list"),
        vec![group.clone()]
    );
    assert_eq!(
        run(&mut store, move |s| s.get_security_group_for_project("project-a", group_id))
            .expect("group"),
        group
    );
    assert!(matches!(
        run(&mut store, move |s| s.get_security_group_for_project("project-b", group_id)),
        Err(NetworkError::NotFound)
    ));
    let rule = run(&mut store, move |s| {
        s.create_security_group_rule_for_project(
            "project-a",
            group_id,
            "egress",
            "udp",
            Some(53),
            Some(54),
            None,
        )
    })
    .expect("rule");
    let rule_id = rule.id;
    assert_eq!(store.rules[0].enforcement_key, "Egress|Ipv4|Udp|53-54|-|Allow");
    assert_eq!(
        run(&mut store, move |s| s.list_security_group_rules_for_project("project-a", group_id))
            .expect("list"),
        vec![rule.clone()]
    );
    assert_eq!(
        run(&mut store, move |s| s.get_security_group_rule_for_project("project-a", rule_id))
            .expect("rule"),
        rule
    );
    run(&mut store, move |s| s.delete_security_group_rule_for_project("project-a", rule_id))
        .expect("removed");
    assert!(store.rules.is_empty());
}

#[test]
fn networks_and_realms_are_listed_to_their_owner() {
    let mut store = MemoryStore::new();
    let network = canonical_network(&mut store, "net");
    let id = network.id;
    let realm = create_realm(&mut store, id, "192.0.2.0/24", false).expect("realm");
    assert_eq!(
        as_client(&mut store, "project-a", |s| s.list_canonical_networks("project-a"))
            .expect("list")
            .len(),
        1
    );
    assert!(
        as_client(&mut store, "project-b", |s| s.list_canonical_networks("project-b"))
            .expect("list")
            .is_empty()
    );
    assert_eq!(
        as_client(&mut store, "project-a", move |s| s.get_canonical_network("project-a", id))
            .expect("network")
            .id,
        id
    );
    assert_eq!(
        as_client(&mut store, "project-a", move |s| s.list_canonical_realms("project-a", id))
            .expect("list"),
        vec![realm]
    );
    assert!(matches!(
        as_client(&mut store, "project-b", move |s| s.list_canonical_realms("project-b", id)),
        Err(NetworkError::NotFound)
    ));
    assert_eq!(run(&mut store, |s| s.find_port_by_id(7)), Ok(None));
}

#[test]
fn the_deletion_of_a_realm_is_one_operation() {
    let request = realm_delete_operation("project-a", 0x1f);
    assert_eq!(request, realm_delete_operation("project-a", 0x1f));
    assert_ne!(
        request.operation_id,
        realm_delete_operation("project-b", 0x1f).operation_id
    );
    assert_eq!(request.kind, "lifecycle:realm-delete");
    assert_eq!(request.state, OperationState::Pending);
    assert_eq!(request.service, "network");
    assert_eq!(request.action, "network:DeleteRealm");
    assert_eq!(request.actor, "o3k:network-service");
    assert_eq!(request.owner_scope, "project-a");
    assert_eq!(request.resource_type, "network:address_realm");
    assert_eq!(request.resource_id, 0x1f);
    assert_eq!(
        request.idempotency_key,
        "canonical:realm-delete:00000000-0000-0000-0000-00000000001f"
    );
    assert_eq!(
        request.payload,
        "{\"realm_id\":\"00000000-0000-0000-0000-00000000001f\"}"
    );
}

#[test]
fn a_refusal_is_told_with_what_was_decided() {
    for (decision, answer) in [
        (Decision::ScopeMismatch, NetworkError::NotFound),
        (Decision::MissingOwnership, NetworkError::NotFound),
        (Decision::Denied(7), NetworkError::Unauthorized),
    ] {
        let mut service = NetworkService::with_replies(vec![
            StoreReply::Owner(Some("project-a".to_owned())),
            StoreReply::Decision(decision),
            StoreReply::Done,
        ]);
        assert_eq!(
            service.get_canonical_realm("project-b", 7),
            Err(Stop::Failed(answer))
        );
        assert_eq!(
            service.issued[1],
            StoreCall::Authorize(
                "network:ReadAddressRealm".to_owned(),
                "network:address_realm".to_owned(),
                Some(7),
                "project-a".to_owned(),
            )
        );
        match service.issued.last() {
            Some(StoreCall::Audit(event)) => {
                assert_eq!(event.decision, Some(decision));
                assert_eq!(event.outcome, AuditOutcome::Denied);
                assert_eq!(event.resource.as_deref(), Some("network:address_realm"));
                assert_eq!(event.reason.as_deref(), Some("unauthorized"));
            }
            other => panic!("{other:?}"),
        }
    }
    for decision in [Decision::ScopeMismatch, Decision::Denied(3)] {
        let mut service = NetworkService::with_replies(vec![
            StoreReply::Decision(decision),
            StoreReply::Done,
        ]);
        assert!(matches!(
            service.list_networks("project-a"),
            Err(Stop::Failed(NetworkError::Unauthorized))
        ));
        match service.issued.last() {
            Some(StoreCall::Audit(event)) => assert_eq!(event.decision, Some(decision)),
            other => panic!("{other:?}"),
        }
    }
}

#[test]
fn a_gateway_plan_connects_the_active_realms() {
    let mut store = MemoryStore::new();
    let network = canonical_network(&mut store, "net");
    let inner = create_realm(&mut store, network.id, "192.0.2.0/24", false).expect("realm");
    let other = create_realm(&mut store, network.id, "198.51.100.0/24", false).expect("realm");
    let outside = create_realm(&mut store, network.id, "203.0.113.0/24", false).expect("realm");
    let external = outside.id;
    let gateway = run(&mut store, move |s| {
        s.create_l3_gateway_for_project("project-a", "edge".to_owned(), Some(external), true)
    })
    .expect("gateway");
    let id = gateway.id;
    let mut attach = |realm_id: u128| {
        run(&mut store, move |s| s.attach_l3_gateway_realm("project-a", id, realm_id))
            .expect("attachment")
    };
    let (kept, left) = (attach(inner.id), attach(other.id));
    let (left_id, generation) = (left.id, left.generation);
    run(&mut store, move |s| s.detach_l3_gateway_realm("project-a", left_id, generation))
        .expect("detaching");
    let compile = move |s: &mut NetworkService| {
        s.compile_l3_gateway_execution_plan_for_project("project-a", id)
    };
    let plan = run(&mut store, compile).expect("plan");
    assert_eq!(
        plan,
        L3GatewayExecutionPlan {
            gateway_id: id,
            gateway_generation: 1,
            attachments: vec![GatewayAttachment {
                attachment_id: kept.id,
                realm_id: inner.id,
                generation: kept.generation,
            }],
            encoded: "plan of edge".to_owned(),
        }
    );
    // The compiler sees all that is recorded.
    let graph = store.compiled.take().expect("a graph");
    assert_eq!(graph.attachments.len(), 2);
    assert_eq!(graph.realms, vec![inner, other, outside]);

    store.compiler_refuses = true;
    assert!(matches!(run(&mut store, compile), Err(NetworkError::InvalidRequest)));
    store.gateways[0].state = "error".to_owned();
    assert!(matches!(run(&mut store, compile), Err(NetworkError::Conflict)));
}
