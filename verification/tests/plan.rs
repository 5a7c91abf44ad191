//! Plans of nodes.
use o3k_network::domain::{
    AddressPool, AddressRealm, EgressIntent, EndpointIntent, GatewayIntent, NetworkCapability,
    NetworkIntent, NetworkIntentState, NetworkProtocol, PolicyAction, PolicyDirection, PolicyIntent,
    PortRange, PublicAddressBindingIntent, RouteIntent,
};
use o3k_network::fabric::plan::{
    EndpointLocation, FabricEndpointRoute, FabricPeer, FabricProviderKind,
    NamespacedRoutedFabricPlan, RealmEncapsulationBinding, RealmEndpointDirectory,
};
use o3k_network::ipv4::{ipv4, parse_ipv4, Ipv4Prefix};
use o3k_network::plan::attach::{
    add_l3_gateway_routing, compile_attachment_plan, compile_l3_gateway_network_plan,
    AttachmentPlanInput,
};
use o3k_network::plan::compile::compile_node_network_plan;
use o3k_network::plan::fingerprint::{canonical_plan_fingerprint, validate_plan_replay};
use o3k_network::plan::types::{
    L3GatewayExecutionPlan, NetworkPlanError, NetworkPlanIntent, NodeNetworkPlan,
    ResourceGeneration, NODE_NETWORK_PLAN_SCHEMA_VERSION,
};
use o3k_network::service::gateways::compile_l3_gateway_intents;
use o3k_network::service::records::{
    CanonicalAddressRealmRecord, CanonicalL3GatewayAttachmentRecord, CanonicalL3GatewayRecord,
};

fn prefix(value: &str, length: u8) -> Ipv4Prefix {
    Ipv4Prefix::new(parse_ipv4(value).expect("test address"), length).expect("test prefix")
}

fn capabilities() -> Vec<NetworkCapability> {
    vec![
        NetworkCapability::Ipv4,
        NetworkCapability::EndpointAttachment,
        NetworkCapability::Routing,
        NetworkCapability::StatefulPolicy,
    ]
}

fn overlapping_capabilities() -> Vec<NetworkCapability> {
    let mut capabilities = capabilities();
    capabilities.push(NetworkCapability::OverlappingAddressRealms);
    capabilities.push(NetworkCapability::EncapsulationModes);
    capabilities
}

fn intent() -> NetworkIntent {
    let id = 1;
    NetworkIntent {
        id,
        project_id: "project-a".to_owned(),
        realm: AddressRealm {
            id: 2,
            network_id: id,
            project_id: "project-a".to_owned(),
            prefix: prefix("10.0.0.0", 24),
            overlapping_prefixes: false,
        },
        address_pools: vec![],
        endpoints: vec![EndpointIntent {
            id: 3,
            project_id: "project-a".to_owned(),
            realm_id: 2,
            mac: "02:00:00:00:00:03".to_owned(),
            fixed_ip: ipv4(10, 0, 0, 3),
            generation: 4,
        }],
        routes: vec![RouteIntent {
            destination: prefix("0.0.0.0", 0),
            next_hop: Some(ipv4(10, 0, 0, 1)),
        }],
        gateways: vec![],
        egress: vec![],
        public_addresses: vec![],
        policies: vec![PolicyIntent {
            id: 10,
            endpoint_id: 3,
            direction: PolicyDirection::Egress,
            protocol: NetworkProtocol::Tcp,
            ports: Some(PortRange {
                start: 443,
                end: 443,
            }),
            source: None,
            destination: Some(prefix("0.0.0.0", 0)),
            action: PolicyAction::Allow,
        }],
        generation: 5,
        state: NetworkIntentState::Requested,
    }
}

#[test]
fn prefixes_are_canonical_and_overlap_is_explicit() {
    assert!(Ipv4Prefix::new(ipv4(10, 0, 0, 1), 24).is_none());
    let broad = prefix("10.0.0.0", 16);
    let narrow = prefix("10.0.1.0", 24);
    assert!(broad.overlaps(&narrow));
    assert!(!prefix("10.1.0.0", 16).overlaps(&narrow));
}

#[test]
fn plan_fingerprint_is_deterministic_and_semantic() {
    let value = intent();
    let operation: u128 = 6;
    let first =
        compile_node_network_plan(&value, "node-a", operation, 123, &capabilities(), &vec![])
            .expect("plan");
    let second =
        compile_node_network_plan(&value, "node-a", operation, 123, &capabilities(), &vec![])
            .expect("plan");
    assert_eq!(first, second);
    assert_eq!(first.plan_id, value.id);
    assert_eq!(first.schema_version, NODE_NETWORK_PLAN_SCHEMA_VERSION);
    assert!(
        first
            .intents
            .iter()
            .any(|item| matches!(item, NetworkPlanIntent::EndpointAttachment { .. }))
    );
    assert_eq!(first.fingerprint_sha256.len(), 64);
}

#[test]
fn fabric_payload_is_fingerprinted_and_admission_validated() {
    let base = compile_node_network_plan(
        &intent(),
        "node-a",
        6,
        123,
        &capabilities(),
        &vec![],
    )
    .expect("plan");
    let destination = prefix("10.0.0.3", 32);
    let fabric = NamespacedRoutedFabricPlan {
        local_host: "node-a".to_owned(),
        local_fabric_transport_ip: ipv4(198, 18, 0, 1),
        local_fabric_generation: 2,
        local_underlay_mtu: 1500,
        local_fabric_mtu: 1420,
        realm_id: 2,
        realm_prefix: prefix("10.0.0.0", 24),
        encapsulation: RealmEncapsulationBinding {
            fabric_domain_id: 100,
            realm_id: 2,
            provider_kind: FabricProviderKind::Geneve,
            provider_segment_id: 101,
            binding_generation: 1,
        },
        directory_generation: 3,
        directory: RealmEndpointDirectory {
            realm_id: 2,
            prefix: prefix("10.0.0.0", 24),
            directory_generation: 3,
            proxy_mac: "02:11:22:33:44:55".to_owned(),
            entries: vec![EndpointLocation {
                endpoint_id: 3,
                project_id: "project-a".to_owned(),
                realm_id: 2,
                fixed_ip: ipv4(10, 0, 0, 3),
                mac: "02:00:00:00:00:03".to_owned(),
                selected_host: "node-b".to_owned(),
                endpoint_generation: 4,
                placement_generation: 5,
            }],
        },
        proxy_mac: "02:11:22:33:44:55".to_owned(),
        tenant_mtu: 1400,
        policy_generation: 1,
        policies: Vec::new(),
        policy_defaults: Vec::new(),
        public_bindings: Vec::new(),
        routes: vec![FabricEndpointRoute {
            realm_id: 2,
            destination,
            endpoint_id: 3,
            target_host: "node-b".to_owned(),
            target_fabric_transport_ip: ipv4(198, 18, 0, 2),
            endpoint_generation: 4,
            placement_generation: 5,
            realm_binding_generation: 1,
            fabric_generation: 6,
        }],
        peers: vec![FabricPeer {
            host_id: "node-b".to_owned(),
            public_key: "public-key".to_owned(),
            underlay_endpoint: "192.0.2.2:65001".to_owned(),
            fabric_transport_ip: ipv4(198, 18, 0, 2),
            fabric_generation: 6,
        }],
    };
    let plan = base.clone().with_fabric(fabric).expect("valid P11 plan");
    assert_ne!(plan.fingerprint_sha256, base.fingerprint_sha256);
    assert_eq!(plan.validate_fabric(), Ok(()));

    let mut invalid = plan.clone();
    invalid.fabric.as_mut().expect("fabric").routes[0].destination = prefix("10.0.0.0", 24);
    assert_eq!(
        invalid.validate_fabric(),
        Err(NetworkPlanError::InvalidFabricPlan)
    );
}

#[test]
fn equivalent_retry_with_new_deadline_keeps_plan_fingerprint() {
    let value = intent();
    let operation: u128 = 6;
    let first =
        compile_node_network_plan(&value, "node-a", operation, 123, &capabilities(), &vec![])
            .expect("plan");
    let retried =
        compile_node_network_plan(&value, "node-a", operation, 456, &capabilities(), &vec![])
            .expect("retried plan");
    assert_eq!(first.fingerprint_sha256, retried.fingerprint_sha256);
    assert_eq!(
        canonical_plan_fingerprint(&first).expect("fingerprint"),
        first.fingerprint_sha256
    );
    assert_eq!(
        canonical_plan_fingerprint(&retried).expect("fingerprint"),
        retried.fingerprint_sha256
    );
}

#[test]
fn plan_rejects_overlap_before_provider_mutation() {
    let existing = AddressRealm {
        id: 7,
        network_id: 70,
        project_id: "project-b".to_owned(),
        prefix: prefix("10.0.0.0", 16),
        overlapping_prefixes: false,
    };
    assert_eq!(
        compile_node_network_plan(
            &intent(),
            "node-a",
            6,
            123,
            &capabilities(),
            &vec![existing],
        ),
        Err(NetworkPlanError::OverlappingRealm)
    );
}

#[test]
fn geneve_capability_allows_overlap_only_when_realm_and_provider_opt_in() {
    let existing = AddressRealm {
        id: 7,
        network_id: 70,
        project_id: "project-b".to_owned(),
        prefix: prefix("10.0.0.0", 16),
        overlapping_prefixes: false,
    };
    let mut overlapping = intent();
    overlapping.realm.overlapping_prefixes = true;
    let plan = compile_node_network_plan(
        &overlapping,
        "node-a",
        6,
        123,
        &overlapping_capabilities(),
        &vec![existing],
    )
    .expect("overlap-capable provider plan");
    assert!(
        plan.intents
            .iter()
            .any(|item| matches!(item, NetworkPlanIntent::AddressRealm { .. }))
    );

    let mut missing_encapsulation = overlapping_capabilities();
    missing_encapsulation.retain(|kept| *kept != NetworkCapability::EncapsulationModes);
    assert_eq!(
        compile_node_network_plan(
            &overlapping,
            "node-a",
            6,
            123,
            &missing_encapsulation,
            &vec![AddressRealm {
                id: 7,
                network_id: 70,
                project_id: "project-b".to_owned(),
                prefix: prefix("10.0.0.0", 16),
                overlapping_prefixes: false,
            }],
        ),
        Err(NetworkPlanError::OverlappingRealm)
    );
}

#[test]
fn plan_rejects_unsupported_capability_before_mutation() {
    let mut missing = capabilities();
    missing.retain(|kept| *kept != NetworkCapability::Routing);
    assert_eq!(
        compile_node_network_plan(&intent(), "node-a", 6, 123, &missing, &vec![],),
        Err(NetworkPlanError::UnsupportedCapability(
            NetworkCapability::Routing
        ))
    );
}

#[test]
fn plan_carries_gateway_egress_public_binding_and_deadline() {
    let mut value = intent();
    value.gateways.push(GatewayIntent {
        destination: prefix("0.0.0.0", 0),
        gateway: ipv4(10, 0, 0, 1),
        external: true,
    });
    value.egress.push(EgressIntent {
        external_realm_id: 8,
        enabled: true,
        nat: true,
    });
    value
        .public_addresses
        .push(PublicAddressBindingIntent {
            id: 9,
            project_id: "project-a".to_owned(),
            public_address: ipv4(198, 51, 100, 10),
            endpoint_id: 3,
            generation: 6,
        });
    let mut capabilities = capabilities();
    capabilities.push(NetworkCapability::Nat);
    capabilities.push(NetworkCapability::PublicAddressRealization);
    let plan = compile_node_network_plan(
        &value,
        "node-a",
        6,
        456,
        &capabilities,
        &vec![],
    )
    .expect("plan");
    assert_eq!(plan.deadline_unix_ms, 456);
    assert!(
        plan.intents
            .iter()
            .any(|item| matches!(item, NetworkPlanIntent::Gateway(_)))
    );
    assert!(
        plan.intents
            .iter()
            .any(|item| matches!(item, NetworkPlanIntent::Egress(_)))
    );
    assert!(
        plan.intents
            .iter()
            .any(|item| matches!(item, NetworkPlanIntent::PublicAddressBinding(_)))
    );
}

#[test]
fn canonical_l3_gateway_compiles_connected_realm_intents() {
    let gateway = CanonicalL3GatewayRecord {
        id: 100,
        project_id: "project-a".to_owned(),
        name: "gw".to_owned(),
        external_realm_id: Some(200),
        enable_snat: true,
        generation: 1,
        state: "active".to_owned(),
    };
    let realms = vec![
        CanonicalAddressRealmRecord {
            id: 1,
            network_id: 10,
            project_id: "project-a".to_owned(),
            prefix: "10.0.0.0/24".to_owned(),
            overlapping_prefixes: false,
            generation: 1,
            state: "active".to_owned(),
        },
        CanonicalAddressRealmRecord {
            id: 2,
            network_id: 11,
            project_id: "project-a".to_owned(),
            prefix: "10.1.0.0/24".to_owned(),
            overlapping_prefixes: false,
            generation: 1,
            state: "active".to_owned(),
        },
    ];
    let attachments = vec![
        CanonicalL3GatewayAttachmentRecord {
            id: 3,
            gateway_id: gateway.id,
            realm_id: realms[0].id,
            project_id: "project-a".to_owned(),
            generation: 1,
            state: "active".to_owned(),
        },
        CanonicalL3GatewayAttachmentRecord {
            id: 4,
            gateway_id: gateway.id,
            realm_id: realms[1].id,
            project_id: "project-a".to_owned(),
            generation: 1,
            state: "active".to_owned(),
        },
    ];
    let compiled =
        compile_l3_gateway_intents(&gateway, &attachments, &realms, &vec![])
            .expect("gateway plan");
    assert_eq!(compiled.len(), 2);
    assert_eq!(
        compiled[0].routes[0].destination.network,
        ipv4(10, 1, 0, 0)
    );
    assert_eq!(
        compiled[0].egress[0].external_realm_id,
        200
    );
}

#[test]
fn plan_rejects_nat_without_provider_capability() {
    let mut value = intent();
    value.egress.push(EgressIntent {
        external_realm_id: 8,
        enabled: true,
        nat: true,
    });
    assert_eq!(
        compile_node_network_plan(
            &value,
            "node-a",
            6,
            123,
            &capabilities(),
            &vec![],
        ),
        Err(NetworkPlanError::UnsupportedCapability(
            NetworkCapability::Nat
        ))
    );
}

#[test]
fn plan_rejects_cross_project_endpoint() {
    let mut value = intent();
    value.endpoints[0].project_id = "project-b".to_owned();
    assert_eq!(
        compile_node_network_plan(
            &value,
            "node-a",
            6,
            123,
            &capabilities(),
            &vec![],
        ),
        Err(NetworkPlanError::AddressOutsideRealm)
    );
}

#[test]
fn plan_rejects_cross_project_bindings_and_invalid_policies() {
    let mut binding = intent();
    binding
        .public_addresses
        .push(PublicAddressBindingIntent {
            id: 9,
            project_id: "project-b".to_owned(),
            public_address: ipv4(198, 51, 100, 10),
            endpoint_id: 3,
            generation: 1,
        });
    let mut provider_capabilities = capabilities();
    provider_capabilities.push(NetworkCapability::PublicAddressRealization);
    assert_eq!(
        compile_node_network_plan(
            &binding,
            "node-a",
            6,
            123,
            &provider_capabilities,
            &vec![],
        ),
        Err(NetworkPlanError::OwnershipViolation)
    );

    let mut policy = intent();
    policy.policies[0].endpoint_id = 99;
    assert_eq!(
        compile_node_network_plan(
            &policy,
            "node-a",
            6,
            123,
            &capabilities(),
            &vec![],
        ),
        Err(NetworkPlanError::InvalidPolicy)
    );

    let mut invalid_ports = intent();
    invalid_ports.policies[0].ports = Some(PortRange {
        start: 5000,
        end: 80,
    });
    assert_eq!(
        compile_node_network_plan(
            &invalid_ports,
            "node-a",
            6,
            123,
            &capabilities(),
            &vec![],
        ),
        Err(NetworkPlanError::InvalidPolicy)
    );
}

#[test]
fn plan_rejects_foreign_realm_and_pool() {
    let mut value = intent();
    value.realm.project_id = "project-b".to_owned();
    assert_eq!(
        compile_node_network_plan(
            &value,
            "node-a",
            6,
            123,
            &capabilities(),
            &vec![],
        ),
        Err(NetworkPlanError::OwnershipViolation)
    );

    let mut value = intent();
    value.address_pools.push(AddressPool {
        id: 10,
        realm_id: value.realm.id,
        project_id: "project-a".to_owned(),
        prefix: prefix("10.1.0.0", 24),
        gateway: Some(ipv4(10, 1, 0, 1)),
        first_usable: ipv4(10, 1, 0, 2),
        last_usable: ipv4(10, 1, 0, 20),
    });
    assert_eq!(
        compile_node_network_plan(
            &value,
            "node-a",
            6,
            123,
            &capabilities(),
            &vec![],
        ),
        Err(NetworkPlanError::InvalidAddressPool)
    );

    let mut value = intent();
    value.realm.prefix = prefix("10.0.0.0", 16);
    value.address_pools = vec![
        AddressPool {
            id: 12,
            realm_id: value.realm.id,
            project_id: value.project_id.clone(),
            prefix: prefix("10.0.0.0", 24),
            gateway: Some(ipv4(10, 0, 0, 1)),
            first_usable: ipv4(10, 0, 0, 2),
            last_usable: ipv4(10, 0, 0, 20),
        },
        AddressPool {
            id: 13,
            realm_id: value.realm.id,
            project_id: value.project_id.clone(),
            prefix: prefix("10.0.1.0", 24),
            gateway: Some(ipv4(10, 0, 1, 130)),
            first_usable: ipv4(10, 0, 1, 130),
            last_usable: ipv4(10, 0, 1, 140),
        },
    ];
    assert_eq!(
        compile_node_network_plan(
            &value,
            "node-a",
            6,
            123,
            &capabilities(),
            &vec![],
        ),
        Err(NetworkPlanError::InvalidAddressPool)
    );
}

#[test]
fn plan_rejects_duplicate_endpoint_addresses_and_macs() {
    let mut duplicate_address = intent();
    duplicate_address.endpoints.push(EndpointIntent {
        id: 99,
        project_id: duplicate_address.project_id.clone(),
        realm_id: duplicate_address.realm.id,
        mac: "02:00:00:00:00:99".to_owned(),
        fixed_ip: ipv4(10, 0, 0, 3),
        generation: 1,
    });
    assert_eq!(
        compile_node_network_plan(
            &duplicate_address,
            "node-a",
            6,
            123,
            &capabilities(),
            &vec![],
        ),
        Err(NetworkPlanError::ConflictingEndpoint)
    );

    let mut duplicate_mac = intent();
    duplicate_mac.endpoints.push(EndpointIntent {
        id: 99,
        project_id: duplicate_mac.project_id.clone(),
        realm_id: duplicate_mac.realm.id,
        mac: duplicate_mac.endpoints[0].mac.clone(),
        fixed_ip: ipv4(10, 0, 0, 99),
        generation: 1,
    });
    assert_eq!(
        compile_node_network_plan(
            &duplicate_mac,
            "node-a",
            6,
            123,
            &capabilities(),
            &vec![],
        ),
        Err(NetworkPlanError::ConflictingEndpoint)
    );

    let mut invalid_mac = intent();
    invalid_mac.endpoints[0].mac = "not-a-mac".to_owned();
    assert_eq!(
        compile_node_network_plan(
            &invalid_mac,
            "node-a",
            6,
            123,
            &capabilities(),
            &vec![],
        ),
        Err(NetworkPlanError::ConflictingEndpoint)
    );
}

#[test]
fn plan_rejects_pool_gateway_from_the_allocatable_range() {
    let mut value = intent();
    value.address_pools.push(AddressPool {
        id: 10,
        realm_id: value.realm.id,
        project_id: value.project_id.clone(),
        prefix: prefix("10.0.0.0", 24),
        gateway: Some(ipv4(10, 0, 0, 1)),
        first_usable: ipv4(10, 0, 0, 1),
        last_usable: ipv4(10, 0, 0, 20),
    });
    assert_eq!(
        compile_node_network_plan(
            &value,
            "node-a",
            6,
            123,
            &capabilities(),
            &vec![],
        ),
        Err(NetworkPlanError::InvalidAddressPool)
    );

    let mut value = intent();
    value.address_pools.push(AddressPool {
        id: 11,
        realm_id: value.realm.id,
        project_id: value.project_id.clone(),
        prefix: prefix("10.0.0.0", 24),
        gateway: Some(ipv4(10, 0, 0, 255)),
        first_usable: ipv4(10, 0, 0, 2),
        last_usable: ipv4(10, 0, 0, 20),
    });
    assert_eq!(
        compile_node_network_plan(
            &value,
            "node-a",
            6,
            123,
            &capabilities(),
            &vec![],
        ),
        Err(NetworkPlanError::InvalidAddressPool)
    );
}

#[test]
fn equivalent_plan_replay_is_allowed_but_payload_conflict_is_rejected() {
    let plan = compile_node_network_plan(
        &intent(),
        "node-a",
        6,
        123,
        &capabilities(),
        &vec![],
    )
    .expect("plan");
    assert_eq!(validate_plan_replay(&plan, &plan), Ok(()));
    let mut conflicting = plan.clone();
    conflicting.fingerprint_sha256 = "conflicting".to_owned();
    assert_eq!(
        validate_plan_replay(&plan, &conflicting),
        Err(NetworkPlanError::ConflictingPlan)
    );
}

#[test]
fn attachment_plan_can_carry_operator_owned_routed_egress() -> Result<(), NetworkPlanError> {
    let endpoint_id = 11;
    let external_realm_id = 12;
    let plan = compile_attachment_plan(AttachmentPlanInput {
        endpoint_id,
        realm_id: 13,
        project_id: "project-a",
        mac: "02:00:00:00:00:0b",
        fixed_ip: ipv4(10, 0, 0, 2),
        subnet_cidr: "10.0.0.0/24",
        node_id: "node-a",
        operation_id: 14,
        deadline_unix_ms: 1,
        public_address: None,
        external_realm_id: Some(external_realm_id),
        policies: Vec::new(),
    })?;
    assert!(plan.intents.iter().any(|intent| matches!(
        intent,
        NetworkPlanIntent::Egress(EgressIntent {
            external_realm_id: id,
            enabled: true,
            nat: true,
        }) if *id == external_realm_id
    )));
    assert!(plan
        .intents
        .iter()
        .any(|intent| matches!(intent, NetworkPlanIntent::EndpointAttachment { endpoint_id: id, .. } if *id == endpoint_id)));
    Ok(())
}

#[test]
fn plans_encode_to_a_known_fingerprint() {
    // The digest of ["00000000-0000-0000-0000-000000000001","node-\"a",
    // "00000000-0000-0000-0000-000000000006",1,{"00000000-0000-0000-0000-000000000003":4},
    // [{"Route":{"destination":{"network":"10.0.0.0","prefix_len":24},"next_hop":null}}]]
    // without the line breaks.
    let small = NodeNetworkPlan {
        schema_version: 1,
        plan_id: 1,
        node_id: "node-\"a".to_owned(),
        operation_id: 6,
        deadline_unix_ms: 123,
        resource_generations: vec![ResourceGeneration { id: 3, generation: 4 }],
        intents: vec![NetworkPlanIntent::Route(RouteIntent {
            destination: prefix("10.0.0.0", 24),
            next_hop: None,
        })],
        fabric: None,
        gateway: None,
        fingerprint_sha256: String::new(),
    };
    assert_eq!(
        canonical_plan_fingerprint(&small).expect("fingerprint"),
        "27452c0c33738a7c8bda3eed8ee8a8772ac2b4e9208e40916f07ccc294c4998f"
    );
    let plan = compile_node_network_plan(&intent(), "node-a", 6, 123, &capabilities(), &vec![])
        .expect("plan");
    let mut other = plan.clone();
    other.node_id = "node-b".to_owned();
    assert_ne!(
        canonical_plan_fingerprint(&other).expect("fingerprint"),
        plan.fingerprint_sha256
    );
    let mut shuffled = plan.clone();
    shuffled.deadline_unix_ms = 9;
    assert_eq!(
        canonical_plan_fingerprint(&shuffled).expect("fingerprint"),
        plan.fingerprint_sha256
    );
    assert!(plan.fingerprint_sha256.chars().all(|c| c.is_ascii_hexdigit()));
}

#[test]
fn gateway_routing_and_gateway_plans_are_signed() {
    let plan = compile_node_network_plan(&intent(), "node-a", 6, 123, &capabilities(), &vec![])
        .expect("plan");
    let unchanged = add_l3_gateway_routing(plan.clone(), vec![], vec![]).expect("plan");
    assert_eq!(unchanged, plan);
    let routed = add_l3_gateway_routing(
        plan.clone(),
        vec![GatewayIntent {
            destination: prefix("10.9.0.0", 16),
            gateway: ipv4(10, 0, 0, 1),
            external: false,
        }],
        vec![],
    )
    .expect("plan");
    assert_ne!(routed.fingerprint_sha256, plan.fingerprint_sha256);
    assert_eq!(
        canonical_plan_fingerprint(&routed).expect("fingerprint"),
        routed.fingerprint_sha256
    );
    let gateway = L3GatewayExecutionPlan {
        gateway_id: 7,
        gateway_generation: 3,
        attachments: vec![],
        encoded: "{}".to_owned(),
    };
    assert_eq!(
        compile_l3_gateway_network_plan(gateway.clone(), " ", 6, 1),
        Err(NetworkPlanError::InvalidGatewayPlan)
    );
    let alone = compile_l3_gateway_network_plan(gateway.clone(), "node-a", 6, 1).expect("plan");
    assert!(alone.gateway.is_some());
    assert_eq!(
        plan.clone().with_gateway(gateway.clone(), false),
        Err(NetworkPlanError::InvalidGatewayPlan)
    );
    assert!(plan.with_gateway(gateway, true).is_ok());
}

#[test]
fn attachments_need_a_readable_prefix() {
    let input = |subnet_cidr| AttachmentPlanInput {
        endpoint_id: 11,
        realm_id: 13,
        project_id: "project-a",
        mac: "02:00:00:00:00:0b",
        fixed_ip: ipv4(10, 0, 0, 2),
        subnet_cidr,
        node_id: "node-a",
        operation_id: 14,
        deadline_unix_ms: 1,
        public_address: None,
        external_realm_id: None,
        policies: Vec::new(),
    };
    assert_eq!(
        compile_attachment_plan(input("10.0.0.0")),
        Err(NetworkPlanError::InvalidPrefix)
    );
    assert_eq!(
        compile_attachment_plan(input("10.0.0.1/24")),
        Err(NetworkPlanError::InvalidPrefix)
    );
    assert!(compile_attachment_plan(input("10.0.0.0/24")).is_ok());
}

#[test]
fn names_are_escaped_in_the_fingerprint() {
    // The digest of ["00000000-0000-0000-0000-000000000001",
    // "a\u0001\t\n\r\b\f\\\"/\u{e9}\u{7f}\u001f",
    // "00000000-0000-0000-0000-000000000006",1,{},[]] without the line breaks, where the two
    // characters in braces stand for themselves.
    let plan = NodeNetworkPlan {
        schema_version: 1,
        plan_id: 1,
        node_id: "a\u{1}\t\n\r\u{8}\u{c}\\\"/\u{e9}\u{7f}\u{1f}".to_owned(),
        operation_id: 6,
        deadline_unix_ms: 123,
        resource_generations: vec![],
        intents: vec![],
        fabric: None,
        gateway: None,
        fingerprint_sha256: String::new(),
    };
    assert_eq!(
        canonical_plan_fingerprint(&plan).expect("fingerprint"),
        "65124048e5d095c333956c921659caf90ad46acfe6b1027fe3a8b0a064296946"
    );
}

#[test]
fn the_order_of_intents_does_not_change_the_fingerprint() {
    let compiled = compile_node_network_plan(&intent(), "node-a", 6, 123, &capabilities(), &vec![])
        .expect("plan");
    let mut turned = compiled.clone();
    turned.intents.reverse();
    assert_ne!(turned.intents, compiled.intents);
    assert_eq!(
        canonical_plan_fingerprint(&turned).expect("fingerprint"),
        compiled.fingerprint_sha256
    );
    assert!(compiled
        .fingerprint_sha256
        .chars()
        .all(|c| matches!(c, '0'..='9' | 'a'..='f')));
}
