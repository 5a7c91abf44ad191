//! The fabric against a simulated host.
use o3k_network::domain::{
    NetworkProtocol, PolicyAction, PolicyDirection, PolicyIntent, PortRange,
    PublicAddressBindingIntent,
};
use o3k_network::fabric::backend::LinuxFabricBackend;
use o3k_network::fabric::config::{
    ephemeral_port_low, FabricError, LinuxFabricConfig, LinuxFabricError,
};
use o3k_network::fabric::execution::{filter_command, gateway_marker, marker_of};
use o3k_network::fabric::naming::{
    endpoint_tap_mac, endpoint_tap_name, geneve_name, policy_table_name, public_transit_addresses,
    tunnel_mac, valid_mac, valid_name, valid_wireguard_key,
};
use o3k_network::fabric::plan::{
    EndpointLocation, FabricEndpointRoute, FabricPeer, FabricProviderKind,
    NamespacedRoutedFabricPlan, RealmEncapsulationBinding, RealmEndpointDirectory,
};
use o3k_network::fabric::state::{EndpointTapOwnership, ProviderState};
use o3k_network::fabric::underlay::private_file;
use o3k_network::ipv4::{ipv4, Ipv4Prefix};
use o3k_network::session::{Effect, Reply, Session, Stop};
use o3k_network::table::{restore_ids, restore_names};

/// A host on which every command succeeds and nothing exists, but for namespaces where they are
/// said to exist, and which keeps a private key file.
struct FakeHost {
    calls: Vec<(String, Vec<String>)>,
    namespace_exists: bool,
    key: Option<String>,
    saved_states: Vec<ProviderState>,
    saved_plans: Vec<NamespacedRoutedFabricPlan>,
    at_hand: Option<NamespacedRoutedFabricPlan>,
}

impl FakeHost {
    fn new(namespace_exists: bool) -> Self {
        Self {
            calls: Vec::new(),
            namespace_exists,
            key: None,
            saved_states: Vec::new(),
            saved_plans: Vec::new(),
            at_hand: None,
        }
    }

    fn answer(&mut self, effect: &Effect, backend: &LinuxFabricBackend) -> Reply {
        match effect {
            Effect::Query(command) => {
                self.calls.push((command.program.clone(), command.args.clone()));
                if command.args.len() >= 2
                    && command.args[..2] == ["netns", "exec"]
                    && self.namespace_exists
                {
                    return Reply::Printed(true, String::new());
                }
                if command.program == "wg" {
                    return Reply::Printed(true, format!("{}\n", "A".repeat(43) + "="));
                }
                Reply::Printed(false, String::new())
            }
            Effect::Run(command) => {
                self.calls.push((command.program.clone(), command.args.clone()));
                Reply::Finished(true)
            }
            Effect::Save => {
                self.saved_states.push(backend.state.clone());
                Reply::Finished(true)
            }
            Effect::SavePlan => {
                self.saved_plans.extend(self.at_hand.clone());
                Reply::Finished(true)
            }
            Effect::RemovePlan | Effect::RemoveRecords => Reply::Finished(true),
            Effect::ReadKey(_) => match &self.key {
                None => Reply::NoKey,
                Some(text) => Reply::Key(true, text.clone()),
            },
            Effect::WriteKey(_, text) => {
                assert!(self.key.is_none(), "a key is never overwritten");
                self.key = Some(text.clone());
                Reply::Finished(true)
            }
            Effect::CheckEndpoint(text) => {
                Reply::Finished(text == "192.0.2.2:65001")
            }
            other => panic!("unexpected effect {other:?}"),
        }
    }
}

fn drive<T, E: Copy>(
    backend: &mut LinuxFabricBackend,
    host: &mut FakeHost,
    operation: impl Fn(&mut LinuxFabricBackend, &mut Session) -> Result<T, Stop<E>>,
) -> Result<T, E> {
    let mut replies: Vec<Reply> = Vec::new();
    loop {
        let mut trial = backend.clone();
        let mut session = Session::new(replies.clone());
        match operation(&mut trial, &mut session) {
            Ok(value) => {
                *backend = trial;
                return Ok(value);
            }
            Err(Stop::Failed(error)) => {
                *backend = trial;
                return Err(error);
            }
            Err(Stop::Pending) => {
                let effect = session.issued.last().expect("an effect to answer");
                replies.push(host.answer(effect, &trial));
            }
        }
    }
}

fn open(config: LinuxFabricConfig, host: &mut FakeHost) -> LinuxFabricBackend {
    let mut replies: Vec<Reply> = Vec::new();
    loop {
        let mut session = Session::new(replies.clone());
        match LinuxFabricBackend::open(config.clone(), ProviderState::default(), true, vec![], &mut session) {
            Ok(backend) => return backend,
            Err(Stop::Failed(error)) => panic!("{error:?}"),
            Err(Stop::Pending) => {
                let probe = LinuxFabricBackend {
                    config: config.clone(),
                    state: ProviderState::default(),
                    plans: vec![],
                };
                let effect = session.issued.last().expect("an effect to answer");
                replies.push(host.answer(effect, &probe));
            }
        }
    }
}

fn apply(
    backend: &mut LinuxFabricBackend,
    host: &mut FakeHost,
    plan: &NamespacedRoutedFabricPlan,
) -> Result<(), FabricError> {
    host.at_hand = Some(plan.clone());
    drive(backend, host, |b, s| b.apply(plan, s))
}

fn remove(
    backend: &mut LinuxFabricBackend,
    host: &mut FakeHost,
    plan: &NamespacedRoutedFabricPlan,
) -> Result<(), FabricError> {
    drive(backend, host, |b, s| b.remove(plan, s))
}

fn message(error: FabricError) -> String {
    match error {
        FabricError::Backend(error) => error.message().to_owned(),
        FabricError::StaleGeneration => "stale generation".to_owned(),
    }
}

fn prefix(a: u8, b: u8, c: u8, d: u8, len: u8) -> Ipv4Prefix {
    Ipv4Prefix::new(ipv4(a, b, c, d), len).expect("prefix")
}

fn plan() -> NamespacedRoutedFabricPlan {
    let realm_prefix = prefix(10, 40, 1, 0, 24);
    NamespacedRoutedFabricPlan {
        local_host: "host-a".to_owned(),
        local_fabric_transport_ip: ipv4(198, 18, 0, 1),
        local_fabric_generation: 3,
        local_underlay_mtu: 1500,
        local_fabric_mtu: 1420,
        realm_id: 11,
        realm_prefix,
        encapsulation: RealmEncapsulationBinding {
            fabric_domain_id: 100,
            realm_id: 11,
            provider_kind: FabricProviderKind::Geneve,
            provider_segment_id: 101,
            binding_generation: 3,
        },
        directory_generation: 2,
        directory: RealmEndpointDirectory {
            realm_id: 11,
            prefix: realm_prefix,
            directory_generation: 2,
            proxy_mac: "02:11:22:33:44:55".to_owned(),
            entries: vec![EndpointLocation {
                endpoint_id: 12,
                project_id: "project-a".to_owned(),
                realm_id: 11,
                fixed_ip: ipv4(10, 40, 1, 12),
                mac: "02:00:00:00:00:12".to_owned(),
                selected_host: "host-b".to_owned(),
                endpoint_generation: 1,
                placement_generation: 1,
            }],
        },
        proxy_mac: "02:11:22:33:44:55".to_owned(),
        tenant_mtu: 1400,
        policy_generation: 1,
        policies: vec![],
        policy_defaults: vec![],
        public_bindings: vec![],
        routes: vec![FabricEndpointRoute {
            realm_id: 11,
            destination: prefix(10, 40, 1, 12, 32),
            endpoint_id: 12,
            target_host: "host-b".to_owned(),
            target_fabric_transport_ip: ipv4(198, 18, 0, 2),
            endpoint_generation: 1,
            placement_generation: 1,
            realm_binding_generation: 3,
            fabric_generation: 3,
        }],
        peers: vec![FabricPeer {
            host_id: "host-b".to_owned(),
            public_key: "B".repeat(43) + "=",
            underlay_endpoint: "192.0.2.2:65001".to_owned(),
            fabric_transport_ip: ipv4(198, 18, 0, 2),
            fabric_generation: 3,
        }],
    }
}

const ROOT: &str = "/var/lib/o3k-fabric";

#[test]
fn provider_refuses_foreign_fabric_namespace() {
    let mut host = FakeHost::new(true);
    let mut provider = open(LinuxFabricConfig::for_root(ROOT), &mut host);
    let error = apply(&mut provider, &mut host, &plan()).expect_err("refused");
    assert!(message(error).contains("foreign"));
}

#[test]
fn provider_records_key_path_but_never_plan_key_material() {
    let mut host = FakeHost::new(false);
    let mut provider = open(LinuxFabricConfig::for_root(ROOT), &mut host);
    apply(&mut provider, &mut host, &plan()).expect("apply");
    let state = format!("{:?}", host.saved_states.last().expect("state"));
    let serialized = format!("{:?}", host.saved_plans.last().expect("plan"));
    assert!(!state.contains(&"A".repeat(43)));
    assert!(!serialized.contains(&"A".repeat(43)));
    assert!(state.contains("wireguard-private.key"));
    assert_eq!(host.key, Some(format!("{}\n", "A".repeat(43) + "=")));
    let calls = &host.calls;
    assert!(
        calls
            .iter()
            .any(|(program, args)| program == "wg" && args == &["genkey"])
    );
    let interface = geneve_name(plan().realm_id, "host-b");
    assert!(calls.iter().any(|(program, args)| {
        program == "ip"
            && args.windows(8).any(|window| {
                window
                    == [
                        "type",
                        "geneve",
                        "id",
                        "101",
                        "remote",
                        "198.18.0.2",
                        "dstport",
                        "6081",
                    ]
            })
            && args.iter().any(|arg| arg == &interface)
    }));
    assert!(calls.iter().any(|(program, args)| {
        program == "ip"
            && args
                .windows(2)
                .any(|window| window == ["allowed-ips", "198.18.0.2/32"])
    }));
    assert!(!calls.iter().any(|(_, args)| {
        args.windows(2)
            .any(|window| window == ["allowed-ips", "10.40.1.12/32"])
    }));
    let remote_tunnel_mac = tunnel_mac(plan().realm_id, "host-b");
    let attachment = provider
        .state
        .realms
        .iter()
        .find(|realm| realm.realm_id == plan().realm_id)
        .and_then(|realm| {
            realm
                .attachments
                .iter()
                .find(|attachment| attachment.target_host == "host-b")
        })
        .expect("remote attachment");
    assert!(calls.iter().any(|(program, args)| {
        program == "ip"
            && args.windows(4).any(|window| {
                window == ["lladdr", remote_tunnel_mac.as_str(), "nud", "permanent"]
            })
            && args.last() == Some(&attachment.realm_veth)
    }));
    assert!(calls.iter().any(|(program, args)| {
        program == "ip"
            && args.contains(&"bridge".to_owned())
            && args
                .windows(2)
                .any(|window| window == ["replace", remote_tunnel_mac.as_str()])
    }));
    assert!(calls.iter().any(|(program, args)| {
        program == "ip" && args.windows(2).any(|window| window == ["mtu", "1400"])
    }));
}

#[test]
fn provider_uses_static_fdb_entries_not_permanent() {
    let mut host = FakeHost::new(false);
    let mut provider = open(LinuxFabricConfig::for_root(ROOT), &mut host);
    apply(&mut provider, &mut host, &plan()).expect("apply");
    let remote_mac = tunnel_mac(plan().realm_id, "host-b");
    let local_mac = tunnel_mac(plan().realm_id, "host-a");
    let bridge_calls: Vec<_> = host
        .calls
        .iter()
        .filter(|(prog, args)| {
            prog == "ip"
                && args.contains(&"bridge".to_owned())
                && args.contains(&"fdb".to_owned())
                && args.contains(&"replace".to_owned())
                && (args.iter().any(|a| a == remote_mac.as_str())
                    || args.iter().any(|a| a == local_mac.as_str()))
        })
        .collect();
    assert!(!bridge_calls.is_empty(), "no bridge fdb calls found");
    for (_, args) in &bridge_calls {
        assert!(
            args.contains(&"static".to_owned()),
            "bridge FDB uses permanent instead of static"
        );
    }
}

#[test]
fn provider_realizes_realm_scoped_policy_with_owned_marker() {
    let mut host = FakeHost::new(false);
    let mut provider = open(LinuxFabricConfig::for_root(ROOT), &mut host);
    let mut current = plan();
    current.policy_generation = 7;
    current.policies = vec![PolicyIntent {
        id: 13,
        endpoint_id: 12,
        direction: PolicyDirection::Ingress,
        protocol: NetworkProtocol::Tcp,
        ports: Some(PortRange {
            start: 443,
            end: 443,
        }),
        source: Some(prefix(192, 0, 2, 0, 24)),
        destination: None,
        action: PolicyAction::Deny,
    }];
    apply(&mut provider, &mut host, &current).expect("apply");
    let table = policy_table_name(current.realm_id);
    assert!(host.calls.iter().any(|(program, args)| {
        program == "ip"
            && args
                .windows(5)
                .any(|window| window == ["nft", "add", "table", "ip", table.as_str()])
    }));
    assert!(host.calls.iter().any(|(program, args)| {
        program == "ip"
            && args.iter().any(|arg| arg == "drop")
            && args.iter().any(|arg| arg == "443-443")
            && args.iter().any(|arg| arg.contains("o3k-p11-policy:0"))
    }));
    let ownership = provider
        .state
        .realms
        .iter()
        .find(|realm| realm.realm_id == current.realm_id)
        .expect("realm");
    assert_eq!(ownership.policy_generation, 7);
    assert!(!ownership.policy_fingerprint.is_empty());
    remove(&mut provider, &mut host, &current).expect("remove");
    assert!(provider.observe_removed(&current));
}

#[test]
fn provider_rejects_invalid_policy_before_host_mutation() {
    let mut host = FakeHost::new(false);
    let mut provider = open(LinuxFabricConfig::for_root(ROOT), &mut host);
    host.calls.clear();
    let mut invalid = plan();
    invalid.policy_generation = 7;
    invalid.policies = vec![PolicyIntent {
        id: 14,
        endpoint_id: 12,
        direction: PolicyDirection::Ingress,
        protocol: NetworkProtocol::Tcp,
        ports: Some(PortRange {
            start: 8443,
            end: 443,
        }),
        source: None,
        destination: None,
        action: PolicyAction::Allow,
    }];
    let error = apply(&mut provider, &mut host, &invalid).expect_err("refused");
    assert!(message(error).contains("conflicts"));
    assert!(host.calls.is_empty());
}

#[test]
fn provider_realizes_realm_scoped_public_binding_without_bare_ip_nat() {
    let mut host = FakeHost::new(false);
    let mut provider = open(
        LinuxFabricConfig::for_root(ROOT).with_public_uplink("eth-public"),
        &mut host,
    );
    let mut current = plan();
    current.public_bindings = vec![PublicAddressBindingIntent {
        id: 15,
        project_id: "project-a".to_owned(),
        public_address: ipv4(203, 0, 113, 10),
        endpoint_id: 12,
        generation: 4,
    }];
    apply(&mut provider, &mut host, &current).expect("apply");
    assert!(host.calls.iter().any(|(program, args)| {
        program == "ip"
            && args.iter().any(|arg| arg == "dnat")
            && args.iter().any(|arg| arg == "10.40.1.12")
    }));
    assert!(host.calls.iter().any(|(program, args)| {
        program == "ip"
            && args.iter().any(|arg| arg == "snat")
            && args.iter().any(|arg| arg == "203.0.113.10")
    }));
    assert!(host.calls.iter().any(|(program, args)| {
        program == "nft"
            && args.iter().any(|arg| arg == "meta")
            && args.iter().any(|arg| arg == "mark")
    }));
    let ownership = provider
        .state
        .realms
        .iter()
        .find(|realm| realm.realm_id == current.realm_id)
        .expect("realm");
    assert_eq!(ownership.public_addresses, vec![ipv4(203, 0, 113, 10)]);
    remove(&mut provider, &mut host, &current).expect("remove");
    assert!(provider.observe_removed(&current));
}

#[test]
fn provider_fences_generation_changes_and_retains_host_key() {
    let mut host = FakeHost::new(false);
    let mut provider = open(LinuxFabricConfig::for_root(ROOT), &mut host);
    let current = plan();
    apply(&mut provider, &mut host, &current).expect("apply");
    let mut changed = current.clone();
    changed.local_fabric_generation += 1;
    let error = apply(&mut provider, &mut host, &changed).expect_err("refused");
    assert!(message(error).contains("conflicts"));
    remove(&mut provider, &mut host, &current).expect("remove");
    assert!(provider.observe_removed(&current));
    assert!(host.key.is_some());
}

#[test]
fn provider_adopts_preprovisioned_host_key() {
    let mut host = FakeHost::new(false);
    let provisioned = format!("{}\n", "C".repeat(43) + "=");
    host.key = Some(provisioned.clone());
    let mut provider = open(LinuxFabricConfig::for_root(ROOT), &mut host);
    apply(&mut provider, &mut host, &plan()).expect("apply");
    assert_eq!(host.key, Some(provisioned));
    assert!(
        !host
            .calls
            .iter()
            .any(|(program, args)| program == "wg" && args == &["genkey"])
    );
    let key_path_argument = "/var/lib/o3k-fabric/wireguard-private.key";
    assert!(host.calls.iter().any(|(program, args)| {
        program == "ip"
            && args
                .windows(2)
                .any(|window| window == ["private-key", key_path_argument])
    }));
}

#[test]
fn provider_rejects_invalid_preprovisioned_host_key() {
    let mut host = FakeHost::new(false);
    host.key = Some("not-a-wireguard-key\n".to_owned());
    let mut provider = open(LinuxFabricConfig::for_root(ROOT), &mut host);
    let error = apply(&mut provider, &mut host, &plan()).expect_err("refused");
    assert!(message(error).contains("foreign"));
    assert_eq!(host.key, Some("not-a-wireguard-key\n".to_owned()));
}

// ---------------------------------------------------------------------------
// More of the same library
// ---------------------------------------------------------------------------

#[test]
fn nothing_is_run_before_its_record_is_durable() {
    let mut host = FakeHost::new(false);
    let mut provider = open(LinuxFabricConfig::for_root(ROOT), &mut host);
    let current = plan();
    apply(&mut provider, &mut host, &current).expect("apply");
    let realm = provider.state.realms[0].clone();
    assert_eq!(realm.realm_id, 11);
    assert!(host.saved_states.iter().any(|state| state
        .realms
        .iter()
        .any(|saved| saved.namespace == realm.namespace)));
    assert_eq!(host.saved_plans.last(), Some(&current));
}

#[test]
fn older_plans_are_stale() {
    let mut host = FakeHost::new(false);
    let mut provider = open(LinuxFabricConfig::for_root(ROOT), &mut host);
    let current = plan();
    apply(&mut provider, &mut host, &current).expect("apply");
    let mut older = current.clone();
    older.directory_generation = 1;
    older.directory.directory_generation = 1;
    assert_eq!(
        remove(&mut provider, &mut host, &older),
        Err(FabricError::StaleGeneration)
    );
    assert!(!provider.observe_removed(&current));
}

#[test]
fn settings_are_checked() {
    let good = LinuxFabricConfig::for_root(ROOT);
    assert_eq!(good.validate(), Ok(()));
    let invalid = Err(LinuxFabricError::InvalidConfiguration);
    assert_eq!(LinuxFabricConfig::for_root("/").validate(), invalid);
    assert_eq!(LinuxFabricConfig::for_root("").validate(), invalid);
    assert_eq!(LinuxFabricConfig::for_root(ROOT).with_wireguard_port(0).validate(), invalid);
    assert_eq!(LinuxFabricConfig::for_root(ROOT).with_geneve_port(0).validate(), invalid);
    assert_eq!(
        LinuxFabricConfig::for_root(ROOT).with_public_uplink("not a link").validate(),
        invalid
    );
    assert_eq!(good.validate_ports(false), Ok(()));
    assert_eq!(good.validate_ports(true), invalid);
    assert_eq!(
        LinuxFabricConfig::for_root(ROOT).with_geneve_port(0).validate_ports(false),
        invalid
    );
    assert!(good.port_is_ephemeral(Some(32768)));
    assert!(good.port_is_ephemeral(Some(65_001)));
    assert!(!good.port_is_ephemeral(Some(65_002)));
    assert!(!good.port_is_ephemeral(None));
    assert_eq!(ephemeral_port_low("32768\t60999\n"), Some(32768));
    assert_eq!(ephemeral_port_low("none"), None);
    assert_eq!(good.wireguard_port, 65_001);
    assert_eq!(good.geneve_port, 6_081);
}

#[test]
fn derived_names_are_names() {
    assert!(valid_name(&geneve_name(11, "host-b")));
    assert!(valid_name(&endpoint_tap_name(11, 12)));
    assert!(valid_mac(&endpoint_tap_mac(11, 12)));
    assert!(valid_mac(&tunnel_mac(11, "host-b")));
    assert_ne!(tunnel_mac(11, "host-a"), tunnel_mac(11, "host-b"));
    assert_ne!(geneve_name(11, "host-b"), geneve_name(12, "host-b"));
    let (near, far) = public_transit_addresses(11);
    assert_ne!(near, far);
    assert!(valid_wireguard_key(&("A".repeat(43) + "=")));
    assert!(!valid_wireguard_key(&"A".repeat(44)));
}

#[test]
fn gateway_markers_are_read_from_listings() {
    assert_eq!(
        marker_of("table ip t {\n\tcomment \"o3k-gw:1\"\n\tchain c { comment \"other\" }\n}"),
        Some("o3k-gw:1".to_owned())
    );
    assert_eq!(marker_of("table ip t { comment plain }"), None);
    assert_eq!(marker_of("table ip t { comment none; comment \"late\" }"), None);
    assert_eq!(marker_of("table ip t {}"), None);
    let mut session = Session::new(vec![Reply::Printed(true, "comment \"m\"".to_owned())]);
    assert_eq!(gateway_marker("ns", "t", &mut session), Ok(Some("m".to_owned())));
    let mut missing = Session::new(vec![Reply::Printed(false, String::new())]);
    assert_eq!(gateway_marker("ns", "t", &mut missing), Ok(None));
    let command = filter_command(Some("ns"));
    assert_eq!(command.program, "ip");
    assert_eq!(command.args, vec!["netns", "exec", "ns", "nft"]);
    assert_eq!(filter_command(None).program, "nft");
}

#[test]
fn a_record_is_restored_in_the_order_of_its_keys() {
    let tap = |endpoint_id: u128| EndpointTapOwnership {
        endpoint_id,
        interface: format!("o3k-t-{endpoint_id}"),
        mac: "02:00:00:00:00:01".to_owned(),
    };
    let (taps, keyed) = restore_ids(&vec![(7, tap(7)), (3, tap(3))]);
    assert!(keyed);
    assert_eq!(taps, vec![tap(3), tap(7)]);
    let (_, keyed) = restore_ids(&vec![(7, tap(7)), (3, tap(4))]);
    assert!(!keyed);
    let (names, keyed) = restore_names(&vec![
        ("b".to_owned(), "b".to_owned()),
        ("a".to_owned(), "a".to_owned()),
    ]);
    assert!(keyed);
    assert_eq!(names, vec!["a".to_owned(), "b".to_owned()]);
    let (_, keyed) = restore_names(&vec![("b".to_owned(), "c".to_owned())]);
    assert!(!keyed);
}

#[test]
fn an_entry_under_another_key_is_corrupt() {
    let opened = LinuxFabricBackend::open(
        LinuxFabricConfig::for_root("/var/lib/o3k"),
        ProviderState::default(),
        false,
        vec![],
        &mut Session::new(vec![]),
    );
    assert_eq!(opened, Err(Stop::Failed(LinuxFabricError::CorruptState)));
}

#[test]
fn only_a_file_of_its_owner_is_private() {
    assert!(private_file(true, 0o100600));
    assert!(!private_file(false, 0o40700));
    for mode in [0o100640, 0o100604, 0o100610, 0o100601, 0o100620, 0o100602] {
        assert!(!private_file(true, mode));
    }
}
