//! The host network against a scripted host.
use o3k_network::host::config::{HostNetworkError, ProvisionalNames};
use o3k_network::host::links::{
    has_link_token, interface_identity, interface_is_attached_to, interface_output_is_bridge,
    interface_output_is_owned, interface_output_is_tap, managed_tap_names, partial_link_names,
};
use o3k_network::host::manager::{
    HostNetworkManager, TAP_ADDRESS_SETTLE_WINDOW_MS, TAP_ADDRESS_STABILIZE_TIMEOUT_MS,
};
use o3k_network::host::manifest::validate_manifest;
use o3k_network::host::taps::stabilize_tap_address;
use o3k_network::host::types::{
    BridgeOwnership, GatewayOwnership, GatewaySpec, HostNetworkConfig, NetworkOwnershipManifest,
    TapAccess, TapEntry, TapOwnership, TapSpec,
};
use o3k_network::ipv4::ipv4;
use o3k_network::session::{Effect, Reply, Session, Stop};
use std::collections::VecDeque;

#[derive(Clone)]
enum Response {
    Output(bool, String),
    Status(bool),
}

impl Response {
    fn output(success: bool, stdout: &str) -> Self {
        Self::Output(success, stdout.to_owned())
    }

    fn status(success: bool) -> Self {
        Self::Status(success)
    }
}

/// A host that answers with prepared responses, keeps the record that it was last given, and has
/// a clock that moves on by one millisecond with every look at it.
struct FakeHost {
    responses: VecDeque<Response>,
    calls: Vec<Vec<String>>,
    saved: Option<NetworkOwnershipManifest>,
    storage: bool,
    clock: u64,
    waited: u64,
}

impl FakeHost {
    fn new(responses: Vec<Response>) -> Self {
        Self {
            responses: responses.into_iter().collect(),
            calls: Vec::new(),
            saved: None,
            storage: true,
            clock: 0,
            waited: 0,
        }
    }

    fn next(&mut self, args: &[String]) -> Response {
        self.calls.push(args.to_vec());
        self.responses
            .pop_front()
            .expect("test response for every command")
    }

    fn answer(&mut self, effect: &Effect, manager: &HostNetworkManager) -> Reply {
        match effect {
            Effect::Query(command) => {
                assert_eq!(command.program, "ip");
                let probe = command.args == ["-d", "link", "show", "dev", "o3k-br0"]
                    && self.calls.last().is_some_and(|previous| {
                        previous == &["link", "set", "dev", "o3k-br0", "up"]
                            || (previous.len() >= 2
                                && previous[previous.len() - 2..] == ["master", "o3k-br0"])
                    });
                if probe {
                    return Reply::Printed(
                        true,
                        "2: o3k-br0: <BROADCAST,UP>\n\tbridge forward_delay 1500".to_owned(),
                    );
                }
                match self.next(&command.args) {
                    Response::Output(success, stdout) => Reply::Printed(success, stdout),
                    Response::Status(_) => panic!("test output response expected"),
                }
            }
            Effect::Run(command) => {
                assert_eq!(command.program, "ip");
                match self.next(&command.args) {
                    Response::Status(success) => Reply::Finished(success),
                    Response::Output(_, _) => panic!("test status response expected"),
                }
            }
            Effect::Save => {
                if self.storage {
                    self.saved = manager.ownership.clone();
                    Reply::Finished(true)
                } else {
                    Reply::Failed
                }
            }
            Effect::Clock => {
                self.clock += 1;
                Reply::Time(self.clock)
            }
            Effect::Wait(ms) => {
                self.clock += ms;
                self.waited += ms;
                Reply::Finished(true)
            }
            other => panic!("unexpected effect {other:?}"),
        }
    }
}

/// Runs an operation to its end, with one more reply each time.
fn drive<T>(
    manager: &mut HostNetworkManager,
    host: &mut FakeHost,
    operation: impl Fn(&mut HostNetworkManager, &mut Session) -> Result<T, Stop<HostNetworkError>>,
) -> Result<T, HostNetworkError> {
    let mut replies: Vec<Reply> = Vec::new();
    loop {
        let mut trial = manager.clone();
        let mut session = Session::new(replies.clone());
        match operation(&mut trial, &mut session) {
            Ok(value) => {
                *manager = trial;
                return Ok(value);
            }
            Err(Stop::Failed(error)) => {
                *manager = trial;
                return Err(error);
            }
            Err(Stop::Pending) => {
                let effect = session.issued.last().expect("an effect to answer");
                replies.push(host.answer(effect, &trial));
            }
        }
    }
}

fn names() -> ProvisionalNames {
    ProvisionalNames::of(0x1a2b3c4d, 0x5e6f7788)
}

fn config(uplink: Option<&str>) -> HostNetworkConfig {
    HostNetworkConfig {
        bridge_name: "o3k-br0".to_owned(),
        uplink: uplink.map(str::to_owned),
    }
}

fn test_manager(uplink: Option<&str>) -> HostNetworkManager {
    let mut manager =
        HostNetworkManager::new(config(uplink)).expect("valid test network configuration");
    manager.set_stable_bridge_mac = false;
    manager.settle_window_ms = 0;
    manager
}

fn owning_manager(
    uplink: Option<&str>,
    manifest: NetworkOwnershipManifest,
) -> Result<HostNetworkManager, HostNetworkError> {
    let mut manager = HostNetworkManager::with_ownership_root(config(uplink), manifest)?;
    manager.set_stable_bridge_mac = false;
    manager.settle_window_ms = 0;
    Ok(manager)
}

fn ensure_bridge(manager: &mut HostNetworkManager, host: &mut FakeHost) -> Result<(), HostNetworkError> {
    drive(manager, host, |m, s| m.ensure_bridge(names().bridge.as_str(), s))
}

fn create_tap(
    manager: &mut HostNetworkManager,
    host: &mut FakeHost,
    spec: &TapSpec,
) -> Result<String, HostNetworkError> {
    drive(manager, host, |m, s| m.create_tap(spec, &names(), s))
}

fn ensure_tap(
    manager: &mut HostNetworkManager,
    host: &mut FakeHost,
    spec: &TapSpec,
) -> Result<(String, bool), HostNetworkError> {
    drive(manager, host, |m, s| m.ensure_tap(spec, &names(), s))
}

fn delete_tap(
    manager: &mut HostNetworkManager,
    host: &mut FakeHost,
    spec: &TapSpec,
) -> Result<(), HostNetworkError> {
    drive(manager, host, |m, s| m.delete_tap(spec, s))
}

fn delete_taps_for_instance(
    manager: &mut HostNetworkManager,
    host: &mut FakeHost,
    instance: &str,
) -> Result<(), HostNetworkError> {
    drive(manager, host, |m, s| m.delete_taps_for_instance(instance, s))
}

fn cleanup_if_unused(
    manager: &mut HostNetworkManager,
    host: &mut FakeHost,
) -> Result<(), HostNetworkError> {
    drive(manager, host, |m, s| m.cleanup_if_unused(s))
}

fn reap_partial_links(
    manager: &mut HostNetworkManager,
    host: &mut FakeHost,
) -> Result<(), HostNetworkError> {
    drive(manager, host, |m, s| m.reap_partial_links(s))
}

fn ensure_gateway(
    manager: &mut HostNetworkManager,
    host: &mut FakeHost,
    gateway: GatewaySpec,
) -> Result<(), HostNetworkError> {
    drive(manager, host, |m, s| m.ensure_gateway(gateway, names().bridge.as_str(), s))
}

fn remove_gateway(
    manager: &mut HostNetworkManager,
    host: &mut FakeHost,
    gateway: GatewaySpec,
) -> Result<(), HostNetworkError> {
    drive(manager, host, |m, s| m.remove_gateway(gateway, s))
}

fn delete_bridge(manager: &mut HostNetworkManager, host: &mut FakeHost) -> Result<(), HostNetworkError> {
    drive(manager, host, |m, s| m.delete_bridge(s))
}

fn tap_spec(instance: &str, port: &str, mac: &str) -> TapSpec {
    TapSpec {
        instance_id: instance.to_owned(),
        port_id: port.to_owned(),
        mac: mac.to_owned(),
    }
}

fn entry(key: &str, instance: &str, port: &str, mac: &str) -> TapEntry {
    TapEntry {
        key: key.to_owned(),
        tap: TapOwnership {
            interface: key.to_owned(),
            instance_id: instance.to_owned(),
            port_id: port.to_owned(),
            mac: mac.to_owned(),
            bridge: "o3k-br0".to_owned(),
            created_by_o3k: true,
        },
    }
}

fn recorded_bridge(gateway: Option<GatewayOwnership>) -> Option<BridgeOwnership> {
    Some(BridgeOwnership {
        name: "o3k-br0".to_owned(),
        uplink: None,
        created_by_o3k: true,
        identity: Some("2".to_owned()),
        gateway,
    })
}

fn sorted(mut taps: Vec<TapEntry>) -> Vec<TapEntry> {
    taps.sort_by(|a, b| a.key.cmp(&b.key));
    taps
}

const BRIDGE: &str = "2: o3k-br0: <BROADCAST,UP>\n\tbridge forward_delay 1500";
const PROVISIONAL_BRIDGE: &str = "2: o3kbm-1a2b3c4d: <BROADCAST,UP>\n\tbridge forward_delay 1500";

/// What a host answers while a bridge is made under a provisional name and renamed.
fn bridge_creation() -> Vec<Response> {
    vec![
        Response::output(false, ""),
        Response::status(true),
        Response::status(true),
        Response::output(true, PROVISIONAL_BRIDGE),
        Response::status(true),
        Response::status(true),
        Response::status(true),
    ]
}

#[test]
fn validates_names_and_generates_stable_interface_identity() -> Result<(), HostNetworkError> {
    let mut manager = HostNetworkManager::new(config(None))?;
    let mut host = FakeHost::new(vec![]);
    assert_eq!(
        HostNetworkManager::tap_name("port-1")?,
        HostNetworkManager::tap_name("port-1")?
    );
    assert_eq!(
        HostNetworkManager::deterministic_mac("port-1")?,
        HostNetworkManager::deterministic_mac("port-1")?
    );
    assert!(matches!(
        HostNetworkManager::new(HostNetworkConfig {
            bridge_name: "../../escape".to_owned(),
            uplink: None
        }),
        Err(HostNetworkError::InvalidName)
    ));
    assert!(matches!(
        create_tap(&mut manager, &mut host, &tap_spec("instance-1", "port-1", "bad")),
        Err(HostNetworkError::InvalidMac)
    ));
    assert!(matches!(
        delete_tap(&mut manager, &mut host, &tap_spec("instance-1", "port-1", "bad")),
        Err(HostNetworkError::InvalidMac)
    ));
    assert!(interface_output_is_owned(
        "2: o3ktap-abcd: <BROADCAST> mtu 1500 master o3k-br0 state UP\\n\\\ttun type tap\\n\\\tlink/ether 02:00:00:00:00:01 brd ff:ff:ff:ff:ff:ff",
        "02:00:00:00:00:01",
        "o3k-br0"
    ));
    assert!(!interface_output_is_owned(
        "2: o3ktap-abcd: <BROADCAST> mtu 1500 master o3k-br0 state UP\\n\\\tlink/ether 02:00:00:00:00:02 brd ff:ff:ff:ff:ff:ff",
        "02:00:00:00:00:01",
        "o3k-br0"
    ));
    Ok(())
}

#[test]
fn managed_bridge_mac_is_stable_and_locally_administered() -> Result<(), HostNetworkError> {
    let first = HostNetworkManager::deterministic_bridge_mac("o3k-b87654403")?;
    let second = HostNetworkManager::deterministic_bridge_mac("o3k-b87654403")?;
    assert_eq!(first, second);
    assert_eq!(first.len(), 17);
    assert!(first.starts_with("02:"));
    assert_ne!(
        first,
        HostNetworkManager::deterministic_bridge_mac("o3k-b87654404")?
    );
    Ok(())
}

#[test]
fn existing_uplink_must_be_up_and_attached_to_the_managed_bridge() {
    let output = "3: eth0: <BROADCAST,UP> mtu 1500 master o3k-br0 state UP";
    assert!(interface_is_attached_to(output, "o3k-br0"));
    assert!(!interface_is_attached_to(
        "3: eth0: <BROADCAST,UP> mtu 1500 state UP",
        "o3k-br0"
    ));
    assert!(!interface_is_attached_to(
        "3: eth0: <BROADCAST> mtu 1500 master o3k-br0 state DOWN",
        "o3k-br0"
    ));
}

#[test]
fn existing_link_must_be_a_bridge_before_it_is_reused() {
    assert!(interface_output_is_bridge(
        "3: o3k-br0: <BROADCAST,UP> mtu 1500 state UP\n\tbridge forward_delay 1500 hello_time 200 max_age 2000"
    ));
    assert!(!interface_output_is_bridge(
        "3: o3k-br0: <BROADCAST,UP> mtu 1500 state UP\n\tlink/ether 02:00:00:00:00:01 brd ff:ff:ff:ff:ff:ff"
    ));
    assert!(!interface_output_is_bridge(
        "3: o3k-br0: <BROADCAST,UP> mtu 1500 state UP\n\tbridge-helper foreign-name"
    ));
}

#[test]
fn bridge_creation_failure_removes_only_the_new_bridge() -> Result<(), HostNetworkError> {
    let mut responses = bridge_creation();
    responses.push(Response::status(false));
    responses.push(Response::status(true));
    let mut host = FakeHost::new(responses);
    let mut manager = owning_manager(Some("eth0"), NetworkOwnershipManifest::default())?;

    assert!(matches!(
        ensure_bridge(&mut manager, &mut host),
        Err(HostNetworkError::CommandFailed)
    ));
    let calls = host.calls.clone();
    let temp = calls[1][3].clone();
    assert!(temp.starts_with("o3kbm-"));
    assert_eq!(
        calls,
        vec![
            vec!["link", "show", "dev", "o3k-br0"],
            vec!["link", "add", "name", &temp, "type", "bridge"],
            vec!["link", "set", "dev", &temp, "up"],
            vec!["-d", "link", "show", "dev", &temp],
            vec!["link", "set", "dev", &temp, "down"],
            vec!["link", "set", "dev", &temp, "name", "o3k-br0"],
            vec!["link", "set", "dev", "o3k-br0", "up"],
            vec!["link", "set", "dev", "eth0", "master", "o3k-br0"],
            vec!["link", "del", "dev", "o3k-br0"],
        ]
    );
    Ok(())
}

#[test]
fn provisional_bridge_failure_removes_only_the_provisional_link() {
    let mut host = FakeHost::new(vec![
        Response::output(false, ""),
        Response::status(true),
        Response::status(true),
        Response::output(false, ""),
        Response::output(true, PROVISIONAL_BRIDGE),
        Response::status(true),
    ]);
    let mut manager = test_manager(None);

    assert!(matches!(
        ensure_bridge(&mut manager, &mut host),
        Err(HostNetworkError::ForeignInterface)
    ));
    let calls = host.calls.clone();
    let temp = calls[1][3].clone();
    assert!(temp.starts_with("o3kbm-"));
    assert_eq!(
        calls,
        vec![
            vec!["link", "show", "dev", "o3k-br0"],
            vec!["link", "add", "name", &temp, "type", "bridge"],
            vec!["link", "set", "dev", &temp, "up"],
            vec!["-d", "link", "show", "dev", &temp],
            vec!["-d", "link", "show", "dev", &temp],
            vec!["link", "del", "dev", &temp],
        ]
    );
}

#[test]
fn tap_setup_failure_removes_new_tap_and_bridge() {
    let mut responses = bridge_creation();
    responses.extend([
        Response::output(false, ""),
        Response::status(true),
        Response::status(true),
        Response::status(false),
        Response::output(
            true,
            "2: o3ktap-abcd: <BROADCAST,UP> master o3k-br0 state UP\n\ttun type tap\n\tlink/ether 02:00:00:00:00:01",
        ),
        Response::status(true),
    ]);
    let mut host = FakeHost::new(responses);
    let mut manager = test_manager(None);
    let spec = tap_spec("550e8400-e29b-41d4-a716-446655440000", "port-1", "02:00:00:00:00:01");

    assert!(matches!(
        create_tap(&mut manager, &mut host, &spec),
        Err(HostNetworkError::RollbackFailed)
    ));
    let tap = HostNetworkManager::tap_name("port-1").expect("valid test tap name");
    let calls = host.calls.clone();
    let bridge_temp = calls[1][3].clone();
    assert!(bridge_temp.starts_with("o3kbm-"));
    let tap_temp = calls
        .iter()
        .find(|args| args.first().is_some_and(|first| first == "tuntap"))
        .and_then(|args| args.get(3))
        .expect("tuntap add call")
        .clone();
    assert!(tap_temp.starts_with("o3ktmp-"));
    assert_eq!(
        calls,
        vec![
            vec!["link", "show", "dev", "o3k-br0"],
            vec!["link", "add", "name", &bridge_temp, "type", "bridge"],
            vec!["link", "set", "dev", &bridge_temp, "up"],
            vec!["-d", "link", "show", "dev", &bridge_temp],
            vec!["link", "set", "dev", &bridge_temp, "down"],
            vec!["link", "set", "dev", &bridge_temp, "name", "o3k-br0"],
            vec!["link", "set", "dev", "o3k-br0", "up"],
            vec!["link", "show", "dev", &tap],
            vec!["tuntap", "add", "dev", &tap_temp, "mode", "tap"],
            vec!["link", "set", "dev", &tap_temp, "address", "02:00:00:00:00:01"],
            vec!["link", "set", "dev", &tap_temp, "master", "o3k-br0"],
            vec!["-d", "link", "show", "dev", &tap_temp],
            vec!["link", "del", "dev", &tap_temp],
        ]
    );
}

#[test]
fn provisional_tap_residue_is_reaped_without_a_manifest_proof() {
    let mut host = FakeHost::new(vec![
        Response::output(
            true,
            "2: o3ktmp-1a2b3c4d: <BROADCAST> mtu 1500 state DOWN\n\ttun type tap\n\tlink/ether 02:00:00:00:00:09\n\
             3: o3ktap-live000: <BROADCAST,UP> master o3k-br0 state UP\n\ttun type tap\n\tlink/ether 02:00:00:00:00:01\n\
             4: eth0: <BROADCAST,UP> state UP\n\tlink/ether 02:00:00:00:00:02",
        ),
        Response::status(true),
    ]);
    let mut manager = test_manager(None);
    reap_partial_links(&mut manager, &mut host).expect("partial reap");
    assert_eq!(
        host.calls,
        vec![
            vec!["-d", "link", "show"],
            vec!["link", "del", "dev", "o3ktmp-1a2b3c4d"],
        ]
    );
}

#[test]
fn provisional_bridge_residue_is_reaped_without_a_manifest_proof() {
    let mut host = FakeHost::new(vec![
        Response::output(
            true,
            "2: o3kbm-1a2b3c4d: <BROADCAST,UP> mtu 1500 state UP\n\tbridge forward_delay 1500\n\
             3: o3kbm-5e6f7788: <BROADCAST,UP> mtu 1500 state UP\n\tlink/ether 02:00:00:00:00:09\n\
             4: o3k-b-2770749: <BROADCAST,UP> mtu 1500 state UP\n\tbridge forward_delay 1500\n\
             5: o3ktmp-9a8b7c6d: <BROADCAST> mtu 1500 state DOWN\n\ttun type tap\n\tlink/ether 02:00:00:00:00:0a",
        ),
        Response::status(true),
        Response::status(true),
    ]);
    let mut manager = test_manager(None);
    reap_partial_links(&mut manager, &mut host).expect("partial reap");
    assert_eq!(
        host.calls,
        vec![
            vec!["-d", "link", "show"],
            vec!["link", "del", "dev", "o3kbm-1a2b3c4d"],
            vec!["link", "del", "dev", "o3ktmp-9a8b7c6d"],
        ]
    );
}

#[test]
fn crash_between_record_and_rename_is_fully_reaped() -> Result<(), HostNetworkError> {
    let tap = HostNetworkManager::tap_name("port-1")?;
    let manifest = NetworkOwnershipManifest {
        bridge: recorded_bridge(None),
        taps: vec![entry(&tap, "server-1", "port-1", "02:00:00:00:00:01")],
    };
    let mut host = FakeHost::new(vec![
        Response::output(false, ""),
        Response::output(
            true,
            "2: o3ktmp-5e6f7788: <BROADCAST> master o3k-br0 state DOWN\n\ttun type tap\n\tlink/ether 02:00:00:00:00:01",
        ),
        Response::status(true),
    ]);
    let mut manager = owning_manager(None, manifest)?;
    delete_taps_for_instance(&mut manager, &mut host, "server-1")?;
    reap_partial_links(&mut manager, &mut host)?;
    let manifest = host.saved.clone().expect("a saved record");
    assert!(manifest.taps.is_empty(), "dangling record must be cleared");
    assert_eq!(
        host.calls,
        vec![
            vec!["link", "show", "dev", &tap],
            vec!["-d", "link", "show"],
            vec!["link", "del", "dev", "o3ktmp-5e6f7788"],
        ]
    );
    Ok(())
}

#[test]
fn foreign_existing_tap_is_never_deleted() {
    let mut host = FakeHost::new(vec![
        Response::output(
            true,
            "3: o3k-br0: <BROADCAST,UP>\n\tbridge forward_delay 1500",
        ),
        Response::output(
            true,
            "3: o3k-br0: <BROADCAST,UP>\n\tbridge forward_delay 1500",
        ),
        Response::status(true),
        Response::output(true, "2: o3ktap-abcd: <BROADCAST>"),
        Response::output(
            true,
            "2: o3ktap-abcd: <BROADCAST> master o3k-br0\\n\\ttun type tap\\n\\tlink/ether 02:00:00:00:00:02",
        ),
    ]);
    let mut manager = test_manager(None);
    let spec = tap_spec("instance-1", "port-1", "02:00:00:00:00:01");

    assert!(matches!(
        create_tap(&mut manager, &mut host, &spec),
        Err(HostNetworkError::ForeignInterface)
    ));
    assert!(
        !host
            .calls
            .iter()
            .any(|args| args == &["link", "del", "dev", "o3ktap-abcd"])
    );
    assert!(!host.calls.iter().any(|args| args[..2] == ["link", "del"]));
}

#[test]
fn discovery_only_returns_taps_attached_to_the_configured_bridge() {
    let mut host = FakeHost::new(vec![Response::output(
        true,
        "2: o3ktap-owned: <BROADCAST,UP> mtu 1500 master o3k-br0 state UP\n\
         tun type tap\n\
         3: o3ktap-detached: <BROADCAST,UP> mtu 1500 state UP\n\
         4: o3ktap-foreign: <BROADCAST,UP> mtu 1500 master other-br0 state UP",
    )]);
    let mut manager = test_manager(None);

    assert_eq!(
        drive(&mut manager, &mut host, |m, s| m.discover_managed(s)).expect("discovery succeeds"),
        vec!["o3ktap-owned"]
    );
}

#[test]
fn ownership_tokens_are_matched_without_prefix_collisions() {
    assert!(interface_output_is_owned(
        "2: o3ktap-owned: <BROADCAST,UP> master o3k-br0 state UP tun type tap link/ether 02:00:00:00:00:01",
        "02:00:00:00:00:01",
        "o3k-br0"
    ));
    assert!(!interface_output_is_owned(
        "2: o3ktap-owned: <BROADCAST,UP> master o3k-br01 state UP tun type tap link/ether 02:00:00:00:00:01",
        "02:00:00:00:00:01",
        "o3k-br0"
    ));
    assert!(!interface_output_is_owned(
        "2: o3ktap-owned: <BROADCAST,UP> master o3k-br0 state UP tun type tap link/ether 02:00:00:00:00:010",
        "02:00:00:00:00:01",
        "o3k-br0"
    ));
    assert!(!interface_output_is_owned(
        "2: o3ktap-owned: <BROADCAST,UP> master o3k-br0 state UP link/ether 02:00:00:00:00:01",
        "02:00:00:00:00:01",
        "o3k-br0"
    ));
}

const OWNED_TAP: &str = "2: o3ktap-owned: <BROADCAST,UP> master o3k-br0 state UP\n\ttun type tap\n\tlink/ether 02:00:00:00:00:01";

#[test]
fn tap_ownership_binds_instance_across_manager_restart() -> Result<(), HostNetworkError> {
    let mut responses = bridge_creation();
    responses.extend([
        Response::output(false, ""),
        Response::status(true),
        Response::status(true),
        Response::status(true),
        Response::output(true, OWNED_TAP),
        Response::status(true),
        Response::status(true),
    ]);
    let mut host = FakeHost::new(responses);
    let mut manager = owning_manager(None, NetworkOwnershipManifest::default())?;
    let spec = tap_spec("instance-a", "port-a", "02:00:00:00:00:01");
    let name = create_tap(&mut manager, &mut host, &spec)?;
    let manifest = host.saved.clone().expect("a saved record");
    let kept = manifest
        .taps
        .iter()
        .find(|entry| entry.key == name)
        .expect("the record of the tap");
    assert_eq!(kept.tap.instance_id, "instance-a");

    let mut reopened_responses = Vec::new();
    for _ in 0..3 {
        reopened_responses.extend([
            Response::output(true, BRIDGE),
            Response::output(true, BRIDGE),
            Response::status(true),
            Response::output(true, "2: o3ktap-owned: <BROADCAST,UP>"),
            Response::output(true, OWNED_TAP),
        ]);
    }
    let mut reopened_host = FakeHost::new(reopened_responses);
    let mut reopened = owning_manager(None, manifest)?;
    assert_eq!(create_tap(&mut reopened, &mut reopened_host, &spec)?, name);
    assert!(matches!(
        create_tap(
            &mut reopened,
            &mut reopened_host,
            &TapSpec {
                instance_id: "instance-b".to_owned(),
                ..spec
            }
        ),
        Err(HostNetworkError::ForeignInterface)
    ));
    Ok(())
}

#[test]
fn ensure_tap_recreates_a_recorded_but_absent_tap_and_reuses_a_present_one()
-> Result<(), HostNetworkError> {
    let tap = HostNetworkManager::tap_name("port-1")?;
    let manifest = NetworkOwnershipManifest {
        bridge: recorded_bridge(None),
        taps: vec![entry(&tap, "server-1", "port-1", "02:00:00:00:00:01")],
    };
    let owned = "2: o3ktap-92bdccea: <BROADCAST,UP> master o3k-br0 state UP\n\ttun type tap\n\tlink/ether 02:00:00:00:00:01";
    let mut host = FakeHost::new(vec![
        Response::output(true, BRIDGE),
        Response::output(true, BRIDGE),
        Response::status(true),
        Response::output(false, ""),
        Response::status(true),
        Response::status(true),
        Response::status(true),
        Response::output(true, owned),
        Response::status(true),
        Response::status(true),
        Response::output(true, BRIDGE),
        Response::output(true, BRIDGE),
        Response::status(true),
        Response::output(true, "2: o3ktap-92bdccea: <BROADCAST>"),
        Response::output(true, owned),
    ]);
    let mut manager = owning_manager(None, manifest)?;
    let spec = tap_spec("server-1", "port-1", "02:00:00:00:00:01");
    assert_eq!(
        manager.owned_tap_specs_for_instance("server-1")?,
        vec![spec.clone()],
        "the durable record must drive the restoration"
    );
    assert!(
        manager
            .owned_tap_specs_for_instance("server-other")?
            .is_empty(),
        "another instance's records must never be selected"
    );
    assert_eq!(
        ensure_tap(&mut manager, &mut host, &spec)?,
        (tap.clone(), true),
        "the absent recorded TAP must be re-created"
    );
    assert_eq!(
        ensure_tap(&mut manager, &mut host, &spec)?,
        (tap.clone(), false),
        "the present owned TAP must be verified and reused, not re-created"
    );
    assert_eq!(
        host.calls
            .iter()
            .filter(|args| args[..2] == ["tuntap", "add"])
            .count(),
        1,
        "exactly one TAP creation may ever be issued for the recorded TAP"
    );
    let manifest = host.saved.clone().expect("a saved record");
    assert_eq!(
        manifest.taps.len(),
        1,
        "the restoration must never duplicate the ownership record"
    );
    Ok(())
}

#[test]
fn ensure_tap_fails_closed_on_a_foreign_link_at_the_recorded_name()
-> Result<(), HostNetworkError> {
    let tap = HostNetworkManager::tap_name("port-1")?;
    let manifest = NetworkOwnershipManifest {
        bridge: recorded_bridge(None),
        taps: vec![entry(&tap, "server-1", "port-1", "02:00:00:00:00:01")],
    };
    let mut host = FakeHost::new(vec![
        Response::output(true, BRIDGE),
        Response::output(true, BRIDGE),
        Response::status(true),
        Response::output(true, "2: o3ktap-92bdccea: <BROADCAST>"),
        Response::output(
            true,
            "2: o3ktap-92bdccea: <BROADCAST,UP> master o3k-br0 state UP\n\ttun type tap\n\tlink/ether 02:00:00:00:00:02",
        ),
    ]);
    let mut manager = owning_manager(None, manifest)?;
    let spec = tap_spec("server-1", "port-1", "02:00:00:00:00:01");
    assert!(matches!(
        ensure_tap(&mut manager, &mut host, &spec),
        Err(HostNetworkError::ForeignInterface)
    ));
    assert!(
        !host.calls.iter().any(|args| args[..2] == ["tuntap", "add"]),
        "a foreign link must never trigger a TAP creation"
    );
    assert!(
        !host.calls.iter().any(|args| args[..2] == ["link", "del"]),
        "a foreign link must never be deleted"
    );
    Ok(())
}

#[test]
fn crash_residue_is_enumerated_and_reaped_across_restart() -> Result<(), HostNetworkError> {
    let spec = tap_spec("server-1", "port-1", "02:00:00:00:00:01");
    let tap = HostNetworkManager::tap_name("port-1").expect("valid test tap name");
    let owned = format!(
        "2: {tap}: <BROADCAST,UP> master o3k-br0 state UP\n\ttun type tap\n\tlink/ether 02:00:00:00:00:01"
    );
    let mut responses = bridge_creation();
    responses.extend([
        Response::output(false, ""),
        Response::status(true),
        Response::status(true),
        Response::status(true),
        Response::output(true, &owned),
        Response::status(true),
        Response::status(true),
    ]);
    let mut first = FakeHost::new(responses);
    let mut manager = owning_manager(None, NetworkOwnershipManifest::default())?;
    assert_eq!(create_tap(&mut manager, &mut first, &spec)?, tap);

    let mut host = FakeHost::new(vec![
        Response::output(
            true,
            &format!("2: {tap}: <BROADCAST,UP> mtu 1500 master o3k-br0 state UP"),
        ),
        Response::output(true, &owned),
        Response::status(true),
        Response::output(true, "2: o3k-br0: <BROADCAST,UP> mtu 1500 state UP"),
        Response::output(true, BRIDGE),
        Response::status(true),
    ]);
    let mut reopened = owning_manager(None, first.saved.clone().expect("a saved record"))?;
    assert_eq!(reopened.owned_instance_ids(), vec!["server-1".to_owned()]);
    delete_taps_for_instance(&mut reopened, &mut host, "server-1")?;
    cleanup_if_unused(&mut reopened, &mut host)?;
    assert_eq!(
        host.calls
            .iter()
            .filter(|args| args.as_slice() == ["link", "del", "dev", &tap])
            .count(),
        1,
        "the TAP must be deleted exactly once"
    );
    assert_eq!(
        host.calls
            .iter()
            .filter(|args| args.as_slice() == ["link", "del", "dev", "o3k-br0"])
            .count(),
        1,
        "the owned bridge must be deleted exactly once"
    );
    let manifest = host.saved.clone().expect("a saved record");
    assert!(manifest.bridge.is_none() && manifest.taps.is_empty());
    let calls_before = host.calls.len();
    delete_taps_for_instance(&mut reopened, &mut host, "server-1")?;
    cleanup_if_unused(&mut reopened, &mut host)?;
    assert_eq!(host.calls.len(), calls_before);
    Ok(())
}

#[test]
fn reaping_one_instance_keeps_the_shared_bridge_until_the_last_tap_is_gone()
-> Result<(), HostNetworkError> {
    let tap_a = HostNetworkManager::tap_name("port-a").expect("valid test tap name");
    let tap_b = HostNetworkManager::tap_name("port-b").expect("valid test tap name");
    let manifest = NetworkOwnershipManifest {
        bridge: recorded_bridge(None),
        taps: sorted(vec![
            entry(&tap_a, "server-1", "port-a", "02:00:00:00:00:01"),
            entry(&tap_b, "server-2", "port-b", "02:00:00:00:00:02"),
        ]),
    };
    let mut host = FakeHost::new(vec![
        Response::output(
            true,
            &format!("2: {tap_a}: <BROADCAST,UP> mtu 1500 master o3k-br0 state UP"),
        ),
        Response::output(
            true,
            &format!(
                "2: {tap_a}: <BROADCAST,UP> master o3k-br0 state UP\n\ttun type tap\n\tlink/ether 02:00:00:00:00:01"
            ),
        ),
        Response::status(true),
        Response::output(
            true,
            &format!("2: {tap_b}: <BROADCAST,UP> mtu 1500 master o3k-br0 state UP"),
        ),
        Response::output(
            true,
            &format!(
                "2: {tap_b}: <BROADCAST,UP> master o3k-br0 state UP\n\ttun type tap\n\tlink/ether 02:00:00:00:00:02"
            ),
        ),
        Response::status(true),
        Response::output(true, "2: o3k-br0: <BROADCAST,UP> mtu 1500 state UP"),
        Response::output(true, BRIDGE),
        Response::status(true),
    ]);
    let mut manager = owning_manager(None, manifest)?;
    delete_taps_for_instance(&mut manager, &mut host, "server-1")?;
    cleanup_if_unused(&mut manager, &mut host)?;
    let mid = host.saved.clone().expect("a saved record");
    assert!(
        mid.bridge.is_some(),
        "the shared bridge must survive the first reap"
    );
    assert_eq!(mid.taps.len(), 1);
    delete_taps_for_instance(&mut manager, &mut host, "server-2")?;
    cleanup_if_unused(&mut manager, &mut host)?;
    let end = host.saved.clone().expect("a saved record");
    assert!(end.bridge.is_none() && end.taps.is_empty());
    assert_eq!(
        host.calls
            .iter()
            .filter(|args| args.as_slice() == ["link", "del", "dev", "o3k-br0"])
            .count(),
        1,
        "the bridge must be deleted exactly once, after the last TAP"
    );
    Ok(())
}

#[test]
fn reaping_a_never_prepared_instance_is_a_noop() -> Result<(), HostNetworkError> {
    let mut host = FakeHost::new(vec![]);
    let mut manager = owning_manager(None, NetworkOwnershipManifest::default())?;
    assert!(manager.owned_instance_ids().is_empty());
    delete_taps_for_instance(&mut manager, &mut host, "never-prepared")?;
    cleanup_if_unused(&mut manager, &mut host)?;
    assert!(
        host.calls.is_empty(),
        "a never-prepared instance must not touch the host network"
    );
    Ok(())
}

const REPLACED_TAP: &str = "2: o3ktap-owned: <BROADCAST,UP> master o3k-br0 state UP\n\ttun type tap\n\tlink/ether 1a:8d:9b:1f:2f:b5";

#[test]
fn tap_address_is_reapplied_after_external_replacement() -> Result<(), HostNetworkError> {
    let mut responses = bridge_creation();
    responses.extend([
        Response::output(false, ""),
        Response::status(true),
        Response::status(true),
        Response::status(true),
        Response::output(true, REPLACED_TAP),
        Response::status(true),
        Response::output(true, OWNED_TAP),
        Response::status(true),
        Response::status(true),
    ]);
    let mut host = FakeHost::new(responses);
    let mut manager = test_manager(None);
    let spec = tap_spec("instance-1", "port-1", "02:00:00:00:00:01");

    let name = create_tap(&mut manager, &mut host, &spec)?;
    let calls = host.calls.clone();
    let bridge_temp = calls[1][3].clone();
    assert!(bridge_temp.starts_with("o3kbm-"));
    let tap_temp = calls
        .iter()
        .find(|args| args.first().is_some_and(|first| first == "tuntap"))
        .and_then(|args| args.get(3))
        .expect("tuntap add call")
        .clone();
    assert!(tap_temp.starts_with("o3ktmp-"));
    let set_calls = calls
        .iter()
        .filter(|args| {
            args.as_slice() == ["link", "set", "dev", &tap_temp, "address", "02:00:00:00:00:01"]
        })
        .count();
    assert_eq!(set_calls, 2, "address must be re-applied after replacement");
    assert!(
        calls
            .iter()
            .any(|args| args.as_slice() == ["link", "set", "dev", &tap_temp, "name", &name]),
        "the provisional link must be renamed to the deterministic name"
    );
    assert!(
        calls
            .iter()
            .any(|args| args.as_slice() == ["link", "set", "dev", &bridge_temp, "name", "o3k-br0"]),
        "the provisional bridge must be renamed to the deterministic name"
    );
    Ok(())
}

#[test]
fn tap_address_reapply_failure_rolls_back_owned_resources() {
    let mut responses = bridge_creation();
    responses.extend([
        Response::output(false, ""),
        Response::status(true),
        Response::status(true),
        Response::status(true),
        Response::output(true, REPLACED_TAP),
        Response::status(true),
        Response::output(true, REPLACED_TAP),
        Response::status(false),
        Response::output(true, OWNED_TAP),
        Response::status(true),
    ]);
    let mut host = FakeHost::new(responses);
    let mut manager = test_manager(None);
    let spec = tap_spec("instance-1", "port-1", "02:00:00:00:00:01");

    assert!(matches!(
        create_tap(&mut manager, &mut host, &spec),
        Err(HostNetworkError::RollbackFailed)
    ));
    let tap = HostNetworkManager::tap_name("port-1").expect("valid test tap name");
    let calls = host.calls.clone();
    let bridge_temp = calls[1][3].clone();
    assert!(bridge_temp.starts_with("o3kbm-"));
    let tap_temp = calls
        .iter()
        .find(|args| args.first().is_some_and(|first| first == "tuntap"))
        .and_then(|args| args.get(3))
        .expect("tuntap add call")
        .clone();
    assert!(tap_temp.starts_with("o3ktmp-"));
    let reapplies = calls
        .iter()
        .filter(|args| {
            args.as_slice() == ["link", "set", "dev", &tap_temp, "address", "02:00:00:00:00:01"]
        })
        .count();
    assert!(reapplies >= 2, "address must be re-applied while unstable");
    assert_eq!(
        calls.last(),
        Some(&vec![
            "link".to_owned(),
            "del".to_owned(),
            "dev".to_owned(),
            tap_temp.clone()
        ])
    );
    assert!(
        !calls.iter().any(|args| args.len() > 3
            && args[3] == tap
            && (args[0] == "tuntap" || (args[0] == "link" && args[1] != "show"))),
        "the deterministic name must not be mutated before the rename"
    );
}

fn gateway() -> GatewaySpec {
    GatewaySpec {
        address: ipv4(192, 0, 2, 1),
        prefix_len: 24,
    }
}

#[test]
fn gateway_and_bridge_lifecycle_requires_owned_reverse_order() -> Result<(), HostNetworkError> {
    let mut responses = bridge_creation();
    responses.extend([
        Response::status(true),
        Response::output(true, BRIDGE),
        Response::status(true),
        Response::output(true, BRIDGE),
        Response::output(true, BRIDGE),
        Response::status(true),
    ]);
    let mut host = FakeHost::new(responses);
    let mut manager = owning_manager(None, NetworkOwnershipManifest::default())?;
    ensure_gateway(&mut manager, &mut host, gateway())?;
    assert!(matches!(
        delete_bridge(&mut manager, &mut host),
        Err(HostNetworkError::OwnershipConflict)
    ));
    remove_gateway(&mut manager, &mut host, gateway())?;
    delete_bridge(&mut manager, &mut host)?;
    assert_eq!(host.saved, Some(NetworkOwnershipManifest::default()));
    Ok(())
}

#[test]
fn gateway_does_not_mutate_an_unowned_existing_bridge() -> Result<(), HostNetworkError> {
    let mut host = FakeHost::new(vec![
        Response::output(true, BRIDGE),
        Response::output(true, BRIDGE),
    ]);
    let mut manager = owning_manager(None, NetworkOwnershipManifest::default())?;
    assert!(matches!(
        ensure_gateway(&mut manager, &mut host, gateway()),
        Err(HostNetworkError::ForeignInterface)
    ));
    assert_eq!(host.calls.len(), 2);
    Ok(())
}

#[test]
fn cleanup_preserves_same_name_foreign_bridge_replacement() -> Result<(), HostNetworkError> {
    let manifest = NetworkOwnershipManifest {
        bridge: recorded_bridge(Some(GatewayOwnership {
            address: gateway().address,
            prefix_len: gateway().prefix_len,
        })),
        taps: vec![],
    };
    let mut host = FakeHost::new(vec![Response::output(
        true,
        "3: o3k-br0: <BROADCAST,UP>\n\tbridge forward_delay 1500",
    )]);
    let mut manager = owning_manager(None, manifest)?;
    assert!(matches!(
        remove_gateway(&mut manager, &mut host, gateway()),
        Err(HostNetworkError::ForeignInterface)
    ));
    assert!(
        host.calls
            .iter()
            .all(|args| args.as_slice() != ["addr", "del", "192.0.2.1/24", "dev", "o3k-br0"])
    );
    Ok(())
}

#[test]
fn manifest_accepts_multiple_taps_for_one_instance() -> Result<(), HostNetworkError> {
    let manifest = NetworkOwnershipManifest {
        bridge: recorded_bridge(None),
        taps: vec![
            entry("o3ktap-a", "server-1", "port-a", "02:00:00:00:00:01"),
            entry("o3ktap-b", "server-1", "port-b", "02:00:00:00:00:02"),
        ],
    };
    validate_manifest(&config(None), &manifest)
}

// ---------------------------------------------------------------------------
// More of the same library
// ---------------------------------------------------------------------------

#[test]
fn names_and_addresses_have_exact_values() -> Result<(), HostNetworkError> {
    // The first bytes of the SHA-256 digest of "abc" are ba 78 16 bf 8f.
    assert_eq!(HostNetworkManager::tap_name("abc")?, "o3ktap-ba7816bf");
    assert_eq!(HostNetworkManager::deterministic_mac("abc")?, "02:ba:78:16:bf:8f");
    assert_eq!(HostNetworkManager::deterministic_bridge_mac("abc")?, "02:ba:78:16:bf:8f");
    assert_eq!(HostNetworkManager::tap_name(" "), Err(HostNetworkError::InvalidName));
    assert_eq!(HostNetworkManager::deterministic_mac(""), Err(HostNetworkError::InvalidName));
    assert_eq!(
        HostNetworkManager::deterministic_bridge_mac("too-long-for-a-link"),
        Err(HostNetworkError::InvalidName)
    );
    assert_eq!(names().bridge, "o3kbm-1a2b3c4d");
    assert_eq!(names().tap, "o3ktmp-5e6f7788");
    let fresh = ProvisionalNames::fresh();
    assert_eq!(fresh.bridge.len(), 14);
    assert_eq!(fresh.tap.len(), 15);
    assert_ne!(fresh, ProvisionalNames::fresh());
    Ok(())
}

#[test]
fn link_outputs_are_read_token_by_token() {
    assert!(has_link_token("a STATE up", "STATE", "UP"));
    assert!(!has_link_token("a STATE", "STATE", ""));
    assert!(interface_output_is_tap("x\n\ttun  type   tap"));
    assert!(!interface_output_is_tap("tun\ntype tap"));
    assert_eq!(interface_identity("7: x: <UP>\n"), Some("7".to_owned()));
    assert_eq!(
        interface_identity(" 7: x: <UP>\n link/ether AA:bb:00:00:00:01 brd"),
        Some("7:aa:bb:00:00:00:01".to_owned())
    );
    assert_eq!(interface_identity("x: 7"), None);
    assert_eq!(interface_identity(""), None);
    assert_eq!(
        managed_tap_names("1: o3ktap-a: state UP master b\n tun type tap\n2: lo: state UP", "b"),
        vec!["o3ktap-a"]
    );
    assert!(partial_link_names("3: o3ktmp-a/b: <UP>\n tun type tap").is_empty());
}

#[test]
fn failures_have_messages() {
    assert_eq!(
        HostNetworkError::ForeignInterface.message(),
        "existing TAP interface is not owned by the requested O3K network"
    );
    assert_eq!(
        HostNetworkError::OwnershipStorage.message(),
        "host network ownership metadata could not be persisted"
    );
}

#[test]
fn a_record_that_cannot_be_saved_is_not_kept() -> Result<(), HostNetworkError> {
    let mut responses = bridge_creation();
    responses.truncate(4);
    responses.extend([
        Response::output(true, PROVISIONAL_BRIDGE),
        Response::status(true),
    ]);
    let mut host = FakeHost::new(responses);
    host.storage = false;
    let mut manager = owning_manager(None, NetworkOwnershipManifest::default())?;
    assert_eq!(
        ensure_bridge(&mut manager, &mut host),
        Err(HostNetworkError::OwnershipStorage)
    );
    assert_eq!(manager.ownership, Some(NetworkOwnershipManifest::default()));
    assert_eq!(
        host.calls.last(),
        Some(&vec![
            "link".to_owned(),
            "del".to_owned(),
            "dev".to_owned(),
            "o3kbm-1a2b3c4d".to_owned()
        ])
    );
    Ok(())
}

#[test]
fn manifests_with_faults_are_refused() {
    let taps = vec![entry("o3ktap-a", "server-1", "port-a", "02:00:00:00:00:01")];
    let check = |bridge: Option<BridgeOwnership>, taps: Vec<TapEntry>| {
        validate_manifest(&config(None), &NetworkOwnershipManifest { bridge, taps })
    };
    assert_eq!(check(None, taps.clone()), Ok(()));
    let mut other = recorded_bridge(None).expect("a bridge");
    other.name = "other".to_owned();
    assert_eq!(check(Some(other), vec![]), Err(HostNetworkError::OwnershipConflict));
    assert_eq!(
        check(
            recorded_bridge(Some(GatewayOwnership { address: 1, prefix_len: 31 })),
            vec![]
        ),
        Err(HostNetworkError::InvalidConfiguration)
    );
    let mut twice = taps.clone();
    twice.push(entry("o3ktap-b", "server-2", "port-a", "02:00:00:00:00:02"));
    assert_eq!(check(None, twice), Err(HostNetworkError::OwnershipConflict));
    assert_eq!(
        check(None, vec![entry("o3ktap-a", "a b", "port-a", "02:00:00:00:00:01")]),
        Err(HostNetworkError::InvalidName)
    );
    assert_eq!(
        check(None, vec![entry("o3ktap-a", "server-1", "port-a", "02:00:00:00:00:0g")]),
        Err(HostNetworkError::InvalidMac)
    );
    let mut moved = taps;
    moved[0].key = "o3ktap-b".to_owned();
    assert_eq!(check(None, moved), Err(HostNetworkError::OwnershipConflict));
}

#[test]
fn tap_access_is_handed_to_the_host() -> Result<(), HostNetworkError> {
    let mut host = FakeHost::new(vec![
        Response::output(true, BRIDGE),
        Response::output(true, BRIDGE),
        Response::status(true),
        Response::output(false, ""),
        Response::status(false),
    ]);
    let access = TapAccess {
        user: "qemu".to_owned(),
        group: "kvm".to_owned(),
    };
    let mut manager = test_manager(None).with_tap_access(Some(access))?;
    assert_eq!(
        create_tap(&mut manager, &mut host, &tap_spec("i", "p", "02:00:00:00:00:01")),
        Err(HostNetworkError::CommandFailed)
    );
    assert_eq!(
        host.calls[4],
        vec![
            "tuntap", "add", "dev", "o3ktmp-5e6f7788", "mode", "tap", "user", "qemu", "group", "kvm"
        ]
    );
    let blank = TapAccess {
        user: " ".to_owned(),
        group: "kvm".to_owned(),
    };
    assert_eq!(
        test_manager(None).with_tap_access(Some(blank)),
        Err(HostNetworkError::InvalidConfiguration)
    );
    Ok(())
}

#[test]
fn an_address_that_never_settles_is_given_up() {
    let mut responses = vec![
        Response::output(true, BRIDGE),
        Response::output(true, BRIDGE),
        Response::status(true),
        Response::output(false, ""),
        Response::status(true),
        Response::status(true),
        Response::status(true),
    ];
    // Every look finds another address, which is set again, until the limit is reached.
    for _ in 0..51 {
        responses.push(Response::output(true, REPLACED_TAP));
        responses.push(Response::status(true));
    }
    responses.push(Response::output(true, OWNED_TAP));
    responses.push(Response::status(true));
    let mut host = FakeHost::new(responses);
    let mut manager = test_manager(None);
    manager.settle_window_ms = TAP_ADDRESS_SETTLE_WINDOW_MS;
    assert_eq!(
        create_tap(&mut manager, &mut host, &tap_spec("i", "p", "02:00:00:00:00:01")),
        Err(HostNetworkError::CommandFailed)
    );
    assert_eq!(host.waited, TAP_ADDRESS_STABILIZE_TIMEOUT_MS);
    assert!(host.clock >= TAP_ADDRESS_STABILIZE_TIMEOUT_MS);
}

#[test]
fn a_live_tap_is_resolved_by_record_and_link() -> Result<(), HostNetworkError> {
    let tap = HostNetworkManager::tap_name("port-1")?;
    let found = NetworkOwnershipManifest {
        bridge: recorded_bridge(None),
        taps: vec![entry(&tap, "server-1", "port-1", "02:00:00:00:00:01")],
    };
    let spec = tap_spec("server-1", "port-1", "02:00:00:00:00:01");
    let mut manager = owning_manager(None, NetworkOwnershipManifest::default())?;
    let mut host = FakeHost::new(vec![
        Response::output(true, "2: x"),
        Response::output(true, OWNED_TAP),
        Response::output(false, ""),
    ]);
    assert_eq!(
        drive(&mut manager, &mut host, |m, s| m.resolve_owned_tap(&spec, found.clone(), s)),
        Ok(tap)
    );
    assert_eq!(
        drive(&mut manager, &mut host, |m, s| m.resolve_owned_tap(&spec, found.clone(), s)),
        Err(HostNetworkError::CommandFailed)
    );
    let mut without = test_manager(None);
    assert_eq!(
        drive(&mut without, &mut host, |m, s| m.resolve_owned_tap(&spec, found.clone(), s)),
        Err(HostNetworkError::OwnershipConflict)
    );
    assert_eq!(
        manager.owned_port_ids_for_instance("server-1")?,
        vec!["port-1".to_owned()]
    );
    Ok(())
}

#[test]
fn the_limit_counts_the_time_that_setting_the_address_takes() {
    let other = "2: x: <UP>\n\tlink/ether 02:00:00:00:00:99".to_owned();
    let replies = vec![
        Reply::Time(10),
        Reply::Printed(true, other),
        Reply::Finished(true),
        Reply::Time(10 + TAP_ADDRESS_STABILIZE_TIMEOUT_MS),
    ];
    let mut session = Session::new(replies);
    assert_eq!(
        stabilize_tap_address(200, "x", "02:00:00:00:00:01", &mut session),
        Err(Stop::Failed(HostNetworkError::CommandFailed))
    );
    assert_eq!(session.issued.len(), 4);
    assert_eq!(session.issued[3], Effect::Clock);
    assert!(!session.issued.iter().any(|e| matches!(e, Effect::Wait(_))));
}

#[test]
fn an_address_is_stable_after_a_whole_window() {
    let wanted = "2: x: <UP>\n\tlink/ether 02:00:00:00:00:01".to_owned();
    let look = |at: u64| vec![Reply::Printed(true, wanted.clone()), Reply::Time(at)];
    let mut replies = vec![Reply::Time(0)];
    replies.extend(look(5));
    replies.extend([Reply::Time(6), Reply::Time(6), Reply::Finished(true)]);
    replies.extend(look(204));
    replies.extend([Reply::Time(204), Reply::Finished(true)]);
    replies.extend(look(205));
    let mut session = Session::new(replies.clone());
    assert_eq!(
        stabilize_tap_address(200, "x", "02:00:00:00:00:01", &mut session),
        Ok(())
    );
    assert_eq!(session.issued.len(), replies.len());
}
