//! Public addresses against a simulated host.
use o3k_network::domain::{OwnedBinding, PublicAddressBindingIntent};
use o3k_network::ipv4::{ipv4, Ipv4Prefix};
use o3k_network::plan::types::NetworkPlanIntent;
use o3k_network::public_realization::{
    address_present, PublicAddressError, PublicAddressRealizer,
};
use o3k_network::session::{Effect, Reply, Session, Stop};

const PUBLIC_TABLE: &str = "o3k_public";
const PUBLIC_MARKER: &str = "o3k-p9-public";

struct FakeHost {
    calls: Vec<Vec<String>>,
    listing: String,
    interface_listing: String,
    fail_on: Option<String>,
    marked: bool,
    addresses: Option<Vec<u32>>,
    bindings: Option<Vec<OwnedBinding>>,
}

impl FakeHost {
    fn new(listing: &str, interface_listing: &str, fail_on: Option<&str>) -> Self {
        Self {
            calls: Vec::new(),
            listing: listing.to_owned(),
            interface_listing: interface_listing.to_owned(),
            fail_on: fail_on.map(str::to_owned),
            marked: false,
            addresses: None,
            bindings: None,
        }
    }

    fn record(&mut self, program: &str, args: &[String]) -> Vec<String> {
        let call: Vec<String> = std::iter::once(program.to_owned())
            .chain(args.iter().cloned())
            .collect();
        self.calls.push(call.clone());
        call
    }

    fn answer(&mut self, effect: &Effect) -> Reply {
        match effect {
            Effect::Query(command) => {
                self.record(&command.program, &command.args);
                if command.program == "nft" {
                    Reply::Printed(!self.listing.is_empty(), self.listing.clone())
                } else {
                    Reply::Printed(true, self.interface_listing.clone())
                }
            }
            Effect::Run(command) => {
                let call = self.record(&command.program, &command.args);
                let fails = self
                    .fail_on
                    .as_ref()
                    .is_some_and(|needle| call.iter().any(|value| value == needle));
                Reply::Finished(!fails)
            }
            Effect::StoreMarker => {
                self.marked = true;
                Reply::Finished(true)
            }
            Effect::StoreAddresses(addresses) => {
                self.addresses = Some(addresses.clone());
                Reply::Finished(true)
            }
            Effect::StoreBindings(bindings) => {
                self.bindings = Some(bindings.clone());
                Reply::Finished(true)
            }
            Effect::RemoveRecords => {
                self.marked = false;
                self.addresses = None;
                self.bindings = None;
                Reply::Finished(true)
            }
            other => panic!("unexpected effect {other:?}"),
        }
    }
}

fn drive<T>(
    provider: &mut PublicAddressRealizer,
    host: &mut FakeHost,
    operation: impl Fn(&mut PublicAddressRealizer, &mut Session) -> Result<T, Stop<PublicAddressError>>,
) -> Result<T, PublicAddressError> {
    let mut replies: Vec<Reply> = Vec::new();
    loop {
        let mut trial = provider.clone();
        let mut session = Session::new(replies.clone());
        match operation(&mut trial, &mut session) {
            Ok(value) => {
                *provider = trial;
                return Ok(value);
            }
            Err(Stop::Failed(error)) => {
                *provider = trial;
                return Err(error);
            }
            Err(Stop::Pending) => {
                let effect = session.issued.last().expect("an effect to answer");
                replies.push(host.answer(effect));
            }
        }
    }
}

fn open(owned: bool, addresses: Vec<u32>) -> PublicAddressRealizer {
    PublicAddressRealizer::open("eth0".to_owned(), owned, addresses, vec![]).expect("provider")
}

fn apply(
    provider: &mut PublicAddressRealizer,
    host: &mut FakeHost,
    intents: &[NetworkPlanIntent],
) -> Result<(), PublicAddressError> {
    let intents = intents.to_vec();
    drive(provider, host, |p, s| p.apply(&intents, s))
}

fn realm_intent(realm_id: u128) -> NetworkPlanIntent {
    NetworkPlanIntent::AddressRealm {
        realm_id,
        prefix: Ipv4Prefix::new(ipv4(10, 0, 0, 0), 24).expect("realm prefix"),
        gateway: ipv4(10, 0, 0, 1),
    }
}

fn assignment(endpoint_id: u128, last: u8) -> NetworkPlanIntent {
    NetworkPlanIntent::AddressAssignment {
        endpoint_id,
        address: ipv4(10, 0, 0, last),
        generation: 1,
    }
}

fn binding(id: u128, endpoint_id: u128, last: u8) -> NetworkPlanIntent {
    NetworkPlanIntent::PublicAddressBinding(PublicAddressBindingIntent {
        id,
        project_id: "project-a".to_owned(),
        public_address: ipv4(198, 51, 100, last),
        endpoint_id,
        generation: 1,
    })
}

fn public_intents(endpoint_id: u128) -> Vec<NetworkPlanIntent> {
    vec![realm_intent(1), binding(3, endpoint_id, 2)]
}

fn with_assignment(endpoint: u128) -> Vec<NetworkPlanIntent> {
    let mut intents = vec![assignment(endpoint, 2)];
    intents.extend(public_intents(endpoint));
    intents
}

#[test]
fn public_realization_rejects_missing_endpoint_before_mutation() {
    let mut host = FakeHost::new("", "", None);
    let mut provider = open(false, vec![]);
    assert!(matches!(
        apply(&mut provider, &mut host, &public_intents(9)),
        Err(PublicAddressError::MissingEndpoint)
    ));
    assert!(host.calls.is_empty());
}

#[test]
fn public_realization_rejects_missing_realm_before_mutation() {
    let mut host = FakeHost::new("", "", None);
    let mut provider = open(false, vec![]);
    let endpoint = 9;
    let mut intents = vec![assignment(endpoint, 10)];
    intents.push(public_intents(endpoint)[1].clone());
    assert!(matches!(
        apply(&mut provider, &mut host, &intents),
        Err(PublicAddressError::MissingRealm)
    ));
    assert!(host.calls.is_empty());
}

#[test]
fn public_realization_never_adopts_foreign_table() {
    let mut host = FakeHost::new("table ip o3k_public { comment foreign; }", "", None);
    let mut provider = open(false, vec![]);
    let endpoint = 9;
    let intents = public_intents(endpoint);
    let intents = [
        intents[0].clone(),
        assignment(endpoint, 2),
        intents[1].clone(),
    ];
    assert!(matches!(
        apply(&mut provider, &mut host, &intents),
        Err(PublicAddressError::ForeignProviderState)
    ));
    assert_eq!(host.calls.len(), 1);
}

#[test]
fn public_realization_rebuilds_owned_table_after_restart() {
    let listing = format!("table ip {PUBLIC_TABLE} {{ comment {PUBLIC_MARKER}; }}");
    let mut host = FakeHost::new(&listing, "", None);
    let mut provider = open(true, vec![]);

    apply(&mut provider, &mut host, &with_assignment(9)).expect("rebuild");
    assert!(
        host.calls
            .iter()
            .any(|call| call == &["nft", "delete", "table", "ip", PUBLIC_TABLE])
    );
    assert!(host.calls.iter().any(|call| call
        == &[
            "nft",
            "add",
            "table",
            "ip",
            PUBLIC_TABLE,
            "{",
            "comment",
            &format!("\"{}\"", PUBLIC_MARKER),
            ";",
            "}"
        ]));
    assert!(
        host.calls
            .iter()
            .any(|call| { call == &["ip", "addr", "add", "198.51.100.2/32", "dev", "eth0"] })
    );
}

#[test]
fn public_realization_preserves_unrelated_bindings_during_apply_and_remove() {
    let mut host = FakeHost::new("", "", None);
    let mut provider = open(false, vec![]);
    let first = 9;
    let second = 10;
    let first_intents = vec![realm_intent(1), assignment(first, 2), binding(3, first, 2)];
    apply(&mut provider, &mut host, &first_intents).expect("first binding");
    let second_intents = vec![realm_intent(2), assignment(second, 3), binding(4, second, 3)];
    apply(&mut provider, &mut host, &second_intents).expect("second binding");
    assert_eq!(provider.owned_bindings.len(), 2);
    drive(&mut provider, &mut host, |p, s| p.remove_for_plan(&first_intents, s))
        .expect("remove first");
    assert_eq!(provider.owned_bindings.len(), 1);
    assert_eq!(provider.owned_bindings[0].endpoint_id, second);
    let stored = host.bindings.clone().expect("stored bindings");
    assert!(stored.iter().any(|kept| kept.endpoint_id == second));
    assert!(!stored.iter().any(|kept| kept.endpoint_id == first));
}

#[test]
fn public_realization_fails_when_nat_chain_creation_fails() {
    let mut host = FakeHost::new("", "", Some("prerouting"));
    let mut provider = open(false, vec![]);
    assert!(matches!(
        apply(&mut provider, &mut host, &with_assignment(9)),
        Err(PublicAddressError::ProviderCommandFailed)
    ));
    assert!(host.marked);
}

#[test]
fn overlapping_private_addresses_remain_realm_scoped() {
    let mut host = FakeHost::new("", "", None);
    let mut provider = open(false, vec![]);
    let endpoint_a = 20;
    let endpoint_b = 21;
    let realm_a = 30;
    let realm_b = 31;
    apply(
        &mut provider,
        &mut host,
        &[realm_intent(realm_a), assignment(endpoint_a, 10), binding(40, endpoint_a, 2)],
    )
    .expect("realm A binding");
    apply(
        &mut provider,
        &mut host,
        &[realm_intent(realm_b), assignment(endpoint_b, 10), binding(41, endpoint_b, 3)],
    )
    .expect("realm B binding");

    assert_eq!(provider.owned_bindings.len(), 2);
    assert!(
        provider
            .owned_bindings
            .iter()
            .any(|binding| binding.realm_id == realm_a && binding.endpoint_id == endpoint_a)
    );
    assert!(
        provider
            .owned_bindings
            .iter()
            .any(|binding| binding.realm_id == realm_b && binding.endpoint_id == endpoint_b)
    );
    let realm_a_text = "00000000-0000-0000-0000-00000000001e";
    let realm_b_text = "00000000-0000-0000-0000-00000000001f";
    assert!(host.calls.iter().any(|call| {
        call.iter().any(|value| value == "198.51.100.2")
            && call.iter().any(|value| value.contains(realm_a_text))
    }));
    assert!(host.calls.iter().any(|call| {
        call.iter().any(|value| value == "198.51.100.3")
            && call.iter().any(|value| value.contains(realm_b_text))
    }));
}

#[test]
fn public_realization_never_adopts_foreign_uplink_address() {
    let mut host = FakeHost::new("", "    inet 198.51.100.2/32 scope global eth0", None);
    let mut provider = open(false, vec![]);
    assert!(matches!(
        apply(&mut provider, &mut host, &with_assignment(9)),
        Err(PublicAddressError::ForeignProviderState)
    ));
    assert!(!host.marked);
}

#[test]
fn public_realization_cleanup_removes_only_durable_owned_addresses() {
    let listing = format!("table ip {PUBLIC_TABLE} {{ comment {PUBLIC_MARKER}; }}");
    let mut host = FakeHost::new(&listing, "    inet 198.51.100.2/32 scope global eth0", None);
    host.addresses = Some(vec![ipv4(198, 51, 100, 2)]);
    let mut provider = open(true, vec![ipv4(198, 51, 100, 2)]);
    drive(&mut provider, &mut host, |p, s| p.remove(true, s)).expect("cleanup");
    assert!(
        host.calls
            .iter()
            .any(|call| { call == &["ip", "addr", "del", "198.51.100.2/32", "dev", "eth0"] })
    );
    assert!(host.addresses.is_none());
}

// ---------------------------------------------------------------------------
// More of the same library
// ---------------------------------------------------------------------------

#[test]
fn records_that_clash_are_corrupt() {
    let one = OwnedBinding {
        realm_id: 1,
        endpoint_id: 2,
        private_address: 3,
        public_address: 4,
    };
    let twice = PublicAddressRealizer::open("eth0".to_owned(), true, vec![4], vec![one, one]);
    assert!(matches!(twice, Err(PublicAddressError::CorruptState)));
    let nil = OwnedBinding { realm_id: 0, ..one };
    let nil = PublicAddressRealizer::open("eth0".to_owned(), true, vec![], vec![nil]);
    assert!(matches!(nil, Err(PublicAddressError::CorruptState)));
    let long = PublicAddressRealizer::open("a-name-of-sixteen".to_owned(), true, vec![], vec![]);
    assert!(matches!(long, Err(PublicAddressError::InvalidPool)));
}

#[test]
fn addresses_are_found_as_whole_words() {
    let listing = "    inet 198.51.100.2/32 scope global eth0";
    assert!(address_present(listing, ipv4(198, 51, 100, 2)));
    assert!(!address_present(listing, ipv4(198, 51, 100, 20)));
    assert!(!address_present(listing, ipv4(98, 51, 100, 2)));
}

#[test]
fn an_address_of_another_realm_is_a_conflict() {
    let mut host = FakeHost::new("", "", None);
    let mut provider = open(false, vec![]);
    apply(&mut provider, &mut host, &with_assignment(9)).expect("first");
    host.listing = format!("table ip {PUBLIC_TABLE} {{ comment {PUBLIC_MARKER}; }}");
    let calls = host.calls.len();
    assert!(matches!(
        apply(
            &mut provider,
            &mut host,
            &[realm_intent(2), assignment(10, 3), binding(4, 10, 2)]
        ),
        Err(PublicAddressError::AssociationConflict)
    ));
    assert_eq!(host.calls.len(), calls);
    assert_eq!(drive(&mut provider, &mut host, |p, s| p.observe(s)), Ok(true));
}
