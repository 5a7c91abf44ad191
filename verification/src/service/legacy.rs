//! The records that an earlier version kept in a file, and how the service starts.
use super::access::halt;
use super::calls::{
    done, heard, tried, unit, Answer, Log, NetworkService, StoreCall, StoreCallView, StoreReplyView,
};
use super::cleanup::recover_run;
use super::errors::{
    map_failure, map_store_error, NetworkError, NetworkErrorView, StoreError, StoreErrorView,
};
use super::records::{
    NetworkRecord, NetworkRecordView, PortRecord, PortRecordView, SubnetRecord, SubnetRecordView,
};
use super::rules::{deterministic_port_mac, port_mac};
use crate::model::views;
use crate::session::{texts_contain, Stop};
use crate::text::{lower, same, to_lower};
use vstd::prelude::*;

verus! {

/// A network of the file.
#[derive(Clone, Debug, PartialEq, Eq)]
pub struct LegacyNetwork {
    pub id: u128,
    pub name: String,
    pub project_id: String,
    pub status: String,
}

/// The view of [`LegacyNetwork`].
#[verifier::ext_equal]
pub struct LegacyNetworkView {
    pub id: u128,
    pub name: Seq<char>,
    pub project_id: Seq<char>,
    pub status: Seq<char>,
}

impl View for LegacyNetwork {
    type V = LegacyNetworkView;

    open spec fn view(&self) -> LegacyNetworkView {
        LegacyNetworkView {
            id: self.id,
            name: self.name@,
            project_id: self.project_id@,
            status: self.status@,
        }
    }
}

/// A subnet of the file.
#[derive(Clone, Debug, PartialEq, Eq)]
pub struct LegacySubnet {
    pub id: u128,
    pub network_id: u128,
    pub name: String,
    pub project_id: String,
    pub cidr: String,
    pub gateway_ip: u32,
    pub allocation_start: u32,
    pub allocation_end: u32,
}

/// The view of [`LegacySubnet`].
#[verifier::ext_equal]
pub struct LegacySubnetView {
    pub id: u128,
    pub network_id: u128,
    pub name: Seq<char>,
    pub project_id: Seq<char>,
    pub cidr: Seq<char>,
    pub gateway_ip: u32,
    pub allocation_start: u32,
    pub allocation_end: u32,
}

impl View for LegacySubnet {
    type V = LegacySubnetView;

    open spec fn view(&self) -> LegacySubnetView {
        LegacySubnetView {
            id: self.id,
            network_id: self.network_id,
            name: self.name@,
            project_id: self.project_id@,
            cidr: self.cidr@,
            gateway_ip: self.gateway_ip,
            allocation_start: self.allocation_start,
            allocation_end: self.allocation_end,
        }
    }
}

/// A port of the file. It may lack a subnet, which is then the nil identifier, and a hardware
/// address, which is then empty.
#[derive(Clone, Debug, PartialEq, Eq)]
pub struct LegacyPort {
    pub id: u128,
    pub network_id: u128,
    pub subnet_id: u128,
    pub project_id: String,
    pub name: String,
    pub mac_address: String,
    pub fixed_ip: u32,
    pub status: String,
}

/// The view of [`LegacyPort`].
#[verifier::ext_equal]
pub struct LegacyPortView {
    pub id: u128,
    pub network_id: u128,
    pub subnet_id: u128,
    pub project_id: Seq<char>,
    pub name: Seq<char>,
    pub mac_address: Seq<char>,
    pub fixed_ip: u32,
    pub status: Seq<char>,
}

impl View for LegacyPort {
    type V = LegacyPortView;

    open spec fn view(&self) -> LegacyPortView {
        LegacyPortView {
            id: self.id,
            network_id: self.network_id,
            subnet_id: self.subnet_id,
            project_id: self.project_id@,
            name: self.name@,
            mac_address: self.mac_address@,
            fixed_ip: self.fixed_ip,
            status: self.status@,
        }
    }
}

/// The file.
#[derive(Clone, Debug, PartialEq, Eq)]
pub struct LegacyFile {
    pub networks: Vec<LegacyNetwork>,
    pub subnets: Vec<LegacySubnet>,
    pub ports: Vec<LegacyPort>,
}

/// The view of [`LegacyFile`].
#[verifier::ext_equal]
pub struct LegacyFileView {
    pub networks: Seq<LegacyNetworkView>,
    pub subnets: Seq<LegacySubnetView>,
    pub ports: Seq<LegacyPortView>,
}

impl View for LegacyFile {
    type V = LegacyFileView;

    open spec fn view(&self) -> LegacyFileView {
        LegacyFileView {
            networks: views(self.networks@),
            subnets: views(self.subnets@),
            ports: views(self.ports@),
        }
    }
}

// ---------------------------------------------------------------------------
// Records of the file
// ---------------------------------------------------------------------------

/// A network of the file as clients see it.
pub open spec fn legacy_network(n: LegacyNetworkView) -> NetworkRecordView {
    NetworkRecordView { id: n.id, name: n.name, project_id: n.project_id, status: n.status }
}

/// A subnet of the file as clients see it.
pub open spec fn legacy_subnet(s: LegacySubnetView) -> SubnetRecordView {
    SubnetRecordView {
        id: s.id,
        network_id: s.network_id,
        name: s.name,
        project_id: s.project_id,
        cidr: s.cidr,
        gateway_ip: s.gateway_ip,
        allocation_start: s.allocation_start,
        allocation_end: s.allocation_end,
        ip_version: 4,
        enable_dhcp: true,
    }
}

/// The first subnet of a port's network and project, from the one at `i` on.
pub open spec fn home_subnet(port: LegacyPortView, subnets: Seq<LegacySubnetView>, i: int) -> Option<
    u128,
>
    decreases subnets.len() - i,
{
    if i < 0 || i >= subnets.len() {
        None
    } else if subnets[i].network_id == port.network_id && subnets[i].project_id
        == port.project_id {
        Some(subnets[i].id)
    } else {
        home_subnet(port, subnets, i + 1)
    }
}

/// The subnet of a port: its own, or else the first of its network.
pub open spec fn legacy_subnet_of(port: LegacyPortView, subnets: Seq<LegacySubnetView>) -> Option<
    u128,
> {
    if port.subnet_id != 0 {
        Some(port.subnet_id)
    } else {
        match home_subnet(port, subnets, 0) {
            Some(id) => if id == 0 {
                None
            } else {
                Some(id)
            },
            None => None,
        }
    }
}

/// The hardware address of a port: its own, or else the one that follows from its identifier.
pub open spec fn legacy_mac(port: LegacyPortView) -> Seq<char> {
    if port.mac_address.len() == 0 {
        port_mac(port.id)
    } else {
        port.mac_address
    }
}

/// A port of the file as clients see it.
pub open spec fn legacy_port(port: LegacyPortView, subnets: Seq<LegacySubnetView>)
    -> PortRecordView {
    PortRecordView {
        id: port.id,
        network_id: port.network_id,
        subnet_id: legacy_subnet_of(port, subnets),
        project_id: port.project_id,
        name: port.name,
        mac_address: legacy_mac(port),
        fixed_ip: port.fixed_ip,
        status: port.status,
        binding_host: None,
        binding_state: None,
    }
}

/// Whether two ports have the same hardware address, whatever the case of its letters.
pub open spec fn same_mac(a: LegacyPortView, b: LegacyPortView) -> bool {
    lower(legacy_mac(a)) == lower(legacy_mac(b))
}

/// Whether no two ports have the same hardware address.
pub open spec fn macs_distinct(ports: Seq<LegacyPortView>) -> bool {
    forall|i: int, j: int|
        0 <= i < j < ports.len() ==> !same_mac(#[trigger] ports[i], #[trigger] ports[j])
}

fn legacy_mac_of(port: &LegacyPort) -> (r: String)
    ensures
        r@ == legacy_mac(port@),
{
    if port.mac_address.as_str().is_empty() {
        deterministic_port_mac(port.id)
    } else {
        port.mac_address.clone()
    }
}

fn are_macs_distinct(ports: &Vec<LegacyPort>) -> (r: bool)
    ensures
        r == macs_distinct(views(ports@)),
{
    let ghost all = views(ports@);
    let mut seen: Vec<String> = Vec::new();
    for i in 0..ports.len()
        invariant
            all == views(ports@),
            views(seen@).len() == i,
            forall|k: int| 0 <= k < i ==> #[trigger] views(seen@)[k] == lower(legacy_mac(all[k])),
            forall|a: int, b: int|
                0 <= a < b < i ==> !same_mac(#[trigger] all[a], #[trigger] all[b]),
    {
        assert(all[i as int] == ports@[i as int]@);
        let mac = to_lower(legacy_mac_of(&ports[i]).as_str());
        if texts_contain(&seen, mac.as_str()) {
            proof {
                let k = choose|k: int| 0 <= k < views(seen@).len() && views(seen@)[k] == mac@;
                assert(same_mac(all[k], all[i as int]));
            }
            return false;
        }
        let ghost before = views(seen@);
        proof {
            assert forall|a: int| 0 <= a < i implies !same_mac(#[trigger] all[a], all[i as int]) by {
                if same_mac(all[a], all[i as int]) {
                    assert(before[a] == mac@);
                    assert(before.contains(mac@));
                }
            }
        }
        seen.push(mac);
        assert(views(seen@) =~= before.push(mac@));
    }
    true
}

fn home_subnet_of(port: &LegacyPort, subnets: &Vec<LegacySubnet>) -> (r: Option<u128>)
    ensures
        r == home_subnet(port@, views(subnets@), 0),
{
    let ghost all = views(subnets@);
    for i in 0..subnets.len()
        invariant
            all == views(subnets@),
            home_subnet(port@, all, 0) == home_subnet(port@, all, i as int),
    {
        assert(all[i as int] == subnets@[i as int]@);
        if subnets[i].network_id == port.network_id && same(
            subnets[i].project_id.as_str(),
            port.project_id.as_str(),
        ) {
            return Some(subnets[i].id);
        }
    }
    None
}

fn legacy_port_of(port: &LegacyPort, subnets: &Vec<LegacySubnet>) -> (r: PortRecord)
    ensures
        r@ == legacy_port(port@, views(subnets@)),
{
    let subnet_id: Option<u128> = if port.subnet_id != 0 {
        Some(port.subnet_id)
    } else {
        match home_subnet_of(port, subnets) {
            Some(id) => if id == 0 {
                None
            } else {
                Some(id)
            },
            None => None,
        }
    };
    PortRecord {
        id: port.id,
        network_id: port.network_id,
        subnet_id,
        project_id: port.project_id.clone(),
        name: port.name.clone(),
        mac_address: legacy_mac_of(port),
        fixed_ip: port.fixed_ip,
        status: port.status.clone(),
        binding_host: None,
        binding_state: None,
    }
}

// ---------------------------------------------------------------------------
// The import
// ---------------------------------------------------------------------------

/// What storing a record comes to that may be there already.
pub open spec fn imported(t: Log) -> Answer<()> {
    match tried(t.reply()) {
        Err(stop) => Err(stop),
        Ok(Ok(())) => Ok(()),
        Ok(Err(f)) => if f.error == StoreErrorView::ResourceAlreadyExists {
            Ok(())
        } else {
            halt(map_failure(f))
        },
    }
}

/// Stores the networks of the file from the one at `i` on.
pub open spec fn import_networks_run(networks: Seq<LegacyNetworkView>, i: int, t: Log) -> (
    Log,
    Answer<()>,
)
    decreases networks.len() - i,
{
    if i < 0 || i >= networks.len() {
        (t, Ok(()))
    } else {
        let t1 = t.after(StoreCallView::InsertNetwork(legacy_network(networks[i])));
        match imported(t) {
            Err(stop) => (t1, Err(stop)),
            Ok(()) => import_networks_run(networks, i + 1, t1),
        }
    }
}

/// Stores the subnets of the file from the one at `i` on.
pub open spec fn import_subnets_run(subnets: Seq<LegacySubnetView>, i: int, t: Log) -> (
    Log,
    Answer<()>,
)
    decreases subnets.len() - i,
{
    if i < 0 || i >= subnets.len() {
        (t, Ok(()))
    } else {
        let t1 = t.after(StoreCallView::InsertSubnet(legacy_subnet(subnets[i])));
        match imported(t) {
            Err(stop) => (t1, Err(stop)),
            Ok(()) => import_subnets_run(subnets, i + 1, t1),
        }
    }
}

/// Stores the ports of the file from the one at `i` on.
pub open spec fn import_ports_run(
    ports: Seq<LegacyPortView>,
    subnets: Seq<LegacySubnetView>,
    i: int,
    t: Log,
) -> (Log, Answer<()>)
    decreases ports.len() - i,
{
    if i < 0 || i >= ports.len() {
        (t, Ok(()))
    } else {
        let t1 = t.after(StoreCallView::InsertPort(legacy_port(ports[i], subnets)));
        match imported(t) {
            Err(stop) => (t1, Err(stop)),
            Ok(()) => import_ports_run(ports, subnets, i + 1, t1),
        }
    }
}

/// Takes over the records of the file: networks first, then subnets, then ports. What is there
/// already is left alone, so that an interrupted import can be repeated. A file with a hardware
/// address that occurs twice is not taken over. In the end the file is put aside.
pub open spec fn import_run(file: LegacyFileView, t: Log) -> (Log, Answer<()>) {
    if !macs_distinct(file.ports) {
        (t, halt(NetworkErrorView::Conflict))
    } else {
        let (t1, networks) = import_networks_run(file.networks, 0, t);
        match networks {
            Err(stop) => (t1, Err(stop)),
            Ok(()) => {
                let (t2, subnets) = import_subnets_run(file.subnets, 0, t1);
                match subnets {
                    Err(stop) => (t2, Err(stop)),
                    Ok(()) => {
                        let (t3, ports) = import_ports_run(file.ports, file.subnets, 0, t2);
                        match ports {
                            Err(stop) => (t3, Err(stop)),
                            Ok(()) => (
                                t3.after(StoreCallView::RetireLegacyFile),
                                heard(t3.reply()),
                            ),
                        }
                    },
                }
            },
        }
    }
}

/// What was found in the place of the file of an earlier version.
#[derive(Clone, Debug, PartialEq, Eq)]
pub enum LegacyMetadata {
    Absent,
    /// A file that cannot be read.
    Corrupt,
    Found(LegacyFile),
}

/// The view of [`LegacyMetadata`].
#[verifier::ext_equal]
pub enum LegacyMetadataView {
    Absent,
    Corrupt,
    Found(LegacyFileView),
}

impl View for LegacyMetadata {
    type V = LegacyMetadataView;

    open spec fn view(&self) -> LegacyMetadataView {
        match *self {
            LegacyMetadata::Absent => LegacyMetadataView::Absent,
            LegacyMetadata::Corrupt => LegacyMetadataView::Corrupt,
            LegacyMetadata::Found(file) => LegacyMetadataView::Found(file@),
        }
    }
}

/// Starts the service: takes over the file of an earlier version, where there is one, completes
/// what an earlier version stored, and takes up unfinished deletions. With a file that cannot be
/// read it does not start.
pub open spec fn open_run(metadata: LegacyMetadataView, t: Log) -> (Log, Answer<()>) {
    let (t1, taken) = match metadata {
        LegacyMetadataView::Absent => (t, Ok(())),
        LegacyMetadataView::Corrupt => (t, halt(NetworkErrorView::CorruptMetadata)),
        LegacyMetadataView::Found(file) => import_run(file, t),
    };
    match taken {
        Err(stop) => (t1, Err(stop)),
        Ok(()) => {
            let t2 = t1.after(StoreCallView::Backfill);
            match done(t1.reply()) {
                Err(stop) => (t2, Err(stop)),
                Ok(()) => recover_run(t2),
            }
        },
    }
}

impl NetworkService {
    fn import_record(&mut self, call: StoreCall) -> (r: Result<(), Stop<NetworkError>>)
        ensures
            final(self)@ == old(self)@.after(call@),
            unit(r) == imported(old(self)@),
    {
        match self.attempt(call) {
            Err(stop) => Err(stop),
            Ok(Ok(())) => Ok(()),
            Ok(Err(f)) => match &f.error {
                StoreError::ResourceAlreadyExists => Ok(()),
                _ => Err(Stop::Failed(map_store_error(&f))),
            },
        }
    }

    fn import_networks(&mut self, networks: &Vec<LegacyNetwork>) -> (r: Result<
        (),
        Stop<NetworkError>,
    >)
        ensures
            (final(self)@, unit(r)) == import_networks_run(views(networks@), 0, old(self)@),
    {
        let ghost all = views(networks@);
        let ghost whole = import_networks_run(all, 0, self@);
        for i in 0..networks.len()
            invariant
                all == views(networks@),
                whole == import_networks_run(all, 0, old(self)@),
                whole == import_networks_run(all, i as int, self@),
        {
            assert(all[i as int] == networks@[i as int]@);
            let record = NetworkRecord {
                id: networks[i].id,
                name: networks[i].name.clone(),
                project_id: networks[i].project_id.clone(),
                status: networks[i].status.clone(),
            };
            match self.import_record(StoreCall::InsertNetwork(record)) {
                Err(stop) => return Err(stop),
                Ok(()) => {},
            }
        }
        Ok(())
    }

    fn import_subnets(&mut self, subnets: &Vec<LegacySubnet>) -> (r: Result<(), Stop<NetworkError>>)
        ensures
            (final(self)@, unit(r)) == import_subnets_run(views(subnets@), 0, old(self)@),
    {
        let ghost all = views(subnets@);
        let ghost whole = import_subnets_run(all, 0, self@);
        for i in 0..subnets.len()
            invariant
                all == views(subnets@),
                whole == import_subnets_run(all, 0, old(self)@),
                whole == import_subnets_run(all, i as int, self@),
        {
            assert(all[i as int] == subnets@[i as int]@);
            let record = SubnetRecord {
                id: subnets[i].id,
                network_id: subnets[i].network_id,
                name: subnets[i].name.clone(),
                project_id: subnets[i].project_id.clone(),
                cidr: subnets[i].cidr.clone(),
                gateway_ip: subnets[i].gateway_ip,
                allocation_start: subnets[i].allocation_start,
                allocation_end: subnets[i].allocation_end,
                ip_version: 4,
                enable_dhcp: true,
            };
            match self.import_record(StoreCall::InsertSubnet(record)) {
                Err(stop) => return Err(stop),
                Ok(()) => {},
            }
        }
        Ok(())
    }

    fn import_ports(&mut self, ports: &Vec<LegacyPort>, subnets: &Vec<LegacySubnet>) -> (r: Result<
        (),
        Stop<NetworkError>,
    >)
        ensures
            (final(self)@, unit(r)) == import_ports_run(
                views(ports@),
                views(subnets@),
                0,
                old(self)@,
            ),
    {
        let ghost all = views(ports@);
        let ghost whole = import_ports_run(all, views(subnets@), 0, self@);
        for i in 0..ports.len()
            invariant
                all == views(ports@),
                whole == import_ports_run(all, views(subnets@), 0, old(self)@),
                whole == import_ports_run(all, views(subnets@), i as int, self@),
        {
            assert(all[i as int] == ports@[i as int]@);
            let record = legacy_port_of(&ports[i], subnets);
            match self.import_record(StoreCall::InsertPort(record)) {
                Err(stop) => return Err(stop),
                Ok(()) => {},
            }
        }
        Ok(())
    }

    /// Performs [`import_run`].
    pub fn import_legacy_metadata(&mut self, file: &LegacyFile) -> (r: Result<
        (),
        Stop<NetworkError>,
    >)
        ensures
            (final(self)@, unit(r)) == import_run(file@, old(self)@),
    {
        if !are_macs_distinct(&file.ports) {
            return Err(Stop::Failed(NetworkError::Conflict));
        }
        match self.import_networks(&file.networks) {
            Err(stop) => return Err(stop),
            Ok(()) => {},
        }
        match self.import_subnets(&file.subnets) {
            Err(stop) => return Err(stop),
            Ok(()) => {},
        }
        match self.import_ports(&file.ports, &file.subnets) {
            Err(stop) => return Err(stop),
            Ok(()) => {},
        }
        self.tell(StoreCall::RetireLegacyFile)
    }

    /// Performs [`open_run`].
    pub fn open(&mut self, metadata: &LegacyMetadata) -> (r: Result<(), Stop<NetworkError>>)
        ensures
            (final(self)@, unit(r)) == open_run(metadata@, old(self)@),
    {
        match metadata {
            LegacyMetadata::Absent => {},
            LegacyMetadata::Corrupt => return Err(Stop::Failed(NetworkError::CorruptMetadata)),
            LegacyMetadata::Found(file) => match self.import_legacy_metadata(file) {
                Err(stop) => return Err(stop),
                Ok(()) => {},
            },
        }
        match self.perform(StoreCall::Backfill) {
            Err(stop) => return Err(stop),
            Ok(()) => {},
        }
        self.recover_realm_deletion_operations()
    }
}

// ---------------------------------------------------------------------------
// Laws
// ---------------------------------------------------------------------------

/// Whether an answer says that a record was stored or was there already.
pub open spec fn stores(reply: StoreReplyView) -> bool {
    match reply {
        StoreReplyView::Done => true,
        StoreReplyView::Failed(f) => f.error == StoreErrorView::ResourceAlreadyExists,
        _ => false,
    }
}

/// Whether the next `n` answers are known and each says that a record was stored or was there
/// already.
pub open spec fn stores_next(t: Log, n: int) -> bool {
    &&& t.issued.len() + n <= t.replies.len()
    &&& forall|i: int|
        t.issued.len() <= i < t.issued.len() + n ==> stores(#[trigger] t.replies[i])
}

proof fn lemma_networks_imported(networks: Seq<LegacyNetworkView>, i: int, t: Log)
    requires
        0 <= i <= networks.len(),
        stores_next(t, networks.len() - i),
    ensures
        import_networks_run(networks, i, t).1 is Ok,
        import_networks_run(networks, i, t).0.replies == t.replies,
        import_networks_run(networks, i, t).0.issued.len() == t.issued.len() + networks.len() - i,
    decreases networks.len() - i,
{
    if i < networks.len() {
        assert(stores(t.replies[t.issued.len() as int]));
        let t1 = t.after(StoreCallView::InsertNetwork(legacy_network(networks[i])));
        lemma_networks_imported(networks, i + 1, t1);
    }
}

proof fn lemma_subnets_imported(subnets: Seq<LegacySubnetView>, i: int, t: Log)
    requires
        0 <= i <= subnets.len(),
        stores_next(t, subnets.len() - i),
    ensures
        import_subnets_run(subnets, i, t).1 is Ok,
        import_subnets_run(subnets, i, t).0.replies == t.replies,
        import_subnets_run(subnets, i, t).0.issued.len() == t.issued.len() + subnets.len() - i,
    decreases subnets.len() - i,
{
    if i < subnets.len() {
        assert(stores(t.replies[t.issued.len() as int]));
        let t1 = t.after(StoreCallView::InsertSubnet(legacy_subnet(subnets[i])));
        lemma_subnets_imported(subnets, i + 1, t1);
    }
}

proof fn lemma_ports_imported(
    ports: Seq<LegacyPortView>,
    subnets: Seq<LegacySubnetView>,
    i: int,
    t: Log,
)
    requires
        0 <= i <= ports.len(),
        stores_next(t, ports.len() - i),
    ensures
        import_ports_run(ports, subnets, i, t).1 is Ok,
        import_ports_run(ports, subnets, i, t).0.replies == t.replies,
        import_ports_run(ports, subnets, i, t).0.issued.len() == t.issued.len() + ports.len() - i,
    decreases ports.len() - i,
{
    if i < ports.len() {
        assert(stores(t.replies[t.issued.len() as int]));
        let t1 = t.after(StoreCallView::InsertPort(legacy_port(ports[i], subnets)));
        lemma_ports_imported(ports, subnets, i + 1, t1);
    }
}

/// An import can be repeated: where every record of the file is stored or was there already, the
/// import succeeds, and the file is put aside in the end.
pub proof fn lemma_import_can_be_repeated(file: LegacyFileView, t: Log)
    requires
        macs_distinct(file.ports),
        stores_next(
            t,
            (file.networks.len() + file.subnets.len() + file.ports.len() + 1) as int,
        ),
    ensures
        import_run(file, t).1 is Ok,
        import_run(file, t).0.issued.last() == StoreCallView::RetireLegacyFile,
{
    lemma_networks_imported(file.networks, 0, t);
    let t1 = import_networks_run(file.networks, 0, t).0;
    lemma_subnets_imported(file.subnets, 0, t1);
    let t2 = import_subnets_run(file.subnets, 0, t1).0;
    lemma_ports_imported(file.ports, file.subnets, 0, t2);
}

/// A file that cannot be taken over stays: nothing is stored of a file in which a hardware
/// address occurs twice.
pub proof fn lemma_clashing_file_stays(file: LegacyFileView, t: Log)
    requires
        !macs_distinct(file.ports),
    ensures
        import_run(file, t) == (t, halt::<()>(NetworkErrorView::Conflict)),
{
}

/// A file that cannot be read stays in its place, and nothing is asked of the store.
pub proof fn lemma_corrupt_file_stays(t: Log)
    ensures
        open_run(LegacyMetadataView::Corrupt, t) == (
            t,
            halt::<()>(NetworkErrorView::CorruptMetadata),
        ),
{
}

} // verus!
