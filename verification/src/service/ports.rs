//! Ports: an endpoint of a realm, as clients see it.
use super::access::{found, halt, must_find};
use super::calls::{
    done, endpoint_in, endpoints_in, heard, id_in, many, maybe, networks_in, one,
    policy_attachments_in, pools_in, port_in, realms_in, reservation_in, trial, tried, unit, Answer,
    Log, NetworkService, StoreCall, StoreCallView,
};
use super::errors::{
    map_failure, map_store_error, NetworkError, NetworkErrorView, StoreError, StoreErrorView,
    StoreFailure, StoreFailureView,
};
use super::networks::{creation, creation_of, get_canonical_network_run};
use super::realms::{get_realm_run, new_endpoint, new_endpoint_of};
use super::records::{
    CanonicalAddressRealmRecord, CanonicalAddressRealmRecordView, CanonicalEndpointRecord,
    CanonicalEndpointRecordView, CanonicalNetworkRecordView, CanonicalPolicyAttachmentRecord,
    CanonicalPolicyAttachmentRecordView, PortRecord, PortRecordView,
};
use super::rules::{deterministic_port_mac, port_mac};
use crate::model::{view_opt, views, Model};
use crate::session::Stop;
use crate::text::{contains, same, starts_with, text_contains, text_starts_with, to_upper, upper};
use vstd::prelude::*;

verus! {

// ---------------------------------------------------------------------------
// The realm of a new port
// ---------------------------------------------------------------------------

/// The first active realm of an identifier, from the one at `i` on.
pub open spec fn active_realm(
    realms: Seq<CanonicalAddressRealmRecordView>,
    id: u128,
    i: int,
) -> Option<CanonicalAddressRealmRecordView>
    decreases realms.len() - i,
{
    if i < 0 || i >= realms.len() {
        None
    } else if realms[i].id == id && realms[i].state == "active"@ {
        Some(realms[i])
    } else {
        active_realm(realms, id, i + 1)
    }
}

/// The realm of a new port: the requested one, or the only one of the network. It has to be
/// active.
pub open spec fn chosen_realm(
    requested: Option<(u128, Option<u32>)>,
    realms: Seq<CanonicalAddressRealmRecordView>,
) -> Result<CanonicalAddressRealmRecordView, NetworkErrorView> {
    match requested {
        Some((id, _)) => match active_realm(realms, id, 0) {
            Some(realm) => Ok(realm),
            None => Err(NetworkErrorView::NotFound),
        },
        None => if realms.len() == 0 {
            Err(NetworkErrorView::NotFound)
        } else if realms.len() > 1 {
            Err(NetworkErrorView::InvalidRequest)
        } else if realms[0].state == "active"@ {
            Ok(realms[0])
        } else {
            Err(NetworkErrorView::Conflict)
        },
    }
}

fn active_realm_of(realms: &Vec<CanonicalAddressRealmRecord>, id: u128) -> (r: Option<
    CanonicalAddressRealmRecord,
>)
    ensures
        view_opt(r) == active_realm(views(realms@), id, 0),
{
    let ghost all = views(realms@);
    for i in 0..realms.len()
        invariant
            all == views(realms@),
            active_realm(all, id, 0) == active_realm(all, id, i as int),
    {
        assert(all[i as int] == realms@[i as int]@);
        if realms[i].id == id && same(realms[i].state.as_str(), "active") {
            return Some(realms[i].copy());
        }
    }
    None
}

fn choose_realm(
    requested: Option<(u128, Option<u32>)>,
    realms: &Vec<CanonicalAddressRealmRecord>,
) -> (r: Result<CanonicalAddressRealmRecord, NetworkError>)
    ensures
        match r {
            Ok(realm) => chosen_realm(requested, views(realms@)) == Ok::<
                CanonicalAddressRealmRecordView,
                NetworkErrorView,
            >(realm@),
            Err(e) => chosen_realm(requested, views(realms@)) == Err::<
                CanonicalAddressRealmRecordView,
                NetworkErrorView,
            >(e@),
        },
{
    assert(views(realms@).len() == realms@.len());
    match requested {
        Some((id, _)) => match active_realm_of(realms, id) {
            Some(realm) => Ok(realm),
            None => Err(NetworkError::NotFound),
        },
        None => {
            if realms.len() == 0 {
                return Err(NetworkError::NotFound);
            }
            if realms.len() > 1 {
                return Err(NetworkError::InvalidRequest);
            }
            assert(views(realms@)[0] == realms@[0]@);
            if same(realms[0].state.as_str(), "active") {
                Ok(realms[0].copy())
            } else {
                Err(NetworkError::Conflict)
            }
        },
    }
}

// ---------------------------------------------------------------------------
// Storing a port
// ---------------------------------------------------------------------------

/// What a new port is made from.
#[verifier::ext_equal]
pub struct PortRequestView {
    pub project_id: Seq<char>,
    pub network_id: u128,
    pub name: Seq<char>,
    pub realm_id: u128,
    pub first_usable: u32,
    pub last_usable: u32,
    pub gateway: u32,
    pub explicit: bool,
}

/// What a new port is made from: where it belongs, the pool of its realm, and whether its address
/// was asked for.
#[derive(Clone, Debug, PartialEq, Eq)]
pub struct PortRequest {
    pub project_id: String,
    pub network_id: u128,
    pub name: String,
    pub realm_id: u128,
    pub first_usable: u32,
    pub last_usable: u32,
    pub gateway: u32,
    pub explicit: bool,
}

impl View for PortRequest {
    type V = PortRequestView;

    open spec fn view(&self) -> PortRequestView {
        PortRequestView {
            project_id: self.project_id@,
            network_id: self.network_id,
            name: self.name@,
            realm_id: self.realm_id,
            first_usable: self.first_usable,
            last_usable: self.last_usable,
            gateway: self.gateway,
            explicit: self.explicit,
        }
    }
}

impl PortRequestView {
    /// Whether the port may have an address: one of the pool that is not the gateway's.
    pub open spec fn allows(self, address: u32) -> bool {
        address != self.gateway && self.first_usable <= address <= self.last_usable
    }

    /// The port with an identifier and an address.
    pub open spec fn port(self, id: u128, address: u32) -> PortRecordView {
        PortRecordView {
            id,
            network_id: self.network_id,
            subnet_id: Some(self.realm_id),
            project_id: self.project_id,
            name: self.name,
            mac_address: port_mac(id),
            fixed_ip: address,
            status: "ACTIVE"@,
            binding_host: None,
            binding_state: None,
        }
    }

    /// The endpoint of the port.
    pub open spec fn endpoint(self, id: u128, address: u32) -> CanonicalEndpointRecordView {
        new_endpoint(id, self.realm_id, self.project_id, address, port_mac(id))
    }
}

/// What the operations of new ports begin with.
pub open spec fn port_creation() -> Seq<char> {
    "o3k:port:create:"@
}

/// How often a port is stored while the store is busy.
pub const PORT_ATTEMPTS: u32 = 8;

/// How long the service waits for a busy store, in milliseconds.
pub const BUSY_WAIT_MS: u64 = 10;

/// Whether a call failed because the store is busy.
pub open spec fn is_busy(r: Result<(), StoreFailureView>) -> bool {
    match r {
        Ok(()) => false,
        Err(f) => contains(f.message, "database is locked"@),
    }
}

/// Stores a port and its endpoint, and tries again while the store is busy.
pub open spec fn insert_port_run(
    endpoint: CanonicalEndpointRecordView,
    port: PortRecordView,
    attempts: nat,
    t: Log,
) -> (Log, Answer<Result<(), StoreFailureView>>)
    decreases attempts,
{
    let t1 = t.after(StoreCallView::InsertEndpointAndPort(endpoint, port));
    match tried(t.reply()) {
        Err(stop) => (t1, Err(stop)),
        Ok(r) => if !is_busy(r) {
            (t1, Ok(r))
        } else {
            let t2 = t1.after(StoreCallView::Sleep(BUSY_WAIT_MS));
            match heard(t1.reply()) {
                Err(stop) => (t2, Err(stop)),
                Ok(()) => if attempts <= 1 {
                    (t2, Ok(r))
                } else {
                    insert_port_run(endpoint, port, (attempts - 1) as nat, t2)
                },
            }
        },
    }
}

/// Stores a port with a reserved quota. There is none in the end where its address is taken.
pub open spec fn store_port_run(
    request: PortRequestView,
    id: u128,
    address: u32,
    reservation: Seq<char>,
    t: Log,
) -> (Log, Answer<Option<PortRecordView>>) {
    let port = request.port(id, address);
    let (t1, inserted) = insert_port_run(
        request.endpoint(id, address),
        port,
        PORT_ATTEMPTS as nat,
        t,
    );
    match inserted {
        Err(stop) => (t1, Err(stop)),
        Ok(Ok(())) => {
            let t2 = t1.after(StoreCallView::CommitReservation(reservation));
            match heard(t1.reply()) {
                Err(stop) => (t2, Err(stop)),
                Ok(()) => (t2, Ok(Some(port))),
            }
        },
        Ok(Err(f)) => {
            let t2 = t1.after(StoreCallView::ReleaseReservation(reservation));
            match heard(t1.reply()) {
                Err(stop) => (t2, Err(stop)),
                Ok(()) => if f.error == StoreErrorView::ResourceAlreadyExists {
                    (t2, Ok(None))
                } else {
                    (t2, halt(map_failure(f)))
                },
            }
        },
    }
}

/// Tries to make a port with an address, within the quota of its project.
pub open spec fn try_address_run(request: PortRequestView, address: u32, t: Log) -> (
    Log,
    Answer<Option<PortRecordView>>,
) {
    let t1 = t.after(StoreCallView::NewId);
    match id_in(t.reply()) {
        Err(stop) => (t1, Err(stop)),
        Ok(id) => {
            let t2 = t1.after(
                StoreCallView::ReserveQuota(
                    request.project_id,
                    creation(port_creation(), request.project_id, id),
                    "ports"@,
                ),
            );
            match reservation_in(t1.reply()) {
                Err(stop) => (t2, Err(stop)),
                Ok(reservation) => store_port_run(request, id, address, reservation, t2),
            }
        },
    }
}

/// Makes a port with the first address from `candidate` to `end` that is allowed and not taken.
pub open spec fn allocate_run(request: PortRequestView, candidate: int, end: u32, t: Log) -> (
    Log,
    Answer<PortRecordView>,
)
    decreases end + 1 - candidate,
{
    if candidate > end || candidate < 0 {
        (t, halt(NetworkErrorView::PoolExhausted))
    } else if request.allows(candidate as u32) {
        let (t1, tried) = try_address_run(request, candidate as u32, t);
        match tried {
            Err(stop) => (t1, Err(stop)),
            Ok(Some(port)) => (t1, Ok(port)),
            Ok(None) => if request.explicit {
                (t1, halt(NetworkErrorView::Conflict))
            } else {
                allocate_run(request, candidate + 1, end, t1)
            },
        }
    } else if request.explicit {
        (t, halt(NetworkErrorView::InvalidRequest))
    } else {
        allocate_run(request, candidate + 1, end, t)
    }
}

/// Makes a port in the chosen realm.
pub open spec fn create_in_realm_run(
    project_id: Seq<char>,
    network_id: u128,
    name: Seq<char>,
    explicit: Option<u32>,
    realm: CanonicalAddressRealmRecordView,
    t: Log,
) -> (Log, Answer<PortRecordView>) {
    let t1 = t.after(StoreCallView::ListPools(project_id, realm.id));
    match pools_in(t.reply()) {
        Err(stop) => (t1, Err(stop)),
        Ok(pools) => if pools.len() == 0 {
            (t1, halt(NetworkErrorView::NotFound))
        } else {
            match pools[0].gateway {
                None => (t1, halt(NetworkErrorView::InvalidRequest)),
                Some(gateway) => {
                    let request = PortRequestView {
                        project_id,
                        network_id,
                        name,
                        realm_id: realm.id,
                        first_usable: pools[0].first_usable,
                        last_usable: pools[0].last_usable,
                        gateway,
                        explicit: explicit is Some,
                    };
                    match explicit {
                        Some(ip) => allocate_run(request, ip as int, ip, t1),
                        None => allocate_run(
                            request,
                            pools[0].first_usable as int,
                            pools[0].last_usable,
                            t1,
                        ),
                    }
                },
            }
        },
    }
}

/// Makes a port of a network, with the requested subnet and address where they are given.
pub open spec fn create_port_run(
    project_id: Seq<char>,
    network_id: u128,
    name: Seq<char>,
    requested: Option<(u128, Option<u32>)>,
    t: Log,
) -> (Log, Answer<PortRecordView>) {
    let (t1, got) = get_canonical_network_run(project_id, network_id, t);
    match got {
        Err(stop) => (t1, Err(stop)),
        Ok(_) => {
            let t2 = t1.after(StoreCallView::ListRealms(project_id, network_id));
            match realms_in(t1.reply()) {
                Err(stop) => (t2, Err(stop)),
                Ok(realms) => match chosen_realm(requested, realms) {
                    Err(e) => (t2, halt(e)),
                    Ok(realm) => create_in_realm_run(
                        project_id,
                        network_id,
                        name,
                        match requested {
                            Some((_, ip)) => ip,
                            None => None,
                        },
                        realm,
                        t2,
                    ),
                },
            }
        },
    }
}

fn busy(r: &Result<(), StoreFailure>) -> (b: bool)
    ensures
        b == is_busy(
            match *r {
                Ok(()) => Ok(()),
                Err(f) => Err(f@),
            },
        ),
{
    match r {
        Ok(()) => false,
        Err(f) => text_contains(f.message.as_str(), "database is locked"),
    }
}

impl NetworkService {
    fn insert_port(&mut self, endpoint: &CanonicalEndpointRecord, port: &PortRecord) -> (r: Result<
        Result<(), StoreFailure>,
        Stop<NetworkError>,
    >)
        ensures
            (final(self)@, trial(r)) == insert_port_run(
                endpoint@,
                port@,
                PORT_ATTEMPTS as nat,
                old(self)@,
            ),
    {
        let mut attempts: u32 = PORT_ATTEMPTS;
        loop
            invariant
                1 <= attempts <= PORT_ATTEMPTS,
                insert_port_run(endpoint@, port@, PORT_ATTEMPTS as nat, old(self)@)
                    == insert_port_run(endpoint@, port@, attempts as nat, self@),
            decreases attempts,
        {
            let inserted = match self.attempt(
                StoreCall::InsertEndpointAndPort(endpoint.copy(), port.copy()),
            ) {
                Err(stop) => return Err(stop),
                Ok(inserted) => inserted,
            };
            if !busy(&inserted) {
                return Ok(inserted);
            }
            match self.tell(StoreCall::Sleep(BUSY_WAIT_MS)) {
                Err(stop) => return Err(stop),
                Ok(()) => {},
            }
            if attempts == 1 {
                return Ok(inserted);
            }
            attempts = attempts - 1;
        }
    }

    fn store_port(&mut self, request: &PortRequest, id: u128, address: u32, reservation: String)
        -> (r: Result<Option<PortRecord>, Stop<NetworkError>>)
        ensures
            (final(self)@, maybe(r)) == store_port_run(
                request@,
                id,
                address,
                reservation@,
                old(self)@,
            ),
    {
        let port = PortRecord {
            id,
            network_id: request.network_id,
            subnet_id: Some(request.realm_id),
            project_id: request.project_id.clone(),
            name: request.name.clone(),
            mac_address: deterministic_port_mac(id),
            fixed_ip: address,
            status: "ACTIVE".to_owned(),
            binding_host: None,
            binding_state: None,
        };
        let endpoint = new_endpoint_of(
            id,
            request.realm_id,
            request.project_id.as_str(),
            address,
            port.mac_address.clone(),
        );
        match self.insert_port(&endpoint, &port) {
            Err(stop) => Err(stop),
            Ok(Ok(())) => match self.tell(StoreCall::CommitReservation(reservation)) {
                Err(stop) => Err(stop),
                Ok(()) => Ok(Some(port)),
            },
            Ok(Err(f)) => match self.tell(StoreCall::ReleaseReservation(reservation)) {
                Err(stop) => Err(stop),
                Ok(()) => match &f.error {
                    StoreError::ResourceAlreadyExists => Ok(None),
                    _ => Err(Stop::Failed(map_store_error(&f))),
                },
            },
        }
    }

    fn try_address(&mut self, request: &PortRequest, address: u32) -> (r: Result<
        Option<PortRecord>,
        Stop<NetworkError>,
    >)
        ensures
            (final(self)@, maybe(r)) == try_address_run(request@, address, old(self)@),
    {
        let id: u128 = match self.ask_id(StoreCall::NewId) {
            Err(stop) => return Err(stop),
            Ok(id) => id,
        };
        let operation = creation_of("o3k:port:create:", request.project_id.as_str(), id);
        match self.ask_reservation(
            StoreCall::ReserveQuota(request.project_id.clone(), operation, "ports".to_owned()),
        ) {
            Err(stop) => Err(stop),
            Ok(reservation) => self.store_port(request, id, address, reservation),
        }
    }

    fn allocate(&mut self, request: &PortRequest, first: u32, end: u32) -> (r: Result<
        PortRecord,
        Stop<NetworkError>,
    >)
        ensures
            (final(self)@, one(r)) == allocate_run(request@, first as int, end, old(self)@),
    {
        if first > end {
            return Err(Stop::Failed(NetworkError::PoolExhausted));
        }
        let mut candidate: u32 = first;
        loop
            invariant
                candidate <= end,
                allocate_run(request@, first as int, end, old(self)@) == allocate_run(
                    request@,
                    candidate as int,
                    end,
                    self@,
                ),
            decreases end - candidate,
        {
            if candidate != request.gateway && candidate >= request.first_usable && candidate
                <= request.last_usable {
                match self.try_address(request, candidate) {
                    Err(stop) => return Err(stop),
                    Ok(Some(port)) => return Ok(port),
                    Ok(None) => {
                        if request.explicit {
                            return Err(Stop::Failed(NetworkError::Conflict));
                        }
                    },
                }
            } else if request.explicit {
                return Err(Stop::Failed(NetworkError::InvalidRequest));
            }
            if candidate == end {
                assert(allocate_run(request@, end + 1, end, self@).1 == halt::<PortRecordView>(
                    NetworkErrorView::PoolExhausted,
                ));
                return Err(Stop::Failed(NetworkError::PoolExhausted));
            }
            candidate = candidate + 1;
        }
    }

    fn create_in_realm(
        &mut self,
        project_id: &str,
        network_id: u128,
        name: String,
        explicit: Option<u32>,
        realm: &CanonicalAddressRealmRecord,
    ) -> (r: Result<PortRecord, Stop<NetworkError>>)
        ensures
            (final(self)@, one(r)) == create_in_realm_run(
                project_id@,
                network_id,
                name@,
                explicit,
                realm@,
                old(self)@,
            ),
    {
        let pools = match self.ask_pools(StoreCall::ListPools(project_id.to_owned(), realm.id)) {
            Err(stop) => return Err(stop),
            Ok(pools) => pools,
        };
        assert(views(pools@).len() == pools@.len());
        if pools.len() == 0 {
            return Err(Stop::Failed(NetworkError::NotFound));
        }
        assert(views(pools@)[0] == pools@[0]@);
        let pool = &pools[0];
        let gateway: u32 = match pool.gateway {
            None => return Err(Stop::Failed(NetworkError::InvalidRequest)),
            Some(g) => g,
        };
        let request = PortRequest {
            project_id: project_id.to_owned(),
            network_id,
            name,
            realm_id: realm.id,
            first_usable: pool.first_usable,
            last_usable: pool.last_usable,
            gateway,
            explicit: explicit.is_some(),
        };
        match explicit {
            Some(ip) => self.allocate(&request, ip, ip),
            None => self.allocate(&request, pool.first_usable, pool.last_usable),
        }
    }

    /// Performs [`create_port_run`].
    pub fn create_port_for_project_with_fixed_ip(
        &mut self,
        project_id: &str,
        network_id: u128,
        name: String,
        requested_fixed_ip: Option<(u128, Option<u32>)>,
    ) -> (r: Result<PortRecord, Stop<NetworkError>>)
        ensures
            (final(self)@, one(r)) == create_port_run(
                project_id@,
                network_id,
                name@,
                requested_fixed_ip,
                old(self)@,
            ),
    {
        match self.get_canonical_network_for_project(project_id, network_id) {
            Err(stop) => return Err(stop),
            Ok(_) => {},
        }
        let realms = match self.ask_realms(
            StoreCall::ListRealms(project_id.to_owned(), network_id),
        ) {
            Err(stop) => return Err(stop),
            Ok(realms) => realms,
        };
        let realm = match choose_realm(requested_fixed_ip, &realms) {
            Err(e) => return Err(Stop::Failed(e)),
            Ok(realm) => realm,
        };
        let explicit: Option<u32> = match requested_fixed_ip {
            Some((_, ip)) => ip,
            None => None,
        };
        self.create_in_realm(project_id, network_id, name, explicit, &realm)
    }

    /// Makes a port of a network, with the first free address of its only subnet.
    pub fn create_port_for_project(&mut self, project_id: &str, network_id: u128, name: String)
        -> (r: Result<PortRecord, Stop<NetworkError>>)
        ensures
            (final(self)@, one(r)) == create_port_run(
                project_id@,
                network_id,
                name@,
                None,
                old(self)@,
            ),
    {
        self.create_port_for_project_with_fixed_ip(project_id, network_id, name, None)
    }
}

// ---------------------------------------------------------------------------
// What clients see
// ---------------------------------------------------------------------------

/// An endpoint as clients see it, with the name and the binding that are kept for clients, where
/// they are kept.
pub open spec fn port_of(
    realm: CanonicalAddressRealmRecordView,
    endpoint: CanonicalEndpointRecordView,
    kept: Option<PortRecordView>,
) -> PortRecordView {
    PortRecordView {
        id: endpoint.id,
        network_id: realm.network_id,
        subnet_id: Some(realm.id),
        project_id: endpoint.project_id,
        name: match kept {
            Some(k) => k.name,
            None => Seq::empty(),
        },
        mac_address: endpoint.mac,
        fixed_ip: endpoint.fixed_ip,
        status: upper(endpoint.state),
        binding_host: match kept {
            Some(k) => k.binding_host,
            None => None,
        },
        binding_state: match kept {
            Some(k) => k.binding_state,
            None => None,
        },
    }
}

/// Shows an endpoint as a port.
pub open spec fn project_port_run(
    project_id: Seq<char>,
    realm: CanonicalAddressRealmRecordView,
    endpoint: CanonicalEndpointRecordView,
    t: Log,
) -> (Log, Answer<PortRecordView>) {
    (
        t.after(StoreCallView::GetPort(project_id, endpoint.id)),
        match port_in(t.reply()) {
            Err(stop) => Err(stop),
            Ok(kept) => Ok(port_of(realm, endpoint, kept)),
        },
    )
}

/// Shows endpoints as ports from the one at `i` on.
pub open spec fn endpoint_ports_run(
    project_id: Seq<char>,
    realm: CanonicalAddressRealmRecordView,
    endpoints: Seq<CanonicalEndpointRecordView>,
    i: int,
    known: Seq<PortRecordView>,
    t: Log,
) -> (Log, Answer<Seq<PortRecordView>>)
    decreases endpoints.len() - i,
{
    if i < 0 || i >= endpoints.len() {
        (t, Ok(known))
    } else {
        let (t1, shown) = project_port_run(project_id, realm, endpoints[i], t);
        match shown {
            Err(stop) => (t1, Err(stop)),
            Ok(port) => endpoint_ports_run(
                project_id,
                realm,
                endpoints,
                i + 1,
                known.push(port),
                t1,
            ),
        }
    }
}

/// Lists the ports of realms from the one at `i` on.
pub open spec fn realm_ports_run(
    project_id: Seq<char>,
    realms: Seq<CanonicalAddressRealmRecordView>,
    i: int,
    known: Seq<PortRecordView>,
    t: Log,
) -> (Log, Answer<Seq<PortRecordView>>)
    decreases realms.len() - i,
{
    if i < 0 || i >= realms.len() {
        (t, Ok(known))
    } else {
        let t1 = t.after(StoreCallView::ListEndpoints(project_id, realms[i].id));
        match endpoints_in(t.reply()) {
            Err(stop) => (t1, Err(stop)),
            Ok(endpoints) => {
                let (t2, shown) = endpoint_ports_run(
                    project_id,
                    realms[i],
                    endpoints,
                    0,
                    known,
                    t1,
                );
                match shown {
                    Err(stop) => (t2, Err(stop)),
                    Ok(all) => realm_ports_run(project_id, realms, i + 1, all, t2),
                }
            },
        }
    }
}

/// Lists the ports of networks from the one at `i` on.
pub open spec fn network_ports_run(
    project_id: Seq<char>,
    networks: Seq<CanonicalNetworkRecordView>,
    i: int,
    known: Seq<PortRecordView>,
    t: Log,
) -> (Log, Answer<Seq<PortRecordView>>)
    decreases networks.len() - i,
{
    if i < 0 || i >= networks.len() {
        (t, Ok(known))
    } else {
        let t1 = t.after(StoreCallView::ListRealms(project_id, networks[i].id));
        match realms_in(t.reply()) {
            Err(stop) => (t1, Err(stop)),
            Ok(realms) => {
                let (t2, shown) = realm_ports_run(project_id, realms, 0, known, t1);
                match shown {
                    Err(stop) => (t2, Err(stop)),
                    Ok(all) => network_ports_run(project_id, networks, i + 1, all, t2),
                }
            },
        }
    }
}

/// Lists the ports of a project.
pub open spec fn list_ports_run(project_id: Seq<char>, t: Log) -> (
    Log,
    Answer<Seq<PortRecordView>>,
) {
    let t1 = t.after(StoreCallView::ListNetworks(project_id));
    match networks_in(t.reply()) {
        Err(stop) => (t1, Err(stop)),
        Ok(networks) => network_ports_run(project_id, networks, 0, Seq::empty(), t1),
    }
}

/// Finds a port.
pub open spec fn get_port_run(project_id: Seq<char>, id: u128, t: Log) -> (
    Log,
    Answer<PortRecordView>,
) {
    let t1 = t.after(StoreCallView::GetEndpoint(project_id, id));
    match found(endpoint_in(t.reply())) {
        Err(stop) => (t1, Err(stop)),
        Ok(endpoint) => {
            let (t2, got) = get_realm_run(project_id, endpoint.realm_id, t1);
            match got {
                Err(stop) => (t2, Err(stop)),
                Ok(realm) => project_port_run(project_id, realm, endpoint, t2),
            }
        },
    }
}

/// What the names of the ports begin with that belong to servers.
pub open spec fn server_prefix() -> Seq<char> {
    "o3k-server:"@
}

/// Renames a port. One that belongs to a server keeps its name.
pub open spec fn rename_port_run(project_id: Seq<char>, id: u128, name: Seq<char>, t: Log) -> (
    Log,
    Answer<PortRecordView>,
) {
    let (t1, got) = get_port_run(project_id, id, t);
    match got {
        Err(stop) => (t1, Err(stop)),
        Ok(current) => if starts_with(current.name, server_prefix()) {
            (t1, halt(NetworkErrorView::Conflict))
        } else {
            let t2 = t1.after(StoreCallView::UpdatePortName(project_id, id, name));
            match done(t1.reply()) {
                Err(stop) => (t2, Err(stop)),
                Ok(()) => get_port_run(project_id, id, t2),
            }
        },
    }
}

/// Detaches policies from an endpoint, from the attachment at `i` on.
pub open spec fn detach_policies_run(
    project_id: Seq<char>,
    attachments: Seq<CanonicalPolicyAttachmentRecordView>,
    i: int,
    t: Log,
) -> (Log, Answer<()>)
    decreases attachments.len() - i,
{
    if i < 0 || i >= attachments.len() {
        (t, Ok(()))
    } else {
        let t1 = t.after(StoreCallView::DeletePolicyAttachment(project_id, attachments[i].id));
        match done(t.reply()) {
            Err(stop) => (t1, Err(stop)),
            Ok(()) => detach_policies_run(project_id, attachments, i + 1, t1),
        }
    }
}

/// Removes a port with all that attaches policies to it, and what was set aside for it. The
/// policies stay.
pub open spec fn delete_port_run(project_id: Seq<char>, id: u128, t: Log) -> (Log, Answer<()>) {
    let t1 = t.after(StoreCallView::ListEndpointAttachments(project_id, id));
    match policy_attachments_in(t.reply()) {
        Err(stop) => (t1, Err(stop)),
        Ok(attachments) => {
            let (t2, detached) = detach_policies_run(project_id, attachments, 0, t1);
            match detached {
                Err(stop) => (t2, Err(stop)),
                Ok(()) => {
                    let t3 = t2.after(StoreCallView::DeleteEndpointAndPort(project_id, id));
                    match done(t2.reply()) {
                        Err(stop) => (t3, Err(stop)),
                        Ok(()) => (
                            t3.after(
                                StoreCallView::ReleaseForOperation(
                                    creation(port_creation(), project_id, id),
                                ),
                            ),
                            heard(t3.reply()),
                        ),
                    }
                },
            }
        },
    }
}

impl NetworkService {
    fn project_canonical_port(
        &mut self,
        project_id: &str,
        realm: &CanonicalAddressRealmRecord,
        endpoint: &CanonicalEndpointRecord,
    ) -> (r: Result<PortRecord, Stop<NetworkError>>)
        ensures
            (final(self)@, one(r)) == project_port_run(
                project_id@,
                realm@,
                endpoint@,
                old(self)@,
            ),
    {
        let kept = match self.ask_port(StoreCall::GetPort(project_id.to_owned(), endpoint.id)) {
            Err(stop) => return Err(stop),
            Ok(kept) => kept,
        };
        let (name, binding_host, binding_state): (String, Option<String>, Option<String>) =
            match kept {
            Some(k) => (k.name, k.binding_host, k.binding_state),
            None => {
                let none = String::new();
                assert(none@ =~= Seq::<char>::empty());
                (none, None, None)
            },
        };
        Ok(
            PortRecord {
                id: endpoint.id,
                network_id: realm.network_id,
                subnet_id: Some(realm.id),
                project_id: endpoint.project_id.clone(),
                name,
                mac_address: endpoint.mac.clone(),
                fixed_ip: endpoint.fixed_ip,
                status: to_upper(endpoint.state.as_str()),
                binding_host,
                binding_state,
            },
        )
    }

    fn endpoint_ports(
        &mut self,
        project_id: &str,
        realm: &CanonicalAddressRealmRecord,
        endpoints: &Vec<CanonicalEndpointRecord>,
        known: Vec<PortRecord>,
    ) -> (r: Result<Vec<PortRecord>, Stop<NetworkError>>)
        ensures
            (final(self)@, many(r)) == endpoint_ports_run(
                project_id@,
                realm@,
                views(endpoints@),
                0,
                views(known@),
                old(self)@,
            ),
    {
        let ghost all = views(endpoints@);
        let ghost whole = endpoint_ports_run(project_id@, realm@, all, 0, views(known@), self@);
        let mut out = known;
        for i in 0..endpoints.len()
            invariant
                all == views(endpoints@),
                whole == endpoint_ports_run(
                    project_id@,
                    realm@,
                    all,
                    0,
                    views(known@),
                    old(self)@,
                ),
                whole == endpoint_ports_run(
                    project_id@,
                    realm@,
                    all,
                    i as int,
                    views(out@),
                    self@,
                ),
        {
            assert(all[i as int] == endpoints@[i as int]@);
            match self.project_canonical_port(project_id, realm, &endpoints[i]) {
                Err(stop) => return Err(stop),
                Ok(port) => {
                    let ghost so_far = views(out@);
                    let ghost v = port@;
                    out.push(port);
                    assert(views(out@) =~= so_far.push(v));
                },
            }
        }
        Ok(out)
    }

    fn realm_ports(
        &mut self,
        project_id: &str,
        realms: &Vec<CanonicalAddressRealmRecord>,
        known: Vec<PortRecord>,
    ) -> (r: Result<Vec<PortRecord>, Stop<NetworkError>>)
        ensures
            (final(self)@, many(r)) == realm_ports_run(
                project_id@,
                views(realms@),
                0,
                views(known@),
                old(self)@,
            ),
    {
        let ghost all = views(realms@);
        let ghost whole = realm_ports_run(project_id@, all, 0, views(known@), self@);
        let mut out = known;
        for i in 0..realms.len()
            invariant
                all == views(realms@),
                whole == realm_ports_run(project_id@, all, 0, views(known@), old(self)@),
                whole == realm_ports_run(project_id@, all, i as int, views(out@), self@),
        {
            assert(all[i as int] == realms@[i as int]@);
            let endpoints = match self.ask_endpoints(
                StoreCall::ListEndpoints(project_id.to_owned(), realms[i].id),
            ) {
                Err(stop) => return Err(stop),
                Ok(endpoints) => endpoints,
            };
            match self.endpoint_ports(project_id, &realms[i], &endpoints, out) {
                Err(stop) => return Err(stop),
                Ok(more) => {
                    out = more;
                },
            }
        }
        Ok(out)
    }

    /// Performs [`list_ports_run`].
    pub fn list_ports_for_project(&mut self, project_id: &str) -> (r: Result<
        Vec<PortRecord>,
        Stop<NetworkError>,
    >)
        ensures
            (final(self)@, many(r)) == list_ports_run(project_id@, old(self)@),
    {
        let networks = match self.ask_networks(StoreCall::ListNetworks(project_id.to_owned())) {
            Err(stop) => return Err(stop),
            Ok(networks) => networks,
        };
        let ghost all = views(networks@);
        let mut out: Vec<PortRecord> = Vec::new();
        assert(views(out@) =~= Seq::<PortRecordView>::empty());
        for i in 0..networks.len()
            invariant
                all == views(networks@),
                list_ports_run(project_id@, old(self)@) == network_ports_run(
                    project_id@,
                    all,
                    i as int,
                    views(out@),
                    self@,
                ),
        {
            assert(all[i as int] == networks@[i as int]@);
            let realms = match self.ask_realms(
                StoreCall::ListRealms(project_id.to_owned(), networks[i].id),
            ) {
                Err(stop) => return Err(stop),
                Ok(realms) => realms,
            };
            match self.realm_ports(project_id, &realms, out) {
                Err(stop) => return Err(stop),
                Ok(more) => {
                    out = more;
                },
            }
        }
        Ok(out)
    }

    /// Performs [`get_port_run`].
    pub fn get_port_for_project(&mut self, project_id: &str, id: u128) -> (r: Result<
        PortRecord,
        Stop<NetworkError>,
    >)
        ensures
            (final(self)@, one(r)) == get_port_run(project_id@, id, old(self)@),
    {
        let endpoint = match must_find(
            self.ask_endpoint(StoreCall::GetEndpoint(project_id.to_owned(), id)),
        ) {
            Err(stop) => return Err(stop),
            Ok(endpoint) => endpoint,
        };
        match self.get_canonical_realm_for_project(project_id, endpoint.realm_id) {
            Err(stop) => Err(stop),
            Ok(realm) => self.project_canonical_port(project_id, &realm, &endpoint),
        }
    }

    /// Performs [`rename_port_run`].
    pub fn update_port_name_for_project(&mut self, project_id: &str, id: u128, name: String) -> (r:
        Result<PortRecord, Stop<NetworkError>>)
        ensures
            (final(self)@, one(r)) == rename_port_run(project_id@, id, name@, old(self)@),
    {
        let current = match self.get_port_for_project(project_id, id) {
            Err(stop) => return Err(stop),
            Ok(current) => current,
        };
        if text_starts_with(current.name.as_str(), "o3k-server:") {
            return Err(Stop::Failed(NetworkError::Conflict));
        }
        match self.perform(StoreCall::UpdatePortName(project_id.to_owned(), id, name)) {
            Err(stop) => Err(stop),
            Ok(()) => self.get_port_for_project(project_id, id),
        }
    }

    /// Finds a port whoever owns it.
    pub fn find_port_by_id(&mut self, id: u128) -> (r: Result<
        Option<PortRecord>,
        Stop<NetworkError>,
    >)
        ensures
            final(self)@ == old(self)@.after(StoreCallView::GetPortById(id)),
            maybe(r) == port_in(old(self)@.reply()),
    {
        self.ask_port(StoreCall::GetPortById(id))
    }

    /// Performs [`detach_policies_run`].
    pub(crate) fn detach_policies(
        &mut self,
        project_id: &str,
        attachments: &Vec<CanonicalPolicyAttachmentRecord>,
    ) -> (r: Result<(), Stop<NetworkError>>)
        ensures
            (final(self)@, unit(r)) == detach_policies_run(
                project_id@,
                views(attachments@),
                0,
                old(self)@,
            ),
    {
        let ghost all = views(attachments@);
        let ghost whole = detach_policies_run(project_id@, all, 0, self@);
        for i in 0..attachments.len()
            invariant
                all == views(attachments@),
                whole == detach_policies_run(project_id@, all, 0, old(self)@),
                whole == detach_policies_run(project_id@, all, i as int, self@),
        {
            assert(all[i as int] == attachments@[i as int]@);
            match self.perform(
                StoreCall::DeletePolicyAttachment(project_id.to_owned(), attachments[i].id),
            ) {
                Err(stop) => return Err(stop),
                Ok(()) => {},
            }
        }
        Ok(())
    }

    /// Performs [`delete_port_run`].
    pub fn delete_port_for_project(&mut self, project_id: &str, id: u128) -> (r: Result<
        (),
        Stop<NetworkError>,
    >)
        ensures
            (final(self)@, unit(r)) == delete_port_run(project_id@, id, old(self)@),
    {
        let attachments = match self.ask_policy_attachments(
            StoreCall::ListEndpointAttachments(project_id.to_owned(), id),
        ) {
            Err(stop) => return Err(stop),
            Ok(attachments) => attachments,
        };
        match self.detach_policies(project_id, &attachments) {
            Err(stop) => return Err(stop),
            Ok(()) => {},
        }
        match self.perform(StoreCall::DeleteEndpointAndPort(project_id.to_owned(), id)) {
            Err(stop) => return Err(stop),
            Ok(()) => {},
        }
        let operation = creation_of("o3k:port:create:", project_id, id);
        self.tell(StoreCall::ReleaseForOperation(operation))
    }
}

// ---------------------------------------------------------------------------
// Laws
// ---------------------------------------------------------------------------

proof fn lemma_stored_port(
    request: PortRequestView,
    id: u128,
    address: u32,
    reservation: Seq<char>,
    t: Log,
)
    ensures
        store_port_run(request, id, address, reservation, t).1 matches Ok(Some(port)) ==> port
            == request.port(id, address),
{
}

proof fn lemma_allocated(request: PortRequestView, candidate: int, end: u32, t: Log)
    requires
        0 <= candidate,
    ensures
        allocate_run(request, candidate, end, t).1 matches Ok(port) ==> candidate
            <= port.fixed_ip <= end && request.allows(port.fixed_ip) && port.mac_address
            == port_mac(port.id) && port.subnet_id == Some(request.realm_id),
    decreases end + 1 - candidate,
{
    if candidate <= end {
        if request.allows(candidate as u32) {
            let t1 = t.after(StoreCallView::NewId);
            match id_in(t.reply()) {
                Ok(id) => {
                    let t2 = t1.after(
                        StoreCallView::ReserveQuota(
                            request.project_id,
                            creation(port_creation(), request.project_id, id),
                            "ports"@,
                        ),
                    );
                    match reservation_in(t1.reply()) {
                        Ok(reservation) => lemma_stored_port(
                            request,
                            id,
                            candidate as u32,
                            reservation,
                            t2,
                        ),
                        Err(_) => {},
                    }
                },
                Err(_) => {},
            }
            let (t1, tried) = try_address_run(request, candidate as u32, t);
            if tried == Ok::<Option<PortRecordView>, Stop<NetworkErrorView>>(None) {
                lemma_allocated(request, candidate + 1, end, t1);
            }
        } else {
            lemma_allocated(request, candidate + 1, end, t);
        }
    }
}

/// A port that is made has an address of the pool of its subnet, which is not that of the
/// gateway, and the requested one where one was requested. Its hardware address follows from its
/// identifier.
pub proof fn lemma_port_address(
    project_id: Seq<char>,
    network_id: u128,
    name: Seq<char>,
    explicit: Option<u32>,
    realm: CanonicalAddressRealmRecordView,
    t: Log,
)
    requires
        create_in_realm_run(project_id, network_id, name, explicit, realm, t).1 is Ok,
    ensures
        ({
            let port = create_in_realm_run(
                project_id,
                network_id,
                name,
                explicit,
                realm,
                t,
            ).1->Ok_0;
            let pool = pools_in(t.reply())->Ok_0[0];
            &&& pool.first_usable <= port.fixed_ip <= pool.last_usable
            &&& Some(port.fixed_ip) != pool.gateway
            &&& explicit matches Some(ip) ==> port.fixed_ip == ip
            &&& port.mac_address == port_mac(port.id)
            &&& port.subnet_id == Some(realm.id)
        }),
{
    let pool = pools_in(t.reply())->Ok_0[0];
    let request = PortRequestView {
        project_id,
        network_id,
        name,
        realm_id: realm.id,
        first_usable: pool.first_usable,
        last_usable: pool.last_usable,
        gateway: pool.gateway->Some_0,
        explicit: explicit is Some,
    };
    let t1 = t.after(StoreCallView::ListPools(project_id, realm.id));
    match explicit {
        Some(ip) => lemma_allocated(request, ip as int, ip, t1),
        None => lemma_allocated(request, pool.first_usable as int, pool.last_usable, t1),
    }
}

proof fn lemma_inserted(
    endpoint: CanonicalEndpointRecordView,
    port: PortRecordView,
    attempts: nat,
    t: Log,
)
    ensures
        insert_port_run(endpoint, port, attempts, t).1 matches Err(stop) ==> stop is Pending,
    decreases attempts,
{
    if attempts > 1 {
        let t2 = t.after(StoreCallView::InsertEndpointAndPort(endpoint, port)).after(
            StoreCallView::Sleep(BUSY_WAIT_MS),
        );
        lemma_inserted(endpoint, port, (attempts - 1) as nat, t2);
    }
}

/// What is set aside for a port is used where the port is stored, and given back where it is not,
/// also where only its address is taken.
pub proof fn lemma_port_quota_is_settled(
    request: PortRequestView,
    id: u128,
    address: u32,
    reservation: Seq<char>,
    t: Log,
)
    ensures
        ({
            let (t1, r) = store_port_run(request, id, address, reservation, t);
            match r {
                Ok(Some(_)) => t1.issued.last() == StoreCallView::CommitReservation(reservation),
                Ok(None) => t1.issued.last() == StoreCallView::ReleaseReservation(reservation),
                Err(Stop::Failed(_)) => t1.issued.last() == StoreCallView::ReleaseReservation(
                    reservation,
                ),
                Err(Stop::Pending) => true,
            }
        }),
{
    lemma_inserted(
        request.endpoint(id, address),
        request.port(id, address),
        PORT_ATTEMPTS as nat,
        t,
    );
}

} // verus!
