//! Address realms, their pools and their endpoints.
use super::access::{found, halt, must_find};
use super::calls::{
    done, heard, id_in, many, one, realm_in, realms_in, tried, Answer, Log, NetworkService,
    StoreCall, StoreCallView,
};
use super::errors::{map_failure, map_store_error, NetworkError, NetworkErrorView};
use super::net::{net_value, Ipv4Net};
use super::networks::get_canonical_network_run;
use super::records::{
    CanonicalAddressPoolRecord, CanonicalAddressPoolRecordView, CanonicalAddressRealmRecord,
    CanonicalAddressRealmRecordView, CanonicalEndpointRecord, CanonicalEndpointRecordView,
    ResourceRecord, ResourceRecordView,
};
use crate::model::Model;
use crate::session::Stop;
use crate::text::{is_blank, same, trim};
use vstd::prelude::*;

verus! {

// ---------------------------------------------------------------------------
// Realms
// ---------------------------------------------------------------------------

/// The record of a new realm.
pub open spec fn new_realm(
    id: u128,
    network_id: u128,
    project_id: Seq<char>,
    prefix: Seq<char>,
    overlapping_prefixes: bool,
) -> CanonicalAddressRealmRecordView {
    CanonicalAddressRealmRecordView {
        id,
        network_id,
        project_id,
        prefix,
        overlapping_prefixes,
        generation: 1,
        state: "active"@,
    }
}

pub(crate) fn new_realm_of(
    id: u128,
    network_id: u128,
    project_id: &str,
    prefix: String,
    overlapping_prefixes: bool,
) -> (r: CanonicalAddressRealmRecord)
    ensures
        r@ == new_realm(id, network_id, project_id@, prefix@, overlapping_prefixes),
{
    CanonicalAddressRealmRecord {
        id,
        network_id,
        project_id: project_id.to_owned(),
        prefix,
        overlapping_prefixes,
        generation: 1,
        state: "active".to_owned(),
    }
}

/// The lifecycle of a new realm.
pub open spec fn realm_resource(id: u128, project_id: Seq<char>) -> ResourceRecordView {
    ResourceRecordView {
        id,
        kind: "network:address_realm"@,
        project_id,
        generation: 1,
        observed_generation: 1,
        desired_state: "active"@,
        observed_state: "active"@,
        provider_id: None,
    }
}

fn realm_resource_of(id: u128, project_id: &str) -> (r: ResourceRecord)
    ensures
        r@ == realm_resource(id, project_id@),
{
    ResourceRecord {
        id,
        kind: "network:address_realm".to_owned(),
        project_id: project_id.to_owned(),
        generation: 1,
        observed_generation: 1,
        desired_state: "active".to_owned(),
        observed_state: "active".to_owned(),
        provider_id: None,
    }
}

/// Stores a new realm and its lifecycle. Where the second fails, the first is undone.
pub open spec fn store_realm_run(realm: CanonicalAddressRealmRecordView, t: Log) -> (
    Log,
    Answer<CanonicalAddressRealmRecordView>,
) {
    let t1 = t.after(StoreCallView::InsertRealm(realm));
    match done(t.reply()) {
        Err(stop) => (t1, Err(stop)),
        Ok(()) => {
            let t2 = t1.after(
                StoreCallView::InsertResource(realm_resource(realm.id, realm.project_id)),
            );
            match tried(t1.reply()) {
                Err(stop) => (t2, Err(stop)),
                Ok(Ok(())) => (t2, Ok(realm)),
                Ok(Err(f)) => {
                    let t3 = t2.after(StoreCallView::DeleteRealm(realm.project_id, realm.id));
                    match heard(t2.reply()) {
                        Err(stop) => (t3, Err(stop)),
                        Ok(()) => (t3, halt(map_failure(f))),
                    }
                },
            }
        },
    }
}

/// Makes a realm in an active network. Its prefix is written in one way, whatever bits behind it
/// were given.
pub open spec fn create_realm_run(
    project_id: Seq<char>,
    network_id: u128,
    prefix: Seq<char>,
    overlapping_prefixes: bool,
    t: Log,
) -> (Log, Answer<CanonicalAddressRealmRecordView>) {
    match net_value(prefix) {
        None => (t, halt(NetworkErrorView::InvalidRequest)),
        Some(net) => {
            let (t1, got) = get_canonical_network_run(project_id, network_id, t);
            match got {
                Err(stop) => (t1, Err(stop)),
                Ok(network) => if network.state != "active"@ {
                    (t1, halt(NetworkErrorView::Conflict))
                } else {
                    let t2 = t1.after(StoreCallView::NewId);
                    match id_in(t1.reply()) {
                        Err(stop) => (t2, Err(stop)),
                        Ok(id) => store_realm_run(
                            new_realm(
                                id,
                                network_id,
                                project_id,
                                net.text(),
                                overlapping_prefixes,
                            ),
                            t2,
                        ),
                    }
                },
            }
        },
    }
}

/// Lists the realms of a network that can be found.
pub open spec fn list_realms_run(project_id: Seq<char>, network_id: u128, t: Log) -> (
    Log,
    Answer<Seq<CanonicalAddressRealmRecordView>>,
) {
    let (t1, got) = get_canonical_network_run(project_id, network_id, t);
    match got {
        Err(Stop::Pending) => (t1, Err(Stop::Pending)),
        Err(Stop::Failed(_)) => (t1, halt(NetworkErrorView::NotFound)),
        Ok(_) => (
            t1.after(StoreCallView::ListRealms(project_id, network_id)),
            realms_in(t1.reply()),
        ),
    }
}

/// Finds a realm.
pub open spec fn get_realm_run(project_id: Seq<char>, realm_id: u128, t: Log) -> (
    Log,
    Answer<CanonicalAddressRealmRecordView>,
) {
    (t.after(StoreCallView::GetRealm(project_id, realm_id)), found(realm_in(t.reply())))
}

impl NetworkService {
    fn store_realm(&mut self, realm: CanonicalAddressRealmRecord) -> (r: Result<
        CanonicalAddressRealmRecord,
        Stop<NetworkError>,
    >)
        ensures
            (final(self)@, one(r)) == store_realm_run(realm@, old(self)@),
    {
        match self.perform(StoreCall::InsertRealm(realm.copy())) {
            Err(stop) => return Err(stop),
            Ok(()) => {},
        }
        let resource = realm_resource_of(realm.id, realm.project_id.as_str());
        match self.attempt(StoreCall::InsertResource(resource)) {
            Err(stop) => Err(stop),
            Ok(Ok(())) => Ok(realm),
            Ok(Err(f)) => {
                match self.tell(StoreCall::DeleteRealm(realm.project_id.clone(), realm.id)) {
                    Err(stop) => Err(stop),
                    Ok(()) => Err(Stop::Failed(map_store_error(&f))),
                }
            },
        }
    }

    /// Performs [`create_realm_run`].
    pub fn create_canonical_realm_for_project(
        &mut self,
        project_id: &str,
        network_id: u128,
        prefix: &str,
        overlapping_prefixes: bool,
    ) -> (r: Result<CanonicalAddressRealmRecord, Stop<NetworkError>>)
        ensures
            (final(self)@, one(r)) == create_realm_run(
                project_id@,
                network_id,
                prefix@,
                overlapping_prefixes,
                old(self)@,
            ),
    {
        let net = match Ipv4Net::parse(prefix) {
            Err(e) => return Err(Stop::Failed(e)),
            Ok(net) => net,
        };
        let network = match self.get_canonical_network_for_project(project_id, network_id) {
            Err(stop) => return Err(stop),
            Ok(network) => network,
        };
        if !same(network.state.as_str(), "active") {
            return Err(Stop::Failed(NetworkError::Conflict));
        }
        let id: u128 = match self.ask_id(StoreCall::NewId) {
            Err(stop) => return Err(stop),
            Ok(id) => id,
        };
        let realm = new_realm_of(
            id,
            network_id,
            project_id,
            net.canonical(),
            overlapping_prefixes,
        );
        self.store_realm(realm)
    }

    /// Performs [`list_realms_run`].
    pub fn list_canonical_realms_for_project(&mut self, project_id: &str, network_id: u128) -> (r:
        Result<Vec<CanonicalAddressRealmRecord>, Stop<NetworkError>>)
        ensures
            (final(self)@, many(r)) == list_realms_run(project_id@, network_id, old(self)@),
    {
        match self.get_canonical_network_for_project(project_id, network_id) {
            Err(Stop::Pending) => return Err(Stop::Pending),
            Err(Stop::Failed(_)) => return Err(Stop::Failed(NetworkError::NotFound)),
            Ok(_) => {},
        }
        self.ask_realms(StoreCall::ListRealms(project_id.to_owned(), network_id))
    }

    /// Performs [`get_realm_run`].
    pub fn get_canonical_realm_for_project(&mut self, project_id: &str, realm_id: u128) -> (r:
        Result<CanonicalAddressRealmRecord, Stop<NetworkError>>)
        ensures
            (final(self)@, one(r)) == get_realm_run(project_id@, realm_id, old(self)@),
    {
        must_find(self.ask_realm(StoreCall::GetRealm(project_id.to_owned(), realm_id)))
    }
}

// ---------------------------------------------------------------------------
// Pools
// ---------------------------------------------------------------------------

/// Whether a pool of addresses lies in its network.
pub open spec fn pool_inside(net: Ipv4Net, first_usable: u32, last_usable: u32) -> bool {
    first_usable <= last_usable && net.has(first_usable) && net.has(last_usable)
}

/// Whether a pool fits into a realm: the network of the pool is a part of that of the realm, and
/// the gateway of the pool, where it has one, lies in it.
pub open spec fn pool_fits(realm: Ipv4Net, net: Ipv4Net, gateway: Option<u32>) -> bool {
    &&& realm.has(net.network)
    &&& net.prefix >= realm.prefix
    &&& gateway matches Some(g) ==> net.has(g)
}

/// The record of a new pool.
pub open spec fn new_pool(
    id: u128,
    realm_id: u128,
    project_id: Seq<char>,
    prefix: Seq<char>,
    gateway: Option<u32>,
    first_usable: u32,
    last_usable: u32,
) -> CanonicalAddressPoolRecordView {
    CanonicalAddressPoolRecordView {
        id,
        realm_id,
        project_id,
        prefix,
        gateway,
        first_usable,
        last_usable,
        generation: 1,
        state: "active"@,
    }
}

pub(crate) fn new_pool_of(
    id: u128,
    realm_id: u128,
    project_id: &str,
    prefix: String,
    gateway: Option<u32>,
    first_usable: u32,
    last_usable: u32,
) -> (r: CanonicalAddressPoolRecord)
    ensures
        r@ == new_pool(
            id,
            realm_id,
            project_id@,
            prefix@,
            gateway,
            first_usable,
            last_usable,
        ),
{
    CanonicalAddressPoolRecord {
        id,
        realm_id,
        project_id: project_id.to_owned(),
        prefix,
        gateway,
        first_usable,
        last_usable,
        generation: 1,
        state: "active".to_owned(),
    }
}

/// Stores a new pool of a realm.
pub open spec fn store_pool_run(
    project_id: Seq<char>,
    realm_id: u128,
    net: Ipv4Net,
    gateway: Option<u32>,
    first_usable: u32,
    last_usable: u32,
    t: Log,
) -> (Log, Answer<CanonicalAddressPoolRecordView>) {
    let t1 = t.after(StoreCallView::NewId);
    match id_in(t.reply()) {
        Err(stop) => (t1, Err(stop)),
        Ok(id) => {
            let pool = new_pool(
                id,
                realm_id,
                project_id,
                net.text(),
                gateway,
                first_usable,
                last_usable,
            );
            let t2 = t1.after(StoreCallView::InsertPool(pool));
            match done(t1.reply()) {
                Err(stop) => (t2, Err(stop)),
                Ok(()) => (t2, Ok(pool)),
            }
        },
    }
}

/// Makes a pool of addresses in an active realm.
pub open spec fn create_pool_run(
    project_id: Seq<char>,
    realm_id: u128,
    prefix: Seq<char>,
    gateway: Option<u32>,
    first_usable: u32,
    last_usable: u32,
    t: Log,
) -> (Log, Answer<CanonicalAddressPoolRecordView>) {
    match net_value(prefix) {
        None => (t, halt(NetworkErrorView::InvalidRequest)),
        Some(net) => if !pool_inside(net, first_usable, last_usable) {
            (t, halt(NetworkErrorView::InvalidRequest))
        } else {
            let (t1, got) = get_realm_run(project_id, realm_id, t);
            match got {
                Err(stop) => (t1, Err(stop)),
                Ok(realm) => if realm.state != "active"@ {
                    (t1, halt(NetworkErrorView::Conflict))
                } else {
                    match net_value(realm.prefix) {
                        None => (t1, halt(NetworkErrorView::InvalidRequest)),
                        Some(around) => if !pool_fits(around, net, gateway) {
                            (t1, halt(NetworkErrorView::InvalidRequest))
                        } else {
                            store_pool_run(
                                project_id,
                                realm_id,
                                net,
                                gateway,
                                first_usable,
                                last_usable,
                                t1,
                            )
                        },
                    }
                },
            }
        },
    }
}

impl NetworkService {
    fn store_pool(
        &mut self,
        project_id: &str,
        realm_id: u128,
        net: Ipv4Net,
        gateway: Option<u32>,
        first_usable: u32,
        last_usable: u32,
    ) -> (r: Result<CanonicalAddressPoolRecord, Stop<NetworkError>>)
        ensures
            (final(self)@, one(r)) == store_pool_run(
                project_id@,
                realm_id,
                net,
                gateway,
                first_usable,
                last_usable,
                old(self)@,
            ),
    {
        let id: u128 = match self.ask_id(StoreCall::NewId) {
            Err(stop) => return Err(stop),
            Ok(id) => id,
        };
        let pool = new_pool_of(
            id,
            realm_id,
            project_id,
            net.canonical(),
            gateway,
            first_usable,
            last_usable,
        );
        match self.perform(StoreCall::InsertPool(pool.copy())) {
            Err(stop) => Err(stop),
            Ok(()) => Ok(pool),
        }
    }

    /// Performs [`create_pool_run`].
    pub fn create_canonical_pool_for_project(
        &mut self,
        project_id: &str,
        realm_id: u128,
        prefix: &str,
        gateway: Option<u32>,
        first_usable: u32,
        last_usable: u32,
    ) -> (r: Result<CanonicalAddressPoolRecord, Stop<NetworkError>>)
        ensures
            (final(self)@, one(r)) == create_pool_run(
                project_id@,
                realm_id,
                prefix@,
                gateway,
                first_usable,
                last_usable,
                old(self)@,
            ),
    {
        let net = match Ipv4Net::parse(prefix) {
            Err(e) => return Err(Stop::Failed(e)),
            Ok(net) => net,
        };
        if first_usable > last_usable || !net.contains(first_usable) || !net.contains(last_usable) {
            return Err(Stop::Failed(NetworkError::InvalidRequest));
        }
        let realm = match self.get_canonical_realm_for_project(project_id, realm_id) {
            Err(stop) => return Err(stop),
            Ok(realm) => realm,
        };
        if !same(realm.state.as_str(), "active") {
            return Err(Stop::Failed(NetworkError::Conflict));
        }
        let around = match Ipv4Net::parse(realm.prefix.as_str()) {
            Err(e) => return Err(Stop::Failed(e)),
            Ok(around) => around,
        };
        if !around.contains(net.network) || net.prefix < around.prefix {
            return Err(Stop::Failed(NetworkError::InvalidRequest));
        }
        match gateway {
            Some(g) => {
                if !net.contains(g) {
                    return Err(Stop::Failed(NetworkError::InvalidRequest));
                }
            },
            None => {},
        }
        self.store_pool(project_id, realm_id, net, gateway, first_usable, last_usable)
    }
}

// ---------------------------------------------------------------------------
// Endpoints
// ---------------------------------------------------------------------------

/// The record of a new endpoint.
pub open spec fn new_endpoint(
    id: u128,
    realm_id: u128,
    project_id: Seq<char>,
    fixed_ip: u32,
    mac: Seq<char>,
) -> CanonicalEndpointRecordView {
    CanonicalEndpointRecordView {
        id,
        realm_id,
        project_id,
        fixed_ip,
        mac,
        generation: 1,
        state: "active"@,
    }
}

pub(crate) fn new_endpoint_of(
    id: u128,
    realm_id: u128,
    project_id: &str,
    fixed_ip: u32,
    mac: String,
) -> (r: CanonicalEndpointRecord)
    ensures
        r@ == new_endpoint(id, realm_id, project_id@, fixed_ip, mac@),
{
    CanonicalEndpointRecord {
        id,
        realm_id,
        project_id: project_id.to_owned(),
        fixed_ip,
        mac,
        generation: 1,
        state: "active".to_owned(),
    }
}

/// Stores a new endpoint.
pub open spec fn store_endpoint_run(
    project_id: Seq<char>,
    realm_id: u128,
    fixed_ip: u32,
    mac: Seq<char>,
    t: Log,
) -> (Log, Answer<CanonicalEndpointRecordView>) {
    let t1 = t.after(StoreCallView::NewId);
    match id_in(t.reply()) {
        Err(stop) => (t1, Err(stop)),
        Ok(id) => {
            let endpoint = new_endpoint(id, realm_id, project_id, fixed_ip, mac);
            let t2 = t1.after(StoreCallView::InsertEndpoint(endpoint));
            match done(t1.reply()) {
                Err(stop) => (t2, Err(stop)),
                Ok(()) => (t2, Ok(endpoint)),
            }
        },
    }
}

/// Makes an endpoint whose address lies in an active realm.
pub open spec fn create_endpoint_run(
    project_id: Seq<char>,
    realm_id: u128,
    fixed_ip: u32,
    mac: Seq<char>,
    t: Log,
) -> (Log, Answer<CanonicalEndpointRecordView>) {
    if trim(mac).len() == 0 {
        (t, halt(NetworkErrorView::InvalidRequest))
    } else {
        let (t1, got) = get_realm_run(project_id, realm_id, t);
        match got {
            Err(stop) => (t1, Err(stop)),
            Ok(realm) => match net_value(realm.prefix) {
                None => (t1, halt(NetworkErrorView::InvalidRequest)),
                Some(net) => if !net.has(fixed_ip) || realm.state != "active"@ {
                    (t1, halt(NetworkErrorView::InvalidRequest))
                } else {
                    store_endpoint_run(project_id, realm_id, fixed_ip, mac, t1)
                },
            },
        }
    }
}

impl NetworkService {
    /// Performs [`create_endpoint_run`].
    pub fn create_canonical_endpoint_for_project(
        &mut self,
        project_id: &str,
        realm_id: u128,
        fixed_ip: u32,
        mac: String,
    ) -> (r: Result<CanonicalEndpointRecord, Stop<NetworkError>>)
        ensures
            (final(self)@, one(r)) == create_endpoint_run(
                project_id@,
                realm_id,
                fixed_ip,
                mac@,
                old(self)@,
            ),
    {
        if is_blank(mac.as_str()) {
            return Err(Stop::Failed(NetworkError::InvalidRequest));
        }
        let realm = match self.get_canonical_realm_for_project(project_id, realm_id) {
            Err(stop) => return Err(stop),
            Ok(realm) => realm,
        };
        let net = match Ipv4Net::parse(realm.prefix.as_str()) {
            Err(e) => return Err(Stop::Failed(e)),
            Ok(net) => net,
        };
        if !net.contains(fixed_ip) || !same(realm.state.as_str(), "active") {
            return Err(Stop::Failed(NetworkError::InvalidRequest));
        }
        let id: u128 = match self.ask_id(StoreCall::NewId) {
            Err(stop) => return Err(stop),
            Ok(id) => id,
        };
        let endpoint = new_endpoint_of(id, realm_id, project_id, fixed_ip, mac);
        match self.perform(StoreCall::InsertEndpoint(endpoint.copy())) {
            Err(stop) => Err(stop),
            Ok(()) => Ok(endpoint),
        }
    }
}

} // verus!
