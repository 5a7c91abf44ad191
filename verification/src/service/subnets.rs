//! Subnets: a realm with one pool, as clients see them.
use super::access::halt;
use super::calls::{
    done, heard, id_in, many, one, pools_in, realm_in, realms_in, reservation_in, subnet_in, tried,
    unit, Answer, Log, NetworkService, StoreCall, StoreCallView,
};
use super::errors::{map_failure, map_store_error, NetworkError, NetworkErrorView};
use super::net::{net_value, Ipv4Net};
use super::networks::{
    commit_run, creation, creation_of, get_canonical_network_run, release_run, settles,
};
use super::realms::{get_realm_run, new_pool, new_pool_of, new_realm, new_realm_of};
use super::records::{
    CanonicalAddressPoolRecord, CanonicalAddressPoolRecordView, CanonicalAddressRealmRecord,
    CanonicalAddressRealmRecordView, CanonicalNetworkRecordView, SubnetRecord, SubnetRecordView,
};
use crate::model::{view_opt, views, Model};
use crate::session::Stop;
use crate::text::same;
use vstd::prelude::*;

verus! {

// ---------------------------------------------------------------------------
// Addresses
// ---------------------------------------------------------------------------

/// Whether a network can have a gateway: an address of a host in it.
pub open spec fn gateway_valid(net: Ipv4Net, gateway: u32) -> bool {
    net.has(gateway) && gateway != net.network && gateway != net.broadcast
}

fn gateway_ok(net: &Ipv4Net, gateway: u32) -> (r: bool)
    ensures
        r == gateway_valid(*net, gateway),
{
    net.contains(gateway) && gateway != net.network && gateway != net.broadcast
}

/// The gateway and the first and last address of a subnet's pool. Those that are not given are
/// the first host of the network, the one behind it, and the last.
pub open spec fn subnet_range(
    net: Ipv4Net,
    gateway_ip: Option<u32>,
    start: Option<u32>,
    end: Option<u32>,
) -> (u32, u32, u32) {
    (
        match gateway_ip {
            Some(g) => g,
            None => (net.network + 1) as u32,
        },
        match start {
            Some(a) => a,
            None => (net.network + 2) as u32,
        },
        match end {
            Some(a) => a,
            None => (net.broadcast - 1) as u32,
        },
    )
}

/// Whether the addresses of a subnet are a gateway and a pool in its network, apart from each
/// other.
pub open spec fn subnet_range_valid(net: Ipv4Net, range: (u32, u32, u32)) -> bool {
    let (gateway, start, end) = range;
    &&& gateway_valid(net, gateway)
    &&& net.has(start)
    &&& net.has(end)
    &&& start <= end
    &&& !(start <= gateway <= end)
}

fn subnet_range_of(
    net: &Ipv4Net,
    gateway_ip: Option<u32>,
    start: Option<u32>,
    end: Option<u32>,
) -> (r: (u32, u32, u32))
    requires
        net.wf(),
    ensures
        r == subnet_range(*net, gateway_ip, start, end),
{
    let first: u32 = net.first_host();
    let last: u32 = net.last_host();
    proof {
        super::net::lemma_net_of(net.network, net.prefix);
    }
    let g: u32 = match gateway_ip {
        Some(g) => g,
        None => first,
    };
    let a: u32 = match start {
        Some(a) => a,
        None => first + 1,
    };
    let b: u32 = match end {
        Some(b) => b,
        None => last,
    };
    (g, a, b)
}

// ---------------------------------------------------------------------------
// What clients see
// ---------------------------------------------------------------------------

/// A realm and its pool as clients see them, with the name and the setting that are kept for
/// clients, where they are kept.
pub open spec fn subnet_of(
    realm: CanonicalAddressRealmRecordView,
    pool: CanonicalAddressPoolRecordView,
    gateway_ip: u32,
    kept: Option<SubnetRecordView>,
) -> SubnetRecordView {
    SubnetRecordView {
        id: realm.id,
        network_id: realm.network_id,
        name: match kept {
            Some(k) => k.name,
            None => Seq::empty(),
        },
        project_id: realm.project_id,
        cidr: realm.prefix,
        gateway_ip,
        allocation_start: pool.first_usable,
        allocation_end: pool.last_usable,
        ip_version: 4,
        enable_dhcp: match kept {
            Some(k) => k.enable_dhcp,
            None => true,
        },
    }
}

/// Shows a realm as a subnet. It has to have a pool, and that a gateway.
pub open spec fn project_subnet_run(
    project_id: Seq<char>,
    realm: CanonicalAddressRealmRecordView,
    t: Log,
) -> (Log, Answer<SubnetRecordView>) {
    let t1 = t.after(StoreCallView::ListPools(project_id, realm.id));
    match pools_in(t.reply()) {
        Err(stop) => (t1, Err(stop)),
        Ok(pools) => if pools.len() == 0 {
            (t1, halt(NetworkErrorView::InvalidRequest))
        } else {
            let t2 = t1.after(StoreCallView::GetSubnet(project_id, realm.id));
            match subnet_in(t1.reply()) {
                Err(stop) => (t2, Err(stop)),
                Ok(kept) => match pools[0].gateway {
                    None => (t2, halt(NetworkErrorView::InvalidRequest)),
                    Some(g) => (t2, Ok(subnet_of(realm, pools[0], g, kept))),
                },
            }
        },
    }
}

/// Finds a subnet.
pub open spec fn get_subnet_run(project_id: Seq<char>, id: u128, t: Log) -> (
    Log,
    Answer<SubnetRecordView>,
) {
    let (t1, got) = get_realm_run(project_id, id, t);
    match got {
        Err(stop) => (t1, Err(stop)),
        Ok(realm) => project_subnet_run(project_id, realm, t1),
    }
}

/// Shows realms as subnets from the one at `i` on.
pub open spec fn project_subnets_run(
    project_id: Seq<char>,
    realms: Seq<CanonicalAddressRealmRecordView>,
    i: int,
    known: Seq<SubnetRecordView>,
    t: Log,
) -> (Log, Answer<Seq<SubnetRecordView>>)
    decreases realms.len() - i,
{
    if i < 0 || i >= realms.len() {
        (t, Ok(known))
    } else {
        let (t1, shown) = project_subnet_run(project_id, realms[i], t);
        match shown {
            Err(stop) => (t1, Err(stop)),
            Ok(subnet) => project_subnets_run(project_id, realms, i + 1, known.push(subnet), t1),
        }
    }
}

/// Lists the subnets of networks from the one at `i` on.
pub open spec fn network_subnets_run(
    project_id: Seq<char>,
    networks: Seq<CanonicalNetworkRecordView>,
    i: int,
    known: Seq<SubnetRecordView>,
    t: Log,
) -> (Log, Answer<Seq<SubnetRecordView>>)
    decreases networks.len() - i,
{
    if i < 0 || i >= networks.len() {
        (t, Ok(known))
    } else {
        let t1 = t.after(StoreCallView::ListRealms(project_id, networks[i].id));
        match realms_in(t.reply()) {
            Err(stop) => (t1, Err(stop)),
            Ok(realms) => {
                let (t2, shown) = project_subnets_run(project_id, realms, 0, known, t1);
                match shown {
                    Err(stop) => (t2, Err(stop)),
                    Ok(all) => network_subnets_run(project_id, networks, i + 1, all, t2),
                }
            },
        }
    }
}

/// Lists the subnets of a project.
pub open spec fn list_subnets_run(project_id: Seq<char>, t: Log) -> (
    Log,
    Answer<Seq<SubnetRecordView>>,
) {
    let t1 = t.after(StoreCallView::ListNetworks(project_id));
    match super::calls::networks_in(t.reply()) {
        Err(stop) => (t1, Err(stop)),
        Ok(networks) => network_subnets_run(project_id, networks, 0, Seq::empty(), t1),
    }
}

impl NetworkService {
    fn project_canonical_subnet(&mut self, project_id: &str, realm: &CanonicalAddressRealmRecord)
        -> (r: Result<SubnetRecord, Stop<NetworkError>>)
        ensures
            (final(self)@, one(r)) == project_subnet_run(project_id@, realm@, old(self)@),
    {
        let pools = match self.ask_pools(StoreCall::ListPools(project_id.to_owned(), realm.id)) {
            Err(stop) => return Err(stop),
            Ok(pools) => pools,
        };
        assert(views(pools@).len() == pools@.len());
        if pools.len() == 0 {
            return Err(Stop::Failed(NetworkError::InvalidRequest));
        }
        assert(views(pools@)[0] == pools@[0]@);
        let pool = &pools[0];
        let kept = match self.ask_subnet(StoreCall::GetSubnet(project_id.to_owned(), realm.id)) {
            Err(stop) => return Err(stop),
            Ok(kept) => kept,
        };
        let gateway_ip: u32 = match pool.gateway {
            None => return Err(Stop::Failed(NetworkError::InvalidRequest)),
            Some(g) => g,
        };
        let (name, enable_dhcp): (String, bool) = match kept {
            Some(k) => (k.name, k.enable_dhcp),
            None => {
                let none = String::new();
                assert(none@ =~= Seq::<char>::empty());
                (none, true)
            },
        };
        Ok(
            SubnetRecord {
                id: realm.id,
                network_id: realm.network_id,
                name,
                project_id: realm.project_id.clone(),
                cidr: realm.prefix.clone(),
                gateway_ip,
                allocation_start: pool.first_usable,
                allocation_end: pool.last_usable,
                ip_version: 4,
                enable_dhcp,
            },
        )
    }

    /// Performs [`get_subnet_run`].
    pub fn get_subnet_for_project(&mut self, project_id: &str, id: u128) -> (r: Result<
        SubnetRecord,
        Stop<NetworkError>,
    >)
        ensures
            (final(self)@, one(r)) == get_subnet_run(project_id@, id, old(self)@),
    {
        match self.get_canonical_realm_for_project(project_id, id) {
            Err(stop) => Err(stop),
            Ok(realm) => self.project_canonical_subnet(project_id, &realm),
        }
    }

    fn project_subnets(
        &mut self,
        project_id: &str,
        realms: &Vec<CanonicalAddressRealmRecord>,
        known: Vec<SubnetRecord>,
    ) -> (r: Result<Vec<SubnetRecord>, Stop<NetworkError>>)
        ensures
            (final(self)@, many(r)) == project_subnets_run(
                project_id@,
                views(realms@),
                0,
                views(known@),
                old(self)@,
            ),
    {
        let ghost all = views(realms@);
        let ghost whole = project_subnets_run(project_id@, all, 0, views(known@), self@);
        let mut out = known;
        for i in 0..realms.len()
            invariant
                all == views(realms@),
                whole == project_subnets_run(project_id@, all, 0, views(known@), old(self)@),
                whole == project_subnets_run(project_id@, all, i as int, views(out@), self@),
        {
            assert(all[i as int] == realms@[i as int]@);
            match self.project_canonical_subnet(project_id, &realms[i]) {
                Err(stop) => return Err(stop),
                Ok(subnet) => {
                    let ghost so_far = views(out@);
                    let ghost v = subnet@;
                    out.push(subnet);
                    assert(views(out@) =~= so_far.push(v));
                },
            }
        }
        Ok(out)
    }

    /// Performs [`list_subnets_run`].
    pub fn list_subnets_for_project(&mut self, project_id: &str) -> (r: Result<
        Vec<SubnetRecord>,
        Stop<NetworkError>,
    >)
        ensures
            (final(self)@, many(r)) == list_subnets_run(project_id@, old(self)@),
    {
        let networks = match self.ask_networks(StoreCall::ListNetworks(project_id.to_owned())) {
            Err(stop) => return Err(stop),
            Ok(networks) => networks,
        };
        let ghost all = views(networks@);
        let mut out: Vec<SubnetRecord> = Vec::new();
        assert(views(out@) =~= Seq::<SubnetRecordView>::empty());
        for i in 0..networks.len()
            invariant
                all == views(networks@),
                list_subnets_run(project_id@, old(self)@) == network_subnets_run(
                    project_id@,
                    all,
                    i as int,
                    views(out@),
                    self@,
                ),
        {
            assert(all[i as int] == networks@[i as int]@);
            let realms = match self.ask_realms(
                StoreCall::ListRealms(project_id.to_owned(), networks[i].id),
            ) {
                Err(stop) => return Err(stop),
                Ok(realms) => realms,
            };
            match self.project_subnets(project_id, &realms, out) {
                Err(stop) => return Err(stop),
                Ok(more) => {
                    out = more;
                },
            }
        }
        Ok(out)
    }
}

// ---------------------------------------------------------------------------
// Making a subnet
// ---------------------------------------------------------------------------

/// What the operations of new subnets begin with.
pub open spec fn subnet_creation() -> Seq<char> {
    "o3k:subnet:create:"@
}

/// A new subnet.
pub open spec fn new_subnet(
    id: u128,
    network_id: u128,
    name: Seq<char>,
    project_id: Seq<char>,
    net: Ipv4Net,
    range: (u32, u32, u32),
) -> SubnetRecordView {
    SubnetRecordView {
        id,
        network_id,
        name,
        project_id,
        cidr: net.text(),
        gateway_ip: range.0,
        allocation_start: range.1,
        allocation_end: range.2,
        ip_version: 4,
        enable_dhcp: true,
    }
}

/// Whether one of the realms is active.
pub open spec fn has_active(realms: Seq<CanonicalAddressRealmRecordView>) -> bool {
    exists|i: int| 0 <= i < realms.len() && (#[trigger] realms[i]).state == "active"@
}

fn any_active(realms: &Vec<CanonicalAddressRealmRecord>) -> (r: bool)
    ensures
        r == has_active(views(realms@)),
{
    let ghost all = views(realms@);
    for i in 0..realms.len()
        invariant
            all == views(realms@),
            forall|k: int| 0 <= k < i ==> (#[trigger] all[k]).state != "active"@,
    {
        assert(all[i as int] == realms@[i as int]@);
        if same(realms[i].state.as_str(), "active") {
            return true;
        }
    }
    false
}

/// Stores a new subnet, for which a quota was set aside. A network has one active subnet at most.
pub open spec fn store_subnet_run(subnet: SubnetRecordView, reservation: Seq<char>, t: Log) -> (
    Log,
    Answer<SubnetRecordView>,
) {
    let t1 = t.after(StoreCallView::ListRealms(subnet.project_id, subnet.network_id));
    match realms_in(t.reply()) {
        Err(stop) => (t1, Err(stop)),
        Ok(realms) => if has_active(realms) {
            release_run(reservation, NetworkErrorView::Conflict, t1)
        } else {
            let t2 = t1.after(StoreCallView::NewId);
            match id_in(t1.reply()) {
                Err(stop) => (t2, Err(stop)),
                Ok(pool_id) => {
                    let realm = new_realm(
                        subnet.id,
                        subnet.network_id,
                        subnet.project_id,
                        subnet.cidr,
                        false,
                    );
                    let pool = new_pool(
                        pool_id,
                        subnet.id,
                        subnet.project_id,
                        subnet.cidr,
                        Some(subnet.gateway_ip),
                        subnet.allocation_start,
                        subnet.allocation_end,
                    );
                    let t3 = t2.after(StoreCallView::InsertSubnetBundle(realm, pool, subnet));
                    match tried(t2.reply()) {
                        Err(stop) => (t3, Err(stop)),
                        Ok(Ok(())) => commit_run(reservation, subnet, t3),
                        Ok(Err(f)) => release_run(reservation, map_failure(f), t3),
                    }
                },
            }
        },
    }
}

/// Names a new subnet and sets a quota aside for it.
pub open spec fn reserve_subnet_run(
    project_id: Seq<char>,
    network_id: u128,
    name: Seq<char>,
    net: Ipv4Net,
    range: (u32, u32, u32),
    t: Log,
) -> (Log, Answer<SubnetRecordView>) {
    let t1 = t.after(StoreCallView::NewId);
    match id_in(t.reply()) {
        Err(stop) => (t1, Err(stop)),
        Ok(id) => {
            let t2 = t1.after(
                StoreCallView::ReserveQuota(
                    project_id,
                    creation(subnet_creation(), project_id, id),
                    "subnets"@,
                ),
            );
            match reservation_in(t1.reply()) {
                Err(stop) => (t2, Err(stop)),
                Ok(reservation) => store_subnet_run(
                    new_subnet(id, network_id, name, project_id, net, range),
                    reservation,
                    t2,
                ),
            }
        },
    }
}

/// Makes a subnet within the quota of its project.
pub open spec fn create_subnet_run(
    project_id: Seq<char>,
    network_id: u128,
    name: Seq<char>,
    cidr: Seq<char>,
    gateway_ip: Option<u32>,
    start: Option<u32>,
    end: Option<u32>,
    t: Log,
) -> (Log, Answer<SubnetRecordView>) {
    match net_value(cidr) {
        None => (t, halt(NetworkErrorView::InvalidRequest)),
        Some(net) => {
            let range = subnet_range(net, gateway_ip, start, end);
            if !subnet_range_valid(net, range) {
                (t, halt(NetworkErrorView::InvalidRequest))
            } else {
                let (t1, got) = get_canonical_network_run(project_id, network_id, t);
                match got {
                    Err(stop) => (t1, Err(stop)),
                    Ok(_) => reserve_subnet_run(project_id, network_id, name, net, range, t1),
                }
            }
        },
    }
}

impl NetworkService {
    fn store_subnet(&mut self, subnet: SubnetRecord, reservation: String) -> (r: Result<
        SubnetRecord,
        Stop<NetworkError>,
    >)
        ensures
            (final(self)@, one(r)) == store_subnet_run(subnet@, reservation@, old(self)@),
    {
        let realms = match self.ask_realms(
            StoreCall::ListRealms(subnet.project_id.clone(), subnet.network_id),
        ) {
            Err(stop) => return Err(stop),
            Ok(realms) => realms,
        };
        if any_active(&realms) {
            return self.release(reservation, NetworkError::Conflict);
        }
        let pool_id: u128 = match self.ask_id(StoreCall::NewId) {
            Err(stop) => return Err(stop),
            Ok(id) => id,
        };
        let realm = new_realm_of(
            subnet.id,
            subnet.network_id,
            subnet.project_id.as_str(),
            subnet.cidr.clone(),
            false,
        );
        let pool = new_pool_of(
            pool_id,
            subnet.id,
            subnet.project_id.as_str(),
            subnet.cidr.clone(),
            Some(subnet.gateway_ip),
            subnet.allocation_start,
            subnet.allocation_end,
        );
        match self.attempt(StoreCall::InsertSubnetBundle(realm, pool, subnet.copy())) {
            Err(stop) => Err(stop),
            Ok(Ok(())) => self.commit(reservation, subnet),
            Ok(Err(f)) => self.release(reservation, map_store_error(&f)),
        }
    }

    /// Performs [`create_subnet_run`].
    pub fn create_subnet_for_project(
        &mut self,
        project_id: &str,
        network_id: u128,
        name: String,
        cidr: &str,
        gateway_ip: Option<u32>,
        allocation_start: Option<u32>,
        allocation_end: Option<u32>,
    ) -> (r: Result<SubnetRecord, Stop<NetworkError>>)
        ensures
            (final(self)@, one(r)) == create_subnet_run(
                project_id@,
                network_id,
                name@,
                cidr@,
                gateway_ip,
                allocation_start,
                allocation_end,
                old(self)@,
            ),
    {
        let net = match Ipv4Net::parse(cidr) {
            Err(e) => return Err(Stop::Failed(e)),
            Ok(net) => net,
        };
        let (gateway, start, end): (u32, u32, u32) = subnet_range_of(
            &net,
            gateway_ip,
            allocation_start,
            allocation_end,
        );
        if !gateway_ok(&net, gateway) {
            return Err(Stop::Failed(NetworkError::InvalidRequest));
        }
        if !net.contains(start) || !net.contains(end) || start > end || (start <= gateway && gateway
            <= end) {
            return Err(Stop::Failed(NetworkError::InvalidRequest));
        }
        match self.get_canonical_network_for_project(project_id, network_id) {
            Err(stop) => return Err(stop),
            Ok(_) => {},
        }
        let id: u128 = match self.ask_id(StoreCall::NewId) {
            Err(stop) => return Err(stop),
            Ok(id) => id,
        };
        let operation = creation_of("o3k:subnet:create:", project_id, id);
        let reservation = match self.ask_reservation(
            StoreCall::ReserveQuota(project_id.to_owned(), operation, "subnets".to_owned()),
        ) {
            Err(stop) => return Err(stop),
            Ok(reservation) => reservation,
        };
        let subnet = SubnetRecord {
            id,
            network_id,
            name,
            project_id: project_id.to_owned(),
            cidr: net.canonical(),
            gateway_ip: gateway,
            allocation_start: start,
            allocation_end: end,
            ip_version: 4,
            enable_dhcp: true,
        };
        self.store_subnet(subnet, reservation)
    }
}

// ---------------------------------------------------------------------------
// Changing and removing a subnet
// ---------------------------------------------------------------------------

/// A subnet with what was given in place of what it had.
pub open spec fn changed_subnet(
    current: SubnetRecordView,
    name: Option<Seq<char>>,
    gateway_ip: u32,
    enable_dhcp: Option<bool>,
) -> SubnetRecordView {
    SubnetRecordView {
        name: match name {
            Some(n) => n,
            None => current.name,
        },
        gateway_ip,
        enable_dhcp: match enable_dhcp {
            Some(b) => b,
            None => current.enable_dhcp,
        },
        ..current
    }
}

/// Stores a changed subnet, with the gateway of its pool where that changed too, and shows it.
pub open spec fn store_changed_run(
    project_id: Seq<char>,
    id: u128,
    updated: SubnetRecordView,
    pool: CanonicalAddressPoolRecordView,
    t: Log,
) -> (Log, Answer<SubnetRecordView>) {
    let t1 = t.after(
        if pool.gateway matches Some(g) && g != updated.gateway_ip {
            StoreCallView::UpdateSubnetBundle(updated, pool.id, pool.generation)
        } else {
            StoreCallView::UpdateSubnet(updated)
        },
    );
    match done(t.reply()) {
        Err(stop) => (t1, Err(stop)),
        Ok(()) => get_subnet_run(project_id, id, t1),
    }
}

/// Changes a subnet. A gateway has to be a host of the network, outside of the pool.
pub open spec fn update_subnet_run(
    project_id: Seq<char>,
    id: u128,
    name: Option<Seq<char>>,
    gateway_ip: Option<u32>,
    enable_dhcp: Option<bool>,
    t: Log,
) -> (Log, Answer<SubnetRecordView>) {
    let (t1, got) = get_realm_run(project_id, id, t);
    match got {
        Err(stop) => (t1, Err(stop)),
        Ok(realm) => {
            let t2 = t1.after(StoreCallView::ListPools(project_id, id));
            match pools_in(t1.reply()) {
                Err(stop) => (t2, Err(stop)),
                Ok(pools) => if pools.len() == 0 {
                    (t2, halt(NetworkErrorView::InvalidRequest))
                } else {
                    let pool = pools[0];
                    let (t3, shown) = project_subnet_run(project_id, realm, t2);
                    match shown {
                        Err(stop) => (t3, Err(stop)),
                        Ok(current) => {
                            let gateway = match gateway_ip {
                                Some(g) => g,
                                None => current.gateway_ip,
                            };
                            match net_value(realm.prefix) {
                                None => (t3, halt(NetworkErrorView::InvalidRequest)),
                                Some(net) => if !gateway_valid(net, gateway) {
                                    (t3, halt(NetworkErrorView::InvalidRequest))
                                } else if pool.first_usable <= gateway <= pool.last_usable {
                                    (t3, halt(NetworkErrorView::Conflict))
                                } else {
                                    store_changed_run(
                                        project_id,
                                        id,
                                        changed_subnet(current, name, gateway, enable_dhcp),
                                        pool,
                                        t3,
                                    )
                                },
                            }
                        },
                    }
                },
            }
        },
    }
}

/// Removes a subnet of which a realm or what clients see is there, and what was set aside for it.
pub open spec fn delete_subnet_run(project_id: Seq<char>, id: u128, t: Log) -> (Log, Answer<()>) {
    let t1 = t.after(StoreCallView::GetSubnet(project_id, id));
    match subnet_in(t.reply()) {
        Err(stop) => (t1, Err(stop)),
        Ok(kept) => {
            let t2 = t1.after(StoreCallView::GetRealm(project_id, id));
            match realm_in(t1.reply()) {
                Err(stop) => (t2, Err(stop)),
                Ok(realm) => if kept is None && realm is None {
                    (t2, halt(NetworkErrorView::NotFound))
                } else {
                    let t3 = t2.after(StoreCallView::DeleteSubnetBundle(project_id, id));
                    match done(t2.reply()) {
                        Err(stop) => (t3, Err(stop)),
                        Ok(()) => (
                            t3.after(
                                StoreCallView::ReleaseForOperation(
                                    creation(subnet_creation(), project_id, id),
                                ),
                            ),
                            heard(t3.reply()),
                        ),
                    }
                },
            }
        },
    }
}

impl NetworkService {
    fn store_changed_subnet(
        &mut self,
        project_id: &str,
        id: u128,
        updated: SubnetRecord,
        pool: &CanonicalAddressPoolRecord,
    ) -> (r: Result<SubnetRecord, Stop<NetworkError>>)
        ensures
            (final(self)@, one(r)) == store_changed_run(
                project_id@,
                id,
                updated@,
                pool@,
                old(self)@,
            ),
    {
        let moved = match pool.gateway {
            Some(g) => g != updated.gateway_ip,
            None => false,
        };
        let call = if moved {
            StoreCall::UpdateSubnetBundle(updated, pool.id, pool.generation)
        } else {
            StoreCall::UpdateSubnet(updated)
        };
        match self.perform(call) {
            Err(stop) => Err(stop),
            Ok(()) => self.get_subnet_for_project(project_id, id),
        }
    }

    /// Performs [`update_subnet_run`].
    pub fn update_subnet_for_project(
        &mut self,
        project_id: &str,
        id: u128,
        name: Option<String>,
        gateway_ip: Option<u32>,
        enable_dhcp: Option<bool>,
    ) -> (r: Result<SubnetRecord, Stop<NetworkError>>)
        ensures
            (final(self)@, one(r)) == update_subnet_run(
                project_id@,
                id,
                view_opt(name),
                gateway_ip,
                enable_dhcp,
                old(self)@,
            ),
    {
        let realm = match self.get_canonical_realm_for_project(project_id, id) {
            Err(stop) => return Err(stop),
            Ok(realm) => realm,
        };
        let pools = match self.ask_pools(StoreCall::ListPools(project_id.to_owned(), id)) {
            Err(stop) => return Err(stop),
            Ok(pools) => pools,
        };
        assert(views(pools@).len() == pools@.len());
        if pools.len() == 0 {
            return Err(Stop::Failed(NetworkError::InvalidRequest));
        }
        assert(views(pools@)[0] == pools@[0]@);
        let pool = &pools[0];
        let current = match self.project_canonical_subnet(project_id, &realm) {
            Err(stop) => return Err(stop),
            Ok(current) => current,
        };
        let gateway: u32 = match gateway_ip {
            Some(g) => g,
            None => current.gateway_ip,
        };
        let net = match Ipv4Net::parse(realm.prefix.as_str()) {
            Err(e) => return Err(Stop::Failed(e)),
            Ok(net) => net,
        };
        if !gateway_ok(&net, gateway) {
            return Err(Stop::Failed(NetworkError::InvalidRequest));
        }
        if pool.first_usable <= gateway && gateway <= pool.last_usable {
            return Err(Stop::Failed(NetworkError::Conflict));
        }
        let mut updated = current;
        match name {
            Some(n) => {
                updated.name = n;
            },
            None => {},
        }
        updated.gateway_ip = gateway;
        match enable_dhcp {
            Some(b) => {
                updated.enable_dhcp = b;
            },
            None => {},
        }
        self.store_changed_subnet(project_id, id, updated, pool)
    }

    /// Performs [`delete_subnet_run`].
    pub fn delete_subnet_for_project(&mut self, project_id: &str, id: u128) -> (r: Result<
        (),
        Stop<NetworkError>,
    >)
        ensures
            (final(self)@, unit(r)) == delete_subnet_run(project_id@, id, old(self)@),
    {
        let kept = match self.ask_subnet(StoreCall::GetSubnet(project_id.to_owned(), id)) {
            Err(stop) => return Err(stop),
            Ok(kept) => kept,
        };
        let realm = match self.ask_realm(StoreCall::GetRealm(project_id.to_owned(), id)) {
            Err(stop) => return Err(stop),
            Ok(realm) => realm,
        };
        if kept.is_none() && realm.is_none() {
            return Err(Stop::Failed(NetworkError::NotFound));
        }
        match self.perform(StoreCall::DeleteSubnetBundle(project_id.to_owned(), id)) {
            Err(stop) => return Err(stop),
            Ok(()) => {},
        }
        let operation = creation_of("o3k:subnet:create:", project_id, id);
        self.tell(StoreCall::ReleaseForOperation(operation))
    }
}

// ---------------------------------------------------------------------------
// Laws
// ---------------------------------------------------------------------------

/// A subnet that is made has its gateway and its pool in its network, and the gateway is not in
/// the pool.
pub proof fn lemma_subnet_addresses(
    project_id: Seq<char>,
    network_id: u128,
    name: Seq<char>,
    cidr: Seq<char>,
    gateway_ip: Option<u32>,
    start: Option<u32>,
    end: Option<u32>,
    t: Log,
)
    requires
        create_subnet_run(
            project_id,
            network_id,
            name,
            cidr,
            gateway_ip,
            start,
            end,
            t,
        ).1 is Ok,
    ensures
        ({
            let s = create_subnet_run(
                project_id,
                network_id,
                name,
                cidr,
                gateway_ip,
                start,
                end,
                t,
            ).1->Ok_0;
            &&& net_value(cidr) matches Some(net) && s.cidr == net.text() && subnet_range_valid(
                net,
                (s.gateway_ip, s.allocation_start, s.allocation_end),
            )
        }),
{
}

/// Without a gateway and a pool of one's own choice every network can be made a subnet: it has
/// room for a gateway and at least one other host.
pub proof fn lemma_default_range_valid(net: Ipv4Net)
    requires
        net.wf(),
    ensures
        subnet_range_valid(net, subnet_range(net, None, None, None)),
{
    super::net::lemma_net_of(net.network, net.prefix);
}

/// What is set aside for a subnet is used where the subnet is stored, and given back where the
/// network has an active subnet or the subnet cannot be stored.
pub proof fn lemma_subnet_quota_is_settled(
    subnet: SubnetRecordView,
    reservation: Seq<char>,
    t: Log,
)
    requires
        realms_in(t.reply()) matches Ok(realms) && (has_active(realms) || id_in(
            t.after(StoreCallView::ListRealms(subnet.project_id, subnet.network_id)).reply(),
        ) is Ok),
    ensures
        settles(reservation, store_subnet_run(subnet, reservation, t)),
{
}

} // verus!
