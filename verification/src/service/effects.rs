//! What a granted request comes to: what is stored or removed, and what the client is told.
use super::calls::{network_in, networks_in, realm_in, subnet_in, Log, StoreCallView};
use super::errors::NetworkErrorView;
use super::net::{lemma_net_of, lemma_net_round_trip, net_value};
use crate::ipv4::cidr_parts;
use super::networks::{
    change_network_run, create_canonical_network_run, create_network_run, delete_network_run,
};
use super::realms::{create_endpoint_run, create_pool_run, create_realm_run};
use super::records::{
    CanonicalAddressPoolRecordView, CanonicalAddressRealmRecordView, CanonicalEndpointRecordView,
    CanonicalNetworkRecordView, NetworkRecordView, SubnetRecordView,
};
use super::subnets::{create_subnet_run, delete_subnet_run};
use crate::identity::id_text;
use crate::session::Stop;
use crate::text::trim;
use vstd::prelude::*;

verus! {

/// Whether a call was made behind a log.
pub open spec fn called(t: Log, u: Log, c: StoreCallView) -> bool {
    exists|k: int| t.issued.len() <= k < u.issued.len() && #[trigger] u.issued[k] == c
}

/// The operation under which a quota is set aside for a resource.
pub open spec fn operation(kind: Seq<char>, project_id: Seq<char>, id: u128) -> Seq<char> {
    "o3k:"@ + kind + ":create:"@ + project_id + ":"@ + id_text(id)
}

pub(crate) proof fn lemma_operation_words()
    ensures
        "o3k:"@ + "network"@ + ":create:"@ == "o3k:network:create:"@,
        "o3k:"@ + "subnet"@ + ":create:"@ == "o3k:subnet:create:"@,
        "o3k:"@ + "port"@ + ":create:"@ == "o3k:port:create:"@,
{
    reveal_strlit("o3k:");
    reveal_strlit("network");
    reveal_strlit("subnet");
    reveal_strlit("port");
    reveal_strlit(":create:");
    reveal_strlit("o3k:network:create:");
    reveal_strlit("o3k:subnet:create:");
    reveal_strlit("o3k:port:create:");
    assert("o3k:"@ + "network"@ + ":create:"@ =~= "o3k:network:create:"@);
    assert("o3k:"@ + "subnet"@ + ":create:"@ =~= "o3k:subnet:create:"@);
    assert("o3k:"@ + "port"@ + ":create:"@ =~= "o3k:port:create:"@);
}

proof fn lemma_net_is_wf(text: Seq<char>)
    requires
        net_value(text) is Some,
    ensures
        net_value(text)->Some_0.wf(),
{
    let (address, prefix) = cidr_parts(text)->Some_0;
    lemma_net_of(address, prefix);
}

// ---------------------------------------------------------------------------
// Networks
// ---------------------------------------------------------------------------

/// Whether a record is that of a new network: active, up and of the first generation.
pub open spec fn is_new_network(
    n: CanonicalNetworkRecordView,
    project_id: Seq<char>,
    name: Seq<char>,
) -> bool {
    &&& n.project_id == project_id
    &&& n.name == name
    &&& n.admin_state_up
    &&& n.generation == 1
    &&& n.state == "active"@
}

/// A network that was made has the requested name and project, is active and up, and is stored
/// once; no network of the project had its name.
pub proof fn lemma_canonical_network_is_stored(
    project_id: Seq<char>,
    name: Seq<char>,
    t: Log,
    u: Log,
    n: CanonicalNetworkRecordView,
)
    requires
        create_canonical_network_run(project_id, name, t) == (u, Ok::<
            CanonicalNetworkRecordView,
            Stop<NetworkErrorView>,
        >(n)),
    ensures
        is_new_network(n, project_id, name),
        called(t, u, StoreCallView::InsertCanonicalNetwork(n)),
        trim(project_id).len() > 0,
        trim(name).len() > 0,
        networks_in(t.reply()) matches Ok(all) && forall|i: int|
            0 <= i < all.len() ==> (#[trigger] all[i]).name != name,
        u.issued.len() == t.issued.len() + 3,
{
    assert(u.issued[t.issued.len() as int + 2] == StoreCallView::InsertCanonicalNetwork(n));
}

/// A network that a client makes has the requested name and project and is shown as active; it is
/// stored with what the client sees of it, and a network of the quota of its project is used for
/// it.
pub proof fn lemma_network_is_stored(
    project_id: Seq<char>,
    name: Seq<char>,
    t: Log,
    u: Log,
    n: NetworkRecordView,
)
    requires
        create_network_run(project_id, name, t) == (u, Ok::<
            NetworkRecordView,
            Stop<NetworkErrorView>,
        >(n)),
    ensures
        n.name == name,
        n.project_id == project_id,
        n.status == "ACTIVE"@,
        trim(name).len() > 0,
        called(t, u, StoreCallView::InsertNetwork(n)),
        exists|c: CanonicalNetworkRecordView|
            c.id == n.id && is_new_network(c, project_id, name) && #[trigger] called(
                t,
                u,
                StoreCallView::InsertCanonicalNetwork(c),
            ),
        called(
            t,
            u,
            StoreCallView::ReserveQuota(
                project_id,
                operation("network"@, project_id, n.id),
                "networks"@,
            ),
        ),
        networks_in(t.reply()) matches Ok(all) && forall|i: int|
            0 <= i < all.len() ==> (#[trigger] all[i]).name != name,
{
    lemma_operation_words();
    let k = t.issued.len() as int;
    let op = StoreCallView::ReserveQuota(
        project_id,
        operation("network"@, project_id, n.id),
        "networks"@,
    );
    assert(u.issued[k + 2] == op);
    let c = super::networks::new_network(n.id, project_id, name);
    assert(u.issued[k + 3] == StoreCallView::InsertCanonicalNetwork(c));
    assert(called(t, u, StoreCallView::InsertCanonicalNetwork(c)));
    assert(u.issued[k + 4] == StoreCallView::InsertNetwork(n));
}

/// A network that was removed is removed with what clients see of it, and what was set aside when
/// it was made is given back.
pub proof fn lemma_network_is_removed(project_id: Seq<char>, id: u128, t: Log, u: Log)
    requires
        delete_network_run(project_id, id, t) == (u, Ok::<(), Stop<NetworkErrorView>>(())),
    ensures
        called(t, u, StoreCallView::DeleteCanonicalNetwork(project_id, id)),
        called(t, u, StoreCallView::DeleteNetwork(project_id, id)),
        called(
            t,
            u,
            StoreCallView::ReleaseForOperation(operation("network"@, project_id, id)),
        ),
        u.issued.len() == t.issued.len() + 3,
{
    lemma_operation_words();
    let k = t.issued.len() as int;
    assert(u.issued[k] == StoreCallView::DeleteCanonicalNetwork(project_id, id));
    assert(u.issued[k + 1] == StoreCallView::DeleteNetwork(project_id, id));
    assert(u.issued[k + 2] == StoreCallView::ReleaseForOperation(
        operation("network"@, project_id, id),
    ));
}

/// A change of a network stores what is given and keeps what is not, and only where the network is
/// still of the generation that was found.
pub proof fn lemma_network_is_changed(
    project_id: Seq<char>,
    id: u128,
    name: Option<Seq<char>>,
    admin_state_up: Option<bool>,
    t: Log,
    current: CanonicalNetworkRecordView,
)
    requires
        network_in(t.reply()) == Ok::<
            Option<CanonicalNetworkRecordView>,
            Stop<NetworkErrorView>,
        >(Some(current)),
    ensures
        ({
            let u = change_network_run(project_id, id, name, admin_state_up, t).0;
            &&& u.issued.len() == t.issued.len() + 2
            &&& u.issued[t.issued.len() as int] == StoreCallView::GetNetwork(project_id, id)
            &&& u.issued[t.issued.len() as int + 1] matches StoreCallView::UpdateCanonicalNetwork(
                p,
                i,
                generation,
                n,
                up,
            ) && p == project_id && i == id && generation == current.generation && (
            name is Some ==> n == name->Some_0) && (name is None ==> n == current.name) && (
            admin_state_up is Some ==> up == admin_state_up->Some_0) && (admin_state_up is None
                ==> up == current.admin_state_up)
        }),
{
}

// ---------------------------------------------------------------------------
// Realms, pools and endpoints
// ---------------------------------------------------------------------------

/// A realm that was made is active and of the first generation, has the requested network, project
/// and setting and the prefix that was asked for, and is stored with its lifecycle; its network
/// was found and active.
pub proof fn lemma_realm_is_stored(
    project_id: Seq<char>,
    network_id: u128,
    prefix: Seq<char>,
    overlapping: bool,
    t: Log,
    u: Log,
    r: CanonicalAddressRealmRecordView,
)
    requires
        create_realm_run(project_id, network_id, prefix, overlapping, t) == (u, Ok::<
            CanonicalAddressRealmRecordView,
            Stop<NetworkErrorView>,
        >(r)),
    ensures
        r.network_id == network_id,
        r.project_id == project_id,
        r.overlapping_prefixes == overlapping,
        r.generation == 1,
        r.state == "active"@,
        net_value(prefix) is Some,
        net_value(r.prefix) == net_value(prefix),
        network_in(t.reply()) matches Ok(Some(n)) && n.state == "active"@,
        called(t, u, StoreCallView::GetNetwork(project_id, network_id)),
        called(t, u, StoreCallView::InsertRealm(r)),
        exists|k: int|
            t.issued.len() <= k < u.issued.len() && ((
            #[trigger] u.issued[k]) matches StoreCallView::InsertResource(x) && x.id == r.id
                && x.project_id == project_id && x.kind == "network:address_realm"@
                && x.desired_state == "active"@ && x.observed_state == "active"@ && x.generation
                == 1 && x.observed_generation == 1 && x.provider_id is None),
{
    let k = t.issued.len() as int;
    let net = net_value(prefix)->Some_0;
    lemma_net_is_wf(prefix);
    lemma_net_round_trip(net);
    assert(u.issued[k] == StoreCallView::GetNetwork(project_id, network_id));
    assert(u.issued[k + 2] == StoreCallView::InsertRealm(r));
    assert(u.issued[k + 3] is InsertResource);
}

/// A pool that was made is active, has the requested realm, project, gateway and addresses, lies
/// with its addresses in its network and with its network in that of its realm, and is stored.
pub proof fn lemma_pool_is_stored(
    project_id: Seq<char>,
    realm_id: u128,
    prefix: Seq<char>,
    gateway: Option<u32>,
    first: u32,
    last: u32,
    t: Log,
    u: Log,
    p: CanonicalAddressPoolRecordView,
)
    requires
        create_pool_run(project_id, realm_id, prefix, gateway, first, last, t) == (u, Ok::<
            CanonicalAddressPoolRecordView,
            Stop<NetworkErrorView>,
        >(p)),
    ensures
        p.realm_id == realm_id,
        p.project_id == project_id,
        p.gateway == gateway,
        p.first_usable == first,
        p.last_usable == last,
        p.generation == 1,
        p.state == "active"@,
        called(t, u, StoreCallView::InsertPool(p)),
        net_value(p.prefix) == net_value(prefix),
        net_value(prefix) matches Some(net) && first <= last && net.has(first) && net.has(last) && (
        gateway matches Some(g) ==> net.has(g)) && (realm_in(t.reply()) matches Ok(Some(realm))
            && realm.state == "active"@ && (net_value(realm.prefix) matches Some(around)
            && around.has(net.network) && around.prefix <= net.prefix)),
{
    let k = t.issued.len() as int;
    let net = net_value(prefix)->Some_0;
    lemma_net_is_wf(prefix);
    lemma_net_round_trip(net);
    assert(u.issued[k + 2] == StoreCallView::InsertPool(p));
}

/// An endpoint that was made is active, has the requested realm, project, address and hardware
/// address, lies in its realm, and is stored.
pub proof fn lemma_endpoint_is_stored(
    project_id: Seq<char>,
    realm_id: u128,
    fixed_ip: u32,
    mac: Seq<char>,
    t: Log,
    u: Log,
    e: CanonicalEndpointRecordView,
)
    requires
        create_endpoint_run(project_id, realm_id, fixed_ip, mac, t) == (u, Ok::<
            CanonicalEndpointRecordView,
            Stop<NetworkErrorView>,
        >(e)),
    ensures
        e.realm_id == realm_id,
        e.project_id == project_id,
        e.fixed_ip == fixed_ip,
        e.mac == mac,
        e.generation == 1,
        e.state == "active"@,
        trim(mac).len() > 0,
        called(t, u, StoreCallView::InsertEndpoint(e)),
        realm_in(t.reply()) matches Ok(Some(realm)) && realm.state == "active"@ && (net_value(
            realm.prefix,
        ) matches Some(net) && net.has(fixed_ip)),
{
    let k = t.issued.len() as int;
    assert(u.issued[k + 2] == StoreCallView::InsertEndpoint(e));
}

// ---------------------------------------------------------------------------
// Subnets
// ---------------------------------------------------------------------------

/// Whether a realm and a pool are those of a subnet.
pub open spec fn makes_up(
    realm: CanonicalAddressRealmRecordView,
    pool: CanonicalAddressPoolRecordView,
    s: SubnetRecordView,
) -> bool {
    &&& realm.id == s.id
    &&& realm.network_id == s.network_id
    &&& realm.project_id == s.project_id
    &&& realm.prefix == s.cidr
    &&& !realm.overlapping_prefixes
    &&& realm.state == "active"@
    &&& realm.generation == 1
    &&& pool.realm_id == s.id
    &&& pool.project_id == s.project_id
    &&& pool.prefix == s.cidr
    &&& pool.gateway == Some(s.gateway_ip)
    &&& pool.first_usable == s.allocation_start
    &&& pool.last_usable == s.allocation_end
    &&& pool.state == "active"@
    &&& pool.generation == 1
}

/// A subnet that was made has the requested network, name and project, and the requested gateway
/// and pool, or the first, the second and the last host of its network; it is stored with its
/// realm and its pool, and one of the quota is used for it.
pub proof fn lemma_subnet_is_stored(
    project_id: Seq<char>,
    network_id: u128,
    name: Seq<char>,
    cidr: Seq<char>,
    gateway_ip: Option<u32>,
    start: Option<u32>,
    end: Option<u32>,
    t: Log,
    u: Log,
    s: SubnetRecordView,
)
    requires
        create_subnet_run(project_id, network_id, name, cidr, gateway_ip, start, end, t) == (u, Ok::<
            SubnetRecordView,
            Stop<NetworkErrorView>,
        >(s)),
    ensures
        s.network_id == network_id,
        s.project_id == project_id,
        s.name == name,
        s.ip_version == 4,
        s.enable_dhcp,
        net_value(s.cidr) == net_value(cidr),
        net_value(cidr) matches Some(net) && (gateway_ip is Some ==> s.gateway_ip
            == gateway_ip->Some_0) && (gateway_ip is None ==> s.gateway_ip == net.network + 1) && (
        start is Some ==> s.allocation_start == start->Some_0) && (start is None
            ==> s.allocation_start == net.network + 2) && (end is Some ==> s.allocation_end
            == end->Some_0) && (end is None ==> s.allocation_end == net.broadcast - 1),
        network_in(t.reply()) matches Ok(Some(_)),
        exists|k: int|
            t.issued.len() <= k < u.issued.len() && ((
            #[trigger] u.issued[k]) matches StoreCallView::InsertSubnetBundle(realm, pool, x) && x
                == s && makes_up(realm, pool, s)),
        called(
            t,
            u,
            StoreCallView::ReserveQuota(
                project_id,
                operation("subnet"@, project_id, s.id),
                "subnets"@,
            ),
        ),
{
    lemma_operation_words();
    let k = t.issued.len() as int;
    let net = net_value(cidr)->Some_0;
    lemma_net_is_wf(cidr);
    lemma_net_round_trip(net);
    assert(u.issued[k + 2] == StoreCallView::ReserveQuota(
        project_id,
        operation("subnet"@, project_id, s.id),
        "subnets"@,
    ));
    assert(u.issued[k + 5] is InsertSubnetBundle);
}

/// A subnet that was removed is removed with its realm and its pool, and what was set aside when it
/// was made is given back; it was there.
pub proof fn lemma_subnet_is_removed(project_id: Seq<char>, id: u128, t: Log, u: Log)
    requires
        delete_subnet_run(project_id, id, t) == (u, Ok::<(), Stop<NetworkErrorView>>(())),
    ensures
        called(t, u, StoreCallView::DeleteSubnetBundle(project_id, id)),
        called(
            t,
            u,
            StoreCallView::ReleaseForOperation(operation("subnet"@, project_id, id)),
        ),
        (subnet_in(t.reply()) matches Ok(Some(_))) || (realm_in(
            t.after(StoreCallView::GetSubnet(project_id, id)).reply(),
        ) matches Ok(Some(_))),
{
    lemma_operation_words();
    let k = t.issued.len() as int;
    assert(u.issued[k + 2] == StoreCallView::DeleteSubnetBundle(project_id, id));
    assert(u.issued[k + 3] == StoreCallView::ReleaseForOperation(
        operation("subnet"@, project_id, id),
    ));
}

} // verus!
