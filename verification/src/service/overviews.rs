//! What is shown, gathered and taken over, said of the records that it comes from.
use super::calls::{endpoints_in, network_in, pools_in, realms_in, Log, StoreCallView};
use super::effects::called;
use super::errors::NetworkErrorView;
use super::gateways::{RealmPools, RealmPoolsView};
use super::grants::{goes_on, lemma_called_earlier, lemma_called_later};
use super::legacy::{
    home_subnet, import_networks_run, import_ports_run, import_run, import_subnets_run,
    legacy_network, legacy_port, legacy_subnet, LegacyFileView, LegacyNetworkView, LegacyPortView,
    LegacySubnetView,
};
use super::policies::{endpoint_rule, endpoint_rules, recorded_policies};
use super::records::{
    CanonicalAddressPoolRecordView, CanonicalAddressRealmRecordView,
    CanonicalL3GatewayRecordView, CanonicalNetworkPolicyRecordView,
    CanonicalNetworkPolicyRuleRecordView, CanonicalNetworkRecordView, NetworkRecordView,
    PortRecordView, SubnetRecordView,
};
use super::rules::{network_of, policy_of, port_mac};
use super::snapshot::{
    attached_gateways_run, children_run, has_realm, reconstruct_run, relevant, AttachedGatewayView,
    CanonicalNetworkSnapshotView, Children, RealmEndpoints, RealmEndpointsView,
};
use super::subnets::{changed_subnet, project_subnet_run, store_changed_run, subnet_of};
use crate::domain::PolicyIntent;
use crate::session::Stop;
use crate::table::{id_get, id_put, id_sorted, lemma_id_put_get, lemma_id_put_sorted};
use crate::text::upper;
use vstd::prelude::*;

verus! {

// ---------------------------------------------------------------------------
// What clients see
// ---------------------------------------------------------------------------

/// A network is shown with its identifier, name and project, and with its state in capitals.
pub proof fn lemma_network_shows_its_record(n: CanonicalNetworkRecordView)
    ensures
        network_of(n).id == n.id,
        network_of(n).name == n.name,
        network_of(n).project_id == n.project_id,
        network_of(n).status == upper(n.state),
{
}

/// A subnet is shown as its realm and its pool: with the realm's identifier, network, project and
/// prefix and the pool's addresses, and with the name and the setting that are kept of it.
pub proof fn lemma_subnet_shows_its_realm(
    realm: CanonicalAddressRealmRecordView,
    pool: CanonicalAddressPoolRecordView,
    gateway: u32,
    kept: Option<SubnetRecordView>,
)
    ensures
        ({
            let s = subnet_of(realm, pool, gateway, kept);
            &&& s.id == realm.id
            &&& s.network_id == realm.network_id
            &&& s.project_id == realm.project_id
            &&& s.cidr == realm.prefix
            &&& s.gateway_ip == gateway
            &&& s.allocation_start == pool.first_usable
            &&& s.allocation_end == pool.last_usable
            &&& s.ip_version == 4
            &&& kept matches Some(k) ==> s.name == k.name && s.enable_dhcp == k.enable_dhcp
            &&& kept is None ==> s.name.len() == 0 && s.enable_dhcp
        }),
{
}

/// A subnet that is found is shown with the gateway of its first pool.
pub proof fn lemma_shown_gateway_is_that_of_the_pool(
    project_id: Seq<char>,
    realm: CanonicalAddressRealmRecordView,
    t: Log,
    u: Log,
    s: SubnetRecordView,
)
    requires
        project_subnet_run(project_id, realm, t) == (u, Ok::<
            SubnetRecordView,
            Stop<NetworkErrorView>,
        >(s)),
    ensures
        s.id == realm.id,
        pools_in(t.reply()) matches Ok(pools) && pools.len() > 0 && pools[0].gateway == Some(
            s.gateway_ip,
        ) && s.allocation_start == pools[0].first_usable && s.allocation_end
            == pools[0].last_usable,
        u.issued[t.issued.len() as int] == StoreCallView::ListPools(project_id, realm.id),
        u.issued[t.issued.len() as int + 1] == StoreCallView::GetSubnet(project_id, realm.id),
{
}

/// A changed subnet has what is given and keeps what is not; of the rest nothing changes.
pub proof fn lemma_subnet_keeps_the_rest(
    current: SubnetRecordView,
    name: Option<Seq<char>>,
    gateway: u32,
    enable_dhcp: Option<bool>,
)
    ensures
        ({
            let s = changed_subnet(current, name, gateway, enable_dhcp);
            &&& s.gateway_ip == gateway
            &&& s.name == (if name is Some {
                name->Some_0
            } else {
                current.name
            })
            &&& s.enable_dhcp == (if enable_dhcp is Some {
                enable_dhcp->Some_0
            } else {
                current.enable_dhcp
            })
            &&& s.id == current.id && s.network_id == current.network_id && s.project_id
                == current.project_id && s.cidr == current.cidr
            &&& s.allocation_start == current.allocation_start && s.allocation_end
                == current.allocation_end && s.ip_version == current.ip_version
        }),
{
}

/// A changed subnet is stored with the gateway of its pool where that changes, and alone where it
/// does not.
pub proof fn lemma_changed_subnet_is_stored(
    project_id: Seq<char>,
    id: u128,
    updated: SubnetRecordView,
    pool: CanonicalAddressPoolRecordView,
    t: Log,
)
    ensures
        ({
            let u = store_changed_run(project_id, id, updated, pool, t).0;
            let first = u.issued[t.issued.len() as int];
            &&& u.issued.len() > t.issued.len()
            &&& pool.gateway is Some && pool.gateway != Some(updated.gateway_ip) ==> first
                == StoreCallView::UpdateSubnetBundle(updated, pool.id, pool.generation)
            &&& pool.gateway is None || pool.gateway == Some(updated.gateway_ip) ==> first
                == StoreCallView::UpdateSubnet(updated)
        }),
{
}

// ---------------------------------------------------------------------------
// Rules
// ---------------------------------------------------------------------------

/// The rules that records stand for are as many as the records, each that of its record.
pub proof fn lemma_every_record_is_a_rule(
    records: Seq<CanonicalNetworkPolicyRecordView>,
    i: int,
    known: Seq<PolicyIntent>,
    all: Seq<PolicyIntent>,
)
    requires
        0 <= i <= records.len(),
        recorded_policies(records, i, known) == Some(all),
    ensures
        all.len() == known.len() + records.len() - i,
        forall|k: int| 0 <= k < known.len() ==> #[trigger] all[k] == known[k],
        forall|k: int|
            i <= k < records.len() ==> policy_of(#[trigger] records[k]) == Some(
                all[known.len() + k - i],
            ),
    decreases records.len() - i,
{
    if i < records.len() {
        let p = policy_of(records[i])->Some_0;
        lemma_every_record_is_a_rule(records, i + 1, known.push(p), all);
        assert(all[known.len() as int] == known.push(p)[known.len() as int]);
        assert forall|k: int| 0 <= k < known.len() implies #[trigger] all[k] == known[k] by {
            assert(all[k] == known.push(p)[k]);
        }
    }
}

/// The rules of a shared policy at an endpoint are those of its active rules: each of them is there,
/// and none is there that is not one of them.
pub proof fn lemma_active_rules_apply(
    endpoint_id: u128,
    rules: Seq<CanonicalNetworkPolicyRuleRecordView>,
    i: int,
    known: Seq<PolicyIntent>,
    all: Seq<PolicyIntent>,
)
    requires
        0 <= i <= rules.len(),
        endpoint_rules(endpoint_id, rules, i, known) == Some(all),
    ensures
        forall|k: int| 0 <= k < known.len() ==> #[trigger] all.contains(known[k]),
        forall|k: int|
            i <= k < rules.len() && (#[trigger] rules[k]).state == "active"@ ==> (endpoint_rule(
                endpoint_id,
                rules[k],
            ) matches Some(p) && all.contains(p)),
        forall|p: PolicyIntent| #[trigger]
            all.contains(p) ==> known.contains(p) || exists|k: int|
                i <= k < rules.len() && (#[trigger] rules[k]).state == "active"@ && endpoint_rule(
                    endpoint_id,
                    rules[k],
                ) == Some(p),
    decreases rules.len() - i,
{
    if i < rules.len() {
        if rules[i].state != "active"@ {
            lemma_active_rules_apply(endpoint_id, rules, i + 1, known, all);
        } else {
            let p = endpoint_rule(endpoint_id, rules[i])->Some_0;
            let more = known.push(p);
            lemma_active_rules_apply(endpoint_id, rules, i + 1, more, all);
            assert(all.contains(more[known.len() as int]));
            assert forall|k: int| 0 <= k < known.len() implies #[trigger] all.contains(
                known[k],
            ) by {
                assert(all.contains(more[k]));
            }
            assert forall|q: PolicyIntent| #[trigger] all.contains(q) implies known.contains(q)
                || exists|k: int|
                i <= k < rules.len() && (#[trigger] rules[k]).state == "active"@ && endpoint_rule(
                    endpoint_id,
                    rules[k],
                ) == Some(q) by {
                if more.contains(q) {
                    let n = choose|n: int| 0 <= n < more.len() && more[n] == q;
                    if n < known.len() {
                        assert(known[n] == q);
                    } else {
                        assert(endpoint_rule(endpoint_id, rules[i]) == Some(q));
                    }
                }
            }
        }
    } else {
        assert forall|k: int| 0 <= k < known.len() implies #[trigger] all.contains(known[k]) by {
            assert(all[k] == known[k]);
        }
    }
}

// ---------------------------------------------------------------------------
// The file of an earlier version
// ---------------------------------------------------------------------------

/// Whether a port was taken over as the file has it: its own hardware address, or the one that
/// follows from its identifier where it has none; its own subnet, or the first one of its network
/// and project.
pub open spec fn is_taken_over(
    old_port: LegacyPortView,
    subnets: Seq<LegacySubnetView>,
    p: PortRecordView,
) -> bool {
    &&& p.id == old_port.id
    &&& p.network_id == old_port.network_id
    &&& p.project_id == old_port.project_id
    &&& p.name == old_port.name
    &&& p.fixed_ip == old_port.fixed_ip
    &&& p.status == old_port.status
    &&& p.binding_host is None && p.binding_state is None
    &&& old_port.mac_address.len() > 0 ==> p.mac_address == old_port.mac_address
    &&& old_port.mac_address.len() == 0 ==> p.mac_address == port_mac(old_port.id)
    &&& old_port.subnet_id != 0 ==> p.subnet_id == Some(old_port.subnet_id)
    &&& old_port.subnet_id == 0 ==> (p.subnet_id matches Some(id) ==> exists|k: int|
        0 <= k < subnets.len() && (#[trigger] subnets[k]).id == id && subnets[k].network_id
            == old_port.network_id && subnets[k].project_id == old_port.project_id)
}

proof fn lemma_home(old_port: LegacyPortView, subnets: Seq<LegacySubnetView>, i: int)
    requires
        0 <= i <= subnets.len(),
    ensures
        home_subnet(old_port, subnets, i) matches Some(id) ==> exists|k: int|
            0 <= k < subnets.len() && (#[trigger] subnets[k]).id == id && subnets[k].network_id
                == old_port.network_id && subnets[k].project_id == old_port.project_id,
    decreases subnets.len() - i,
{
    if i < subnets.len() {
        if subnets[i].network_id == old_port.network_id && subnets[i].project_id
            == old_port.project_id {
            assert(home_subnet(old_port, subnets, i) == Some(subnets[i].id));
        } else {
            lemma_home(old_port, subnets, i + 1);
        }
    }
}

proof fn lemma_networks_taken(networks: Seq<LegacyNetworkView>, i: int, t: Log)
    requires
        0 <= i <= networks.len(),
        import_networks_run(networks, i, t).1 is Ok,
    ensures
        goes_on(t, import_networks_run(networks, i, t).0),
        forall|k: int|
            i <= k < networks.len() ==> called(
                t,
                import_networks_run(networks, i, t).0,
                StoreCallView::InsertNetwork(legacy_network(#[trigger] networks[k])),
            ),
    decreases networks.len() - i,
{
    if i < networks.len() {
        let c = StoreCallView::InsertNetwork(legacy_network(networks[i]));
        let t1 = t.after(c);
        lemma_networks_taken(networks, i + 1, t1);
        let u = import_networks_run(networks, i + 1, t1).0;
        assert(t1.issued[t.issued.len() as int] == c);
        assert(called(t, t1, c));
        lemma_called_later(t, t1, u, c);
        assert forall|k: int| i <= k < networks.len() implies called(
            t,
            u,
            StoreCallView::InsertNetwork(legacy_network(#[trigger] networks[k])),
        ) by {
            if k > i {
                lemma_called_earlier(
                    t,
                    t1,
                    u,
                    StoreCallView::InsertNetwork(legacy_network(networks[k])),
                );
            }
        }
    }
}

proof fn lemma_subnets_taken(subnets: Seq<LegacySubnetView>, i: int, t: Log)
    requires
        0 <= i <= subnets.len(),
        import_subnets_run(subnets, i, t).1 is Ok,
    ensures
        goes_on(t, import_subnets_run(subnets, i, t).0),
        forall|k: int|
            i <= k < subnets.len() ==> called(
                t,
                import_subnets_run(subnets, i, t).0,
                StoreCallView::InsertSubnet(legacy_subnet(#[trigger] subnets[k])),
            ),
    decreases subnets.len() - i,
{
    if i < subnets.len() {
        let c = StoreCallView::InsertSubnet(legacy_subnet(subnets[i]));
        let t1 = t.after(c);
        lemma_subnets_taken(subnets, i + 1, t1);
        let u = import_subnets_run(subnets, i + 1, t1).0;
        assert(t1.issued[t.issued.len() as int] == c);
        assert(called(t, t1, c));
        lemma_called_later(t, t1, u, c);
        assert forall|k: int| i <= k < subnets.len() implies called(
            t,
            u,
            StoreCallView::InsertSubnet(legacy_subnet(#[trigger] subnets[k])),
        ) by {
            if k > i {
                lemma_called_earlier(
                    t,
                    t1,
                    u,
                    StoreCallView::InsertSubnet(legacy_subnet(subnets[k])),
                );
            }
        }
    }
}

proof fn lemma_ports_taken(
    ports: Seq<LegacyPortView>,
    subnets: Seq<LegacySubnetView>,
    i: int,
    t: Log,
)
    requires
        0 <= i <= ports.len(),
        import_ports_run(ports, subnets, i, t).1 is Ok,
    ensures
        goes_on(t, import_ports_run(ports, subnets, i, t).0),
        forall|k: int|
            i <= k < ports.len() ==> called(
                t,
                import_ports_run(ports, subnets, i, t).0,
                StoreCallView::InsertPort(legacy_port(#[trigger] ports[k], subnets)),
            ),
    decreases ports.len() - i,
{
    if i < ports.len() {
        let c = StoreCallView::InsertPort(legacy_port(ports[i], subnets));
        let t1 = t.after(c);
        lemma_ports_taken(ports, subnets, i + 1, t1);
        let u = import_ports_run(ports, subnets, i + 1, t1).0;
        assert(t1.issued[t.issued.len() as int] == c);
        assert(called(t, t1, c));
        lemma_called_later(t, t1, u, c);
        assert forall|k: int| i <= k < ports.len() implies called(
            t,
            u,
            StoreCallView::InsertPort(legacy_port(#[trigger] ports[k], subnets)),
        ) by {
            if k > i {
                lemma_called_earlier(
                    t,
                    t1,
                    u,
                    StoreCallView::InsertPort(legacy_port(ports[k], subnets)),
                );
            }
        }
    }
}

/// Whether a file was taken over: a record of each of its networks, subnets and ports was handed to
/// the store, as the file has it, and the file was put aside in the end.
pub open spec fn file_is_taken_over(t: Log, u: Log, file: LegacyFileView) -> bool {
    &&& forall|k: int|
        0 <= k < file.networks.len() ==> exists|n: NetworkRecordView| #[trigger]
            called(t, u, StoreCallView::InsertNetwork(n)) && n.id == (
            #[trigger] file.networks[k]).id && n.name == file.networks[k].name && n.project_id
                == file.networks[k].project_id && n.status == file.networks[k].status
    &&& forall|k: int|
        0 <= k < file.subnets.len() ==> exists|s: SubnetRecordView| #[trigger]
            called(t, u, StoreCallView::InsertSubnet(s)) && s.id == (
            #[trigger] file.subnets[k]).id && s.network_id == file.subnets[k].network_id && s.name
                == file.subnets[k].name && s.project_id == file.subnets[k].project_id && s.cidr
                == file.subnets[k].cidr && s.gateway_ip == file.subnets[k].gateway_ip
                && s.allocation_start == file.subnets[k].allocation_start && s.allocation_end
                == file.subnets[k].allocation_end && s.ip_version == 4 && s.enable_dhcp
    &&& forall|k: int|
        0 <= k < file.ports.len() ==> exists|p: PortRecordView| #[trigger]
            called(t, u, StoreCallView::InsertPort(p)) && is_taken_over(
                #[trigger] file.ports[k],
                file.subnets,
                p,
            )
    &&& u.issued.len() > 0 && u.issued.last() == StoreCallView::RetireLegacyFile
}

/// A file whose import succeeded was taken over, all of it.
pub proof fn lemma_file_is_taken_over(file: LegacyFileView, t: Log, u: Log)
    requires
        import_run(file, t) == (u, Ok::<(), Stop<NetworkErrorView>>(())),
    ensures
        file_is_taken_over(t, u, file),
{
    let t1 = import_networks_run(file.networks, 0, t).0;
    let t2 = import_subnets_run(file.subnets, 0, t1).0;
    let t3 = import_ports_run(file.ports, file.subnets, 0, t2).0;
    lemma_networks_taken(file.networks, 0, t);
    lemma_subnets_taken(file.subnets, 0, t1);
    lemma_ports_taken(file.ports, file.subnets, 0, t2);
    assert(goes_on(t1, u) && goes_on(t2, u) && goes_on(t3, u));
    assert(goes_on(t, t2));
    assert forall|k: int| 0 <= k < file.networks.len() implies exists|n: NetworkRecordView|
     #[trigger]
        called(t, u, StoreCallView::InsertNetwork(n)) && n.id == (#[trigger] file.networks[k]).id
            && n.name == file.networks[k].name && n.project_id == file.networks[k].project_id
            && n.status == file.networks[k].status by {
        let n = legacy_network(file.networks[k]);
        lemma_called_later(t, t1, u, StoreCallView::InsertNetwork(n));
    }
    assert forall|k: int| 0 <= k < file.subnets.len() implies exists|s: SubnetRecordView|
     #[trigger]
        called(t, u, StoreCallView::InsertSubnet(s)) && s.id == (#[trigger] file.subnets[k]).id
            && s.network_id == file.subnets[k].network_id && s.name == file.subnets[k].name
            && s.project_id == file.subnets[k].project_id && s.cidr == file.subnets[k].cidr
            && s.gateway_ip == file.subnets[k].gateway_ip && s.allocation_start
            == file.subnets[k].allocation_start && s.allocation_end
            == file.subnets[k].allocation_end && s.ip_version == 4 && s.enable_dhcp by {
        let s = legacy_subnet(file.subnets[k]);
        lemma_called_later(t1, t2, u, StoreCallView::InsertSubnet(s));
        lemma_called_earlier(t, t1, u, StoreCallView::InsertSubnet(s));
    }
    assert forall|k: int| 0 <= k < file.ports.len() implies exists|p: PortRecordView| #[trigger]
        called(t, u, StoreCallView::InsertPort(p)) && is_taken_over(
            #[trigger] file.ports[k],
            file.subnets,
            p,
        ) by {
        let p = legacy_port(file.ports[k], file.subnets);
        lemma_called_later(t2, t3, u, StoreCallView::InsertPort(p));
        lemma_called_earlier(t, t2, u, StoreCallView::InsertPort(p));
        lemma_home(file.ports[k], file.subnets, 0);
        assert(is_taken_over(file.ports[k], file.subnets, p));
    }
}

// ---------------------------------------------------------------------------
// Snapshots
// ---------------------------------------------------------------------------

proof fn lemma_children(
    project_id: Seq<char>,
    network: CanonicalNetworkRecordView,
    realms: Seq<CanonicalAddressRealmRecordView>,
    i: int,
    known: Children,
    t: Log,
    id: u128,
)
    requires
        0 <= i <= realms.len(),
        id_sorted::<RealmPools>(known.0),
        id_sorted::<RealmEndpoints>(known.1),
        children_run(project_id, network, realms, i, known, t).1 is Ok,
    ensures
        ({
            let all = children_run(project_id, network, realms, i, known, t).1->Ok_0;
            &&& id_get::<RealmPools>(all.0, id) is Some <==> id_get::<RealmPools>(known.0, id)
                is Some || exists|k: int| i <= k < realms.len() && (#[trigger] realms[k]).id == id
            &&& id_get::<RealmEndpoints>(all.1, id) is Some <==> id_get::<RealmEndpoints>(
                known.1,
                id,
            ) is Some || exists|k: int| i <= k < realms.len() && (#[trigger] realms[k]).id == id
            &&& forall|k: int|
                i <= k < realms.len() ==> (#[trigger] realms[k]).network_id == network.id
                    && realms[k].project_id == network.project_id
        }),
    decreases realms.len() - i,
{
    if i < realms.len() {
        let t1 = t.after(StoreCallView::ListPools(project_id, realms[i].id));
        let t2 = t1.after(StoreCallView::ListEndpoints(project_id, realms[i].id));
        let a = RealmPoolsView { realm_id: realms[i].id, pools: pools_in(t.reply())->Ok_0 };
        let b = RealmEndpointsView {
            realm_id: realms[i].id,
            endpoints: endpoints_in(t1.reply())->Ok_0,
        };
        lemma_id_put_sorted::<RealmPools>(known.0, a);
        lemma_id_put_sorted::<RealmEndpoints>(known.1, b);
        lemma_id_put_get::<RealmPools>(known.0, a, id);
        lemma_id_put_get::<RealmEndpoints>(known.1, b, id);
        lemma_children(
            project_id,
            network,
            realms,
            i + 1,
            (id_put::<RealmPools>(known.0, a), id_put::<RealmEndpoints>(known.1, b)),
            t2,
            id,
        );
    }
}

/// Whether a gateway is attached to realms: it has attachments, and each is about one of them.
pub open spec fn is_attached_to(
    g: AttachedGatewayView,
    realms: Seq<CanonicalAddressRealmRecordView>,
) -> bool {
    &&& g.attachments.len() > 0
    &&& forall|k: int|
        0 <= k < g.attachments.len() ==> is_one_of(
            realms,
            (#[trigger] g.attachments[k]).realm_id,
        )
}

/// Whether an identifier is that of one of some realms.
pub open spec fn is_one_of(realms: Seq<CanonicalAddressRealmRecordView>, id: u128) -> bool {
    exists|i: int| 0 <= i < realms.len() && (#[trigger] realms[i]).id == id
}

proof fn lemma_attached_gateways(
    project_id: Seq<char>,
    realms: Seq<CanonicalAddressRealmRecordView>,
    gateways: Seq<CanonicalL3GatewayRecordView>,
    i: int,
    known: Seq<AttachedGatewayView>,
    t: Log,
)
    requires
        0 <= i <= gateways.len(),
        attached_gateways_run(project_id, realms, gateways, i, known, t).1 is Ok,
        forall|k: int|
            0 <= k < known.len() ==> is_attached_to(#[trigger] known[k], realms)
                && gateways.contains(known[k].gateway),
    ensures
        ({
            let all = attached_gateways_run(
                project_id,
                realms,
                gateways,
                i,
                known,
                t,
            ).1->Ok_0;
            forall|k: int|
                0 <= k < all.len() ==> is_attached_to(#[trigger] all[k], realms)
                    && gateways.contains(all[k].gateway)
        }),
    decreases gateways.len() - i,
{
    if i < gateways.len() {
        let t1 = t.after(StoreCallView::ListAttachments(project_id, gateways[i].id));
        let all = super::calls::attachments_in(t.reply())->Ok_0;
        let some = relevant(realms, all);
        if some.len() == 0 {
            lemma_attached_gateways(project_id, realms, gateways, i + 1, known, t1);
        } else {
            let g = AttachedGatewayView { gateway: gateways[i], attachments: some };
            assert forall|k: int| 0 <= k < some.len() implies has_realm(
                realms,
                (#[trigger] some[k]).realm_id,
            ) by {
                all.lemma_filter_pred(
                    |a: super::records::CanonicalL3GatewayAttachmentRecordView|
                        has_realm(realms, a.realm_id),
                    k,
                );
            }
            assert forall|k: int| 0 <= k < g.attachments.len() implies is_one_of(
                realms,
                (#[trigger] g.attachments[k]).realm_id,
            ) by {
                assert(has_realm(realms, some[k].realm_id));
            }
            assert(is_attached_to(g, realms));
            assert(gateways.contains(gateways[i]));
            lemma_attached_gateways(project_id, realms, gateways, i + 1, known.push(g), t1);
        }
    }
}

/// What is gathered of a network is its own: the network that was found, the realms that are listed
/// of it, each of the network and its project, pools and endpoints of exactly these realms, and
/// gateways that they are attached to.
pub proof fn lemma_snapshot_is_of_the_network(
    project_id: Seq<char>,
    network_id: u128,
    t: Log,
    u: Log,
    s: CanonicalNetworkSnapshotView,
    id: u128,
)
    requires
        reconstruct_run(project_id, network_id, t) == (u, Ok::<
            CanonicalNetworkSnapshotView,
            Stop<NetworkErrorView>,
        >(s)),
    ensures
        network_in(t.reply()) == Ok::<Option<CanonicalNetworkRecordView>, Stop<NetworkErrorView>>(
            Some(s.network),
        ),
        realms_in(t.after(StoreCallView::GetNetwork(project_id, network_id)).reply()) == Ok::<
            Seq<CanonicalAddressRealmRecordView>,
            Stop<NetworkErrorView>,
        >(s.realms),
        forall|k: int|
            0 <= k < s.realms.len() ==> (#[trigger] s.realms[k]).network_id == s.network.id
                && s.realms[k].project_id == s.network.project_id,
        id_get::<RealmPools>(s.pools, id) is Some <==> exists|k: int|
            0 <= k < s.realms.len() && (#[trigger] s.realms[k]).id == id,
        id_get::<RealmEndpoints>(s.endpoints, id) is Some <==> exists|k: int|
            0 <= k < s.realms.len() && (#[trigger] s.realms[k]).id == id,
        forall|k: int|
            0 <= k < s.l3_gateways.len() ==> is_attached_to(#[trigger] s.l3_gateways[k], s.realms),
{
    let t1 = t.after(StoreCallView::GetNetwork(project_id, network_id));
    let t2 = t1.after(StoreCallView::ListRealms(project_id, network_id));
    let none = (Seq::empty(), Seq::empty());
    lemma_children(project_id, s.network, s.realms, 0, none, t2, id);
    let t3 = children_run(project_id, s.network, s.realms, 0, none, t2).0;
    let t4 = t3.after(StoreCallView::ListGateways(project_id));
    let gateways = super::calls::gateways_in(t3.reply())->Ok_0;
    lemma_attached_gateways(project_id, s.realms, gateways, 0, Seq::empty(), t4);
}

} // verus!
