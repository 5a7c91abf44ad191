//! What granted requests about ports, gateways and security groups come to.
use super::binding::{
    observe_binding_run, outcome_run, record_intent_run, state_value, unbind_run, PortBindingState,
};
use super::calls::{
    attachments_in, gateway_in, id_in, policy_attachments_in, policy_in, port_in, realm_in,
    reservation_in, Log, StoreCallView,
};
use super::effects::{called, lemma_operation_words, operation};
use super::errors::{map_failure, NetworkErrorView, StoreErrorView, StoreFailureView};
use super::gateways::{attach_run, create_gateway_run, update_gateway_run};
use super::groups::{
    active_attachments, attach_groups_run, attachment_active, check_groups_run, create_group_run, create_rule_run,
    replace_groups_run, update_group_run,
};
use super::networks::creation;
use super::policies::{endpoint_rule, policy_default, upsert_policy_run};
use super::ports::{
    allocate_run, create_in_realm_run, delete_port_run, detach_policies_run, insert_port_run,
    port_creation, port_of, try_address_run, PortRequestView,
};
use super::records::{
    CanonicalAddressRealmRecordView, CanonicalEndpointRecordView,
    CanonicalL3GatewayAttachmentRecordView, CanonicalL3GatewayRecordView,
    CanonicalNetworkPolicyRuleRecordView, CanonicalPolicyAttachmentRecordView,
    CanonicalReusableNetworkPolicyRecordView, PortRecordView, SecurityGroupRecordView,
    SecurityGroupRuleRecordView,
};
use super::rules::{
    direction_value, lemma_policy_round_trip, lemma_words_read_back, optional_prefix, policy_of,
    protocol_value,
};
use crate::domain::{NetworkProtocol, PolicyAction, PolicyDefaultIntent, PolicyDirection, PolicyIntent};
use crate::session::Stop;
use crate::text::trim;
use vstd::prelude::*;

verus! {

/// Whether a log goes on from another.
pub open spec fn goes_on(t: Log, u: Log) -> bool {
    &&& t.issued.len() <= u.issued.len()
    &&& forall|k: int| 0 <= k < t.issued.len() ==> #[trigger] u.issued[k] == t.issued[k]
}

pub(crate) proof fn lemma_called_later(t: Log, u: Log, v: Log, c: StoreCallView)
    requires
        called(t, u, c),
        goes_on(u, v),
    ensures
        called(t, v, c),
{
    let k = choose|k: int| t.issued.len() <= k < u.issued.len() && #[trigger] u.issued[k] == c;
    assert(v.issued[k] == c);
}

pub(crate) proof fn lemma_called_earlier(t: Log, u: Log, v: Log, c: StoreCallView)
    requires
        goes_on(t, u),
        called(u, v, c),
    ensures
        called(t, v, c),
{
    let k = choose|k: int| u.issued.len() <= k < v.issued.len() && #[trigger] v.issued[k] == c;
    assert(v.issued[k] == c);
}

// ---------------------------------------------------------------------------
// Ports
// ---------------------------------------------------------------------------

/// Whether an endpoint is that of a new port.
pub open spec fn is_endpoint_of(e: CanonicalEndpointRecordView, p: PortRecordView) -> bool {
    &&& e.id == p.id
    &&& Some(e.realm_id) == p.subnet_id
    &&& e.project_id == p.project_id
    &&& e.fixed_ip == p.fixed_ip
    &&& e.mac == p.mac_address
    &&& e.generation == 1
    &&& e.state == "active"@
}

/// Whether a port was stored with its endpoint, and one of the quota was set aside for it.
pub open spec fn port_is_stored(t: Log, u: Log, p: PortRecordView) -> bool {
    &&& exists|e: CanonicalEndpointRecordView| #[trigger]
        called(t, u, StoreCallView::InsertEndpointAndPort(e, p)) && is_endpoint_of(e, p)
    &&& called(
        t,
        u,
        StoreCallView::ReserveQuota(
            p.project_id,
            operation("port"@, p.project_id, p.id),
            "ports"@,
        ),
    )
}

proof fn lemma_port_inserted(
    endpoint: CanonicalEndpointRecordView,
    port: PortRecordView,
    attempts: nat,
    t: Log,
)
    ensures
        goes_on(t, insert_port_run(endpoint, port, attempts, t).0),
        called(
            t,
            insert_port_run(endpoint, port, attempts, t).0,
            StoreCallView::InsertEndpointAndPort(endpoint, port),
        ),
    decreases attempts,
{
    let c = StoreCallView::InsertEndpointAndPort(endpoint, port);
    let t1 = t.after(c);
    let t2 = t1.after(StoreCallView::Sleep(super::ports::BUSY_WAIT_MS));
    assert(t1.issued[t.issued.len() as int] == c);
    assert(t2.issued[t.issued.len() as int] == c);
    if attempts > 1 {
        lemma_port_inserted(endpoint, port, (attempts - 1) as nat, t2);
        let v = insert_port_run(endpoint, port, (attempts - 1) as nat, t2).0;
        lemma_called_later(t, t2, v, c);
        assert(goes_on(t, v));
    }
}

proof fn lemma_try_stores(request: PortRequestView, address: u32, t: Log)
    ensures
        goes_on(t, try_address_run(request, address, t).0),
        try_address_run(request, address, t).1 matches Ok(Some(p)) ==> port_is_stored(
            t,
            try_address_run(request, address, t).0,
            p,
        ) && p.name == request.name && p.network_id == request.network_id && p.project_id
            == request.project_id && p.subnet_id == Some(request.realm_id) && p.status
            == "ACTIVE"@ && p.binding_host is None && p.binding_state is None && p.fixed_ip
            == address,
{
    lemma_operation_words();
    let t1 = t.after(StoreCallView::NewId);
    match id_in(t.reply()) {
        Err(_) => {},
        Ok(id) => {
            let q = StoreCallView::ReserveQuota(
                request.project_id,
                creation(port_creation(), request.project_id, id),
                "ports"@,
            );
            let t2 = t1.after(q);
            match reservation_in(t1.reply()) {
                Err(_) => {},
                Ok(reservation) => {
                    let port = request.port(id, address);
                    let endpoint = request.endpoint(id, address);
                    let n = super::ports::PORT_ATTEMPTS as nat;
                    lemma_port_inserted(endpoint, port, n, t2);
                    let t3 = insert_port_run(endpoint, port, n, t2).0;
                    let u = try_address_run(request, address, t).0;
                    assert(goes_on(t3, u));
                    let c = StoreCallView::InsertEndpointAndPort(endpoint, port);
                    assert(goes_on(t, t2));
                    lemma_called_earlier(t, t2, t3, c);
                    lemma_called_later(t, t3, u, c);
                    assert(t2.issued[t.issued.len() as int + 1] == q);
                    assert(t3.issued[t.issued.len() as int + 1] == q);
                    assert(u.issued[t.issued.len() as int + 1] == q);
                    assert(is_endpoint_of(endpoint, port));
                },
            }
        },
    }
}

proof fn lemma_allocation_stores(request: PortRequestView, candidate: int, end: u32, t: Log)
    ensures
        goes_on(t, allocate_run(request, candidate, end, t).0),
        allocate_run(request, candidate, end, t).1 matches Ok(p) ==> port_is_stored(
            t,
            allocate_run(request, candidate, end, t).0,
            p,
        ) && p.name == request.name && p.network_id == request.network_id && p.project_id
            == request.project_id && p.subnet_id == Some(request.realm_id) && p.status
            == "ACTIVE"@ && p.binding_host is None && p.binding_state is None,
    decreases end + 1 - candidate,
{
    if 0 <= candidate <= end {
        if request.allows(candidate as u32) {
            lemma_try_stores(request, candidate as u32, t);
            let (t1, tried) = try_address_run(request, candidate as u32, t);
            lemma_allocation_stores(request, candidate + 1, end, t1);
            let (u, r) = allocate_run(request, candidate + 1, end, t1);
            if r is Ok && (tried matches Ok(None)) {
                let p = r->Ok_0;
                let e = choose|e: CanonicalEndpointRecordView| #[trigger]
                    called(t1, u, StoreCallView::InsertEndpointAndPort(e, p)) && is_endpoint_of(
                        e,
                        p,
                    );
                lemma_called_earlier(t, t1, u, StoreCallView::InsertEndpointAndPort(e, p));
                lemma_called_earlier(
                    t,
                    t1,
                    u,
                    StoreCallView::ReserveQuota(
                        p.project_id,
                        operation("port"@, p.project_id, p.id),
                        "ports"@,
                    ),
                );
            }
        } else {
            lemma_allocation_stores(request, candidate + 1, end, t);
        }
    }
}

/// A port that was made has the requested network, project and name, is of the realm, active and
/// bound to no host; it is stored with its endpoint, which has the same identifier, address and
/// hardware address, and one of the quota is used for it.
pub proof fn lemma_port_is_stored(
    project_id: Seq<char>,
    network_id: u128,
    name: Seq<char>,
    explicit: Option<u32>,
    realm: CanonicalAddressRealmRecordView,
    t: Log,
    u: Log,
    p: PortRecordView,
)
    requires
        create_in_realm_run(project_id, network_id, name, explicit, realm, t) == (u, Ok::<
            PortRecordView,
            Stop<NetworkErrorView>,
        >(p)),
    ensures
        p.name == name,
        p.network_id == network_id,
        p.project_id == project_id,
        p.subnet_id == Some(realm.id),
        p.status == "ACTIVE"@,
        p.binding_host is None,
        p.binding_state is None,
        port_is_stored(t, u, p),
{
    let t1 = t.after(StoreCallView::ListPools(project_id, realm.id));
    let pool = super::calls::pools_in(t.reply())->Ok_0[0];
    let request = PortRequestView {
        project_id,
        network_id,
        name,
        realm_id: realm.id,
        first_usable: pool.first_usable,
        last_usable: pool.last_usable,
        gateway: pool.gateway->Some_0,
        explicit: explicit is Some,
    };
    match explicit {
        Some(ip) => lemma_allocation_stores(request, ip as int, ip, t1),
        None => lemma_allocation_stores(
            request,
            pool.first_usable as int,
            pool.last_usable,
            t1,
        ),
    }
    assert(goes_on(t, t1));
    let e = choose|e: CanonicalEndpointRecordView| #[trigger]
        called(t1, u, StoreCallView::InsertEndpointAndPort(e, p)) && is_endpoint_of(e, p);
    lemma_called_earlier(t, t1, u, StoreCallView::InsertEndpointAndPort(e, p));
    lemma_called_earlier(
        t,
        t1,
        u,
        StoreCallView::ReserveQuota(
            p.project_id,
            operation("port"@, p.project_id, p.id),
            "ports"@,
        ),
    );
}

proof fn lemma_detached(
    project_id: Seq<char>,
    attachments: Seq<CanonicalPolicyAttachmentRecordView>,
    i: int,
    t: Log,
)
    ensures
        goes_on(t, detach_policies_run(project_id, attachments, i, t).0),
        detach_policies_run(project_id, attachments, i, t).1 is Ok && 0 <= i ==> forall|k: int|
            i <= k < attachments.len() ==> called(
                t,
                detach_policies_run(project_id, attachments, i, t).0,
                StoreCallView::DeletePolicyAttachment(
                    project_id,
                    (#[trigger] attachments[k]).id,
                ),
            ),
    decreases attachments.len() - i,
{
    if 0 <= i < attachments.len() {
        let c = StoreCallView::DeletePolicyAttachment(project_id, attachments[i].id);
        let t1 = t.after(c);
        lemma_detached(project_id, attachments, i + 1, t1);
        let (u, r) = detach_policies_run(project_id, attachments, i + 1, t1);
        assert(t1.issued[t.issued.len() as int] == c);
        if r is Ok {
            assert(called(t, t1, c));
            lemma_called_later(t, t1, u, c);
            assert forall|k: int| i + 1 <= k < attachments.len() implies called(
                t,
                u,
                StoreCallView::DeletePolicyAttachment(
                    project_id,
                    (#[trigger] attachments[k]).id,
                ),
            ) by {
                lemma_called_earlier(
                    t,
                    t1,
                    u,
                    StoreCallView::DeletePolicyAttachment(project_id, attachments[k].id),
                );
            }
        }
    }
}

/// A port that was removed is removed with its endpoint and with everything that attached policies
/// to it, and what was set aside when it was made is given back.
pub proof fn lemma_port_is_removed(
    project_id: Seq<char>,
    id: u128,
    t: Log,
    u: Log,
    attachments: Seq<CanonicalPolicyAttachmentRecordView>,
)
    requires
        delete_port_run(project_id, id, t) == (u, Ok::<(), Stop<NetworkErrorView>>(())),
        policy_attachments_in(t.reply()) == Ok::<
            Seq<CanonicalPolicyAttachmentRecordView>,
            Stop<NetworkErrorView>,
        >(attachments),
    ensures
        called(t, u, StoreCallView::DeleteEndpointAndPort(project_id, id)),
        called(t, u, StoreCallView::ReleaseForOperation(operation("port"@, project_id, id))),
        forall|k: int|
            0 <= k < attachments.len() ==> called(
                t,
                u,
                StoreCallView::DeletePolicyAttachment(
                    project_id,
                    (#[trigger] attachments[k]).id,
                ),
            ),
{
    lemma_operation_words();
    let t1 = t.after(StoreCallView::ListEndpointAttachments(project_id, id));
    let t2 = detach_policies_run(project_id, attachments, 0, t1).0;
    lemma_detached(project_id, attachments, 0, t1);
    let n = t2.issued.len() as int;
    assert(u.issued[n] == StoreCallView::DeleteEndpointAndPort(project_id, id));
    assert(u.issued[n + 1] == StoreCallView::ReleaseForOperation(
        operation("port"@, project_id, id),
    ));
    assert(goes_on(t, t1));
    assert(goes_on(t2, u));
    assert forall|k: int| 0 <= k < attachments.len() implies called(
        t,
        u,
        StoreCallView::DeletePolicyAttachment(project_id, (#[trigger] attachments[k]).id),
    ) by {
        let c = StoreCallView::DeletePolicyAttachment(project_id, attachments[k].id);
        lemma_called_later(t1, t2, u, c);
        lemma_called_earlier(t, t1, u, c);
    }
}

/// A port is shown as the endpoint of its identifier in its realm: with the endpoint's address,
/// hardware address and project and the realm's network, and with the name and the binding that
/// are kept of it.
pub proof fn lemma_port_shows_its_endpoint(
    realm: CanonicalAddressRealmRecordView,
    e: CanonicalEndpointRecordView,
    kept: Option<PortRecordView>,
)
    ensures
        ({
            let p = port_of(realm, e, kept);
            &&& p.id == e.id
            &&& p.project_id == e.project_id
            &&& p.fixed_ip == e.fixed_ip
            &&& p.mac_address == e.mac
            &&& p.network_id == realm.network_id
            &&& p.subnet_id == Some(realm.id)
            &&& kept matches Some(k) ==> p.name == k.name && p.binding_host == k.binding_host
                && p.binding_state == k.binding_state
            &&& kept is None ==> p.name.len() == 0 && p.binding_host is None && p.binding_state
                is None
        }),
{
}

// ---------------------------------------------------------------------------
// Bindings of ports
// ---------------------------------------------------------------------------

/// Whether a request stored the host and the state of a port as its last call.
pub open spec fn stores_binding(
    u: Log,
    project_id: Seq<char>,
    port_id: u128,
    host: Option<Seq<char>>,
    state: Option<PortBindingState>,
) -> bool {
    u.issued.len() > 0 && (u.issued.last() matches StoreCallView::UpdatePortBinding(p, i, h, s) && p
        == project_id && i == port_id && h == host && (state is None ==> s is None) && (
    state is Some ==> s is Some && state_value(s->Some_0) == state))
}

/// Selecting a host stores it: the port is being bound, or stays bound where it was. A host of
/// blanks and another host are refused.
pub proof fn lemma_selection_is_stored(
    project_id: Seq<char>,
    port_id: u128,
    host: Seq<char>,
    t: Log,
    u: Log,
    p: PortRecordView,
)
    requires
        record_intent_run(project_id, port_id, host, t) == (u, Ok::<
            PortRecordView,
            Stop<NetworkErrorView>,
        >(p)),
    ensures
        trim(host).len() > 0,
        port_in(t.reply()) matches Ok(Some(before)) && (before.binding_host is None
            || before.binding_host == Some(host)) && stores_binding(
            u,
            project_id,
            port_id,
            Some(host),
            if before.binding_state matches Some(w) && state_value(w) == Some(
                PortBindingState::Bound,
            ) {
                Some(PortBindingState::Bound)
            } else {
                Some(PortBindingState::Binding)
            },
        ),
{
    lemma_state_words();
}

/// What the host of a port observed is stored, with the host; what another one observed is not.
pub proof fn lemma_observation_is_stored(
    project_id: Seq<char>,
    port_id: u128,
    host: Seq<char>,
    state: Seq<char>,
    t: Log,
    u: Log,
    p: PortRecordView,
)
    requires
        observe_binding_run(project_id, port_id, host, state, t) == (u, Ok::<
            PortRecordView,
            Stop<NetworkErrorView>,
        >(p)),
    ensures
        state_value(state) is Some,
        port_in(t.reply()) matches Ok(Some(before)) && before.binding_host == Some(host),
        stores_binding(u, project_id, port_id, Some(host), state_value(state)),
{
    lemma_state_words();
}

/// How a creation ended is stored with the selected host: only as bound or as failed, and only
/// where a host was selected.
pub proof fn lemma_outcome_is_stored(
    project_id: Seq<char>,
    port_id: u128,
    state: PortBindingState,
    t: Log,
    u: Log,
    p: PortRecordView,
)
    requires
        outcome_run(project_id, port_id, state, t) == (u, Ok::<
            PortRecordView,
            Stop<NetworkErrorView>,
        >(p)),
    ensures
        state == PortBindingState::Bound || state == PortBindingState::Error,
        port_in(t.reply()) matches Ok(Some(before)) && before.binding_host is Some
            && stores_binding(u, project_id, port_id, before.binding_host, Some(state)),
{
    lemma_state_words();
}

/// A port from which its host is taken has neither a host nor a state.
pub proof fn lemma_unbinding_is_stored(
    project_id: Seq<char>,
    port_id: u128,
    t: Log,
    u: Log,
    p: PortRecordView,
)
    requires
        unbind_run(project_id, port_id, t) == (u, Ok::<PortRecordView, Stop<NetworkErrorView>>(p)),
    ensures
        stores_binding(u, project_id, port_id, None, None),
{
}

proof fn lemma_state_words()
    ensures
        forall|s: PortBindingState| #[trigger] state_value(super::binding::state_word(s)) == Some(s),
{
    assert forall|s: PortBindingState| #[trigger]
        state_value(super::binding::state_word(s)) == Some(s) by {
        super::binding::lemma_state_round_trip(s);
    }
}

// ---------------------------------------------------------------------------
// Gateways
// ---------------------------------------------------------------------------

/// A gateway that was made is active and of the first generation, has the requested project, name,
/// external realm and translation, and is stored; its external realm was found.
pub proof fn lemma_gateway_is_stored(
    project_id: Seq<char>,
    name: Seq<char>,
    external: Option<u128>,
    enable_snat: bool,
    t: Log,
    u: Log,
    g: CanonicalL3GatewayRecordView,
)
    requires
        create_gateway_run(project_id, name, external, enable_snat, t) == (u, Ok::<
            CanonicalL3GatewayRecordView,
            Stop<NetworkErrorView>,
        >(g)),
    ensures
        trim(name).len() > 0,
        g.project_id == project_id,
        g.name == name,
        g.external_realm_id == external,
        g.enable_snat == enable_snat,
        g.generation == 1,
        g.state == "active"@,
        called(t, u, StoreCallView::InsertGateway(g)),
        external matches Some(id) ==> (realm_in(t.reply()) matches Ok(Some(_))) && called(
            t,
            u,
            StoreCallView::GetRealm(project_id, id),
        ),
{
    let n = u.issued.len() - 1;
    assert(u.issued[n] == StoreCallView::InsertGateway(g));
    if external is Some {
        assert(u.issued[t.issued.len() as int] == StoreCallView::GetRealm(
            project_id,
            external->Some_0,
        ));
    }
}

/// A realm that was attached is attached to the requested gateway, actively; the gateway was
/// active, the realm was found, and it was not attached before.
pub proof fn lemma_attachment_is_stored(
    project_id: Seq<char>,
    gateway_id: u128,
    realm_id: u128,
    t: Log,
    u: Log,
    a: CanonicalL3GatewayAttachmentRecordView,
)
    requires
        attach_run(project_id, gateway_id, realm_id, t) == (u, Ok::<
            CanonicalL3GatewayAttachmentRecordView,
            Stop<NetworkErrorView>,
        >(a)),
    ensures
        a.gateway_id == gateway_id,
        a.realm_id == realm_id,
        a.project_id == project_id,
        a.generation == 1,
        a.state == "active"@,
        called(t, u, StoreCallView::InsertAttachment(a)),
        gateway_in(t.reply()) matches Ok(Some(g)) && g.state == "active"@,
        ({
            let t1 = t.after(StoreCallView::GetGateway(project_id, gateway_id));
            let t2 = t1.after(StoreCallView::GetRealm(project_id, realm_id));
            &&& realm_in(t1.reply()) matches Ok(Some(_))
            &&& attachments_in(t2.reply()) matches Ok(all) && forall|i: int|
                0 <= i < all.len() ==> (#[trigger] all[i]).realm_id != realm_id
        }),
{
    assert(u.issued[t.issued.len() as int + 4] == StoreCallView::InsertAttachment(a));
}

/// A change of a gateway hands the store what is requested, and only for the expected generation;
/// a new external realm was found.
pub proof fn lemma_gateway_is_changed(
    project_id: Seq<char>,
    gateway_id: u128,
    expected: u64,
    name: Seq<char>,
    external: Option<u128>,
    enable_snat: bool,
    t: Log,
    u: Log,
    g: CanonicalL3GatewayRecordView,
)
    requires
        update_gateway_run(project_id, gateway_id, expected, name, external, enable_snat, t) == (
            u,
            Ok::<CanonicalL3GatewayRecordView, Stop<NetworkErrorView>>(g),
        ),
    ensures
        trim(name).len() > 0,
        called(
            t,
            u,
            StoreCallView::UpdateGateway(
                project_id,
                gateway_id,
                expected,
                name,
                external,
                enable_snat,
            ),
        ),
        external is Some ==> (realm_in(t.reply()) matches Ok(Some(_))),
{
    let n = u.issued.len() - 1;
    assert(u.issued[n] == StoreCallView::UpdateGateway(
        project_id,
        gateway_id,
        expected,
        name,
        external,
        enable_snat,
    ));
}

// ---------------------------------------------------------------------------
// Security groups
// ---------------------------------------------------------------------------

/// A security group that was made has the requested project, name and description, keeps track of
/// connections and denies what no rule allows, and is stored.
pub proof fn lemma_group_is_stored(
    project_id: Seq<char>,
    name: Seq<char>,
    description: Seq<char>,
    t: Log,
    u: Log,
    g: SecurityGroupRecordView,
)
    requires
        create_group_run(project_id, name, description, t) == (u, Ok::<
            SecurityGroupRecordView,
            Stop<NetworkErrorView>,
        >(g)),
    ensures
        trim(project_id).len() > 0,
        trim(name).len() > 0,
        g.project_id == project_id,
        g.name == name,
        g.description == description,
        u.issued.last() matches StoreCallView::InsertPolicy(p) && p.id == g.id && p.project_id
            == project_id && p.name == name && p.description == description && p.stateful_mode
            == "Stateful"@ && p.unmatched_action == "Deny"@ && p.generation == 1 && p.state
            == "active"@,
{
}

/// A change of a security group changes its name and its description, and nothing else of it but
/// its generation, which grows, and only where it is still of the generation that was found.
pub proof fn lemma_group_is_changed(
    project_id: Seq<char>,
    id: u128,
    name: Seq<char>,
    description: Seq<char>,
    t: Log,
    before: CanonicalReusableNetworkPolicyRecordView,
)
    requires
        trim(name).len() > 0,
        policy_in(t.reply()) == Ok::<
            Option<CanonicalReusableNetworkPolicyRecordView>,
            Stop<NetworkErrorView>,
        >(Some(before)),
        before.generation < u64::MAX,
    ensures
        update_group_run(
            project_id,
            id,
            name,
            description,
            t,
        ).0.issued.last() matches StoreCallView::UpdatePolicy(p, expected) && expected
            == before.generation && p.generation == before.generation + 1 && p.name == name
            && p.description == description && p.id == before.id && p.project_id
            == before.project_id && p.stateful_mode == before.stateful_mode && p.unmatched_action
            == before.unmatched_action && p.state == before.state && p.created_at
            == before.created_at,
{
}

/// A rule that was added is of the requested group, direction, protocol, ports and remote, allows,
/// and is stored; the group was found, and ports are a range of a protocol that has ports.
pub proof fn lemma_rule_is_stored(
    project_id: Seq<char>,
    group_id: u128,
    direction: Seq<char>,
    protocol: Seq<char>,
    port_min: Option<u16>,
    port_max: Option<u16>,
    remote: Option<Seq<char>>,
    t: Log,
    u: Log,
    r: SecurityGroupRuleRecordView,
)
    requires
        create_rule_run(
            project_id,
            group_id,
            direction,
            protocol,
            port_min,
            port_max,
            remote,
            t,
        ) == (u, Ok::<SecurityGroupRuleRecordView, Stop<NetworkErrorView>>(r)),
    ensures
        r.security_group_id == group_id,
        r.project_id == project_id,
        r.port_min == port_min,
        r.port_max == port_max,
        r.remote_ip_prefix == remote,
        policy_in(t.reply()) matches Ok(Some(_)),
        port_min is Some == port_max is Some,
        port_min is Some ==> port_min->Some_0 <= port_max->Some_0 && (protocol_value(protocol)
            == Some(NetworkProtocol::Tcp) || protocol_value(protocol) == Some(
            NetworkProtocol::Udp,
        )),
        u.issued.last() matches StoreCallView::InsertRule(x) && x.id == r.id && x.policy_id
            == group_id && x.project_id == project_id && x.action == "Allow"@ && x.state
            == "active"@ && x.generation == 1 && x.address_family == "Ipv4"@ && x.port_min
            == port_min && x.port_max == port_max && x.remote_selector == remote
            && direction_value(x.direction) == direction_value(direction) && protocol_value(
            x.protocol,
        ) == protocol_value(protocol) && direction_value(direction) is Some && protocol_value(
            protocol,
        ) is Some,
{
    lemma_words_read_back();
}

proof fn lemma_attached(
    project_id: Seq<char>,
    endpoint_id: u128,
    ids: Seq<u128>,
    i: int,
    t: Log,
    k: int,
)
    requires
        0 <= i <= k < ids.len(),
        attach_groups_run(project_id, endpoint_id, ids, i, t).1 is Ok,
    ensures
        goes_on(t, attach_groups_run(project_id, endpoint_id, ids, i, t).0),
        attaches_group(
            t,
            attach_groups_run(project_id, endpoint_id, ids, i, t).0,
            project_id,
            endpoint_id,
            ids[k],
        ),
    decreases ids.len() - i,
{
    let t1 = t.after(StoreCallView::NewId);
    let id = id_in(t.reply())->Ok_0;
    let c = StoreCallView::InsertPolicyAttachment(
        CanonicalPolicyAttachmentRecordView {
            id,
            policy_id: ids[i],
            endpoint_id,
            project_id,
            state: "active"@,
            generation: 1,
        },
    );
    let t2 = t1.after(c);
    let u = attach_groups_run(project_id, endpoint_id, ids, i + 1, t2).0;
    if i + 1 < ids.len() {
        lemma_attached(
            project_id,
            endpoint_id,
            ids,
            i + 1,
            t2,
            if k == i {
                i + 1
            } else {
                k
            },
        );
        assert(goes_on(t2, u));
    }
    assert(t2.issued[t.issued.len() as int + 1] == c);
    assert(u.issued[t.issued.len() as int + 1] == c);
    if k > i {
        let n = choose|n: int|
            t2.issued.len() <= n < u.issued.len() && ((
            #[trigger] u.issued[n]) matches StoreCallView::InsertPolicyAttachment(a)
                && a.policy_id == ids[k] && a.endpoint_id == endpoint_id && a.project_id
                == project_id && a.state == "active"@ && a.generation == 1);
        assert(u.issued[n] is InsertPolicyAttachment);
    }
}

/// Whether a security group was attached to a port.
pub open spec fn attaches_group(
    t: Log,
    u: Log,
    project_id: Seq<char>,
    endpoint_id: u128,
    group_id: u128,
) -> bool {
    exists|n: int|
        t.issued.len() <= n < u.issued.len() && ((
        #[trigger] u.issued[n]) matches StoreCallView::InsertPolicyAttachment(a) && a.policy_id
            == group_id && a.endpoint_id == endpoint_id && a.project_id == project_id && a.state
            == "active"@ && a.generation == 1)
}

proof fn lemma_checked(project_id: Seq<char>, ids: Seq<u128>, i: int, t: Log)
    ensures
        goes_on(t, check_groups_run(project_id, ids, i, t).0),
    decreases ids.len() - i,
{
    if 0 <= i < ids.len() {
        let t1 = t.after(StoreCallView::GetPolicy(project_id, ids[i]));
        lemma_checked(project_id, ids, i + 1, t1);
    }
}

/// A port that was given other security groups has each of them attached, actively, and every
/// active attachment that it had before is gone.
pub proof fn lemma_groups_are_replaced(
    project_id: Seq<char>,
    endpoint_id: u128,
    ids: Seq<u128>,
    t: Log,
    u: Log,
)
    requires
        replace_groups_run(project_id, endpoint_id, ids, t) == (u, Ok::<
            (),
            Stop<NetworkErrorView>,
        >(())),
    ensures
        forall|k: int|
            0 <= k < ids.len() ==> attaches_group(
                t,
                u,
                project_id,
                endpoint_id,
                #[trigger] ids[k],
            ),
        ({
            let t1 = t.after(StoreCallView::GetPort(project_id, endpoint_id));
            let t2 = check_groups_run(project_id, ids, 0, t1).0;
            policy_attachments_in(t2.reply()) matches Ok(existing) && forall|k: int|
                0 <= k < existing.len() && (#[trigger] existing[k]).state == "active"@ ==> called(
                    t,
                    u,
                    StoreCallView::DeletePolicyAttachment(project_id, existing[k].id),
                )
        }),
{
    let t1 = t.after(StoreCallView::GetPort(project_id, endpoint_id));
    let t2 = check_groups_run(project_id, ids, 0, t1).0;
    let t3 = t2.after(StoreCallView::ListEndpointAttachments(project_id, endpoint_id));
    let existing = policy_attachments_in(t2.reply())->Ok_0;
    let kept = active_attachments(existing);
    let t4 = detach_policies_run(project_id, kept, 0, t3).0;
    lemma_checked(project_id, ids, 0, t1);
    lemma_detached(project_id, kept, 0, t3);
    assert(goes_on(t, t3));
    assert(goes_on(t, t4));
    assert(goes_on(t4, u)) by {
        if ids.len() > 0 {
            lemma_attached(project_id, endpoint_id, ids, 0, t4, 0);
        }
    }
    assert forall|k: int| 0 <= k < ids.len() implies attaches_group(
        t,
        u,
        project_id,
        endpoint_id,
        #[trigger] ids[k],
    ) by {
        lemma_attached(project_id, endpoint_id, ids, 0, t4, k);
        let n = choose|n: int|
            t4.issued.len() <= n < u.issued.len() && ((
            #[trigger] u.issued[n]) matches StoreCallView::InsertPolicyAttachment(a)
                && a.policy_id == ids[k] && a.endpoint_id == endpoint_id && a.project_id
                == project_id && a.state == "active"@ && a.generation == 1);
        assert(u.issued[n] is InsertPolicyAttachment);
    }
    assert forall|k: int|
        0 <= k < existing.len() && (#[trigger] existing[k]).state == "active"@ implies called(
        t,
        u,
        StoreCallView::DeletePolicyAttachment(project_id, existing[k].id),
    ) by {
        let a = existing[k];
        existing.lemma_filter_contains(
            |x: CanonicalPolicyAttachmentRecordView| attachment_active(x),
            k,
        );
        let j = choose|j: int| 0 <= j < kept.len() && kept[j] == a;
        let c = StoreCallView::DeletePolicyAttachment(project_id, kept[j].id);
        lemma_called_later(t3, t4, u, c);
        lemma_called_earlier(t, t3, u, c);
    }
}

// ---------------------------------------------------------------------------
// Rules
// ---------------------------------------------------------------------------

/// A rule of a shared policy allows at an endpoint what it allows: traffic in its direction, of its
/// protocol and ports, from its remote where it is about traffic to the endpoint, and to its remote
/// where it is about traffic from it.
pub proof fn lemma_shared_rule_keeps_its_meaning(
    endpoint_id: u128,
    r: CanonicalNetworkPolicyRuleRecordView,
    p: PolicyIntent,
)
    requires
        endpoint_rule(endpoint_id, r) == Some(p),
    ensures
        p.id == r.id,
        p.endpoint_id == endpoint_id,
        p.action == PolicyAction::Allow,
        direction_value(r.direction) == Some(p.direction),
        protocol_value(r.protocol) == Some(p.protocol),
        r.port_min is Some == r.port_max is Some,
        r.port_min matches Some(min) ==> (p.ports matches Some(ports) && ports.start == min
            && Some(ports.end) == r.port_max),
        r.port_min is None ==> p.ports is None,
        p.direction == PolicyDirection::Ingress ==> optional_prefix(r.remote_selector) == Some(
            p.source,
        ) && p.destination is None,
        p.direction == PolicyDirection::Egress ==> optional_prefix(r.remote_selector) == Some(
            p.destination,
        ) && p.source is None,
{
}

/// A default says of unmatched traffic what its policy says, and is of the newer of the two
/// generations; only an active policy that keeps track of connections gives one.
pub proof fn lemma_default_is_that_of_the_policy(
    endpoint_id: u128,
    policy: CanonicalReusableNetworkPolicyRecordView,
    generation: u64,
    d: PolicyDefaultIntent,
)
    requires
        policy_default(endpoint_id, policy, generation) == Some(d),
    ensures
        policy.state == "active"@,
        policy.stateful_mode == "Stateful"@,
        d.policy_id == policy.id,
        d.endpoint_id == endpoint_id,
        d.unmatched_action == PolicyAction::Allow <==> policy.unmatched_action == "Allow"@,
        d.unmatched_action == PolicyAction::Deny <==> policy.unmatched_action == "Deny"@,
        d.generation >= policy.generation,
        d.generation >= generation,
        d.generation == policy.generation || d.generation == generation,
{
    reveal_strlit("Allow");
    reveal_strlit("Deny");
    assert("Allow"@.len() != "Deny"@.len());
}

/// A rule that was stored for an endpoint is read back as it was given; the endpoint was found, and
/// its realm is active and of the network.
pub proof fn lemma_stored_rule_reads_back(
    project_id: Seq<char>,
    network_id: u128,
    policy: PolicyIntent,
    t: Log,
    u: Log,
    p: PolicyIntent,
)
    requires
        policy.source matches Some(prefix) ==> prefix.wf(),
        policy.destination matches Some(prefix) ==> prefix.wf(),
        upsert_policy_run(project_id, network_id, policy, t) == (u, Ok::<
            PolicyIntent,
            Stop<NetworkErrorView>,
        >(p)),
    ensures
        p == policy,
        policy.id != 0,
        policy.endpoint_id != 0,
        u.issued.last() matches StoreCallView::UpsertNetworkPolicy(r) && policy_of(r) == Some(
            policy,
        ) && r.project_id == project_id && r.state == "active"@,
        super::calls::endpoint_in(t.reply()) matches Ok(Some(e)) && (realm_in(
            t.after(StoreCallView::GetEndpoint(project_id, policy.endpoint_id)).reply(),
        ) matches Ok(Some(realm)) && realm.network_id == network_id && realm.state == "active"@),
{
    lemma_policy_round_trip(project_id, policy);
}

/// A failure of the store is reported as what it is: what exists already, is in use or is reserved
/// otherwise is a conflict, what is missing is not found, what is owned otherwise is an invalid
/// request, an exceeded quota is told with its numbers, and anything else with its message.
pub proof fn lemma_failure_is_reported(f: StoreFailureView)
    ensures
        map_failure(f) == NetworkErrorView::Conflict <==> f.error
            == StoreErrorView::ResourceAlreadyExists || f.error == StoreErrorView::NetworkInUse
            || f.error == StoreErrorView::ReservationConflict,
        map_failure(f) == NetworkErrorView::NotFound <==> f.error
            == StoreErrorView::NetworkNotFound || f.error == StoreErrorView::ResourceNotFound,
        map_failure(f) == NetworkErrorView::InvalidRequest <==> f.error
            == StoreErrorView::OwnershipConflict,
        f.error matches StoreErrorView::QuotaExceeded { key, limit, used, requested } ==> (
        map_failure(f) matches NetworkErrorView::QuotaExceeded {
            key: k,
            limit: l,
            used: x,
            requested: r,
        } && k == key && l == limit && x == used && r == requested),
        f.error == StoreErrorView::Other ==> map_failure(f) == NetworkErrorView::Store(f.message),
{
}

} // verus!
