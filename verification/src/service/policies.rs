//! The policies of networks and endpoints.
use super::access::{found, halt, must_find};
use super::calls::{
    done, endpoint_in, network_in, network_policies_in, one, policy_attachments_in, policy_in,
    realm_in, rules_in, stopped, unit, Answer, Log, NetworkService, StoreCall, StoreCallView,
};
use super::errors::{NetworkError, NetworkErrorView};
use super::groups::{active_attachments, active_attachments_of};
use super::ports::list_ports_run;
use super::records::{
    CanonicalNetworkPolicyRecord, CanonicalNetworkPolicyRecordView,
    CanonicalNetworkPolicyRuleRecord, CanonicalNetworkPolicyRuleRecordView,
    CanonicalPolicyAttachmentRecord, CanonicalPolicyAttachmentRecordView,
    CanonicalReusableNetworkPolicyRecord, CanonicalReusableNetworkPolicyRecordView, PortRecord,
    PortRecordView,
};
use super::rules::{
    canonical_policy_record, direction_value, optional_prefix, optional_prefix_of,
    parse_security_group_direction, parse_security_group_protocol, policy_from_canonical_record,
    policy_of, policy_record, policy_valid, protocol_value, validate_policy_shape,
};
use crate::domain::{
    PolicyAction, PolicyDefaultIntent, PolicyDirection, PolicyIntent, PolicyStatefulMode,
    PortRange,
};
use crate::model::views;
use crate::session::Stop;
use crate::table::{id_sort, sort_id};
use crate::text::same;
use vstd::prelude::*;

verus! {

// ---------------------------------------------------------------------------
// Rules of shared policies
// ---------------------------------------------------------------------------

/// The rule that a rule of a shared policy comes to at an endpoint. There is none where a part of
/// it cannot be read.
pub open spec fn endpoint_rule(endpoint_id: u128, r: CanonicalNetworkPolicyRuleRecordView) -> Option<
    PolicyIntent,
> {
    match (
        direction_value(r.direction),
        optional_prefix(r.remote_selector),
        protocol_value(r.protocol),
    ) {
        (Some(direction), Some(remote), Some(protocol)) => if r.port_min is Some
            != r.port_max is Some {
            None
        } else {
            Some(
                PolicyIntent {
                    id: r.id,
                    endpoint_id,
                    direction,
                    protocol,
                    ports: match (r.port_min, r.port_max) {
                        (Some(start), Some(end)) => Some(PortRange { start, end }),
                        _ => None,
                    },
                    source: if direction == PolicyDirection::Ingress {
                        remote
                    } else {
                        None
                    },
                    destination: if direction == PolicyDirection::Egress {
                        remote
                    } else {
                        None
                    },
                    action: PolicyAction::Allow,
                },
            )
        },
        _ => None,
    }
}

fn endpoint_rule_of(endpoint_id: u128, rule: &CanonicalNetworkPolicyRuleRecord) -> (r: Option<
    PolicyIntent,
>)
    ensures
        r == endpoint_rule(endpoint_id, rule@),
{
    let direction = match parse_security_group_direction(rule.direction.as_str()) {
        Err(_) => return None,
        Ok(d) => d,
    };
    let remote = match optional_prefix_of(&rule.remote_selector) {
        None => return None,
        Some(remote) => remote,
    };
    let ports: Option<PortRange> = match (rule.port_min, rule.port_max) {
        (Some(start), Some(end)) => Some(PortRange { start, end }),
        (None, None) => None,
        _ => {
            assert(rule.port_min is Some != rule.port_max is Some);
            return None;
        },
    };
    let protocol = match parse_security_group_protocol(rule.protocol.as_str()) {
        Err(_) => return None,
        Ok(p) => p,
    };
    Some(
        PolicyIntent {
            id: rule.id,
            endpoint_id,
            direction,
            protocol,
            ports,
            source: if direction == PolicyDirection::Ingress {
                remote
            } else {
                None
            },
            destination: if direction == PolicyDirection::Egress {
                remote
            } else {
                None
            },
            action: PolicyAction::Allow,
        },
    )
}

/// The active rules of a shared policy at an endpoint, added to those in `known`, from the one at
/// `i` on.
pub open spec fn endpoint_rules(
    endpoint_id: u128,
    rules: Seq<CanonicalNetworkPolicyRuleRecordView>,
    i: int,
    known: Seq<PolicyIntent>,
) -> Option<Seq<PolicyIntent>>
    decreases rules.len() - i,
{
    if i < 0 || i >= rules.len() {
        Some(known)
    } else if rules[i].state != "active"@ {
        endpoint_rules(endpoint_id, rules, i + 1, known)
    } else {
        match endpoint_rule(endpoint_id, rules[i]) {
            None => None,
            Some(p) => endpoint_rules(endpoint_id, rules, i + 1, known.push(p)),
        }
    }
}

fn endpoint_rules_of(
    endpoint_id: u128,
    rules: &Vec<CanonicalNetworkPolicyRuleRecord>,
    known: Vec<PolicyIntent>,
) -> (r: Option<Vec<PolicyIntent>>)
    ensures
        match r {
            Some(v) => endpoint_rules(endpoint_id, views(rules@), 0, known@) == Some(v@),
            None => endpoint_rules(endpoint_id, views(rules@), 0, known@) is None,
        },
{
    let ghost all = views(rules@);
    let mut out = known;
    for i in 0..rules.len()
        invariant
            all == views(rules@),
            endpoint_rules(endpoint_id, all, 0, known@) == endpoint_rules(
                endpoint_id,
                all,
                i as int,
                out@,
            ),
    {
        assert(all[i as int] == rules@[i as int]@);
        if same(rules[i].state.as_str(), "active") {
            match endpoint_rule_of(endpoint_id, &rules[i]) {
                None => return None,
                Some(p) => {
                    out.push(p);
                },
            }
        }
    }
    Some(out)
}

/// Gathers the rules of the shared policies of an endpoint, from the attachment at `i` on.
pub open spec fn attached_rules_run(
    project_id: Seq<char>,
    endpoint_id: u128,
    attachments: Seq<CanonicalPolicyAttachmentRecordView>,
    i: int,
    known: Seq<PolicyIntent>,
    t: Log,
) -> (Log, Answer<Seq<PolicyIntent>>)
    decreases attachments.len() - i,
{
    if i < 0 || i >= attachments.len() {
        (t, Ok(known))
    } else {
        let t1 = t.after(StoreCallView::GetPolicy(project_id, attachments[i].policy_id));
        match policy_in(t.reply()) {
            Err(stop) => (t1, Err(stop)),
            Ok(None) => (t1, halt(NetworkErrorView::InvalidRequest)),
            Ok(Some(group)) => {
                let t2 = t1.after(StoreCallView::ListRules(project_id, group.id));
                match rules_in(t1.reply()) {
                    Err(stop) => (t2, Err(stop)),
                    Ok(rules) => match endpoint_rules(endpoint_id, rules, 0, known) {
                        None => (t2, halt(NetworkErrorView::InvalidRequest)),
                        Some(more) => attached_rules_run(
                            project_id,
                            endpoint_id,
                            attachments,
                            i + 1,
                            more,
                            t2,
                        ),
                    },
                }
            },
        }
    }
}

/// Gathers the rules of the shared policies of the ports of a network, from the port at `i` on.
pub open spec fn port_rules_run(
    project_id: Seq<char>,
    network_id: u128,
    ports: Seq<PortRecordView>,
    i: int,
    known: Seq<PolicyIntent>,
    t: Log,
) -> (Log, Answer<Seq<PolicyIntent>>)
    decreases ports.len() - i,
{
    if i < 0 || i >= ports.len() {
        (t, Ok(known))
    } else if ports[i].network_id != network_id {
        port_rules_run(project_id, network_id, ports, i + 1, known, t)
    } else {
        let t1 = t.after(StoreCallView::ListEndpointAttachments(project_id, ports[i].id));
        match policy_attachments_in(t.reply()) {
            Err(stop) => (t1, Err(stop)),
            Ok(attachments) => {
                let (t2, gathered) = attached_rules_run(
                    project_id,
                    ports[i].id,
                    active_attachments(attachments),
                    0,
                    known,
                    t1,
                );
                match gathered {
                    Err(stop) => (t2, Err(stop)),
                    Ok(more) => port_rules_run(
                        project_id,
                        network_id,
                        ports,
                        i + 1,
                        more,
                        t2,
                    ),
                }
            },
        }
    }
}

/// The rules that records stand for, added to those in `known`, from the record at `i` on.
pub open spec fn recorded_policies(
    records: Seq<CanonicalNetworkPolicyRecordView>,
    i: int,
    known: Seq<PolicyIntent>,
) -> Option<Seq<PolicyIntent>>
    decreases records.len() - i,
{
    if i < 0 || i >= records.len() {
        Some(known)
    } else {
        match policy_of(records[i]) {
            None => None,
            Some(p) => recorded_policies(records, i + 1, known.push(p)),
        }
    }
}

fn recorded_policies_of(records: &Vec<CanonicalNetworkPolicyRecord>) -> (r: Option<
    Vec<PolicyIntent>,
>)
    ensures
        match r {
            Some(v) => recorded_policies(views(records@), 0, Seq::empty()) == Some(v@),
            None => recorded_policies(views(records@), 0, Seq::empty()) is None,
        },
{
    let ghost all = views(records@);
    let mut out: Vec<PolicyIntent> = Vec::new();
    for i in 0..records.len()
        invariant
            all == views(records@),
            recorded_policies(all, 0, Seq::empty()) == recorded_policies(all, i as int, out@),
    {
        assert(all[i as int] == records@[i as int]@);
        match policy_from_canonical_record(&records[i]) {
            Err(_) => return None,
            Ok(p) => {
                out.push(p);
            },
        }
    }
    Some(out)
}

/// Gathers the rules of a network from its ports, beside those recorded for its endpoints, in the
/// order of their identifiers.
pub open spec fn gather_policies_run(
    project_id: Seq<char>,
    network_id: u128,
    known: Seq<PolicyIntent>,
    t: Log,
) -> (Log, Answer<Seq<PolicyIntent>>) {
    let (t1, listed) = list_ports_run(project_id, t);
    match listed {
        Err(stop) => (t1, Err(stop)),
        Ok(ports) => {
            let (t2, gathered) = port_rules_run(project_id, network_id, ports, 0, known, t1);
            match gathered {
                Err(stop) => (t2, Err(stop)),
                Ok(all) => (t2, Ok(id_sort::<PolicyIntent>(all))),
            }
        },
    }
}

/// Lists the rules of a network: those of its endpoints and those of the policies that its ports
/// share. A network without any has none, and no default takes their place.
pub open spec fn list_policies_run(project_id: Seq<char>, network_id: u128, t: Log) -> (
    Log,
    Answer<Seq<PolicyIntent>>,
) {
    let t1 = t.after(StoreCallView::GetNetwork(project_id, network_id));
    match found(network_in(t.reply())) {
        Err(stop) => (t1, Err(stop)),
        Ok(_) => {
            let t2 = t1.after(StoreCallView::ListNetworkPolicies(project_id, network_id));
            match network_policies_in(t1.reply()) {
                Err(stop) => (t2, Err(stop)),
                Ok(records) => match recorded_policies(records, 0, Seq::empty()) {
                    None => (t2, halt(NetworkErrorView::InvalidRequest)),
                    Some(known) => gather_policies_run(project_id, network_id, known, t2),
                },
            }
        },
    }
}

/// A list of rules, by its view.
pub open spec fn rule_list(r: Result<Vec<PolicyIntent>, Stop<NetworkError>>) -> Answer<
    Seq<PolicyIntent>,
> {
    match r {
        Ok(v) => Ok(v@),
        Err(stop) => Err(stopped(stop)),
    }
}

impl NetworkService {
    fn attached_rules(
        &mut self,
        project_id: &str,
        endpoint_id: u128,
        attachments: &Vec<CanonicalPolicyAttachmentRecord>,
        known: Vec<PolicyIntent>,
    ) -> (r: Result<Vec<PolicyIntent>, Stop<NetworkError>>)
        ensures
            (final(self)@, rule_list(r)) == attached_rules_run(
                project_id@,
                endpoint_id,
                views(attachments@),
                0,
                known@,
                old(self)@,
            ),
    {
        let ghost all = views(attachments@);
        let ghost whole = attached_rules_run(project_id@, endpoint_id, all, 0, known@, self@);
        let mut out = known;
        for i in 0..attachments.len()
            invariant
                all == views(attachments@),
                whole == attached_rules_run(
                    project_id@,
                    endpoint_id,
                    all,
                    0,
                    known@,
                    old(self)@,
                ),
                whole == attached_rules_run(
                    project_id@,
                    endpoint_id,
                    all,
                    i as int,
                    out@,
                    self@,
                ),
        {
            assert(all[i as int] == attachments@[i as int]@);
            let group = match self.ask_policy(
                StoreCall::GetPolicy(project_id.to_owned(), attachments[i].policy_id),
            ) {
                Err(stop) => return Err(stop),
                Ok(None) => return Err(Stop::Failed(NetworkError::InvalidRequest)),
                Ok(Some(group)) => group,
            };
            let rules = match self.ask_rules(
                StoreCall::ListRules(project_id.to_owned(), group.id),
            ) {
                Err(stop) => return Err(stop),
                Ok(rules) => rules,
            };
            match endpoint_rules_of(endpoint_id, &rules, out) {
                None => return Err(Stop::Failed(NetworkError::InvalidRequest)),
                Some(more) => {
                    out = more;
                },
            }
        }
        Ok(out)
    }

    fn port_rules(
        &mut self,
        project_id: &str,
        network_id: u128,
        ports: &Vec<PortRecord>,
        known: Vec<PolicyIntent>,
    ) -> (r: Result<Vec<PolicyIntent>, Stop<NetworkError>>)
        ensures
            (final(self)@, rule_list(r)) == port_rules_run(
                project_id@,
                network_id,
                views(ports@),
                0,
                known@,
                old(self)@,
            ),
    {
        let ghost all = views(ports@);
        let ghost whole = port_rules_run(project_id@, network_id, all, 0, known@, self@);
        let mut out = known;
        for i in 0..ports.len()
            invariant
                all == views(ports@),
                whole == port_rules_run(
                    project_id@,
                    network_id,
                    all,
                    0,
                    known@,
                    old(self)@,
                ),
                whole == port_rules_run(
                    project_id@,
                    network_id,
                    all,
                    i as int,
                    out@,
                    self@,
                ),
        {
            assert(all[i as int] == ports@[i as int]@);
            if ports[i].network_id == network_id {
                let attachments = match self.ask_policy_attachments(
                    StoreCall::ListEndpointAttachments(project_id.to_owned(), ports[i].id),
                ) {
                    Err(stop) => return Err(stop),
                    Ok(attachments) => attachments,
                };
                let active = active_attachments_of(&attachments);
                match self.attached_rules(project_id, ports[i].id, &active, out) {
                    Err(stop) => return Err(stop),
                    Ok(more) => {
                        out = more;
                    },
                }
            }
        }
        Ok(out)
    }

    /// Performs [`list_policies_run`].
    pub fn list_policies_for_project(&mut self, project_id: &str, network_id: u128) -> (r: Result<
        Vec<PolicyIntent>,
        Stop<NetworkError>,
    >)
        ensures
            (final(self)@, rule_list(r)) == list_policies_run(
                project_id@,
                network_id,
                old(self)@,
            ),
    {
        match self.get_canonical_network_for_project(project_id, network_id) {
            Err(stop) => return Err(stop),
            Ok(_) => {},
        }
        let records = match self.ask_network_policies(
            StoreCall::ListNetworkPolicies(project_id.to_owned(), network_id),
        ) {
            Err(stop) => return Err(stop),
            Ok(records) => records,
        };
        let known = match recorded_policies_of(&records) {
            None => return Err(Stop::Failed(NetworkError::InvalidRequest)),
            Some(known) => known,
        };
        let ports = match self.list_ports_for_project(project_id) {
            Err(stop) => return Err(stop),
            Ok(ports) => ports,
        };
        match self.port_rules(project_id, network_id, &ports, known) {
            Err(stop) => Err(stop),
            Ok(all) => {
                let sorted = sort_id(all);
                assert(views(sorted@) =~= sorted@);
                assert(views(all@) =~= all@);
                Ok(sorted)
            },
        }
    }
}

// ---------------------------------------------------------------------------
// Defaults
// ---------------------------------------------------------------------------

/// The default that a shared policy gives to an endpoint: what happens to traffic that no rule
/// matches. There is none where the policy is not active or does not keep track of connections.
pub open spec fn policy_default(
    endpoint_id: u128,
    policy: CanonicalReusableNetworkPolicyRecordView,
    attachment_generation: u64,
) -> Option<PolicyDefaultIntent> {
    if policy.state != "active"@ || policy.stateful_mode != "Stateful"@ {
        None
    } else if policy.unmatched_action != "Allow"@ && policy.unmatched_action != "Deny"@ {
        None
    } else {
        Some(
            PolicyDefaultIntent {
                policy_id: policy.id,
                endpoint_id,
                unmatched_action: if policy.unmatched_action == "Allow"@ {
                    PolicyAction::Allow
                } else {
                    PolicyAction::Deny
                },
                stateful_mode: PolicyStatefulMode::Stateful,
                generation: if policy.generation >= attachment_generation {
                    policy.generation
                } else {
                    attachment_generation
                },
            },
        )
    }
}

fn policy_default_of(
    endpoint_id: u128,
    policy: &CanonicalReusableNetworkPolicyRecord,
    attachment_generation: u64,
) -> (r: Option<PolicyDefaultIntent>)
    ensures
        r == policy_default(endpoint_id, policy@, attachment_generation),
{
    if !same(policy.state.as_str(), "active") || !same(policy.stateful_mode.as_str(), "Stateful") {
        return None;
    }
    let unmatched_action = if same(policy.unmatched_action.as_str(), "Allow") {
        PolicyAction::Allow
    } else if same(policy.unmatched_action.as_str(), "Deny") {
        PolicyAction::Deny
    } else {
        return None;
    };
    Some(
        PolicyDefaultIntent {
            policy_id: policy.id,
            endpoint_id,
            unmatched_action,
            stateful_mode: PolicyStatefulMode::Stateful,
            generation: if policy.generation >= attachment_generation {
                policy.generation
            } else {
                attachment_generation
            },
        },
    )
}

/// Gathers the defaults of an endpoint from the attachment at `i` on.
pub open spec fn defaults_run(
    project_id: Seq<char>,
    endpoint_id: u128,
    attachments: Seq<CanonicalPolicyAttachmentRecordView>,
    i: int,
    known: Seq<PolicyDefaultIntent>,
    t: Log,
) -> (Log, Answer<Seq<PolicyDefaultIntent>>)
    decreases attachments.len() - i,
{
    if i < 0 || i >= attachments.len() {
        (t, Ok(id_sort::<PolicyDefaultIntent>(known)))
    } else {
        let t1 = t.after(StoreCallView::GetPolicy(project_id, attachments[i].policy_id));
        match policy_in(t.reply()) {
            Err(stop) => (t1, Err(stop)),
            Ok(None) => (t1, halt(NetworkErrorView::InvalidRequest)),
            Ok(Some(policy)) => match policy_default(
                endpoint_id,
                policy,
                attachments[i].generation,
            ) {
                None => (t1, halt(NetworkErrorView::InvalidRequest)),
                Some(d) => defaults_run(
                    project_id,
                    endpoint_id,
                    attachments,
                    i + 1,
                    known.push(d),
                    t1,
                ),
            },
        }
    }
}

/// Lists the defaults that the active shared policies of an endpoint give to it, in the order of
/// the policies.
pub open spec fn list_defaults_run(project_id: Seq<char>, endpoint_id: u128, t: Log) -> (
    Log,
    Answer<Seq<PolicyDefaultIntent>>,
) {
    let t1 = t.after(StoreCallView::ListEndpointAttachments(project_id, endpoint_id));
    match policy_attachments_in(t.reply()) {
        Err(stop) => (t1, Err(stop)),
        Ok(attachments) => defaults_run(
            project_id,
            endpoint_id,
            active_attachments(attachments),
            0,
            Seq::empty(),
            t1,
        ),
    }
}

/// A list of defaults, by its view.
pub open spec fn default_list(r: Result<Vec<PolicyDefaultIntent>, Stop<NetworkError>>) -> Answer<
    Seq<PolicyDefaultIntent>,
> {
    match r {
        Ok(v) => Ok(v@),
        Err(stop) => Err(stopped(stop)),
    }
}

impl NetworkService {
    /// Performs [`list_defaults_run`].
    pub fn policy_defaults_for_endpoint(&mut self, project_id: &str, endpoint_id: u128) -> (r:
        Result<Vec<PolicyDefaultIntent>, Stop<NetworkError>>)
        ensures
            (final(self)@, default_list(r)) == list_defaults_run(
                project_id@,
                endpoint_id,
                old(self)@,
            ),
    {
        let attachments = match self.ask_policy_attachments(
            StoreCall::ListEndpointAttachments(project_id.to_owned(), endpoint_id),
        ) {
            Err(stop) => return Err(stop),
            Ok(attachments) => attachments,
        };
        let active = active_attachments_of(&attachments);
        let ghost all = views(active@);
        let mut defaults: Vec<PolicyDefaultIntent> = Vec::new();
        for i in 0..active.len()
            invariant
                all == views(active@),
                list_defaults_run(project_id@, endpoint_id, old(self)@) == defaults_run(
                    project_id@,
                    endpoint_id,
                    all,
                    i as int,
                    defaults@,
                    self@,
                ),
        {
            assert(all[i as int] == active@[i as int]@);
            let policy = match self.ask_policy(
                StoreCall::GetPolicy(project_id.to_owned(), active[i].policy_id),
            ) {
                Err(stop) => return Err(stop),
                Ok(None) => return Err(Stop::Failed(NetworkError::InvalidRequest)),
                Ok(Some(policy)) => policy,
            };
            match policy_default_of(endpoint_id, &policy, active[i].generation) {
                None => return Err(Stop::Failed(NetworkError::InvalidRequest)),
                Some(d) => {
                    defaults.push(d);
                },
            }
        }
        let sorted = sort_id(defaults);
        assert(views(sorted@) =~= sorted@);
        assert(views(defaults@) =~= defaults@);
        Ok(sorted)
    }
}

// ---------------------------------------------------------------------------
// Rules of single endpoints
// ---------------------------------------------------------------------------

/// Stores or replaces a rule of an endpoint. The endpoint has to be in an active realm of the
/// network.
pub open spec fn upsert_policy_run(
    project_id: Seq<char>,
    network_id: u128,
    policy: PolicyIntent,
    t: Log,
) -> (Log, Answer<PolicyIntent>) {
    if policy.endpoint_id == 0 || !policy_valid(policy) {
        (t, halt(NetworkErrorView::InvalidRequest))
    } else {
        let t1 = t.after(StoreCallView::GetEndpoint(project_id, policy.endpoint_id));
        match found(endpoint_in(t.reply())) {
            Err(stop) => (t1, Err(stop)),
            Ok(endpoint) => {
                let t2 = t1.after(StoreCallView::GetRealm(project_id, endpoint.realm_id));
                match realm_in(t1.reply()) {
                    Err(stop) => (t2, Err(stop)),
                    Ok(None) => (t2, halt(NetworkErrorView::InvalidRequest)),
                    Ok(Some(realm)) => if realm.network_id != network_id || realm.state
                        != "active"@ {
                        (t2, halt(NetworkErrorView::Conflict))
                    } else {
                        let t3 = t2.after(
                            StoreCallView::UpsertNetworkPolicy(policy_record(project_id, policy)),
                        );
                        match done(t2.reply()) {
                            Err(stop) => (t3, Err(stop)),
                            Ok(()) => (t3, Ok(policy)),
                        }
                    },
                }
            },
        }
    }
}

/// Whether one of the rules has an identifier.
pub open spec fn has_policy(policies: Seq<PolicyIntent>, id: u128) -> bool {
    exists|i: int| 0 <= i < policies.len() && (#[trigger] policies[i]).id == id
}

/// Removes a rule that is listed for the network.
pub open spec fn delete_policy_run(
    project_id: Seq<char>,
    network_id: u128,
    policy_id: u128,
    t: Log,
) -> (Log, Answer<()>) {
    let (t1, listed) = list_policies_run(project_id, network_id, t);
    match listed {
        Err(stop) => (t1, Err(stop)),
        Ok(policies) => if !has_policy(policies, policy_id) {
            (t1, halt(NetworkErrorView::NotFound))
        } else {
            (
                t1.after(StoreCallView::DeleteNetworkPolicy(project_id, policy_id)),
                done(t1.reply()),
            )
        },
    }
}

impl NetworkService {
    /// Performs [`upsert_policy_run`].
    pub fn upsert_policy_for_project(
        &mut self,
        project_id: &str,
        network_id: u128,
        policy: PolicyIntent,
    ) -> (r: Result<PolicyIntent, Stop<NetworkError>>)
        ensures
            (final(self)@, one(r)) == upsert_policy_run(
                project_id@,
                network_id,
                policy,
                old(self)@,
            ),
    {
        if policy.endpoint_id == 0 {
            return Err(Stop::Failed(NetworkError::InvalidRequest));
        }
        match validate_policy_shape(&policy) {
            Err(e) => return Err(Stop::Failed(e)),
            Ok(()) => {},
        }
        let endpoint = match must_find(
            self.ask_endpoint(StoreCall::GetEndpoint(project_id.to_owned(), policy.endpoint_id)),
        ) {
            Err(stop) => return Err(stop),
            Ok(endpoint) => endpoint,
        };
        let realm = match self.ask_realm(
            StoreCall::GetRealm(project_id.to_owned(), endpoint.realm_id),
        ) {
            Err(stop) => return Err(stop),
            Ok(None) => return Err(Stop::Failed(NetworkError::InvalidRequest)),
            Ok(Some(realm)) => realm,
        };
        if realm.network_id != network_id || !same(realm.state.as_str(), "active") {
            return Err(Stop::Failed(NetworkError::Conflict));
        }
        let record = canonical_policy_record(project_id, &policy);
        match self.perform(StoreCall::UpsertNetworkPolicy(record)) {
            Err(stop) => Err(stop),
            Ok(()) => Ok(policy),
        }
    }

    /// Performs [`delete_policy_run`].
    pub fn delete_policy_for_project(&mut self, project_id: &str, network_id: u128, policy_id: u128)
        -> (r: Result<(), Stop<NetworkError>>)
        ensures
            (final(self)@, unit(r)) == delete_policy_run(
                project_id@,
                network_id,
                policy_id,
                old(self)@,
            ),
    {
        let policies = match self.list_policies_for_project(project_id, network_id) {
            Err(stop) => return Err(stop),
            Ok(policies) => policies,
        };
        let mut listed: bool = false;
        for i in 0..policies.len()
            invariant
                listed == has_policy(policies@.take(i as int), policy_id),
        {
            let ghost next = policies@.take(i + 1);
            proof {
                assert forall|k: int| 0 <= k < i implies next[k] == policies@.take(i as int)[k] by {}
                if has_policy(policies@.take(i as int), policy_id) {
                    let k = choose|k: int|
                        0 <= k < i && (#[trigger] policies@.take(i as int)[k]).id == policy_id;
                    assert(next[k].id == policy_id);
                }
                if has_policy(next, policy_id) {
                    let k = choose|k: int|
                        0 <= k < i + 1 && (#[trigger] next[k]).id == policy_id;
                    if k < i {
                        assert(policies@.take(i as int)[k].id == policy_id);
                    }
                }
                assert(next[i as int] == policies@[i as int]);
            }
            if policies[i].id == policy_id {
                listed = true;
            }
        }
        assert(policies@.take(policies@.len() as int) =~= policies@);
        if !listed {
            return Err(Stop::Failed(NetworkError::NotFound));
        }
        self.perform(StoreCall::DeleteNetworkPolicy(project_id.to_owned(), policy_id))
    }
}

} // verus!
