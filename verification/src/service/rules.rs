//! Policies and security groups: how rules are written down and read back.
use super::errors::{NetworkError, NetworkErrorView};
use super::records::{
    CanonicalNetworkPolicyRecord, CanonicalNetworkPolicyRecordView,
    CanonicalNetworkPolicyRuleRecord, CanonicalNetworkPolicyRuleRecordView, CanonicalNetworkRecord,
    CanonicalNetworkRecordView, CanonicalReusableNetworkPolicyRecord,
    CanonicalReusableNetworkPolicyRecordView, NetworkRecord, NetworkRecordView,
    SecurityGroupRecord, SecurityGroupRecordView, SecurityGroupRuleRecord,
    SecurityGroupRuleRecordView,
};
use crate::digest::{sha256, sha256_of};
use crate::domain::{
    NetworkProtocol, PolicyAction, PolicyDefaultIntent, PolicyDirection, PolicyIntent, PortRange,
};
use crate::fabric::naming::{is_mac, lemma_local_mac_valid, local_mac, local_mac_of};
use crate::identity::{id_bytes, id_bytes_of};
use crate::ipv4::{lemma_prefix_round_trip, prefix_value, prefix_value_of, Ipv4Prefix};
use crate::json::{
    action_name, action_name_of, direction_name, direction_name_of, protocol_name, protocol_name_of,
};
use crate::model::{copy_opt, view_opt};
use crate::plan::compile::{policy_shape_ok, policy_shape_valid};
use crate::render::{decimal, decimal_of};
use crate::table::ById;
use crate::text::{join3, lower, lowercase, lowercase_of, same, to_lower, to_upper, upper};
use vstd::prelude::*;
use vstd::string::StringExecFns;

verus! {

impl ById for PolicyIntent {
    open spec fn id_of(v: PolicyIntent) -> u128 {
        v.id
    }

    fn id(&self) -> (r: u128) {
        self.id
    }
}

impl ById for PolicyDefaultIntent {
    open spec fn id_of(v: PolicyDefaultIntent) -> u128 {
        v.policy_id
    }

    fn id(&self) -> (r: u128) {
        self.policy_id
    }
}

// ---------------------------------------------------------------------------
// Words
// ---------------------------------------------------------------------------

/// The direction that a word stands for, in any case.
pub open spec fn direction_value(s: Seq<char>) -> Option<PolicyDirection> {
    let w = lower(s);
    if w == "ingress"@ {
        Some(PolicyDirection::Ingress)
    } else if w == "egress"@ {
        Some(PolicyDirection::Egress)
    } else {
        None
    }
}

/// The protocol that a word stands for, in any case.
pub open spec fn protocol_value(s: Seq<char>) -> Option<NetworkProtocol> {
    let w = lower(s);
    if w == "any"@ {
        Some(NetworkProtocol::Any)
    } else if w == "tcp"@ {
        Some(NetworkProtocol::Tcp)
    } else if w == "udp"@ {
        Some(NetworkProtocol::Udp)
    } else if w == "icmp"@ {
        Some(NetworkProtocol::Icmp)
    } else {
        None
    }
}

/// The action that a word stands for.
pub open spec fn action_value(s: Seq<char>) -> Option<PolicyAction> {
    if s == "Allow"@ || s == "allow"@ {
        Some(PolicyAction::Allow)
    } else if s == "Deny"@ || s == "deny"@ {
        Some(PolicyAction::Deny)
    } else {
        None
    }
}

/// Reads a direction.
pub fn parse_security_group_direction(value: &str) -> (r: Result<PolicyDirection, NetworkError>)
    ensures
        match r {
            Ok(d) => direction_value(value@) == Some(d),
            Err(e) => direction_value(value@) is None && e@ == NetworkErrorView::InvalidRequest,
        },
{
    let w = to_lower(value);
    if same(w.as_str(), "ingress") {
        Ok(PolicyDirection::Ingress)
    } else if same(w.as_str(), "egress") {
        Ok(PolicyDirection::Egress)
    } else {
        Err(NetworkError::InvalidRequest)
    }
}

/// Reads a protocol.
pub fn parse_security_group_protocol(value: &str) -> (r: Result<NetworkProtocol, NetworkError>)
    ensures
        match r {
            Ok(p) => protocol_value(value@) == Some(p),
            Err(e) => protocol_value(value@) is None && e@ == NetworkErrorView::InvalidRequest,
        },
{
    let w = to_lower(value);
    if same(w.as_str(), "any") {
        Ok(NetworkProtocol::Any)
    } else if same(w.as_str(), "tcp") {
        Ok(NetworkProtocol::Tcp)
    } else if same(w.as_str(), "udp") {
        Ok(NetworkProtocol::Udp)
    } else if same(w.as_str(), "icmp") {
        Ok(NetworkProtocol::Icmp)
    } else {
        Err(NetworkError::InvalidRequest)
    }
}

/// Reads a prefix.
pub fn parse_security_group_prefix(value: &str) -> (r: Result<Ipv4Prefix, NetworkError>)
    ensures
        match r {
            Ok(p) => prefix_value(value@) == Some(p),
            Err(e) => prefix_value(value@) is None && e@ == NetworkErrorView::InvalidRequest,
        },
{
    match prefix_value_of(value) {
        Some(p) => Ok(p),
        None => Err(NetworkError::InvalidRequest),
    }
}

fn parse_action(value: &str) -> (r: Option<PolicyAction>)
    ensures
        r == action_value(value@),
{
    if same(value, "Allow") || same(value, "allow") {
        Some(PolicyAction::Allow)
    } else if same(value, "Deny") || same(value, "deny") {
        Some(PolicyAction::Deny)
    } else {
        None
    }
}

/// The prefix that an optional text stands for. The outer value is missing where there is a text
/// that is none.
pub open spec fn optional_prefix(s: Option<Seq<char>>) -> Option<Option<Ipv4Prefix>> {
    match s {
        None => Some(None),
        Some(t) => match prefix_value(t) {
            Some(p) => Some(Some(p)),
            None => None,
        },
    }
}

pub(crate) fn optional_prefix_of(s: &Option<String>) -> (r: Option<Option<Ipv4Prefix>>)
    ensures
        r == optional_prefix(view_opt(*s)),
{
    match s {
        None => Some(None),
        Some(t) => match prefix_value_of(t.as_str()) {
            Some(p) => Some(Some(p)),
            None => None,
        },
    }
}

// ---------------------------------------------------------------------------
// Policy rules of endpoints
// ---------------------------------------------------------------------------

/// Whether a rule has an identifier and is well formed.
pub open spec fn policy_valid(p: PolicyIntent) -> bool {
    p.id != 0 && policy_shape_valid(p)
}

/// Accepts a rule that is [`policy_valid`].
pub fn validate_policy_shape(policy: &PolicyIntent) -> (r: Result<(), NetworkError>)
    ensures
        match r {
            Ok(()) => policy_valid(*policy),
            Err(e) => !policy_valid(*policy) && e@ == NetworkErrorView::InvalidRequest,
        },
{
    if policy.id == 0 || !policy_shape_ok(policy) {
        return Err(NetworkError::InvalidRequest);
    }
    Ok(())
}

/// A prefix as it is written down, where there is one.
pub open spec fn prefix_text(p: Option<Ipv4Prefix>) -> Option<Seq<char>> {
    match p {
        Some(prefix) => Some(prefix.cidr()),
        None => None,
    }
}

fn prefix_text_of(p: &Option<Ipv4Prefix>) -> (r: Option<String>)
    ensures
        view_opt(r) == prefix_text(*p),
{
    match p {
        Some(prefix) => Some(prefix.cidr_text()),
        None => None,
    }
}

/// The record of a rule.
pub open spec fn policy_record(project_id: Seq<char>, p: PolicyIntent)
    -> CanonicalNetworkPolicyRecordView {
    CanonicalNetworkPolicyRecordView {
        id: p.id,
        project_id,
        endpoint_id: p.endpoint_id,
        direction: direction_name(p.direction),
        protocol: protocol_name(p.protocol),
        port_min: match p.ports {
            Some(ports) => Some(ports.start),
            None => None,
        },
        port_max: match p.ports {
            Some(ports) => Some(ports.end),
            None => None,
        },
        source: prefix_text(p.source),
        destination: prefix_text(p.destination),
        action: action_name(p.action),
        generation: 1,
        state: "active"@,
    }
}

/// Computes [`policy_record`].
pub fn canonical_policy_record(project_id: &str, policy: &PolicyIntent) -> (r:
    CanonicalNetworkPolicyRecord)
    ensures
        r@ == policy_record(project_id@, *policy),
{
    CanonicalNetworkPolicyRecord {
        id: policy.id,
        project_id: project_id.to_owned(),
        endpoint_id: policy.endpoint_id,
        direction: direction_name_of(policy.direction).to_owned(),
        protocol: protocol_name_of(policy.protocol).to_owned(),
        port_min: match policy.ports {
            Some(ports) => Some(ports.start),
            None => None,
        },
        port_max: match policy.ports {
            Some(ports) => Some(ports.end),
            None => None,
        },
        source: prefix_text_of(&policy.source),
        destination: prefix_text_of(&policy.destination),
        action: action_name_of(policy.action).to_owned(),
        generation: 1,
        state: "active".to_owned(),
    }
}

/// The range of two optional ports, where both are there.
pub open spec fn zipped_ports(min: Option<u16>, max: Option<u16>) -> Option<PortRange> {
    match (min, max) {
        (Some(start), Some(end)) => Some(PortRange { start, end }),
        _ => None,
    }
}

/// The rule that a record stands for, unless a part of it cannot be read or it is not well
/// formed.
pub open spec fn policy_of(r: CanonicalNetworkPolicyRecordView) -> Option<PolicyIntent> {
    match (
        direction_value(r.direction),
        protocol_value(r.protocol),
        optional_prefix(r.source),
        optional_prefix(r.destination),
        action_value(r.action),
    ) {
        (Some(direction), Some(protocol), Some(source), Some(destination), Some(action)) => {
            let p = PolicyIntent {
                id: r.id,
                endpoint_id: r.endpoint_id,
                direction,
                protocol,
                ports: zipped_ports(r.port_min, r.port_max),
                source,
                destination,
                action,
            };
            if policy_valid(p) {
                Some(p)
            } else {
                None
            }
        },
        _ => None,
    }
}

/// Computes [`policy_of`].
pub fn policy_from_canonical_record(record: &CanonicalNetworkPolicyRecord) -> (r: Result<
    PolicyIntent,
    NetworkError,
>)
    ensures
        match r {
            Ok(p) => policy_of(record@) == Some(p),
            Err(e) => policy_of(record@) is None && e@ == NetworkErrorView::InvalidRequest,
        },
{
    let direction = match parse_security_group_direction(record.direction.as_str()) {
        Ok(d) => d,
        Err(e) => return Err(e),
    };
    let protocol = match parse_security_group_protocol(record.protocol.as_str()) {
        Ok(p) => p,
        Err(e) => return Err(e),
    };
    let source = match optional_prefix_of(&record.source) {
        Some(p) => p,
        None => return Err(NetworkError::InvalidRequest),
    };
    let destination = match optional_prefix_of(&record.destination) {
        Some(p) => p,
        None => return Err(NetworkError::InvalidRequest),
    };
    let action = match parse_action(record.action.as_str()) {
        Some(a) => a,
        None => return Err(NetworkError::InvalidRequest),
    };
    let policy = PolicyIntent {
        id: record.id,
        endpoint_id: record.endpoint_id,
        direction,
        protocol,
        ports: match (record.port_min, record.port_max) {
            (Some(start), Some(end)) => Some(PortRange { start, end }),
            _ => None,
        },
        source,
        destination,
        action,
    };
    match validate_policy_shape(&policy) {
        Ok(()) => Ok(policy),
        Err(e) => Err(e),
    }
}

pub(crate) proof fn lemma_words_read_back()
    ensures
        forall|d: PolicyDirection| #[trigger] direction_value(direction_name(d)) == Some(d),
        forall|p: NetworkProtocol| #[trigger] protocol_value(protocol_name(p)) == Some(p),
        forall|a: PolicyAction| #[trigger] action_value(action_name(a)) == Some(a),
{
    reveal_strlit("ingress");
    reveal_strlit("egress");
    reveal_strlit("Ingress");
    reveal_strlit("Egress");
    reveal_strlit("any");
    reveal_strlit("tcp");
    reveal_strlit("udp");
    reveal_strlit("icmp");
    reveal_strlit("Any");
    reveal_strlit("Tcp");
    reveal_strlit("Udp");
    reveal_strlit("Icmp");
    reveal_strlit("Allow");
    reveal_strlit("allow");
    reveal_strlit("Deny");
    reveal_strlit("deny");
    assert(lower("Ingress"@) =~= "ingress"@);
    assert(lower("Egress"@) =~= "egress"@);
    assert(lower("Any"@) =~= "any"@);
    assert(lower("Tcp"@) =~= "tcp"@);
    assert(lower("Udp"@) =~= "udp"@);
    assert(lower("Icmp"@) =~= "icmp"@);
    assert("tcp"@[0] == 't' && "udp"@[0] == 'u' && "any"@[0] == 'a');
    assert("Allow"@[0] == 'A' && "Deny"@[0] == 'D');
}

/// A well-formed rule that is written down is read back as it was.
pub proof fn lemma_policy_round_trip(project_id: Seq<char>, p: PolicyIntent)
    requires
        policy_valid(p),
        p.source matches Some(prefix) ==> prefix.wf(),
        p.destination matches Some(prefix) ==> prefix.wf(),
    ensures
        policy_of(policy_record(project_id, p)) == Some(p),
{
    lemma_words_read_back();
    match p.source {
        Some(prefix) => lemma_prefix_round_trip(prefix),
        None => {},
    }
    match p.destination {
        Some(prefix) => lemma_prefix_round_trip(prefix),
        None => {},
    }
    assert(direction_value(direction_name(p.direction)) == Some(p.direction));
    assert(protocol_value(protocol_name(p.protocol)) == Some(p.protocol));
    assert(action_value(action_name(p.action)) == Some(p.action));
}

// ---------------------------------------------------------------------------
// What clients see
// ---------------------------------------------------------------------------

/// A policy as a security group.
pub open spec fn group_of(p: CanonicalReusableNetworkPolicyRecordView) -> SecurityGroupRecordView {
    SecurityGroupRecordView {
        id: p.id,
        project_id: p.project_id,
        name: p.name,
        description: p.description,
    }
}

/// Computes [`group_of`].
pub fn security_group_from_policy(policy: &CanonicalReusableNetworkPolicyRecord) -> (r:
    SecurityGroupRecord)
    ensures
        r@ == group_of(policy@),
{
    SecurityGroupRecord {
        id: policy.id,
        project_id: policy.project_id.clone(),
        name: policy.name.clone(),
        description: policy.description.clone(),
    }
}

/// A rule of a policy as a rule of a security group.
pub open spec fn group_rule_of(r: CanonicalNetworkPolicyRuleRecordView)
    -> SecurityGroupRuleRecordView {
    SecurityGroupRuleRecordView {
        id: r.id,
        security_group_id: r.policy_id,
        project_id: r.project_id,
        direction: lowercase(r.direction),
        protocol: lowercase(r.protocol),
        port_min: r.port_min,
        port_max: r.port_max,
        remote_ip_prefix: r.remote_selector,
    }
}

/// Computes [`group_rule_of`].
pub fn security_group_rule_from_policy(rule: &CanonicalNetworkPolicyRuleRecord) -> (r:
    SecurityGroupRuleRecord)
    ensures
        r@ == group_rule_of(rule@),
{
    SecurityGroupRuleRecord {
        id: rule.id,
        security_group_id: rule.policy_id,
        project_id: rule.project_id.clone(),
        direction: lowercase_of(rule.direction.as_str()),
        protocol: lowercase_of(rule.protocol.as_str()),
        port_min: rule.port_min,
        port_max: rule.port_max,
        remote_ip_prefix: copy_opt(&rule.remote_selector),
    }
}

/// A network as clients see it.
pub open spec fn network_of(n: CanonicalNetworkRecordView) -> NetworkRecordView {
    NetworkRecordView {
        id: n.id,
        name: n.name,
        project_id: n.project_id,
        status: upper(n.state),
    }
}

/// Computes [`network_of`].
pub fn canonical_network_projection(network: &CanonicalNetworkRecord) -> (r: NetworkRecord)
    ensures
        r@ == network_of(network@),
{
    NetworkRecord {
        id: network.id,
        name: network.name.clone(),
        project_id: network.project_id.clone(),
        status: to_upper(network.state.as_str()),
    }
}

/// The hardware address of a port.
pub open spec fn port_mac(port_id: u128) -> Seq<char> {
    let d = sha256(id_bytes(port_id));
    local_mac(d[0], d[1], d[2], d[3], d[4])
}

/// Computes [`port_mac`].
pub fn deterministic_port_mac(port_id: u128) -> (r: String)
    ensures
        r@ == port_mac(port_id),
        is_mac(r@),
{
    let d = sha256_of(id_bytes_of(port_id).as_slice());
    proof {
        lemma_local_mac_valid(d[0], d[1], d[2], d[3], d[4]);
    }
    local_mac_of(d[0], d[1], d[2], d[3], d[4])
}

// ---------------------------------------------------------------------------
// New rules
// ---------------------------------------------------------------------------

/// Whether the ports of a new rule are a range, or none, and fit its protocol.
pub open spec fn rule_ports_valid(
    protocol: NetworkProtocol,
    port_min: Option<u16>,
    port_max: Option<u16>,
) -> bool {
    match (port_min, port_max) {
        (None, None) => true,
        (Some(start), Some(end)) => start <= end && protocol != NetworkProtocol::Icmp && protocol
            != NetworkProtocol::Any,
        _ => false,
    }
}

pub(crate) fn rule_ports_ok(
    protocol: NetworkProtocol,
    port_min: Option<u16>,
    port_max: Option<u16>,
) -> (r: bool)
    ensures
        r == rule_ports_valid(protocol, port_min, port_max),
{
    match (port_min, port_max) {
        (None, None) => true,
        (Some(start), Some(end)) => start <= end && protocol != NetworkProtocol::Icmp && protocol
            != NetworkProtocol::Any,
        _ => false,
    }
}

/// A range of ports as it is written down.
pub open spec fn ports_text(port_min: Option<u16>, port_max: Option<u16>) -> Seq<char> {
    match (port_min, port_max) {
        (Some(min), Some(max)) => decimal(min as nat) + "-"@ + decimal(max as nat),
        _ => "-"@,
    }
}

fn ports_text_of(port_min: Option<u16>, port_max: Option<u16>) -> (r: String)
    ensures
        r@ == ports_text(port_min, port_max),
{
    match (port_min, port_max) {
        (Some(min), Some(max)) => {
            let a = decimal_of(min as u128);
            let b = decimal_of(max as u128);
            join3(a.as_str(), "-", b.as_str())
        },
        _ => "-".to_owned(),
    }
}

/// The text by which equal rules are recognized.
pub open spec fn enforcement_key(
    direction: PolicyDirection,
    protocol: NetworkProtocol,
    port_min: Option<u16>,
    port_max: Option<u16>,
    remote: Option<Seq<char>>,
) -> Seq<char> {
    direction_name(direction) + "|Ipv4|"@ + protocol_name(protocol) + "|"@ + ports_text(
        port_min,
        port_max,
    ) + "|"@ + (match remote {
        Some(s) => s,
        None => "-"@,
    }) + "|Allow"@
}

fn enforcement_key_of(
    direction: PolicyDirection,
    protocol: NetworkProtocol,
    port_min: Option<u16>,
    port_max: Option<u16>,
    remote: &Option<String>,
) -> (r: String)
    ensures
        r@ == enforcement_key(direction, protocol, port_min, port_max, view_opt(*remote)),
{
    let mut out = direction_name_of(direction).to_owned();
    out.append("|Ipv4|");
    out.append(protocol_name_of(protocol));
    out.append("|");
    out.append(ports_text_of(port_min, port_max).as_str());
    out.append("|");
    match remote {
        Some(s) => out.append(s.as_str()),
        None => out.append("-"),
    }
    out.append("|Allow");
    out
}

/// The record of a new rule that allows traffic.
pub open spec fn new_rule(
    id: u128,
    policy_id: u128,
    project_id: Seq<char>,
    direction: PolicyDirection,
    protocol: NetworkProtocol,
    port_min: Option<u16>,
    port_max: Option<u16>,
    remote: Option<Seq<char>>,
) -> CanonicalNetworkPolicyRuleRecordView {
    CanonicalNetworkPolicyRuleRecordView {
        id,
        policy_id,
        project_id,
        direction: direction_name(direction),
        protocol: protocol_name(protocol),
        address_family: "Ipv4"@,
        port_min,
        port_max,
        remote_selector: remote,
        action: "Allow"@,
        state: "active"@,
        generation: 1,
        enforcement_key: enforcement_key(direction, protocol, port_min, port_max, remote),
    }
}

pub(crate) fn new_rule_of(
    id: u128,
    policy_id: u128,
    project_id: &str,
    direction: PolicyDirection,
    protocol: NetworkProtocol,
    port_min: Option<u16>,
    port_max: Option<u16>,
    remote: Option<String>,
) -> (r: CanonicalNetworkPolicyRuleRecord)
    ensures
        r@ == new_rule(
            id,
            policy_id,
            project_id@,
            direction,
            protocol,
            port_min,
            port_max,
            view_opt(remote),
        ),
{
    let key = enforcement_key_of(direction, protocol, port_min, port_max, &remote);
    CanonicalNetworkPolicyRuleRecord {
        id,
        policy_id,
        project_id: project_id.to_owned(),
        direction: direction_name_of(direction).to_owned(),
        protocol: protocol_name_of(protocol).to_owned(),
        address_family: "Ipv4".to_owned(),
        port_min,
        port_max,
        remote_selector: remote,
        action: "Allow".to_owned(),
        state: "active".to_owned(),
        generation: 1,
        enforcement_key: key,
    }
}

} // verus!
