//! Security groups: policies that endpoints share, as clients see them.
use super::access::{found, halt, must_find};
use super::calls::{
    done, id_in, many, one, policies_in, policy_attachments_in, policy_in, port_in, rule_in,
    rules_in, unit, updated_policy_in, Answer, Log, NetworkService, StoreCall, StoreCallView,
};
use super::errors::{NetworkError, NetworkErrorView};
use super::ports::detach_policies_run;
use super::records::{
    CanonicalNetworkPolicyRuleRecordView, CanonicalPolicyAttachmentRecord,
    CanonicalPolicyAttachmentRecordView, CanonicalReusableNetworkPolicyRecord,
    CanonicalReusableNetworkPolicyRecordView, SecurityGroupBindingRecord,
    SecurityGroupBindingRecordView, SecurityGroupRecord, SecurityGroupRecordView,
    SecurityGroupRuleRecord, SecurityGroupRuleRecordView,
};
use super::rules::{
    direction_value, group_of, group_rule_of, new_rule, new_rule_of, optional_prefix,
    optional_prefix_of, parse_security_group_direction, parse_security_group_protocol,
    protocol_value, rule_ports_ok, rule_ports_valid, security_group_from_policy,
    security_group_rule_from_policy,
};
use crate::model::{view_opt, views, Model};
use crate::session::Stop;
use crate::text::{is_blank, same, trim};
use vstd::prelude::*;

verus! {

/// When policies are said to be made and changed.
pub open spec fn policy_moment() -> Seq<char> {
    "2026-08-26T00:00:00Z"@
}

/// The policy of a new security group: it keeps track of connections, and denies what no rule
/// allows.
pub open spec fn new_policy(
    id: u128,
    project_id: Seq<char>,
    name: Seq<char>,
    description: Seq<char>,
) -> CanonicalReusableNetworkPolicyRecordView {
    CanonicalReusableNetworkPolicyRecordView {
        id,
        project_id,
        name,
        description,
        stateful_mode: "Stateful"@,
        unmatched_action: "Deny"@,
        generation: 1,
        state: "active"@,
        created_at: policy_moment(),
        updated_at: policy_moment(),
    }
}

/// Security groups as clients see them.
pub open spec fn groups_of(a: Answer<Seq<CanonicalReusableNetworkPolicyRecordView>>) -> Answer<
    Seq<SecurityGroupRecordView>,
> {
    match a {
        Err(stop) => Err(stop),
        Ok(ps) => Ok(ps.map_values(|p: CanonicalReusableNetworkPolicyRecordView| group_of(p))),
    }
}

/// A security group as clients see it, where there is one.
pub open spec fn group_shown(a: Answer<CanonicalReusableNetworkPolicyRecordView>) -> Answer<
    SecurityGroupRecordView,
> {
    match a {
        Err(stop) => Err(stop),
        Ok(p) => Ok(group_of(p)),
    }
}

/// Rules as clients see them.
pub open spec fn group_rules_of(a: Answer<Seq<CanonicalNetworkPolicyRuleRecordView>>) -> Answer<
    Seq<SecurityGroupRuleRecordView>,
> {
    match a {
        Err(stop) => Err(stop),
        Ok(rs) => Ok(rs.map_values(|r: CanonicalNetworkPolicyRuleRecordView| group_rule_of(r))),
    }
}

/// A rule as clients see it, where there is one.
pub open spec fn group_rule_shown(a: Answer<CanonicalNetworkPolicyRuleRecordView>) -> Answer<
    SecurityGroupRuleRecordView,
> {
    match a {
        Err(stop) => Err(stop),
        Ok(r) => Ok(group_rule_of(r)),
    }
}

/// Makes a security group.
pub open spec fn create_group_run(
    project_id: Seq<char>,
    name: Seq<char>,
    description: Seq<char>,
    t: Log,
) -> (Log, Answer<SecurityGroupRecordView>) {
    if trim(project_id).len() == 0 || trim(name).len() == 0 {
        (t, halt(NetworkErrorView::InvalidRequest))
    } else {
        let t1 = t.after(StoreCallView::NewId);
        match id_in(t.reply()) {
            Err(stop) => (t1, Err(stop)),
            Ok(id) => {
                let policy = new_policy(id, project_id, name, description);
                let t2 = t1.after(StoreCallView::InsertPolicy(policy));
                match done(t1.reply()) {
                    Err(stop) => (t2, Err(stop)),
                    Ok(()) => (t2, Ok(group_of(policy))),
                }
            },
        }
    }
}

/// One more generation.
pub open spec fn next_generation(g: u64) -> u64 {
    if g == u64::MAX {
        g
    } else {
        (g + 1) as u64
    }
}

/// Changes the name and the description of a security group.
pub open spec fn update_group_run(
    project_id: Seq<char>,
    id: u128,
    name: Seq<char>,
    description: Seq<char>,
    t: Log,
) -> (Log, Answer<SecurityGroupRecordView>) {
    if trim(name).len() == 0 {
        (t, halt(NetworkErrorView::InvalidRequest))
    } else {
        let t1 = t.after(StoreCallView::GetPolicy(project_id, id));
        match found(policy_in(t.reply())) {
            Err(stop) => (t1, Err(stop)),
            Ok(current) => (
                t1.after(
                    StoreCallView::UpdatePolicy(
                        CanonicalReusableNetworkPolicyRecordView {
                            name,
                            description,
                            updated_at: policy_moment(),
                            generation: next_generation(current.generation),
                            ..current
                        },
                        current.generation,
                    ),
                ),
                group_shown(updated_policy_in(t1.reply())),
            ),
        }
    }
}

/// Lists the rules of a security group that can be found.
pub open spec fn list_group_rules_run(project_id: Seq<char>, group_id: u128, t: Log) -> (
    Log,
    Answer<Seq<SecurityGroupRuleRecordView>>,
) {
    let t1 = t.after(StoreCallView::GetPolicy(project_id, group_id));
    match found(policy_in(t.reply())) {
        Err(stop) => (t1, Err(stop)),
        Ok(_) => (
            t1.after(StoreCallView::ListRules(project_id, group_id)),
            group_rules_of(rules_in(t1.reply())),
        ),
    }
}

/// Adds a rule that allows traffic to a security group. Its parts have to be readable, and its
/// ports have to fit its protocol.
pub open spec fn create_rule_run(
    project_id: Seq<char>,
    group_id: u128,
    direction: Seq<char>,
    protocol: Seq<char>,
    port_min: Option<u16>,
    port_max: Option<u16>,
    remote: Option<Seq<char>>,
    t: Log,
) -> (Log, Answer<SecurityGroupRuleRecordView>) {
    match (direction_value(direction), protocol_value(protocol), optional_prefix(remote)) {
        (Some(d), Some(p), Some(_)) => if !rule_ports_valid(p, port_min, port_max) {
            (t, halt(NetworkErrorView::InvalidRequest))
        } else {
            let t1 = t.after(StoreCallView::GetPolicy(project_id, group_id));
            match found(policy_in(t.reply())) {
                Err(stop) => (t1, Err(stop)),
                Ok(_) => {
                    let t2 = t1.after(StoreCallView::NewId);
                    match id_in(t1.reply()) {
                        Err(stop) => (t2, Err(stop)),
                        Ok(id) => {
                            let rule = new_rule(
                                id,
                                group_id,
                                project_id,
                                d,
                                p,
                                port_min,
                                port_max,
                                remote,
                            );
                            let t3 = t2.after(StoreCallView::InsertRule(rule));
                            match done(t2.reply()) {
                                Err(stop) => (t3, Err(stop)),
                                Ok(()) => (t3, Ok(group_rule_of(rule))),
                            }
                        },
                    }
                },
            }
        },
        _ => (t, halt(NetworkErrorView::InvalidRequest)),
    }
}

impl NetworkService {
    /// Lists the security groups of a project.
    pub fn list_security_groups_for_project(&mut self, project_id: &str) -> (r: Result<
        Vec<SecurityGroupRecord>,
        Stop<NetworkError>,
    >)
        ensures
            final(self)@ == old(self)@.after(StoreCallView::ListPolicies(project_id@)),
            many(r) == groups_of(policies_in(old(self)@.reply())),
    {
        let policies = match self.ask_policies(StoreCall::ListPolicies(project_id.to_owned())) {
            Err(stop) => return Err(stop),
            Ok(policies) => policies,
        };
        let ghost all = views(policies@);
        let ghost f = |p: CanonicalReusableNetworkPolicyRecordView| group_of(p);
        let mut out: Vec<SecurityGroupRecord> = Vec::new();
        for i in 0..policies.len()
            invariant
                all == views(policies@),
                f == (|p: CanonicalReusableNetworkPolicyRecordView| group_of(p)),
                views(out@) == all.map_values(f).take(i as int),
        {
            assert(all[i as int] == policies@[i as int]@);
            let ghost so_far = views(out@);
            out.push(security_group_from_policy(&policies[i]));
            assert(views(out@) =~= so_far.push(f(all[i as int])));
            assert(views(out@) =~= all.map_values(f).take(i + 1));
        }
        assert(views(out@) =~= all.map_values(f));
        Ok(out)
    }

    /// Finds a security group.
    pub fn get_security_group_for_project(&mut self, project_id: &str, id: u128) -> (r: Result<
        SecurityGroupRecord,
        Stop<NetworkError>,
    >)
        ensures
            final(self)@ == old(self)@.after(StoreCallView::GetPolicy(project_id@, id)),
            one(r) == group_shown(found(policy_in(old(self)@.reply()))),
    {
        match must_find(self.ask_policy(StoreCall::GetPolicy(project_id.to_owned(), id))) {
            Err(stop) => Err(stop),
            Ok(policy) => Ok(security_group_from_policy(&policy)),
        }
    }

    /// Performs [`create_group_run`].
    pub fn create_security_group_for_project(
        &mut self,
        project_id: &str,
        name: String,
        description: String,
    ) -> (r: Result<SecurityGroupRecord, Stop<NetworkError>>)
        ensures
            (final(self)@, one(r)) == create_group_run(
                project_id@,
                name@,
                description@,
                old(self)@,
            ),
    {
        if is_blank(project_id) || is_blank(name.as_str()) {
            return Err(Stop::Failed(NetworkError::InvalidRequest));
        }
        let id: u128 = match self.ask_id(StoreCall::NewId) {
            Err(stop) => return Err(stop),
            Ok(id) => id,
        };
        let policy = CanonicalReusableNetworkPolicyRecord {
            id,
            project_id: project_id.to_owned(),
            name,
            description,
            stateful_mode: "Stateful".to_owned(),
            unmatched_action: "Deny".to_owned(),
            generation: 1,
            state: "active".to_owned(),
            created_at: "2026-08-26T00:00:00Z".to_owned(),
            updated_at: "2026-08-26T00:00:00Z".to_owned(),
        };
        match self.perform(StoreCall::InsertPolicy(policy.copy())) {
            Err(stop) => Err(stop),
            Ok(()) => Ok(security_group_from_policy(&policy)),
        }
    }

    /// Performs [`update_group_run`].
    pub fn update_security_group_for_project(
        &mut self,
        project_id: &str,
        id: u128,
        name: String,
        description: String,
    ) -> (r: Result<SecurityGroupRecord, Stop<NetworkError>>)
        ensures
            (final(self)@, one(r)) == update_group_run(
                project_id@,
                id,
                name@,
                description@,
                old(self)@,
            ),
    {
        if is_blank(name.as_str()) {
            return Err(Stop::Failed(NetworkError::InvalidRequest));
        }
        let current = match must_find(
            self.ask_policy(StoreCall::GetPolicy(project_id.to_owned(), id)),
        ) {
            Err(stop) => return Err(stop),
            Ok(current) => current,
        };
        let expected: u64 = current.generation;
        let mut changed = current;
        changed.name = name;
        changed.description = description;
        changed.updated_at = "2026-08-26T00:00:00Z".to_owned();
        if expected != u64::MAX {
            changed.generation = expected + 1;
        }
        match self.ask_updated_policy(StoreCall::UpdatePolicy(changed, expected)) {
            Err(stop) => Err(stop),
            Ok(policy) => Ok(security_group_from_policy(&policy)),
        }
    }

    /// Removes a security group.
    pub fn delete_security_group_for_project(&mut self, project_id: &str, id: u128) -> (r: Result<
        (),
        Stop<NetworkError>,
    >)
        ensures
            final(self)@ == old(self)@.after(StoreCallView::DeletePolicy(project_id@, id)),
            unit(r) == done(old(self)@.reply()),
    {
        self.perform(StoreCall::DeletePolicy(project_id.to_owned(), id))
    }

    /// Performs [`list_group_rules_run`].
    pub fn list_security_group_rules_for_project(&mut self, project_id: &str, group_id: u128) -> (r:
        Result<Vec<SecurityGroupRuleRecord>, Stop<NetworkError>>)
        ensures
            (final(self)@, many(r)) == list_group_rules_run(project_id@, group_id, old(self)@),
    {
        match must_find(self.ask_policy(StoreCall::GetPolicy(project_id.to_owned(), group_id))) {
            Err(stop) => return Err(stop),
            Ok(_) => {},
        }
        let rules = match self.ask_rules(StoreCall::ListRules(project_id.to_owned(), group_id)) {
            Err(stop) => return Err(stop),
            Ok(rules) => rules,
        };
        let ghost all = views(rules@);
        let ghost f = |r: CanonicalNetworkPolicyRuleRecordView| group_rule_of(r);
        let mut out: Vec<SecurityGroupRuleRecord> = Vec::new();
        for i in 0..rules.len()
            invariant
                all == views(rules@),
                f == (|r: CanonicalNetworkPolicyRuleRecordView| group_rule_of(r)),
                views(out@) == all.map_values(f).take(i as int),
        {
            assert(all[i as int] == rules@[i as int]@);
            let ghost so_far = views(out@);
            out.push(security_group_rule_from_policy(&rules[i]));
            assert(views(out@) =~= so_far.push(f(all[i as int])));
            assert(views(out@) =~= all.map_values(f).take(i + 1));
        }
        assert(views(out@) =~= all.map_values(f));
        Ok(out)
    }

    /// Finds a rule of a security group.
    pub fn get_security_group_rule_for_project(&mut self, project_id: &str, id: u128) -> (r: Result<
        SecurityGroupRuleRecord,
        Stop<NetworkError>,
    >)
        ensures
            final(self)@ == old(self)@.after(StoreCallView::GetRule(project_id@, id)),
            one(r) == group_rule_shown(found(rule_in(old(self)@.reply()))),
    {
        match must_find(self.ask_rule(StoreCall::GetRule(project_id.to_owned(), id))) {
            Err(stop) => Err(stop),
            Ok(rule) => Ok(security_group_rule_from_policy(&rule)),
        }
    }

    /// Performs [`create_rule_run`].
    pub fn create_security_group_rule_for_project(
        &mut self,
        project_id: &str,
        group_id: u128,
        direction: &str,
        protocol: &str,
        port_min: Option<u16>,
        port_max: Option<u16>,
        remote_ip_prefix: Option<String>,
    ) -> (r: Result<SecurityGroupRuleRecord, Stop<NetworkError>>)
        ensures
            (final(self)@, one(r)) == create_rule_run(
                project_id@,
                group_id,
                direction@,
                protocol@,
                port_min,
                port_max,
                view_opt(remote_ip_prefix),
                old(self)@,
            ),
    {
        let d = match parse_security_group_direction(direction) {
            Err(e) => return Err(Stop::Failed(e)),
            Ok(d) => d,
        };
        let p = match parse_security_group_protocol(protocol) {
            Err(e) => return Err(Stop::Failed(e)),
            Ok(p) => p,
        };
        if !rule_ports_ok(p, port_min, port_max) {
            return Err(Stop::Failed(NetworkError::InvalidRequest));
        }
        if optional_prefix_of(&remote_ip_prefix).is_none() {
            return Err(Stop::Failed(NetworkError::InvalidRequest));
        }
        match must_find(self.ask_policy(StoreCall::GetPolicy(project_id.to_owned(), group_id))) {
            Err(stop) => return Err(stop),
            Ok(_) => {},
        }
        let id: u128 = match self.ask_id(StoreCall::NewId) {
            Err(stop) => return Err(stop),
            Ok(id) => id,
        };
        let rule = new_rule_of(
            id,
            group_id,
            project_id,
            d,
            p,
            port_min,
            port_max,
            remote_ip_prefix,
        );
        match self.perform(StoreCall::InsertRule(rule.copy())) {
            Err(stop) => Err(stop),
            Ok(()) => Ok(security_group_rule_from_policy(&rule)),
        }
    }

    /// Removes a rule of a security group.
    pub fn delete_security_group_rule_for_project(&mut self, project_id: &str, id: u128) -> (r:
        Result<(), Stop<NetworkError>>)
        ensures
            final(self)@ == old(self)@.after(StoreCallView::DeleteRule(project_id@, id)),
            unit(r) == done(old(self)@.reply()),
    {
        self.perform(StoreCall::DeleteRule(project_id.to_owned(), id))
    }
}

// ---------------------------------------------------------------------------
// Which ports have which groups
// ---------------------------------------------------------------------------

/// Whether an attachment is active.
pub open spec fn attachment_active(a: CanonicalPolicyAttachmentRecordView) -> bool {
    a.state == "active"@
}

/// An attachment as clients see it.
pub open spec fn group_binding_of(a: CanonicalPolicyAttachmentRecordView)
    -> SecurityGroupBindingRecordView {
    SecurityGroupBindingRecordView {
        project_id: a.project_id,
        endpoint_id: a.endpoint_id,
        security_group_id: a.policy_id,
    }
}

/// The active ones among attachments.
pub open spec fn active_attachments(s: Seq<CanonicalPolicyAttachmentRecordView>) -> Seq<
    CanonicalPolicyAttachmentRecordView,
> {
    s.filter(|a: CanonicalPolicyAttachmentRecordView| attachment_active(a))
}

/// Active attachments as clients see them.
pub open spec fn group_bindings_of(a: Answer<Seq<CanonicalPolicyAttachmentRecordView>>) -> Answer<
    Seq<SecurityGroupBindingRecordView>,
> {
    match a {
        Err(stop) => Err(stop),
        Ok(s) => Ok(
            active_attachments(s).map_values(
                |a: CanonicalPolicyAttachmentRecordView| group_binding_of(a),
            ),
        ),
    }
}

pub(crate) fn active_attachments_of(v: &Vec<CanonicalPolicyAttachmentRecord>) -> (r: Vec<
    CanonicalPolicyAttachmentRecord,
>)
    ensures
        views(r@) == active_attachments(views(v@)),
{
    let ghost all = views(v@);
    let ghost p = |a: CanonicalPolicyAttachmentRecordView| attachment_active(a);
    let mut out: Vec<CanonicalPolicyAttachmentRecord> = Vec::new();
    proof {
        reveal(Seq::filter);
        assert(all.take(0) =~= Seq::empty());
        assert(views(out@) =~= all.take(0).filter(p));
    }
    for i in 0..v.len()
        invariant
            all == views(v@),
            p == (|a: CanonicalPolicyAttachmentRecordView| attachment_active(a)),
            views(out@) == all.take(i as int).filter(p),
    {
        let ghost so_far = views(out@);
        proof {
            assert(all[i as int] == v@[i as int]@);
            reveal(Seq::filter);
            assert(all.take(i + 1).drop_last() =~= all.take(i as int));
            assert(all.take(i + 1).last() == all[i as int]);
        }
        if same(v[i].state.as_str(), "active") {
            out.push(v[i].copy());
            assert(views(out@) =~= so_far.push(all[i as int]));
        }
    }
    assert(all.take(all.len() as int) =~= all);
    out
}

/// Lists the attachments of policies from the one at `i` on.
pub open spec fn policy_attachments_run(
    project_id: Seq<char>,
    policies: Seq<CanonicalReusableNetworkPolicyRecordView>,
    i: int,
    known: Seq<CanonicalPolicyAttachmentRecordView>,
    t: Log,
) -> (Log, Answer<Seq<CanonicalPolicyAttachmentRecordView>>)
    decreases policies.len() - i,
{
    if i < 0 || i >= policies.len() {
        (t, Ok(known))
    } else {
        let t1 = t.after(StoreCallView::ListPolicyAttachments(project_id, policies[i].id));
        match policy_attachments_in(t.reply()) {
            Err(stop) => (t1, Err(stop)),
            Ok(more) => policy_attachments_run(project_id, policies, i + 1, known + more, t1),
        }
    }
}

/// Lists which ports of a project, or which security groups of one port, are bound to each other.
pub open spec fn list_group_bindings_run(
    project_id: Seq<char>,
    endpoint_id: Option<u128>,
    t: Log,
) -> (Log, Answer<Seq<SecurityGroupBindingRecordView>>) {
    match endpoint_id {
        Some(id) => (
            t.after(StoreCallView::ListEndpointAttachments(project_id, id)),
            group_bindings_of(policy_attachments_in(t.reply())),
        ),
        None => {
            let t1 = t.after(StoreCallView::ListPolicies(project_id));
            match policies_in(t.reply()) {
                Err(stop) => (t1, Err(stop)),
                Ok(policies) => {
                    let (t2, all) = policy_attachments_run(
                        project_id,
                        policies,
                        0,
                        Seq::empty(),
                        t1,
                    );
                    (t2, group_bindings_of(all))
                },
            }
        },
    }
}

/// Checks that security groups can be found, from the one at `i` on.
pub open spec fn check_groups_run(project_id: Seq<char>, ids: Seq<u128>, i: int, t: Log) -> (
    Log,
    Answer<()>,
)
    decreases ids.len() - i,
{
    if i < 0 || i >= ids.len() {
        (t, Ok(()))
    } else {
        let t1 = t.after(StoreCallView::GetPolicy(project_id, ids[i]));
        match found(policy_in(t.reply())) {
            Err(stop) => (t1, Err(stop)),
            Ok(_) => check_groups_run(project_id, ids, i + 1, t1),
        }
    }
}

/// Attaches security groups to an endpoint, from the one at `i` on.
pub open spec fn attach_groups_run(
    project_id: Seq<char>,
    endpoint_id: u128,
    ids: Seq<u128>,
    i: int,
    t: Log,
) -> (Log, Answer<()>)
    decreases ids.len() - i,
{
    if i < 0 || i >= ids.len() {
        (t, Ok(()))
    } else {
        let t1 = t.after(StoreCallView::NewId);
        match id_in(t.reply()) {
            Err(stop) => (t1, Err(stop)),
            Ok(id) => {
                let t2 = t1.after(
                    StoreCallView::InsertPolicyAttachment(
                        CanonicalPolicyAttachmentRecordView {
                            id,
                            policy_id: ids[i],
                            endpoint_id,
                            project_id,
                            state: "active"@,
                            generation: 1,
                        },
                    ),
                );
                match done(t1.reply()) {
                    Err(stop) => (t2, Err(stop)),
                    Ok(()) => attach_groups_run(project_id, endpoint_id, ids, i + 1, t2),
                }
            },
        }
    }
}

/// Gives a port other security groups. All of them have to be there before any is changed.
pub open spec fn replace_groups_run(
    project_id: Seq<char>,
    endpoint_id: u128,
    ids: Seq<u128>,
    t: Log,
) -> (Log, Answer<()>) {
    let t1 = t.after(StoreCallView::GetPort(project_id, endpoint_id));
    match found(port_in(t.reply())) {
        Err(stop) => (t1, Err(stop)),
        Ok(_) => {
            let (t2, checked) = check_groups_run(project_id, ids, 0, t1);
            match checked {
                Err(stop) => (t2, Err(stop)),
                Ok(()) => {
                    let t3 = t2.after(
                        StoreCallView::ListEndpointAttachments(project_id, endpoint_id),
                    );
                    match policy_attachments_in(t2.reply()) {
                        Err(stop) => (t3, Err(stop)),
                        Ok(existing) => {
                            let (t4, detached) = detach_policies_run(
                                project_id,
                                active_attachments(existing),
                                0,
                                t3,
                            );
                            match detached {
                                Err(stop) => (t4, Err(stop)),
                                Ok(()) => attach_groups_run(
                                    project_id,
                                    endpoint_id,
                                    ids,
                                    0,
                                    t4,
                                ),
                            }
                        },
                    }
                },
            }
        },
    }
}

fn group_bindings_list(v: &Vec<CanonicalPolicyAttachmentRecord>) -> (r: Vec<
    SecurityGroupBindingRecord,
>)
    ensures
        group_bindings_of(Ok(views(v@))) == Ok::<
            Seq<SecurityGroupBindingRecordView>,
            Stop<NetworkErrorView>,
        >(views(r@)),
{
    let active = active_attachments_of(v);
    let ghost all = views(active@);
    let ghost f = |a: CanonicalPolicyAttachmentRecordView| group_binding_of(a);
    let mut out: Vec<SecurityGroupBindingRecord> = Vec::new();
    for i in 0..active.len()
        invariant
            all == views(active@),
            f == (|a: CanonicalPolicyAttachmentRecordView| group_binding_of(a)),
            views(out@) == all.map_values(f).take(i as int),
    {
        assert(all[i as int] == active@[i as int]@);
        let ghost so_far = views(out@);
        out.push(
            SecurityGroupBindingRecord {
                project_id: active[i].project_id.clone(),
                endpoint_id: active[i].endpoint_id,
                security_group_id: active[i].policy_id,
            },
        );
        assert(views(out@) =~= so_far.push(f(all[i as int])));
        assert(views(out@) =~= all.map_values(f).take(i + 1));
    }
    assert(views(out@) =~= all.map_values(f));
    out
}

fn extend_attachments(
    known: Vec<CanonicalPolicyAttachmentRecord>,
    more: &Vec<CanonicalPolicyAttachmentRecord>,
) -> (r: Vec<CanonicalPolicyAttachmentRecord>)
    ensures
        views(r@) == views(known@) + views(more@),
{
    let ghost a = views(known@);
    let ghost b = views(more@);
    let mut out = known;
    assert(views(out@) =~= a + b.take(0));
    for i in 0..more.len()
        invariant
            b == views(more@),
            views(out@) == a + b.take(i as int),
    {
        assert(b[i as int] == more@[i as int]@);
        let ghost so_far = views(out@);
        out.push(more[i].copy());
        assert(views(out@) =~= so_far.push(b[i as int]));
        assert(views(out@) =~= a + b.take(i + 1));
    }
    assert(b.take(b.len() as int) =~= b);
    out
}

impl NetworkService {
    fn policy_attachments(
        &mut self,
        project_id: &str,
        policies: &Vec<CanonicalReusableNetworkPolicyRecord>,
    ) -> (r: Result<Vec<CanonicalPolicyAttachmentRecord>, Stop<NetworkError>>)
        ensures
            (final(self)@, many(r)) == policy_attachments_run(
                project_id@,
                views(policies@),
                0,
                Seq::empty(),
                old(self)@,
            ),
    {
        let ghost all = views(policies@);
        let mut out: Vec<CanonicalPolicyAttachmentRecord> = Vec::new();
        assert(views(out@) =~= Seq::<CanonicalPolicyAttachmentRecordView>::empty());
        let ghost whole = policy_attachments_run(project_id@, all, 0, Seq::empty(), self@);
        for i in 0..policies.len()
            invariant
                all == views(policies@),
                whole == policy_attachments_run(
                    project_id@,
                    all,
                    0,
                    Seq::empty(),
                    old(self)@,
                ),
                whole == policy_attachments_run(
                    project_id@,
                    all,
                    i as int,
                    views(out@),
                    self@,
                ),
        {
            assert(all[i as int] == policies@[i as int]@);
            match self.ask_policy_attachments(
                StoreCall::ListPolicyAttachments(project_id.to_owned(), policies[i].id),
            ) {
                Err(stop) => return Err(stop),
                Ok(more) => {
                    out = extend_attachments(out, &more);
                },
            }
        }
        Ok(out)
    }

    /// Performs [`list_group_bindings_run`].
    pub fn list_security_group_bindings_for_project(
        &mut self,
        project_id: &str,
        endpoint_id: Option<u128>,
    ) -> (r: Result<Vec<SecurityGroupBindingRecord>, Stop<NetworkError>>)
        ensures
            (final(self)@, many(r)) == list_group_bindings_run(
                project_id@,
                endpoint_id,
                old(self)@,
            ),
    {
        let attachments = match endpoint_id {
            Some(id) => match self.ask_policy_attachments(
                StoreCall::ListEndpointAttachments(project_id.to_owned(), id),
            ) {
                Err(stop) => return Err(stop),
                Ok(attachments) => attachments,
            },
            None => {
                let policies = match self.ask_policies(
                    StoreCall::ListPolicies(project_id.to_owned()),
                ) {
                    Err(stop) => return Err(stop),
                    Ok(policies) => policies,
                };
                match self.policy_attachments(project_id, &policies) {
                    Err(stop) => return Err(stop),
                    Ok(attachments) => attachments,
                }
            },
        };
        Ok(group_bindings_list(&attachments))
    }

    fn check_groups(&mut self, project_id: &str, ids: &Vec<u128>) -> (r: Result<
        (),
        Stop<NetworkError>,
    >)
        ensures
            (final(self)@, unit(r)) == check_groups_run(project_id@, ids@, 0, old(self)@),
    {
        let ghost whole = check_groups_run(project_id@, ids@, 0, self@);
        for i in 0..ids.len()
            invariant
                whole == check_groups_run(project_id@, ids@, 0, old(self)@),
                whole == check_groups_run(project_id@, ids@, i as int, self@),
        {
            match must_find(self.ask_policy(StoreCall::GetPolicy(project_id.to_owned(), ids[i]))) {
                Err(stop) => return Err(stop),
                Ok(_) => {},
            }
        }
        Ok(())
    }

    fn attach_groups(&mut self, project_id: &str, endpoint_id: u128, ids: &Vec<u128>) -> (r: Result<
        (),
        Stop<NetworkError>,
    >)
        ensures
            (final(self)@, unit(r)) == attach_groups_run(
                project_id@,
                endpoint_id,
                ids@,
                0,
                old(self)@,
            ),
    {
        let ghost whole = attach_groups_run(project_id@, endpoint_id, ids@, 0, self@);
        for i in 0..ids.len()
            invariant
                whole == attach_groups_run(project_id@, endpoint_id, ids@, 0, old(self)@),
                whole == attach_groups_run(project_id@, endpoint_id, ids@, i as int, self@),
        {
            let id: u128 = match self.ask_id(StoreCall::NewId) {
                Err(stop) => return Err(stop),
                Ok(id) => id,
            };
            let attachment = CanonicalPolicyAttachmentRecord {
                id,
                policy_id: ids[i],
                endpoint_id,
                project_id: project_id.to_owned(),
                state: "active".to_owned(),
                generation: 1,
            };
            match self.perform(StoreCall::InsertPolicyAttachment(attachment)) {
                Err(stop) => return Err(stop),
                Ok(()) => {},
            }
        }
        Ok(())
    }

    /// Performs [`replace_groups_run`].
    pub fn replace_security_group_bindings_for_project(
        &mut self,
        project_id: &str,
        endpoint_id: u128,
        group_ids: &Vec<u128>,
    ) -> (r: Result<(), Stop<NetworkError>>)
        ensures
            (final(self)@, unit(r)) == replace_groups_run(
                project_id@,
                endpoint_id,
                group_ids@,
                old(self)@,
            ),
    {
        match must_find(self.ask_port(StoreCall::GetPort(project_id.to_owned(), endpoint_id))) {
            Err(stop) => return Err(stop),
            Ok(_) => {},
        }
        match self.check_groups(project_id, group_ids) {
            Err(stop) => return Err(stop),
            Ok(()) => {},
        }
        let existing = match self.ask_policy_attachments(
            StoreCall::ListEndpointAttachments(project_id.to_owned(), endpoint_id),
        ) {
            Err(stop) => return Err(stop),
            Ok(existing) => existing,
        };
        let active = active_attachments_of(&existing);
        match self.detach_policies(project_id, &active) {
            Err(stop) => return Err(stop),
            Ok(()) => {},
        }
        self.attach_groups(project_id, endpoint_id, group_ids)
    }
}

// ---------------------------------------------------------------------------
// Laws
// ---------------------------------------------------------------------------

/// Whether a call leaves the store as it is.
pub open spec fn is_lookup(call: StoreCallView) -> bool {
    call is GetPort || call is GetPolicy || call is ListEndpointAttachments
}

/// Whether all calls behind a log leave the store as it is.
pub open spec fn only_lookups(t: Log, u: Log) -> bool {
    &&& t.issued.len() <= u.issued.len()
    &&& forall|i: int| t.issued.len() <= i < u.issued.len() ==> is_lookup(#[trigger] u.issued[i])
}

proof fn lemma_checking_looks_up(project_id: Seq<char>, ids: Seq<u128>, i: int, t: Log)
    ensures
        only_lookups(t, check_groups_run(project_id, ids, i, t).0),
        check_groups_run(project_id, ids, i, t).0.replies == t.replies,
    decreases ids.len() - i,
{
    if 0 <= i < ids.len() {
        let t1 = t.after(StoreCallView::GetPolicy(project_id, ids[i]));
        lemma_checking_looks_up(project_id, ids, i + 1, t1);
        let u = check_groups_run(project_id, ids, i + 1, t1).0;
        lemma_checking_keeps(project_id, ids, i + 1, t1);
        assert(u.issued[t.issued.len() as int] == t1.issued[t.issued.len() as int]);
    }
}

proof fn lemma_checking_keeps(project_id: Seq<char>, ids: Seq<u128>, i: int, t: Log)
    ensures
        t.issued.len() <= check_groups_run(project_id, ids, i, t).0.issued.len(),
        forall|k: int|
            0 <= k < t.issued.len() ==> #[trigger] check_groups_run(
                project_id,
                ids,
                i,
                t,
            ).0.issued[k] == t.issued[k],
    decreases ids.len() - i,
{
    if 0 <= i < ids.len() {
        let t1 = t.after(StoreCallView::GetPolicy(project_id, ids[i]));
        lemma_checking_keeps(project_id, ids, i + 1, t1);
        assert forall|k: int| 0 <= k < t.issued.len() implies #[trigger] check_groups_run(
            project_id,
            ids,
            i,
            t,
        ).0.issued[k] == t.issued[k] by {
            assert(t1.issued[k] == t.issued[k]);
        }
    }
}

/// A port keeps its security groups unless all of the new ones can be found: up to then the store
/// is only looked at, and one that cannot be found ends the request.
pub proof fn lemma_missing_group_changes_nothing(
    project_id: Seq<char>,
    endpoint_id: u128,
    ids: Seq<u128>,
    t: Log,
)
    requires
        found(port_in(t.reply())) is Err || check_groups_run(
            project_id,
            ids,
            0,
            t.after(StoreCallView::GetPort(project_id, endpoint_id)),
        ).1 is Err,
    ensures
        replace_groups_run(project_id, endpoint_id, ids, t).1 is Err,
        only_lookups(t, replace_groups_run(project_id, endpoint_id, ids, t).0),
{
    let t1 = t.after(StoreCallView::GetPort(project_id, endpoint_id));
    if found(port_in(t.reply())) is Ok {
        lemma_checking_looks_up(project_id, ids, 0, t1);
        lemma_checking_keeps(project_id, ids, 0, t1);
        let u = check_groups_run(project_id, ids, 0, t1).0;
        assert(u.issued[t.issued.len() as int] == t1.issued[t.issued.len() as int]);
    }
}

} // verus!
