//! The policies of a realm as a table of packet rules in its namespace.
use super::backend::{FabricOutcome, LinuxFabricBackend};
use super::commands::{
    ns_chain_add, ns_chain_add_cmd, ns_rule, ns_rule_cmd, ns_rule_established,
    ns_rule_established_cmd, ns_table_add, ns_table_add_cmd, ns_table_del, ns_table_del_cmd,
    ns_table_list, ns_table_list_cmd,
};
use super::config::LinuxFabricError;
use super::naming::{
    policy_protocol, policy_table_name, protocol_word, provider_name_text,
};
use super::plan::{
    locate, EndpointLocationView, NamespacedRoutedFabricPlan, NamespacedRoutedFabricPlanView,
};
use super::state::{ProviderStateView, RealmOwnershipView};
use crate::digest::{sha256_text, sha256_text_of};
use crate::domain::{NetworkProtocol, PolicyAction, PolicyDirection, PolicyIntent};
use crate::ipv4::{ipv4_of, ipv4_text};
use crate::json::{
    json_list, json_list_of, json_policies, json_policies_of, json_policy_defaults,
    json_policy_defaults_of, quoted, quoted_of, Texts,
};
use crate::model::{views, Model};
use crate::render::{decimal, decimal_of};
use crate::session::{
    demanded, queried, run_all, Command, CommandView, Commands, Effect, EffectView, Session, Stop,
    Trace,
};
use crate::table::{find_id, put_id};
use crate::text::{contains, join, join3, same, text_contains};
use vstd::prelude::*;
use vstd::utf8::encode_utf8;

verus! {

// ---------------------------------------------------------------------------
// Validation and fingerprint
// ---------------------------------------------------------------------------

/// Whether a policy can be realized for one of the given endpoints.
pub open spec fn policy_valid(p: PolicyIntent, entries: Seq<EndpointLocationView>) -> bool {
    &&& p.id != 0
    &&& p.endpoint_id != 0
    &&& locate(entries, p.endpoint_id) is Some
    &&& p.ports matches Some(ports) ==> ports.start <= ports.end && p.protocol
        != NetworkProtocol::Any && p.protocol != NetworkProtocol::Icmp
    &&& p.direction == PolicyDirection::Ingress ==> p.destination is None
    &&& p.direction == PolicyDirection::Egress ==> p.source is None
}

/// Whether the policies of a plan can be realized.
pub open spec fn policies_valid(plan: NamespacedRoutedFabricPlanView) -> bool {
    &&& plan.policy_generation != 0
    &&& forall|i: int|
        0 <= i < plan.policies.len() ==> policy_valid(
            #[trigger] plan.policies[i],
            plan.directory.entries,
        )
}

fn policy_is_valid(p: &PolicyIntent, plan: &NamespacedRoutedFabricPlan) -> (r: bool)
    ensures
        r == policy_valid(*p, plan@.directory.entries),
{
    if p.id == 0 || p.endpoint_id == 0 || plan.directory.location(p.endpoint_id).is_none() {
        return false;
    }
    match p.ports {
        Some(ports) => {
            if ports.start > ports.end || p.protocol == NetworkProtocol::Any || p.protocol
                == NetworkProtocol::Icmp {
                return false;
            }
        },
        None => {},
    }
    match p.direction {
        PolicyDirection::Ingress => p.destination.is_none(),
        PolicyDirection::Egress => p.source.is_none(),
    }
}

/// Rejects a plan whose policies cannot be realized.
pub fn validate_policy_plan(plan: &NamespacedRoutedFabricPlan) -> (r: Result<(), LinuxFabricError>)
    ensures
        r == (if policies_valid(plan@) {
            Ok(())
        } else {
            Err(LinuxFabricError::OwnershipConflict)
        }),
{
    if plan.policy_generation == 0 {
        return Err(LinuxFabricError::OwnershipConflict);
    }
    let ghost ps = plan@.policies;
    for i in 0..plan.policies.len()
        invariant
            ps == plan@.policies,
            ps == views(plan.policies@),
            forall|k: int|
                0 <= k < i ==> policy_valid(#[trigger] ps[k], plan@.directory.entries),
    {
        assert(ps[i as int] == plan.policies@[i as int]@);
        if !policy_is_valid(&plan.policies[i], plan) {
            return Err(LinuxFabricError::OwnershipConflict);
        }
    }
    Ok(())
}

/// The fingerprint of the policies of a plan.
pub open spec fn policy_fingerprint_text(plan: NamespacedRoutedFabricPlanView) -> Seq<char> {
    sha256_text(
        encode_utf8(
            json_list(
                Seq::empty().push(decimal(plan.policy_generation as nat)).push(
                    json_policy_defaults(plan.policy_defaults),
                ).push(json_policies(plan.policies)),
            ),
        ),
    )
}

/// Computes [`policy_fingerprint_text`].
pub fn policy_fingerprint(plan: &NamespacedRoutedFabricPlan) -> (r: String)
    ensures
        r@ == policy_fingerprint_text(plan@),
        r@.len() == 64,
{
    let parts = Texts::none().push(decimal_of(plan.policy_generation as u128)).push(
        json_policy_defaults_of(&plan.policy_defaults),
    ).push(json_policies_of(&plan.policies));
    let text = json_list_of(&parts.list);
    sha256_text_of(text.as_str().as_bytes())
}

// ---------------------------------------------------------------------------
// Rules
// ---------------------------------------------------------------------------

/// The words that select the endpoint's end of the traffic.
pub open spec fn with_endpoint(c: CommandView, d: PolicyDirection, addr: Seq<char>) -> CommandView {
    match d {
        PolicyDirection::Ingress => c.arg("ip"@).arg("daddr"@).arg(addr),
        PolicyDirection::Egress => c.arg("ip"@).arg("saddr"@).arg(addr),
    }
}

/// The words that select the other end of the traffic.
pub open spec fn with_remote(c: CommandView, p: PolicyIntent) -> CommandView {
    let remote = if p.source is Some {
        p.source
    } else {
        p.destination
    };
    match remote {
        None => c,
        Some(prefix) => match p.direction {
            PolicyDirection::Ingress => c.arg("ip"@).arg("saddr"@).arg(prefix.cidr()),
            PolicyDirection::Egress => c.arg("ip"@).arg("daddr"@).arg(prefix.cidr()),
        },
    }
}

/// The words that select the protocol and the ports of the traffic.
pub open spec fn with_protocol(c: CommandView, p: PolicyIntent) -> CommandView {
    match protocol_word(p.protocol) {
        None => c,
        Some(word) => match p.ports {
            None => c.arg(word),
            Some(ports) => c.arg(word).arg("dport"@).arg(
                decimal(ports.start as nat) + "-"@ + decimal(ports.end as nat),
            ),
        },
    }
}

/// The rule of the policy at place `i` for an endpoint with the given address.
pub open spec fn policy_rule_cmd(
    ns: Seq<char>,
    table: Seq<char>,
    p: PolicyIntent,
    addr: u32,
    i: int,
) -> CommandView {
    let c = with_protocol(
        with_remote(with_endpoint(ns_rule_cmd(ns, table), p.direction, ipv4_text(addr)), p),
        p,
    );
    c.arg("counter"@).arg(
        if p.action == PolicyAction::Allow {
            "accept"@
        } else {
            "drop"@
        },
    ).arg("comment"@).arg(quoted("o3k-p11-policy:"@ + decimal(i as nat)))
}

fn policy_rule(ns: &str, table: &str, p: &PolicyIntent, addr: u32, i: usize) -> (r: Command)
    ensures
        r@ == policy_rule_cmd(ns@, table@, *p, addr, i as int),
{
    let address = ipv4_of(addr);
    let mut c = ns_rule(ns, table);
    c = match p.direction {
        PolicyDirection::Ingress => c.arg("ip").arg("daddr").arg(address.as_str()),
        PolicyDirection::Egress => c.arg("ip").arg("saddr").arg(address.as_str()),
    };
    let remote = if p.source.is_some() {
        p.source
    } else {
        p.destination
    };
    c = match remote {
        None => c,
        Some(prefix) => {
            let cidr = prefix.cidr_text();
            match p.direction {
                PolicyDirection::Ingress => c.arg("ip").arg("saddr").arg(cidr.as_str()),
                PolicyDirection::Egress => c.arg("ip").arg("daddr").arg(cidr.as_str()),
            }
        },
    };
    c = match policy_protocol(p.protocol) {
        None => c,
        Some(word) => match p.ports {
            None => c.arg(word),
            Some(ports) => {
                let range = join3(
                    decimal_of(ports.start as u128).as_str(),
                    "-",
                    decimal_of(ports.end as u128).as_str(),
                );
                c.arg(word).arg("dport").arg(range.as_str())
            },
        },
    };
    let verdict = if p.action == PolicyAction::Allow {
        "accept"
    } else {
        "drop"
    };
    let comment = quoted_of(join("o3k-p11-policy:", decimal_of(i as u128).as_str()).as_str());
    c.arg("counter").arg(verdict).arg("comment").arg(comment.as_str())
}

/// The rules of the policies of a plan.
pub open spec fn policy_rule_cmds(
    ns: Seq<char>,
    table: Seq<char>,
    policies: Seq<PolicyIntent>,
    entries: Seq<EndpointLocationView>,
) -> Seq<CommandView> {
    Seq::new(
        policies.len(),
        |i: int|
            policy_rule_cmd(
                ns,
                table,
                policies[i],
                locate(entries, policies[i].endpoint_id)->0.fixed_ip,
                i,
            ),
    )
}

/// The commands that make the table of a realm's policies. Packets of known connections are
/// accepted before the rules of the policies.
pub open spec fn policy_table_cmds(
    ns: Seq<char>,
    plan: NamespacedRoutedFabricPlanView,
    exists: bool,
) -> Seq<CommandView> {
    let table = provider_name_text("p"@, plan.realm_id, "policy"@);
    let clear = if exists {
        Seq::empty().push(ns_table_del_cmd(ns, table))
    } else {
        Seq::empty()
    };
    clear.push(
        ns_table_add_cmd(
            ns,
            table,
            quoted("o3k-p11-policy:"@ + policy_fingerprint_text(plan)),
        ),
    ).push(ns_chain_add_cmd(ns, table, "forward"@, "filter"@, "-100"@)).push(
        ns_rule_established_cmd(ns, table),
    ) + policy_rule_cmds(ns, table, plan.policies, plan.directory.entries)
}

fn policy_table_commands(ns: &str, plan: &NamespacedRoutedFabricPlan, exists: bool) -> (r: Commands)
    requires
        policies_valid(plan@),
    ensures
        r@ == policy_table_cmds(ns@, plan@, exists),
{
    let name = policy_table_name(plan.realm_id);
    let table = name.as_str();
    let clear = if exists {
        Commands::none().push(ns_table_del(ns, table))
    } else {
        Commands::none()
    };
    let comment = quoted_of(join("o3k-p11-policy:", policy_fingerprint(plan).as_str()).as_str());
    let mut out = clear.push(ns_table_add(ns, table, comment.as_str())).push(
        ns_chain_add(ns, table, "forward", "filter", "-100"),
    ).push(ns_rule_established(ns, table));
    let ghost start = out@;
    let ghost rules = policy_rule_cmds(ns@, table@, plan@.policies, plan@.directory.entries);
    assert(out@ =~= start + rules.take(0));
    for i in 0..plan.policies.len()
        invariant
            policies_valid(plan@),
            plan@.policies == views(plan.policies@),
            rules == policy_rule_cmds(ns@, table@, plan@.policies, plan@.directory.entries),
            out@ == start + rules.take(i as int),
    {
        let p = &plan.policies[i];
        assert(plan@.policies[i as int] == *p);
        assert(policy_valid(plan@.policies[i as int], plan@.directory.entries));
        let addr: u32 = match plan.directory.location(p.endpoint_id) {
            Some(entry) => entry.fixed_ip,
            None => 0,
        };
        out = out.push(policy_rule(ns, table, p, addr, i));
        assert(out@ =~= start + rules.take(i + 1));
    }
    assert(rules.take(rules.len() as int) =~= rules);
    out
}

// ---------------------------------------------------------------------------
// Realizing and removing
// ---------------------------------------------------------------------------

/// Removes a table of a namespace where it is there. One without the marker is foreign and
/// stays.
pub open spec fn drop_ns_table_run(
    ns: Seq<char>,
    table: Seq<char>,
    marker: Seq<char>,
    t: Trace,
) -> (Trace, FabricOutcome) {
    let io = LinuxFabricError::Storage;
    let t1 = t.after(EffectView::Query(ns_table_list_cmd(ns, table)));
    match queried(t.reply(), io) {
        Err(stop) => (t1, Err(stop)),
        Ok((false, _)) => (t1, Ok(())),
        Ok((true, listing)) => if contains(listing, marker) {
            (
                t1.after(EffectView::Run(ns_table_del_cmd(ns, table))),
                demanded(t1.reply(), LinuxFabricError::CommandFailed, io),
            )
        } else {
            (t1, Err(Stop::Failed(LinuxFabricError::ForeignState)))
        },
    }
}

/// Performs [`drop_ns_table_run`].
pub fn drop_ns_table(ns: &str, table: &str, marker: &str, session: &mut Session) -> (r:
    FabricOutcome)
    ensures
        (final(session)@, r) == drop_ns_table_run(ns@, table@, marker@, old(session)@),
{
    let io = LinuxFabricError::Storage;
    match session.query(ns_table_list(ns, table), io) {
        Err(stop) => Err(stop),
        Ok((exists, listing)) => {
            if !exists {
                return Ok(());
            }
            if !text_contains(listing.as_str(), marker) {
                return Err(Stop::Failed(LinuxFabricError::ForeignState));
            }
            session.demand(
                Effect::Run(ns_table_del(ns, table)),
                LinuxFabricError::CommandFailed,
                io,
            )
        },
    }
}

/// Removes the policies of a realm.
pub open spec fn remove_policy_run(st: ProviderStateView, realm_id: u128, t: Trace) -> (
    ProviderStateView,
    Trace,
    FabricOutcome,
) {
    match st.realm(realm_id) {
        Some(own) if own.policy_fingerprint.len() > 0 => {
            let (t1, r1) = drop_ns_table_run(
                own.namespace,
                provider_name_text("p"@, realm_id, "policy"@),
                "o3k-p11-policy"@,
                t,
            );
            if r1 is Err {
                (st, t1, r1)
            } else {
                (
                    st.with_realm(
                        RealmOwnershipView {
                            policy_generation: 0,
                            policy_fingerprint: Seq::empty(),
                            ..own
                        },
                    ),
                    t1.after(EffectView::Save),
                    demanded(t1.reply(), LinuxFabricError::Storage, LinuxFabricError::Storage),
                )
            }
        },
        _ => (st, t, Ok(())),
    }
}

/// Replaces the table of a realm's policies. The record is made durable before the table is
/// touched; a table of its name without the marker is foreign.
pub open spec fn replace_policy_run(
    st: ProviderStateView,
    own: RealmOwnershipView,
    plan: NamespacedRoutedFabricPlanView,
    t: Trace,
) -> (ProviderStateView, Trace, FabricOutcome) {
    let io = LinuxFabricError::Storage;
    let table = provider_name_text("p"@, plan.realm_id, "policy"@);
    let t1 = t.after(EffectView::Query(ns_table_list_cmd(own.namespace, table)));
    match queried(t.reply(), io) {
        Err(stop) => (st, t1, Err(stop)),
        Ok((exists, listing)) => if exists && !contains(listing, "o3k-p11-policy"@) {
            (st, t1, Err(Stop::Failed(LinuxFabricError::ForeignState)))
        } else {
            let st1 = st.with_realm(
                RealmOwnershipView {
                    policy_generation: plan.policy_generation,
                    policy_fingerprint: policy_fingerprint_text(plan),
                    ..own
                },
            );
            let t2 = t1.after(EffectView::Save);
            let r2 = demanded(t1.reply(), io, io);
            if r2 is Err {
                (st1, t2, r2)
            } else {
                let (t3, r3) = run_all(
                    t2,
                    policy_table_cmds(own.namespace, plan, exists),
                    LinuxFabricError::CommandFailed,
                    io,
                );
                (st1, t3, r3)
            }
        },
    }
}

/// Brings the policies of a realm in line with its plan.
pub open spec fn ensure_policy_run(
    st: ProviderStateView,
    plan: NamespacedRoutedFabricPlanView,
    t: Trace,
) -> (ProviderStateView, Trace, FabricOutcome) {
    match st.realm(plan.realm_id) {
        None => (st, t, Err(Stop::Failed(LinuxFabricError::CorruptState))),
        Some(own) => if plan.policies.len() == 0 {
            remove_policy_run(st, plan.realm_id, t)
        } else if !policies_valid(plan) {
            (st, t, Err(Stop::Failed(LinuxFabricError::OwnershipConflict)))
        } else if own.policy_generation == plan.policy_generation && own.policy_fingerprint
            == policy_fingerprint_text(plan) {
            (st, t, Ok(()))
        } else {
            replace_policy_run(st, own, plan, t)
        },
    }
}

impl LinuxFabricBackend {
    /// Performs [`remove_policy_run`].
    pub fn remove_policy(&mut self, plan: &NamespacedRoutedFabricPlan, session: &mut Session) -> (r:
        FabricOutcome)
        ensures
            (final(self)@.state, final(session)@, r) == remove_policy_run(
                old(self)@.state,
                plan@.realm_id,
                old(session)@,
            ),
            final(self)@ == old(self)@.with_state(final(self)@.state),
    {
        let mut own = match find_id(&self.state.realms, plan.realm_id) {
            None => return Ok(()),
            Some(i) => self.state.realms[i].copy(),
        };
        if own.policy_fingerprint.as_str().is_empty() {
            return Ok(());
        }
        let table = policy_table_name(plan.realm_id);
        match drop_ns_table(own.namespace.as_str(), table.as_str(), "o3k-p11-policy", session) {
            Err(stop) => return Err(stop),
            Ok(_) => {},
        }
        own.policy_generation = 0;
        own.policy_fingerprint = String::new();
        put_id(&mut self.state.realms, own);
        session.demand(Effect::Save, LinuxFabricError::Storage, LinuxFabricError::Storage)
    }

    /// Performs [`ensure_policy_run`].
    pub fn ensure_policy(&mut self, plan: &NamespacedRoutedFabricPlan, session: &mut Session) -> (r:
        FabricOutcome)
        ensures
            (final(self)@.state, final(session)@, r) == ensure_policy_run(
                old(self)@.state,
                plan@,
                old(session)@,
            ),
            final(self)@ == old(self)@.with_state(final(self)@.state),
    {
        let io = LinuxFabricError::Storage;
        let mut own = match find_id(&self.state.realms, plan.realm_id) {
            None => return Err(Stop::Failed(LinuxFabricError::CorruptState)),
            Some(i) => self.state.realms[i].copy(),
        };
        assert(plan@.policies.len() == plan.policies@.len());
        if plan.policies.len() == 0 {
            return self.remove_policy(plan, session);
        }
        match validate_policy_plan(plan) {
            Err(e) => return Err(Stop::Failed(e)),
            Ok(_) => {},
        }
        let fingerprint = policy_fingerprint(plan);
        if own.policy_generation == plan.policy_generation && same(
            own.policy_fingerprint.as_str(),
            fingerprint.as_str(),
        ) {
            return Ok(());
        }
        let table = policy_table_name(plan.realm_id);
        let namespace = own.namespace.clone();
        let list = ns_table_list(namespace.as_str(), table.as_str());
        let exists = match session.query(list, io) {
            Err(stop) => return Err(stop),
            Ok((exists, listing)) => {
                if exists && !text_contains(listing.as_str(), "o3k-p11-policy") {
                    return Err(Stop::Failed(LinuxFabricError::ForeignState));
                }
                exists
            },
        };
        own.policy_generation = plan.policy_generation;
        own.policy_fingerprint = fingerprint;
        put_id(&mut self.state.realms, own);
        match session.demand(Effect::Save, io, io) {
            Err(stop) => return Err(stop),
            Ok(_) => {},
        }
        let cs = policy_table_commands(namespace.as_str(), plan, exists);
        session.run_all(&cs, LinuxFabricError::CommandFailed, io)
    }
}

} // verus!
