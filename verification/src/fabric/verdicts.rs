//! What the rules of a realm do to packets.
use super::backend::LinuxFabricBackendView;
use super::commands::ns_rule_cmd;
use super::config::LinuxFabricError;
use super::course::lemma_stage_succeeds;
use super::lifecycle::{apply_run, stages, stages_run, Stage};
use super::naming::{protocol_word, provider_name_text};
use super::plan::{locate, EndpointLocationView, NamespacedRoutedFabricPlanView};
use super::policy::{
    ensure_policy_run, policies_valid, policy_fingerprint_text, policy_rule_cmd, policy_rule_cmds,
    policy_table_cmds, policy_valid, replace_policy_run, with_endpoint, with_protocol, with_remote,
};
use super::reach::in_namespace;
use super::state::ProviderStateView;
use crate::domain::{NetworkProtocol, PolicyAction, PolicyDirection, PolicyIntent};
use crate::ipv4::{
    ipv4_text, lemma_ipv4_text_chars, lemma_ipv4_text_injective, lemma_prefix_round_trip,
    prefix_value,
};
use crate::reading::carried_out_at;
use crate::render::{decimal, lemma_decimal_value, value};
use crate::session::{extends, lemma_run_all_extends, run_all, CommandView, EffectView, Trace};
use crate::text::{head_len, lemma_head_len_at};
use vstd::prelude::*;

verus! {

/// What a packet carries.
pub enum Carried {
    Tcp,
    Udp,
    Icmp,
    Other,
}

/// A packet: where it comes from, where it goes, what it carries and to which port.
pub struct Packet {
    pub source: u32,
    pub destination: u32,
    pub carried: Carried,
    pub port: u16,
}

/// Whether the text of an address or of a prefix selects an address.
pub open spec fn selects_address(text: Seq<char>, addr: u32) -> bool {
    match prefix_value(text) {
        Some(prefix) => prefix.has(addr),
        None => text == ipv4_text(addr),
    }
}

/// Whether the text of a range of ports selects a port.
pub open spec fn selects_port(text: Seq<char>, port: u16) -> bool {
    let n = head_len(text, '-') as int;
    &&& n < text.len()
    &&& value(text.take(n)) <= port <= value(text.skip(n + 1))
}

/// What the words of a rule, from the front, do to a packet: the words that select are read until
/// one does not select the packet, or until the verdict.
pub open spec fn verdict(words: Seq<Seq<char>>, p: Packet) -> Option<PolicyAction>
    decreases words.len(),
{
    if words.len() == 0 {
        None
    } else if words.len() >= 3 && words[0] == "ip"@ && words[1] == "daddr"@ {
        if selects_address(words[2], p.destination) {
            verdict(words.skip(3), p)
        } else {
            None
        }
    } else if words.len() >= 3 && words[0] == "ip"@ && words[1] == "saddr"@ {
        if selects_address(words[2], p.source) {
            verdict(words.skip(3), p)
        } else {
            None
        }
    } else if words.len() >= 3 && words[1] == "dport"@ {
        if is_carried(words[0], p) && selects_port(words[2], p.port) {
            verdict(words.skip(3), p)
        } else {
            None
        }
    } else if words[0] == "tcp"@ || words[0] == "udp"@ || words[0] == "icmp"@ {
        if is_carried(words[0], p) {
            verdict(words.skip(1), p)
        } else {
            None
        }
    } else if words[0] == "counter"@ {
        verdict(words.skip(1), p)
    } else if words[0] == "accept"@ {
        Some(PolicyAction::Allow)
    } else if words[0] == "drop"@ {
        Some(PolicyAction::Deny)
    } else {
        None
    }
}

/// Whether a packet carries what a word names.
pub open spec fn is_carried(word: Seq<char>, p: Packet) -> bool {
    match p.carried {
        Carried::Tcp => word == "tcp"@,
        Carried::Udp => word == "udp"@,
        Carried::Icmp => word == "icmp"@,
        Carried::Other => false,
    }
}

/// Whether a policy of an endpoint with the given address is about a packet.
pub open spec fn concerns(policy: PolicyIntent, addr: u32, p: Packet) -> bool {
    &&& match policy.direction {
        PolicyDirection::Ingress => p.destination == addr && (policy.source matches Some(from)
            ==> from.has(p.source)),
        PolicyDirection::Egress => p.source == addr && (policy.destination matches Some(to)
            ==> to.has(p.destination)),
    }
    &&& match policy.protocol {
        NetworkProtocol::Any => true,
        NetworkProtocol::Tcp => p.carried is Tcp,
        NetworkProtocol::Udp => p.carried is Udp,
        NetworkProtocol::Icmp => p.carried is Icmp,
    }
    &&& policy.ports matches Some(ports) ==> ports.start <= p.port <= ports.end
}

/// What a policy of an endpoint with the given address does to a packet.
pub open spec fn decides(policy: PolicyIntent, addr: u32, p: Packet) -> Option<PolicyAction> {
    if concerns(policy, addr, p) {
        Some(policy.action)
    } else {
        None
    }
}

proof fn lemma_address_selects(a: u32, b: u32)
    ensures
        selects_address(ipv4_text(a), b) <==> a == b,
{
    lemma_ipv4_text_chars(a);
    let s = ipv4_text(a);
    crate::text::lemma_head_len(s, '/');
    assert(head_len(s, '/') >= s.len()) by {
        let n = head_len(s, '/') as int;
        if n < s.len() {
            assert(s[n] == '/');
            assert(crate::text::is_digit(s[n]) || s[n] == '.');
        }
    }
    assert(prefix_value(s) is None);
    if ipv4_text(a) == ipv4_text(b) {
        lemma_ipv4_text_injective(a, b);
    }
}

proof fn lemma_range_selects(start: u16, end: u16, port: u16)
    ensures
        selects_port(decimal(start as nat) + "-"@ + decimal(end as nat), port) <==> start <= port
            <= end,
{
    lemma_decimal_value(start as nat);
    lemma_decimal_value(end as nat);
    let a = decimal(start as nat);
    let b = decimal(end as nat);
    reveal_strlit("-");
    let s = a + "-"@ + b;
    assert forall|k: int| 0 <= k < a.len() implies s[k] != '-' by {
        assert(s[k] == a[k]);
        assert(crate::text::is_digit(a[k]));
    }
    assert(s[a.len() as int] == '-');
    lemma_head_len_at(s, '-', a.len() as int);
    assert(s.take(a.len() as int) =~= a);
    assert(s.skip(a.len() as int + 1) =~= b);
}

proof fn lemma_rule_words()
    ensures
        "ip"@ != "tcp"@,
        "ip"@ != "udp"@,
        "ip"@ != "icmp"@,
        "ip"@ != "counter"@,
        "daddr"@ != "saddr"@,
        "dport"@ != "daddr"@,
        "dport"@ != "saddr"@,
        "tcp"@ != "udp"@,
        "tcp"@ != "icmp"@,
        "udp"@ != "icmp"@,
        "tcp"@ != "counter"@,
        "udp"@ != "counter"@,
        "icmp"@ != "counter"@,
        "counter"@ != "accept"@,
        "counter"@ != "drop"@,
        "counter"@ != "dport"@,
        "accept"@ != "drop"@,
        "accept"@ != "ip"@,
        "drop"@ != "ip"@,
        "accept"@ != "tcp"@ && "accept"@ != "udp"@ && "accept"@ != "icmp"@,
        "drop"@ != "tcp"@ && "drop"@ != "udp"@ && "drop"@ != "icmp"@,
        "accept"@ != "dport"@,
        "drop"@ != "dport"@,
        "comment"@ != "dport"@,
{
    reveal_strlit("ip");
    reveal_strlit("tcp");
    reveal_strlit("udp");
    reveal_strlit("icmp");
    reveal_strlit("counter");
    reveal_strlit("daddr");
    reveal_strlit("saddr");
    reveal_strlit("dport");
    reveal_strlit("accept");
    reveal_strlit("drop");
    reveal_strlit("comment");
    assert("ip"@.len() == 2 && "tcp"@.len() == 3 && "udp"@.len() == 3 && "icmp"@.len() == 4);
    assert("counter"@.len() == 7 && "comment"@.len() == 7);
    assert("daddr"@[0] == 'd' && "saddr"@[0] == 's' && "daddr"@[1] == 'a' && "dport"@[1] == 'p');
    assert("tcp"@[0] == 't' && "udp"@[0] == 'u' && "accept"@.len() == 6 && "drop"@.len() == 4);
    assert("icmp"@[0] == 'i' && "drop"@[0] == 'd' && "dport"@.len() == 5);
}

proof fn lemma_tail(action: PolicyAction, comment: Seq<char>, p: Packet)
    ensures
        ({
            let word = if action == PolicyAction::Allow {
                "accept"@
            } else {
                "drop"@
            };
            verdict(seq!["counter"@, word, "comment"@, comment], p) == Some(action)
        }),
{
    lemma_rule_words();
    let word = if action == PolicyAction::Allow {
        "accept"@
    } else {
        "drop"@
    };
    let w = seq!["counter"@, word, "comment"@, comment];
    assert(w.skip(1) =~= seq![word, "comment"@, comment]);
    reveal_with_fuel(verdict, 3);
}

/// Two lists of words make one rule: what the first select, the second decide.
proof fn lemma_protocol_part(policy: PolicyIntent, comment: Seq<char>, p: Packet)
    requires
        policy.ports is Some ==> policy.protocol == NetworkProtocol::Tcp || policy.protocol
            == NetworkProtocol::Udp,
    ensures
        ({
            let word = if policy.action == PolicyAction::Allow {
                "accept"@
            } else {
                "drop"@
            };
            let tail = seq!["counter"@, word, "comment"@, comment];
            let sel = protocol_words(policy);
            let named = match policy.protocol {
                NetworkProtocol::Any => true,
                NetworkProtocol::Tcp => p.carried is Tcp,
                NetworkProtocol::Udp => p.carried is Udp,
                NetworkProtocol::Icmp => p.carried is Icmp,
            };
            let ported = policy.ports matches Some(r) ==> r.start <= p.port <= r.end;
            verdict(sel + tail, p) == (if named && ported {
                Some(policy.action)
            } else {
                None::<PolicyAction>
            })
        }),
{
    lemma_rule_words();
    let word = if policy.action == PolicyAction::Allow {
        "accept"@
    } else {
        "drop"@
    };
    let tail = seq!["counter"@, word, "comment"@, comment];
    let sel = protocol_words(policy);
    lemma_tail(policy.action, comment, p);
    match policy.protocol {
        NetworkProtocol::Any => {
            assert(sel + tail =~= tail);
        },
        _ => {
            let name = protocol_word(policy.protocol)->Some_0;
            match policy.ports {
                None => {
                    assert((sel + tail)[0] == name);
                    assert((sel + tail)[1] == "counter"@);
                    assert((sel + tail).skip(1) =~= tail);
                },
                Some(r) => {
                    lemma_range_selects(r.start, r.end, p.port);
                    assert((sel + tail)[0] == name);
                    assert((sel + tail)[1] == "dport"@);
                    assert((sel + tail).skip(3) =~= tail);
                },
            }
        },
    }
}

/// The words that select what a packet carries.
spec fn protocol_words(policy: PolicyIntent) -> Seq<Seq<char>> {
    match protocol_word(policy.protocol) {
        None => Seq::empty(),
        Some(name) => match policy.ports {
            None => seq![name],
            Some(r) => seq![
                name,
                "dport"@,
                decimal(r.start as nat) + "-"@ + decimal(r.end as nat),
            ],
        },
    }
}

proof fn lemma_to_part(text: Seq<char>, rest: Seq<Seq<char>>, p: Packet)
    ensures
        verdict(seq!["ip"@, "daddr"@, text] + rest, p) == (if selects_address(text, p.destination) {
            verdict(rest, p)
        } else {
            None
        }),
{
    let w = seq!["ip"@, "daddr"@, text] + rest;
    assert(w.skip(3) =~= rest);
    assert(w[0] == "ip"@ && w[1] == "daddr"@ && w[2] == text);
}

proof fn lemma_from_part(text: Seq<char>, rest: Seq<Seq<char>>, p: Packet)
    ensures
        verdict(seq!["ip"@, "saddr"@, text] + rest, p) == (if selects_address(text, p.source) {
            verdict(rest, p)
        } else {
            None
        }),
{
    lemma_rule_words();
    let w = seq!["ip"@, "saddr"@, text] + rest;
    assert(w.skip(3) =~= rest);
    assert(w[0] == "ip"@ && w[1] == "saddr"@ && w[2] == text);
}

/// The words that select the endpoint's end.
spec fn near_words(policy: PolicyIntent, addr: u32) -> Seq<Seq<char>> {
    match policy.direction {
        PolicyDirection::Ingress => seq!["ip"@, "daddr"@, ipv4_text(addr)],
        PolicyDirection::Egress => seq!["ip"@, "saddr"@, ipv4_text(addr)],
    }
}

/// The words that select the other end.
spec fn far_words(policy: PolicyIntent) -> Seq<Seq<char>> {
    match policy.direction {
        PolicyDirection::Ingress => match policy.source {
            Some(prefix) => seq!["ip"@, "saddr"@, prefix.cidr()],
            None => Seq::empty(),
        },
        PolicyDirection::Egress => match policy.destination {
            Some(prefix) => seq!["ip"@, "daddr"@, prefix.cidr()],
            None => Seq::empty(),
        },
    }
}

/// The words of the verdict.
spec fn tail_words(policy: PolicyIntent, i: int) -> Seq<Seq<char>> {
    let word = if policy.action == PolicyAction::Allow {
        "accept"@
    } else {
        "drop"@
    };
    seq![
        "counter"@,
        word,
        "comment"@,
        crate::json::quoted("o3k-p11-policy:"@ + decimal(i as nat)),
    ]
}

proof fn lemma_rule_shape(
    ns: Seq<char>,
    table: Seq<char>,
    policy: PolicyIntent,
    entries: Seq<EndpointLocationView>,
    addr: u32,
    i: int,
)
    requires
        policy_valid(policy, entries),
    ensures
        ({
            let c = policy_rule_cmd(ns, table, policy, addr, i);
            &&& c.program == "ip"@
            &&& c.args == in_namespace(
                ns,
                seq!["nft"@, "add"@, "rule"@, "ip"@, table, "forward"@],
            ) + (near_words(policy, addr) + (far_words(policy) + (protocol_words(policy)
                + tail_words(policy, i))))
        }),
{
    let base = ns_rule_cmd(ns, table);
    assert(base.args =~= in_namespace(
        ns,
        seq!["nft"@, "add"@, "rule"@, "ip"@, table, "forward"@],
    ));
    let c1 = with_endpoint(base, policy.direction, ipv4_text(addr));
    lemma_near(base, policy, addr);
    let c2 = with_remote(c1, policy);
    lemma_far(c1, policy, entries);
    let c3 = with_protocol(c2, policy);
    lemma_named(c2, policy);
    lemma_last(c3, ns, table, policy, addr, i);
    lemma_five(
        base.args,
        near_words(policy, addr),
        far_words(policy),
        protocol_words(policy),
        tail_words(policy, i),
    );
}

proof fn lemma_five(
    a: Seq<Seq<char>>,
    b: Seq<Seq<char>>,
    c: Seq<Seq<char>>,
    d: Seq<Seq<char>>,
    e: Seq<Seq<char>>,
)
    ensures
        a + b + c + d + e == a + (b + (c + (d + e))),
{
    assert(a + b + c + d + e =~= a + (b + (c + (d + e))));
}

proof fn lemma_near(base: CommandView, policy: PolicyIntent, addr: u32)
    ensures
        with_endpoint(base, policy.direction, ipv4_text(addr)).args == base.args + near_words(
            policy,
            addr,
        ),
        with_endpoint(base, policy.direction, ipv4_text(addr)).program == base.program,
{
    assert(with_endpoint(base, policy.direction, ipv4_text(addr)).args =~= base.args + near_words(
        policy,
        addr,
    ));
}

proof fn lemma_far(c: CommandView, policy: PolicyIntent, entries: Seq<EndpointLocationView>)
    requires
        policy_valid(policy, entries),
    ensures
        with_remote(c, policy).args == c.args + far_words(policy),
        with_remote(c, policy).program == c.program,
{
    assert(with_remote(c, policy).args =~= c.args + far_words(policy));
}

proof fn lemma_named(c: CommandView, policy: PolicyIntent)
    ensures
        with_protocol(c, policy).args == c.args + protocol_words(policy),
        with_protocol(c, policy).program == c.program,
{
    assert(with_protocol(c, policy).args =~= c.args + protocol_words(policy));
}

proof fn lemma_last(
    c: CommandView,
    ns: Seq<char>,
    table: Seq<char>,
    policy: PolicyIntent,
    addr: u32,
    i: int,
)
    requires
        c == with_protocol(
            with_remote(
                with_endpoint(ns_rule_cmd(ns, table), policy.direction, ipv4_text(addr)),
                policy,
            ),
            policy,
        ),
    ensures
        policy_rule_cmd(ns, table, policy, addr, i).args == c.args + tail_words(policy, i),
        policy_rule_cmd(ns, table, policy, addr, i).program == c.program,
{
    assert(policy_rule_cmd(ns, table, policy, addr, i).args =~= c.args + tail_words(policy, i));
}

proof fn lemma_rule_meaning(
    policy: PolicyIntent,
    entries: Seq<EndpointLocationView>,
    addr: u32,
    i: int,
    p: Packet,
)
    requires
        policy_valid(policy, entries),
        policy.source matches Some(prefix) ==> prefix.wf(),
        policy.destination matches Some(prefix) ==> prefix.wf(),
    ensures
        verdict(
            near_words(policy, addr) + (far_words(policy) + (protocol_words(policy) + tail_words(
                policy,
                i,
            ))),
            p,
        ) == decides(policy, addr, p),
{
    let last = protocol_words(policy) + tail_words(policy, i);
    let rest = far_words(policy) + last;
    lemma_protocol_part(policy, crate::json::quoted("o3k-p11-policy:"@ + decimal(i as nat)), p);
    match policy.direction {
        PolicyDirection::Ingress => {
            lemma_to_part(ipv4_text(addr), rest, p);
            lemma_address_selects(addr, p.destination);
            match policy.source {
                Some(prefix) => {
                    lemma_from_part(prefix.cidr(), last, p);
                    lemma_prefix_round_trip(prefix);
                },
                None => {
                    assert(rest =~= last);
                },
            }
        },
        PolicyDirection::Egress => {
            lemma_from_part(ipv4_text(addr), rest, p);
            lemma_address_selects(addr, p.source);
            match policy.destination {
                Some(prefix) => {
                    lemma_to_part(prefix.cidr(), last, p);
                    lemma_prefix_round_trip(prefix);
                },
                None => {
                    assert(rest =~= last);
                },
            }
        },
    }
}

/// The rule of a policy does to every packet what the policy says: it decides exactly on the
/// packets that the policy concerns, and lets through what is allowed and nothing that is denied.
pub proof fn lemma_rule_decides_like_its_policy(
    ns: Seq<char>,
    table: Seq<char>,
    policy: PolicyIntent,
    entries: Seq<EndpointLocationView>,
    addr: u32,
    i: int,
    p: Packet,
)
    requires
        policy_valid(policy, entries),
        policy.source matches Some(prefix) ==> prefix.wf(),
        policy.destination matches Some(prefix) ==> prefix.wf(),
    ensures
        policy_rule_cmd(ns, table, policy, addr, i).program == "ip"@,
        policy_rule_cmd(ns, table, policy, addr, i).args == in_namespace(
            ns,
            seq!["nft"@, "add"@, "rule"@, "ip"@, table, "forward"@],
        ) + policy_rule_cmd(ns, table, policy, addr, i).args.skip(9),
        verdict(policy_rule_cmd(ns, table, policy, addr, i).args.skip(9), p) == decides(
            policy,
            addr,
            p,
        ),
{
    lemma_rule_shape(ns, table, policy, entries, addr, i);
    lemma_rule_meaning(policy, entries, addr, i, p);
    let c = policy_rule_cmd(ns, table, policy, addr, i);
    let words = near_words(policy, addr) + (far_words(policy) + (protocol_words(policy)
        + tail_words(policy, i)));
    assert(c.args.skip(9) =~= words);
}

/// Two policies that differ in what they do give rules that differ in what they do, to every
/// packet that they concern.
pub proof fn lemma_opposite_policies_decide_oppositely(
    ns: Seq<char>,
    table: Seq<char>,
    policy: PolicyIntent,
    entries: Seq<EndpointLocationView>,
    addr: u32,
    i: int,
    p: Packet,
)
    requires
        policy_valid(policy, entries),
        policy.source matches Some(prefix) ==> prefix.wf(),
        policy.destination matches Some(prefix) ==> prefix.wf(),
        concerns(policy, addr, p),
    ensures
        ({
            let allow = PolicyIntent { action: PolicyAction::Allow, ..policy };
            let deny = PolicyIntent { action: PolicyAction::Deny, ..policy };
            &&& verdict(policy_rule_cmd(ns, table, allow, addr, i).args.skip(9), p) == Some(
                PolicyAction::Allow,
            )
            &&& verdict(policy_rule_cmd(ns, table, deny, addr, i).args.skip(9), p) == Some(
                PolicyAction::Deny,
            )
        }),
{
    let allow = PolicyIntent { action: PolicyAction::Allow, ..policy };
    let deny = PolicyIntent { action: PolicyAction::Deny, ..policy };
    lemma_rule_decides_like_its_policy(ns, table, allow, entries, addr, i, p);
    lemma_rule_decides_like_its_policy(ns, table, deny, entries, addr, i, p);
}

// ---------------------------------------------------------------------------
// The table of a realm
// ---------------------------------------------------------------------------

/// Whether the effect at `k` is a rule, carried out, that was added to a table of a namespace and
/// does to every packet what a policy says.
pub open spec fn rule_stands(
    u: Trace,
    k: int,
    ns: Seq<char>,
    table: Seq<char>,
    policy: PolicyIntent,
    addr: u32,
) -> bool {
    exists|words: Seq<Seq<char>>|
        #![trigger rule_of(u, k, ns, table, words)]
        rule_of(u, k, ns, table, words) && forall|p: Packet| #[trigger]
            verdict(words, p) == decides(policy, addr, p)
}

/// Whether the effect at `k` is a rule of the given words, carried out, that was added to the
/// chain of forwarded packets of a table of a namespace.
pub open spec fn rule_of(
    u: Trace,
    k: int,
    ns: Seq<char>,
    table: Seq<char>,
    words: Seq<Seq<char>>,
) -> bool {
    carried_out_at(
        u,
        k,
        "ip"@,
        in_namespace(ns, seq!["nft"@, "add"@, "rule"@, "ip"@, table, "forward"@]) + words,
    )
}

/// Whether the table of a realm's policies is made with its mark, its chain sees forwarded
/// packets, and packets of known connections pass, all right before the effect at `n`.
pub open spec fn frame_stands(
    u: Trace,
    ns: Seq<char>,
    plan: NamespacedRoutedFabricPlanView,
    n: int,
) -> bool {
    let table = provider_name_text("p"@, plan.realm_id, "policy"@);
    &&& carried_out_at(
        u,
        n - 3,
        "ip"@,
        in_namespace(
            ns,
            seq![
                "nft"@,
                "add"@,
                "table"@,
                "ip"@,
                table,
                "{"@,
                "comment"@,
                "\""@ + ("o3k-p11-policy:"@ + policy_fingerprint_text(plan)) + "\""@,
                ";"@,
                "}"@,
            ],
        ),
    )
    &&& carried_out_at(
        u,
        n - 2,
        "ip"@,
        in_namespace(
            ns,
            seq![
                "nft"@,
                "add"@,
                "chain"@,
                "ip"@,
                table,
                "forward"@,
                "{"@,
                "type"@,
                "filter"@,
                "hook"@,
                "forward"@,
                "priority"@,
                "-100"@,
                ";"@,
                "policy"@,
                "accept"@,
                ";"@,
                "}"@,
            ],
        ),
    )
    &&& carried_out_at(
        u,
        n - 1,
        "ip"@,
        in_namespace(
            ns,
            seq![
                "nft"@,
                "add"@,
                "rule"@,
                "ip"@,
                table,
                "forward"@,
                "ct"@,
                "state"@,
                "established,related"@,
                "accept"@,
                "comment"@,
                "o3k-p11-policy"@,
            ],
        ),
    )
}

/// Whether the table of a realm's policies stands, with its first rule at `n`: behind the
/// frame come the rules of the policies, one for each and in their order.
pub open spec fn table_stands(
    t: Trace,
    u: Trace,
    ns: Seq<char>,
    plan: NamespacedRoutedFabricPlanView,
    n: int,
) -> bool {
    let table = provider_name_text("p"@, plan.realm_id, "policy"@);
    &&& t.issued.len() + 3 <= n
    &&& frame_stands(u, ns, plan, n)
    &&& forall|i: int|
        0 <= i < plan.policies.len() ==> (locate(
            plan.directory.entries,
            (#[trigger] plan.policies[i]).endpoint_id,
        ) matches Some(e) && rule_stands(u, n + i, ns, table, plan.policies[i], e.fixed_ip))
}

proof fn lemma_list_places(t: Trace, cs: Seq<CommandView>, i: int)
    requires
        run_all(t, cs, LinuxFabricError::CommandFailed, LinuxFabricError::Storage).1 is Ok,
        0 <= i < cs.len(),
    ensures
        carried_out_at(
            run_all(t, cs, LinuxFabricError::CommandFailed, LinuxFabricError::Storage).0,
            t.issued.len() + i,
            cs[i].program,
            cs[i].args,
        ),
{
    let failed = LinuxFabricError::CommandFailed;
    let io = LinuxFabricError::Storage;
    lemma_run_all_extends(t, cs, failed, io);
    crate::reading::lemma_all_answered(t, cs, failed, io);
    let u = run_all(t, cs, failed, io).0;
    let k = t.issued.len() + i;
    assert(u.issued[k] == EffectView::Run(cs[k - t.issued.len()]));
    assert(u.replies[k] == t.replies[k]);
}

/// Whether the prefixes of a policy are proper ones.
pub open spec fn prefixes_wf(policies: Seq<PolicyIntent>) -> bool {
    forall|i: int|
        0 <= i < policies.len() ==> ((#[trigger] policies[i]).source matches Some(prefix)
            ==> prefix.wf()) && (policies[i].destination matches Some(prefix) ==> prefix.wf())
}

#[verifier::rlimit(60)]
#[verifier::spinoff_prover]
proof fn lemma_frame_stands(
    t: Trace,
    ns: Seq<char>,
    plan: NamespacedRoutedFabricPlanView,
    exists: bool,
)
    requires
        run_all(
            t,
            policy_table_cmds(ns, plan, exists),
            LinuxFabricError::CommandFailed,
            LinuxFabricError::Storage,
        ).1 is Ok,
    ensures
        ({
            let cs = policy_table_cmds(ns, plan, exists);
            let n = t.issued.len() + cs.len() - plan.policies.len();
            frame_stands(
                run_all(t, cs, LinuxFabricError::CommandFailed, LinuxFabricError::Storage).0,
                ns,
                plan,
                n,
            )
        }),
{
    let table = provider_name_text("p"@, plan.realm_id, "policy"@);
    let cs = policy_table_cmds(ns, plan, exists);
    let m = cs.len() - plan.policies.len();
    let comment = "\""@ + ("o3k-p11-policy:"@ + policy_fingerprint_text(plan)) + "\""@;
    lemma_list_places(t, cs, m - 3);
    lemma_list_places(t, cs, m - 2);
    lemma_list_places(t, cs, m - 1);
    assert(cs[m - 3].args =~= in_namespace(
        ns,
        seq![
            "nft"@,
            "add"@,
            "table"@,
            "ip"@,
            table,
            "{"@,
            "comment"@,
            comment,
            ";"@,
            "}"@,
        ],
    ));
    assert(cs[m - 2].args =~= in_namespace(
        ns,
        seq![
            "nft"@,
            "add"@,
            "chain"@,
            "ip"@,
            table,
            "forward"@,
            "{"@,
            "type"@,
            "filter"@,
            "hook"@,
            "forward"@,
            "priority"@,
            "-100"@,
            ";"@,
            "policy"@,
            "accept"@,
            ";"@,
            "}"@,
        ],
    ));
    assert(cs[m - 1].args =~= in_namespace(
        ns,
        seq![
            "nft"@,
            "add"@,
            "rule"@,
            "ip"@,
            table,
            "forward"@,
            "ct"@,
            "state"@,
            "established,related"@,
            "accept"@,
            "comment"@,
            "o3k-p11-policy"@,
        ],
    ));
}

proof fn lemma_rule_place_stands(
    t: Trace,
    ns: Seq<char>,
    plan: NamespacedRoutedFabricPlanView,
    exists: bool,
    i: int,
)
    requires
        policies_valid(plan),
        prefixes_wf(plan.policies),
        0 <= i < plan.policies.len(),
        run_all(
            t,
            policy_table_cmds(ns, plan, exists),
            LinuxFabricError::CommandFailed,
            LinuxFabricError::Storage,
        ).1 is Ok,
    ensures
        ({
            let cs = policy_table_cmds(ns, plan, exists);
            let n = t.issued.len() + cs.len() - plan.policies.len();
            let u = run_all(t, cs, LinuxFabricError::CommandFailed, LinuxFabricError::Storage).0;
            let table = provider_name_text("p"@, plan.realm_id, "policy"@);
            locate(plan.directory.entries, plan.policies[i].endpoint_id) matches Some(e)
                && rule_stands(u, n + i, ns, table, plan.policies[i], e.fixed_ip)
        }),
{
    let table = provider_name_text("p"@, plan.realm_id, "policy"@);
    let cs = policy_table_cmds(ns, plan, exists);
    let rules = policy_rule_cmds(ns, table, plan.policies, plan.directory.entries);
    let m = cs.len() - rules.len();
    let n = t.issued.len() + m;
    let u = run_all(t, cs, LinuxFabricError::CommandFailed, LinuxFabricError::Storage).0;
    let policy = plan.policies[i];
    assert(policy_valid(policy, plan.directory.entries));
    let e = locate(plan.directory.entries, policy.endpoint_id)->Some_0;
    lemma_list_places(t, cs, m + i);
    assert(cs[m + i] == rules[i]);
    let c = policy_rule_cmd(ns, table, policy, e.fixed_ip, i);
    let words = c.args.skip(9);
    lemma_rule_decides_like_its_policy(
        ns,
        table,
        policy,
        plan.directory.entries,
        e.fixed_ip,
        i,
        Packet { source: 0, destination: 0, carried: Carried::Other, port: 0 },
    );
    assert(c.args =~= in_namespace(
        ns,
        seq!["nft"@, "add"@, "rule"@, "ip"@, table, "forward"@],
    ) + words);
    assert(rule_of(u, n + i, ns, table, words));
    assert forall|p: Packet| #[trigger] verdict(words, p) == decides(policy, e.fixed_ip, p) by {
        lemma_rule_decides_like_its_policy(
            ns,
            table,
            policy,
            plan.directory.entries,
            e.fixed_ip,
            i,
            p,
        );
    }
}

/// Where the policies of a realm are not the recorded ones, bringing them in line makes their
/// table: every policy has its rule, in the order of the policies.
pub proof fn lemma_policies_stand(
    st: ProviderStateView,
    plan: NamespacedRoutedFabricPlanView,
    t: Trace,
)
    requires
        plan.policies.len() > 0,
        prefixes_wf(plan.policies),
        ensure_policy_run(st, plan, t).2 is Ok,
        st.realm(plan.realm_id) is Some,
        st.realm(plan.realm_id)->Some_0.policy_generation != plan.policy_generation || st.realm(
            plan.realm_id,
        )->Some_0.policy_fingerprint != policy_fingerprint_text(plan),
    ensures
        exists|n: int| #[trigger]
            table_stands(
                t,
                ensure_policy_run(st, plan, t).1,
                st.realm(plan.realm_id)->Some_0.namespace,
                plan,
                n,
            ),
{
    let own = st.realm(plan.realm_id)->Some_0;
    let ns = own.namespace;
    let table = provider_name_text("p"@, plan.realm_id, "policy"@);
    let q = EffectView::Query(super::commands::ns_table_list_cmd(ns, table));
    let exists = crate::session::queried(t.reply(), LinuxFabricError::Storage)->Ok_0.0;
    let t2 = t.after(q).after(EffectView::Save);
    let cs = policy_table_cmds(ns, plan, exists);
    let u = run_all(t2, cs, LinuxFabricError::CommandFailed, LinuxFabricError::Storage).0;
    assert(ensure_policy_run(st, plan, t) == replace_policy_run(st, own, plan, t));
    assert(u == ensure_policy_run(st, plan, t).1);
    let n = t2.issued.len() + cs.len() - plan.policies.len();
    lemma_frame_stands(t2, ns, plan, exists);
    assert forall|i: int| 0 <= i < plan.policies.len() implies (locate(
        plan.directory.entries,
        (#[trigger] plan.policies[i]).endpoint_id,
    ) matches Some(e) && rule_stands(u, n + i, ns, table, plan.policies[i], e.fixed_ip)) by {
        lemma_rule_place_stands(t2, ns, plan, exists, i);
    }
    assert(cs.len() >= plan.policies.len() + 3);
    assert(table_stands(t, u, ns, plan, n));
}

proof fn lemma_table_later(
    t: Trace,
    t1: Trace,
    u: Trace,
    v: Trace,
    ns: Seq<char>,
    plan: NamespacedRoutedFabricPlanView,
    n: int,
)
    requires
        extends(t, t1),
        extends(u, v),
        table_stands(t1, u, ns, plan, n),
    ensures
        table_stands(t, v, ns, plan, n),
{
    let table = provider_name_text("p"@, plan.realm_id, "policy"@);
    assert forall|k: int| 0 <= k < u.issued.len() implies v.issued[k] == u.issued[k] by {
        assert(v.issued[k] == v.issued.take(u.issued.len() as int)[k]);
    }
    assert forall|i: int| 0 <= i < plan.policies.len() implies (locate(
        plan.directory.entries,
        (#[trigger] plan.policies[i]).endpoint_id,
    ) matches Some(e) && rule_stands(v, n + i, ns, table, plan.policies[i], e.fixed_ip)) by {
        let policy = plan.policies[i];
        let e = locate(plan.directory.entries, policy.endpoint_id)->Some_0;
        assert(rule_stands(u, n + i, ns, table, policy, e.fixed_ip));
        let words = choose|words: Seq<Seq<char>>|
            #![trigger rule_of(u, n + i, ns, table, words)]
            rule_of(u, n + i, ns, table, words) && forall|p: Packet| #[trigger]
                verdict(words, p) == decides(policy, e.fixed_ip, p);
        assert(rule_of(v, n + i, ns, table, words));
    }
}

/// Once a plan is applied whose policies were not the recorded ones, the table of its policies
/// stands in the realm's namespace.
pub proof fn lemma_applied_policies_stand(
    b: LinuxFabricBackendView,
    plan: NamespacedRoutedFabricPlanView,
    t: Trace,
)
    requires
        plan.policies.len() > 0,
        prefixes_wf(plan.policies),
        apply_run(b, plan, t).2 is Ok,
        stages_run(6, b, plan, t).0.state.realm(plan.realm_id) matches Some(own)
            && own.policy_generation != plan.policy_generation,
    ensures
        exists|n: int| #[trigger]
            table_stands(
                t,
                apply_run(b, plan, t).1,
                stages_run(6, b, plan, t).0.state.realm(plan.realm_id)->Some_0.namespace,
                plan,
                n,
            ),
{
    lemma_stage_succeeds(6, 9, b, plan, t);
    let (b6, t6, r6) = stages_run(6, b, plan, t);
    assert(stages()[6] == Stage::Policy);
    lemma_policies_stand(b6.state, plan, t6);
    let u = ensure_policy_run(b6.state, plan, t6).1;
    let ns = b6.state.realm(plan.realm_id)->Some_0.namespace;
    let n = choose|n: int| #[trigger] table_stands(t6, u, ns, plan, n);
    lemma_table_later(t, t6, u, apply_run(b, plan, t).1, ns, plan, n);
}

} // verus!
