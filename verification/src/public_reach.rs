//! How a public address leads to its endpoint: what was carried out on a host once public
//! addresses are realized.
use crate::domain::OwnedBinding;
use crate::fabric::commands::{table_del_cmd, table_list_cmd};
use crate::ipv4::ipv4_text;
use crate::plan::types::NetworkPlanIntentView;
use crate::public_realization::{
    addr_show_cmd, apply_run, assigned, drop_table_run, remove_run, is_present, lemma_binding_place,
    lemma_public_addresses, lemma_realized, merge_bindings, owned_dnat_cmd, owned_snat_cmd,
    plan_realm, provide_cmds, public_addresses, put_binding, realize_run, rebuild_run, record_run,
    rule_cmds, translation_table_cmds, withdraw_cmds, PublicAddressError, PublicAddressRealizerView,
};
use crate::reading::{
    carried_out, lemma_all_carried_out, lemma_done, lemma_told, told, was_missing, lemma_earlier, lemma_extends_self, lemma_later,
    lemma_one_carried_out,
};
use crate::session::{
    extends, lemma_extends_after, lemma_extends_transitive, lemma_run_all_extends, queried, run_all,
    CommandView, EffectView, Stop, Trace,
};
use vstd::prelude::*;

verus! {

/// The words of the rule that hands the packets for a public address, which reach a link, to a
/// private one.
pub open spec fn words_in(uplink: Seq<char>, public: u32, private: u32, comment: Seq<char>) -> Seq<
    Seq<char>,
> {
    seq![
        "add"@,
        "rule"@,
        "ip"@,
        "o3k_public"@,
        "prerouting"@,
        "iifname"@,
        "\""@ + uplink + "\""@,
        "ip"@,
        "daddr"@,
        ipv4_text(public),
        "dnat"@,
        "to"@,
        ipv4_text(private),
        "comment"@,
        comment,
    ]
}

/// The words of the rule that sends the packets of a private address, which leave through a link,
/// from a public one.
pub open spec fn words_out(uplink: Seq<char>, private: u32, public: u32, comment: Seq<char>) -> Seq<
    Seq<char>,
> {
    seq![
        "add"@,
        "rule"@,
        "ip"@,
        "o3k_public"@,
        "postrouting"@,
        "ip"@,
        "saddr"@,
        ipv4_text(private),
        "oifname"@,
        "\""@ + uplink + "\""@,
        "snat"@,
        "to"@,
        ipv4_text(public),
        "comment"@,
        comment,
    ]
}

/// Whether the packets that reach a link for a public address are handed to a private one.
pub open spec fn handed_in(
    t: Trace,
    u: Trace,
    uplink: Seq<char>,
    public: u32,
    private: u32,
) -> bool {
    exists|comment: Seq<char>|
        carried_out(t, u, "nft"@, #[trigger] words_in(uplink, public, private, comment))
}

/// Whether the packets that leave through a link from a private address are sent from a public
/// one.
pub open spec fn sent_out(
    t: Trace,
    u: Trace,
    uplink: Seq<char>,
    private: u32,
    public: u32,
) -> bool {
    exists|comment: Seq<char>|
        carried_out(t, u, "nft"@, #[trigger] words_out(uplink, private, public, comment))
}

/// What the host listed of the addresses of a link, asked behind a trace as the second question.
pub open spec fn listed(t: Trace, u: Trace, uplink: Seq<char>) -> Option<Seq<char>> {
    let k = t.issued.len() as int + 1;
    if k < u.issued.len() && k < u.replies.len() && u.issued[k] == EffectView::Query(
        CommandView {
            program: "ip"@,
            args: seq!["-4"@, "addr"@, "show"@, "dev"@, uplink],
        },
    ) && u.replies[k] is Printed {
        Some(u.replies[k]->Printed_1)
    } else {
        None
    }
}

/// Whether a public address was added to a link.
pub open spec fn address_added(t: Trace, u: Trace, uplink: Seq<char>, public: u32) -> bool {
    carried_out(
        t,
        u,
        "ip"@,
        seq!["addr"@, "add"@, ipv4_text(public) + "/32"@, "dev"@, uplink],
    )
}

/// Whether a public address was taken from a link.
pub open spec fn address_removed(t: Trace, u: Trace, uplink: Seq<char>, public: u32) -> bool {
    carried_out(
        t,
        u,
        "ip"@,
        seq!["addr"@, "del"@, ipv4_text(public) + "/32"@, "dev"@, uplink],
    )
}

/// Whether the chains that translate addresses were made.
pub open spec fn chains_made(t: Trace, u: Trace) -> bool {
    &&& carried_out(
        t,
        u,
        "nft"@,
        seq![
            "add"@,
            "table"@,
            "ip"@,
            "o3k_public"@,
            "{"@,
            "comment"@,
            "\"o3k-p9-public\""@,
            ";"@,
            "}"@,
        ],
    )
    &&& carried_out(
        t,
        u,
        "nft"@,
        seq![
            "add"@,
            "chain"@,
            "ip"@,
            "o3k_public"@,
            "prerouting"@,
            "{"@,
            "type"@,
            "nat"@,
            "hook"@,
            "prerouting"@,
            "priority"@,
            "-100"@,
            ";"@,
            "policy"@,
            "accept"@,
            ";"@,
            "}"@,
        ],
    )
    &&& carried_out(
        t,
        u,
        "nft"@,
        seq![
            "add"@,
            "chain"@,
            "ip"@,
            "o3k_public"@,
            "postrouting"@,
            "{"@,
            "type"@,
            "nat"@,
            "hook"@,
            "postrouting"@,
            "priority"@,
            "100"@,
            ";"@,
            "policy"@,
            "accept"@,
            ";"@,
            "}"@,
        ],
    )
}

/// Whether a public address leads to a private one and back: packets for it are handed in, and
/// what the private address sends leaves from it.
pub open spec fn leads(t: Trace, u: Trace, uplink: Seq<char>, public: u32, private: u32) -> bool {
    handed_in(t, u, uplink, public, private) && sent_out(t, u, uplink, private, public)
}

proof fn lemma_rule_place(uplink: Seq<char>, bs: Seq<OwnedBinding>, i: int)
    requires
        0 <= i < bs.len(),
    ensures
        rule_cmds(uplink, bs).len() == 2 * bs.len(),
        rule_cmds(uplink, bs)[2 * i] == owned_dnat_cmd(uplink, bs[i]),
        rule_cmds(uplink, bs)[2 * i + 1] == owned_snat_cmd(uplink, bs[i]),
    decreases bs.len(),
{
    let head = bs.drop_last();
    lemma_rule_count(uplink, head);
    if i < head.len() {
        lemma_rule_place(uplink, head, i);
    }
}

proof fn lemma_rule_count(uplink: Seq<char>, bs: Seq<OwnedBinding>)
    ensures
        rule_cmds(uplink, bs).len() == 2 * bs.len(),
    decreases bs.len(),
{
    if bs.len() > 0 {
        lemma_rule_count(uplink, bs.drop_last());
    }
}

/// The place of the command that adds an address.
proof fn lemma_provide_place(uplink: Seq<char>, wanted: Seq<u32>, listing: Seq<char>, a: u32) -> (k:
    int)
    requires
        wanted.contains(a),
        !is_present(listing, a),
    ensures
        0 <= k < provide_cmds(uplink, wanted, listing).len(),
        provide_cmds(uplink, wanted, listing)[k].program == "ip"@,
        provide_cmds(uplink, wanted, listing)[k].args == seq![
            "addr"@,
            "add"@,
            ipv4_text(a) + "/32"@,
            "dev"@,
            uplink,
        ],
    decreases wanted.len(),
{
    let all = provide_cmds(uplink, wanted, listing);
    if wanted.last() == a {
        let k = all.len() - 1;
        assert(all[k].args =~= seq!["addr"@, "add"@, ipv4_text(a) + "/32"@, "dev"@, uplink]);
        k
    } else {
        let i = choose|i: int| 0 <= i < wanted.len() && wanted[i] == a;
        assert(wanted.drop_last()[i] == a);
        lemma_provide_place(uplink, wanted.drop_last(), listing, a)
    }
}

proof fn lemma_withdraw_place(
    uplink: Seq<char>,
    addresses: Seq<u32>,
    kept: Seq<u32>,
    listing: Seq<char>,
    a: u32,
) -> (k: int)
    requires
        addresses.contains(a),
        !kept.contains(a),
        is_present(listing, a),
    ensures
        0 <= k < withdraw_cmds(uplink, addresses, kept, listing).len(),
        withdraw_cmds(uplink, addresses, kept, listing)[k].program == "ip"@,
        withdraw_cmds(uplink, addresses, kept, listing)[k].args == seq![
            "addr"@,
            "del"@,
            ipv4_text(a) + "/32"@,
            "dev"@,
            uplink,
        ],
    decreases addresses.len(),
{
    let all = withdraw_cmds(uplink, addresses, kept, listing);
    if addresses.last() == a {
        let k = all.len() - 1;
        assert(all[k].args =~= seq!["addr"@, "del"@, ipv4_text(a) + "/32"@, "dev"@, uplink]);
        k
    } else {
        let i = choose|i: int| 0 <= i < addresses.len() && addresses[i] == a;
        assert(addresses.drop_last()[i] == a);
        lemma_withdraw_place(uplink, addresses.drop_last(), kept, listing, a)
    }
}

/// The course of a realization that succeeds with bindings: what the host listed, and the traces
/// behind the withdrawal and before the table is made.
proof fn lemma_realize_course(p: PublicAddressRealizerView, bs: Seq<OwnedBinding>, t: Trace) -> (r: (
    Seq<char>,
    Trace,
    Trace,
))
    requires
        realize_run(p, bs, t).2 is Ok,
        bs.len() > 0,
    ensures
        ({
            let (listing, t2, t5) = r;
            let failed = PublicAddressError::ProviderCommandFailed;
            let io = PublicAddressError::Storage;
            let wanted = public_addresses(bs, bs.len() as int);
            let cs = withdraw_cmds(p.uplink, p.owned_addresses, wanted, listing);
            let table = translation_table_cmds(p.uplink, bs, wanted, listing);
            &&& t2 == t.after(
                EffectView::Query(crate::fabric::commands::table_list_cmd("o3k_public"@)),
            ).after(EffectView::Query(addr_show_cmd(p.uplink)))
            &&& queried(
                t.after(
                    EffectView::Query(crate::fabric::commands::table_list_cmd("o3k_public"@)),
                ).reply(),
                io,
            ) == Ok::<_, crate::session::Stop<PublicAddressError>>((true, listing))
            &&& extends(t, t2)
            &&& listed(t, realize_run(p, bs, t).1, p.uplink) == Some(listing)
            &&& run_all(t2, cs, failed, io).1 is Ok
            &&& extends(run_all(t2, cs, failed, io).0, t5)
            &&& extends(t, t5)
            &&& run_all(t5, table, failed, io).1 is Ok
            &&& realize_run(p, bs, t).1 == run_all(t5, table, failed, io).0
        }),
{
    let failed = PublicAddressError::ProviderCommandFailed;
    let io = PublicAddressError::Storage;
    let wanted = public_addresses(bs, bs.len() as int);
    let a = EffectView::Query(crate::fabric::commands::table_list_cmd("o3k_public"@));
    let b = EffectView::Query(addr_show_cmd(p.uplink));
    let t1 = t.after(a);
    let t2 = t1.after(b);
    lemma_extends_after(t, a);
    lemma_extends_after(t1, b);
    lemma_extends_transitive(t, t1, t2);
    let exists = queried(t.reply(), io)->Ok_0.0;
    let listing = queried(t1.reply(), io)->Ok_0.1;
    let cs = withdraw_cmds(p.uplink, p.owned_addresses, wanted, listing);
    let t3 = run_all(t2, cs, failed, io).0;
    lemma_run_all_extends(t2, cs, failed, io);
    lemma_extends_transitive(t, t2, t3);
    let (p4, t4, r4) = record_run(p, bs, wanted, t3);
    let m = EffectView::StoreMarker;
    let s = EffectView::StoreAddresses(wanted);
    let x = EffectView::StoreBindings(bs);
    lemma_extends_after(t3, m);
    lemma_extends_after(t3.after(m), s);
    lemma_extends_after(t3.after(m).after(s), x);
    lemma_extends_transitive(t3, t3.after(m), t3.after(m).after(s));
    lemma_extends_transitive(t3, t3.after(m).after(s), t4);
    let d = EffectView::Run(crate::fabric::commands::table_del_cmd("o3k_public"@));
    lemma_extends_after(t4, d);
    lemma_extends_self(t4);
    let t5 = if exists {
        t4.after(d)
    } else {
        t4
    };
    lemma_extends_transitive(t3, t4, t5);
    lemma_extends_transitive(t, t3, t5);
    assert(realize_run(p, bs, t) == rebuild_run(p4, bs, wanted, listing, exists, t4));
    let table = translation_table_cmds(p.uplink, bs, wanted, listing);
    let u = run_all(t5, table, failed, io).0;
    lemma_run_all_extends(t5, table, failed, io);
    lemma_extends_transitive(t3, t5, u);
    lemma_extends_transitive(t2, t3, u);
    let k = t.issued.len() as int + 1;
    assert(u.issued[k] == u.issued.take(t2.issued.len() as int)[k]);
    assert(addr_show_cmd(p.uplink).args =~= seq!["-4"@, "addr"@, "show"@, "dev"@, p.uplink]);
    (listing, t2, t5)
}

/// Once public addresses are realized, each leads to the private address of its binding and back,
/// and is on the uplink: it was there, or it was added.
pub proof fn lemma_realized_addresses_lead(
    p: PublicAddressRealizerView,
    bs: Seq<OwnedBinding>,
    t: Trace,
    i: int,
)
    requires
        realize_run(p, bs, t).2 is Ok,
        0 <= i < bs.len(),
    ensures
        ({
            let u = realize_run(p, bs, t).1;
            &&& leads(t, u, p.uplink, bs[i].public_address, bs[i].private_address)
            &&& chains_made(t, u)
            &&& listed(t, u, p.uplink) matches Some(listing) && (is_present(
                listing,
                bs[i].public_address,
            ) || address_added(t, u, p.uplink, bs[i].public_address))
        }),
{
    let (listing, t2, t5) = lemma_realize_course(p, bs, t);
    let wanted = public_addresses(bs, bs.len() as int);
    lemma_public_addresses(bs, bs.len() as int);
    assert(wanted.contains(bs[i].public_address));
    lemma_chains(p.uplink, bs, wanted, listing, t, t5);
    lemma_rules_lead(p.uplink, bs, wanted, listing, t, t5, i);
    if !is_present(listing, bs[i].public_address) {
        lemma_added(p.uplink, bs, wanted, listing, t, t5, bs[i].public_address);
    }
}

proof fn lemma_rules_lead(
    uplink: Seq<char>,
    bs: Seq<OwnedBinding>,
    wanted: Seq<u32>,
    listing: Seq<char>,
    t: Trace,
    t5: Trace,
    i: int,
)
    requires
        0 <= i < bs.len(),
        extends(t, t5),
        run_all(
            t5,
            translation_table_cmds(uplink, bs, wanted, listing),
            PublicAddressError::ProviderCommandFailed,
            PublicAddressError::Storage,
        ).1 is Ok,
    ensures
        leads(
            t,
            run_all(
                t5,
                translation_table_cmds(uplink, bs, wanted, listing),
                PublicAddressError::ProviderCommandFailed,
                PublicAddressError::Storage,
            ).0,
            uplink,
            bs[i].public_address,
            bs[i].private_address,
        ),
{
    let failed = PublicAddressError::ProviderCommandFailed;
    let io = PublicAddressError::Storage;
    let table = translation_table_cmds(uplink, bs, wanted, listing);
    let n = provide_cmds(uplink, wanted, listing).len() as int;
    let u = run_all(t5, table, failed, io).0;
    let b = bs[i];
    lemma_rule_place(uplink, bs, i);
    let comment = crate::public_realization::owned_comment(b);
    let dnat = words_in(uplink, b.public_address, b.private_address, comment);
    let snat = words_out(uplink, b.private_address, b.public_address, comment);
    lemma_words(uplink, b);
    assert(table[n + 3 + 2 * i] == rule_cmds(uplink, bs)[2 * i]);
    assert(table[n + 3 + 2 * i + 1] == rule_cmds(uplink, bs)[2 * i + 1]);
    lemma_all_carried_out(t5, table, failed, io, n + 3 + 2 * i);
    lemma_all_carried_out(t5, table, failed, io, n + 3 + 2 * i + 1);
    lemma_earlier(t, t5, u, "nft"@, dnat);
    lemma_earlier(t, t5, u, "nft"@, snat);
}

proof fn lemma_words(uplink: Seq<char>, b: OwnedBinding)
    ensures
        ({
            let comment = crate::public_realization::owned_comment(b);
            &&& owned_dnat_cmd(uplink, b).program == "nft"@
            &&& owned_dnat_cmd(uplink, b).args == words_in(
                uplink,
                b.public_address,
                b.private_address,
                comment,
            )
            &&& owned_snat_cmd(uplink, b).program == "nft"@
            &&& owned_snat_cmd(uplink, b).args == words_out(
                uplink,
                b.private_address,
                b.public_address,
                comment,
            )
        }),
{
    let comment = crate::public_realization::owned_comment(b);
    assert(owned_dnat_cmd(uplink, b).args =~= words_in(
        uplink,
        b.public_address,
        b.private_address,
        comment,
    ));
    assert(owned_snat_cmd(uplink, b).args =~= words_out(
        uplink,
        b.private_address,
        b.public_address,
        comment,
    ));
}

proof fn lemma_added(
    uplink: Seq<char>,
    bs: Seq<OwnedBinding>,
    wanted: Seq<u32>,
    listing: Seq<char>,
    t: Trace,
    t5: Trace,
    a: u32,
)
    requires
        wanted.contains(a),
        !is_present(listing, a),
        extends(t, t5),
        run_all(
            t5,
            translation_table_cmds(uplink, bs, wanted, listing),
            PublicAddressError::ProviderCommandFailed,
            PublicAddressError::Storage,
        ).1 is Ok,
    ensures
        address_added(
            t,
            run_all(
                t5,
                translation_table_cmds(uplink, bs, wanted, listing),
                PublicAddressError::ProviderCommandFailed,
                PublicAddressError::Storage,
            ).0,
            uplink,
            a,
        ),
{
    let failed = PublicAddressError::ProviderCommandFailed;
    let io = PublicAddressError::Storage;
    let table = translation_table_cmds(uplink, bs, wanted, listing);
    let u = run_all(t5, table, failed, io).0;
    let k = lemma_provide_place(uplink, wanted, listing, a);
    assert(table[1 + k] == provide_cmds(uplink, wanted, listing)[k]);
    lemma_all_carried_out(t5, table, failed, io, 1 + k);
    lemma_earlier(
        t,
        t5,
        u,
        "ip"@,
        seq!["addr"@, "add"@, ipv4_text(a) + "/32"@, "dev"@, uplink],
    );
}

proof fn lemma_chains(
    uplink: Seq<char>,
    bs: Seq<OwnedBinding>,
    wanted: Seq<u32>,
    listing: Seq<char>,
    t: Trace,
    t5: Trace,
)
    requires
        extends(t, t5),
        run_all(
            t5,
            translation_table_cmds(uplink, bs, wanted, listing),
            PublicAddressError::ProviderCommandFailed,
            PublicAddressError::Storage,
        ).1 is Ok,
    ensures
        chains_made(
            t,
            run_all(
                t5,
                translation_table_cmds(uplink, bs, wanted, listing),
                PublicAddressError::ProviderCommandFailed,
                PublicAddressError::Storage,
            ).0,
        ),
{
    let failed = PublicAddressError::ProviderCommandFailed;
    let io = PublicAddressError::Storage;
    let table = translation_table_cmds(uplink, bs, wanted, listing);
    let n = provide_cmds(uplink, wanted, listing).len() as int;
    let u = run_all(t5, table, failed, io).0;
    let made = seq![
        "add"@,
        "table"@,
        "ip"@,
        "o3k_public"@,
        "{"@,
        "comment"@,
        "\"o3k-p9-public\""@,
        ";"@,
        "}"@,
    ];
    let pre = seq![
        "add"@,
        "chain"@,
        "ip"@,
        "o3k_public"@,
        "prerouting"@,
        "{"@,
        "type"@,
        "nat"@,
        "hook"@,
        "prerouting"@,
        "priority"@,
        "-100"@,
        ";"@,
        "policy"@,
        "accept"@,
        ";"@,
        "}"@,
    ];
    let post = seq![
        "add"@,
        "chain"@,
        "ip"@,
        "o3k_public"@,
        "postrouting"@,
        "{"@,
        "type"@,
        "nat"@,
        "hook"@,
        "postrouting"@,
        "priority"@,
        "100"@,
        ";"@,
        "policy"@,
        "accept"@,
        ";"@,
        "}"@,
    ];
    reveal_strlit("\"");
    reveal_strlit("o3k-p9-public");
    reveal_strlit("\"o3k-p9-public\"");
    assert("\""@ + "o3k-p9-public"@ + "\""@ =~= "\"o3k-p9-public\""@);
    assert(table[0].args =~= made);
    assert(table[n + 1].args =~= pre);
    assert(table[n + 2].args =~= post);
    lemma_all_carried_out(t5, table, failed, io, 0);
    lemma_all_carried_out(t5, table, failed, io, n + 1);
    lemma_all_carried_out(t5, table, failed, io, n + 2);
    lemma_earlier(t, t5, u, "nft"@, made);
    lemma_earlier(t, t5, u, "nft"@, pre);
    lemma_earlier(t, t5, u, "nft"@, post);
}

/// An address of the record that is no longer wanted is taken from the uplink where it is still
/// there.
pub proof fn lemma_unwanted_address_goes(
    p: PublicAddressRealizerView,
    bs: Seq<OwnedBinding>,
    t: Trace,
    a: u32,
)
    requires
        realize_run(p, bs, t).2 is Ok,
        bs.len() > 0,
        p.owned_addresses.contains(a),
        forall|i: int| 0 <= i < bs.len() ==> (#[trigger] bs[i]).public_address != a,
    ensures
        listed(t, realize_run(p, bs, t).1, p.uplink) matches Some(listing) && (is_present(listing, a)
            ==> address_removed(t, realize_run(p, bs, t).1, p.uplink, a)),
{
    let failed = PublicAddressError::ProviderCommandFailed;
    let io = PublicAddressError::Storage;
    let (listing, t2, t5) = lemma_realize_course(p, bs, t);
    let wanted = public_addresses(bs, bs.len() as int);
    lemma_public_addresses(bs, bs.len() as int);
    assert(!wanted.contains(a));
    let cs = withdraw_cmds(p.uplink, p.owned_addresses, wanted, listing);
    let table = translation_table_cmds(p.uplink, bs, wanted, listing);
    let t3 = run_all(t2, cs, failed, io).0;
    let u = realize_run(p, bs, t).1;
    if is_present(listing, a) {
        let k = lemma_withdraw_place(p.uplink, p.owned_addresses, wanted, listing, a);
        let words = seq!["addr"@, "del"@, ipv4_text(a) + "/32"@, "dev"@, p.uplink];
        lemma_all_carried_out(t2, cs, failed, io, k);
        lemma_run_all_extends(t5, table, failed, io);
        lemma_extends_transitive(t3, t5, u);
        lemma_later(t2, t3, u, "ip"@, words);
        lemma_earlier(t, t2, u, "ip"@, words);
    }
    assert(is_present(listing, a) ==> address_removed(t, u, p.uplink, a));
}

/// Whether an intent of a plan is the last to give an endpoint an address.
pub open spec fn gives(
    intents: Seq<NetworkPlanIntentView>,
    k: int,
    endpoint: u128,
    address: u32,
) -> bool {
    &&& 0 <= k < intents.len()
    &&& intents[k] matches NetworkPlanIntentView::AddressAssignment { endpoint_id, address: a, .. }
        && endpoint_id == endpoint && a == address
    &&& forall|j: int|
        k < j < intents.len() ==> !((
        #[trigger] intents[j]) matches NetworkPlanIntentView::AddressAssignment {
            endpoint_id: e,
            ..
        } && e == endpoint)
}

proof fn lemma_assigned(intents: Seq<NetworkPlanIntentView>, endpoint: u128, n: int) -> (k: int)
    requires
        0 <= n <= intents.len(),
        assigned(intents, endpoint, n) is Some,
        forall|j: int|
            n <= j < intents.len() ==> !((
            #[trigger] intents[j]) matches NetworkPlanIntentView::AddressAssignment {
                endpoint_id: e,
                ..
            } && e == endpoint),
    ensures
        gives(intents, k, endpoint, assigned(intents, endpoint, n)->Some_0),
    decreases n,
{
    match intents[n - 1] {
        NetworkPlanIntentView::AddressAssignment { endpoint_id, address, .. } => {
            if endpoint_id == endpoint {
                n - 1
            } else {
                lemma_assigned(intents, endpoint, n - 1)
            }
        },
        _ => lemma_assigned(intents, endpoint, n - 1),
    }
}

/// A binding that is among the bindings stays there while others of the plan are put.
proof fn lemma_merge_holds(
    bs: Seq<OwnedBinding>,
    realm: u128,
    intents: Seq<NetworkPlanIntentView>,
    i: int,
    b: OwnedBinding,
)
    requires
        0 <= i,
        bs.contains(b),
        b.realm_id == realm,
        assigned(intents, b.endpoint_id, intents.len() as int) == Some(b.private_address),
        merge_bindings(bs, realm, intents, i) is Ok,
        forall|x: int, y: int|
            0 <= x < bs.len() && 0 <= y < bs.len() && (#[trigger] bs[x]).realm_id == (
            #[trigger] bs[y]).realm_id && bs[x].endpoint_id == bs[y].endpoint_id ==> x == y,
    ensures
        merge_bindings(bs, realm, intents, i)->Ok_0.contains(b),
    decreases intents.len() - i,
{
    if i < intents.len() {
        match intents[i] {
            NetworkPlanIntentView::PublicAddressBinding(p) => {
                let private_address = assigned(intents, p.endpoint_id, intents.len() as int)->0;
                let x = OwnedBinding {
                    realm_id: realm,
                    endpoint_id: p.endpoint_id,
                    private_address,
                    public_address: p.public_address,
                };
                let more = put_binding(bs, x)->0;
                lemma_binding_place(bs, realm, p.endpoint_id, 0);
                let k = choose|k: int| 0 <= k < bs.len() && bs[k] == b;
                assert(more[k] == b);
                lemma_unique_put(bs, x);
                lemma_merge_holds(more, realm, intents, i + 1, b);
            },
            _ => {
                lemma_merge_holds(bs, realm, intents, i + 1, b);
            },
        }
    }
}

proof fn lemma_unique_put(bs: Seq<OwnedBinding>, b: OwnedBinding)
    requires
        put_binding(bs, b) is Some,
        forall|x: int, y: int|
            0 <= x < bs.len() && 0 <= y < bs.len() && (#[trigger] bs[x]).realm_id == (
            #[trigger] bs[y]).realm_id && bs[x].endpoint_id == bs[y].endpoint_id ==> x == y,
    ensures
        ({
            let more = put_binding(bs, b)->Some_0;
            &&& more.contains(b)
            &&& forall|x: int, y: int|
                0 <= x < more.len() && 0 <= y < more.len() && (#[trigger] more[x]).realm_id == (
                #[trigger] more[y]).realm_id && more[x].endpoint_id == more[y].endpoint_id ==> x
                    == y
        }),
{
    lemma_binding_place(bs, b.realm_id, b.endpoint_id, 0);
    let more = put_binding(bs, b)->Some_0;
    match crate::public_realization::binding_place(bs, b.realm_id, b.endpoint_id, 0) {
        Some(k) => {
            assert(more[k] == b);
        },
        None => {
            assert(more[more.len() - 1] == b);
        },
    }
}

proof fn lemma_merge_brings(
    bs: Seq<OwnedBinding>,
    realm: u128,
    intents: Seq<NetworkPlanIntentView>,
    i: int,
    j: int,
)
    requires
        0 <= i <= j < intents.len(),
        intents[j] is PublicAddressBinding,
        merge_bindings(bs, realm, intents, i) is Ok,
        forall|x: int, y: int|
            0 <= x < bs.len() && 0 <= y < bs.len() && (#[trigger] bs[x]).realm_id == (
            #[trigger] bs[y]).realm_id && bs[x].endpoint_id == bs[y].endpoint_id ==> x == y,
    ensures
        ({
            let asked = intents[j]->PublicAddressBinding_0;
            &&& assigned(intents, asked.endpoint_id, intents.len() as int) is Some
            &&& merge_bindings(bs, realm, intents, i)->Ok_0.contains(
                OwnedBinding {
                    realm_id: realm,
                    endpoint_id: asked.endpoint_id,
                    private_address: assigned(
                        intents,
                        asked.endpoint_id,
                        intents.len() as int,
                    )->Some_0,
                    public_address: asked.public_address,
                },
            )
        }),
    decreases intents.len() - i,
{
    match intents[i] {
        NetworkPlanIntentView::PublicAddressBinding(p) => {
            let x = OwnedBinding {
                realm_id: realm,
                endpoint_id: p.endpoint_id,
                private_address: assigned(intents, p.endpoint_id, intents.len() as int)->0,
                public_address: p.public_address,
            };
            let more = put_binding(bs, x)->0;
            lemma_unique_put(bs, x);
            if i == j {
                lemma_merge_holds(more, realm, intents, i + 1, x);
            } else {
                lemma_merge_brings(more, realm, intents, i + 1, j);
            }
        },
        _ => {
            lemma_merge_brings(bs, realm, intents, i + 1, j);
        },
    }
}

/// Once the public addresses of a plan are realized, each public address that the plan binds leads
/// to the address that the plan gives the endpoint, and back, and is recorded with it.
pub proof fn lemma_applied_addresses_lead_to_endpoints(
    p: PublicAddressRealizerView,
    intents: Seq<NetworkPlanIntentView>,
    t: Trace,
    i: int,
)
    requires
        apply_run(p, intents, t).2 is Ok,
        crate::public_realization::bindings_sound(p.owned_bindings),
        0 <= i < intents.len(),
        intents[i] is PublicAddressBinding,
    ensures
        ({
            let asked = intents[i]->PublicAddressBinding_0;
            let (p1, u, r) = apply_run(p, intents, t);
            exists|k: int, private: u32|
                #![trigger gives(intents, k, asked.endpoint_id, private)]
                gives(intents, k, asked.endpoint_id, private) && leads(
                    t,
                    u,
                    p.uplink,
                    asked.public_address,
                    private,
                ) && exists|n: int|
                    0 <= n < p1.owned_bindings.len() && (#[trigger] p1.owned_bindings[n]).endpoint_id
                        == asked.endpoint_id && p1.owned_bindings[n].public_address
                        == asked.public_address && p1.owned_bindings[n].private_address == private
        }),
{
    let asked = intents[i]->PublicAddressBinding_0;
    assert(crate::public_realization::is_binding(intents, i));
    let realm = plan_realm(intents)->Some_0;
    let bs = merge_bindings(p.owned_bindings, realm, intents, 0)->Ok_0;
    lemma_merge_brings(p.owned_bindings, realm, intents, 0, i);
    let private = assigned(intents, asked.endpoint_id, intents.len() as int)->Some_0;
    let b = OwnedBinding {
        realm_id: realm,
        endpoint_id: asked.endpoint_id,
        private_address: private,
        public_address: asked.public_address,
    };
    let n = choose|n: int| 0 <= n < bs.len() && bs[n] == b;
    lemma_realized_addresses_lead(p, bs, t, n);
    lemma_realized(p, bs, t);
    let k = lemma_assigned(intents, asked.endpoint_id, intents.len() as int);
    assert(gives(intents, k, asked.endpoint_id, private));
    assert(apply_run(p, intents, t).0.owned_bindings[n].endpoint_id == asked.endpoint_id);
}

/// The words that list or remove the table of the public addresses.
pub open spec fn table_words(op: Seq<char>) -> Seq<Seq<char>> {
    seq![op, "table"@, "ip"@, "o3k_public"@]
}

/// Whether no public address is realized any more: the table is gone, every recorded address that
/// the host listed on the uplink was taken from it, and nothing is recorded.
pub open spec fn all_is_taken_back(
    t: Trace,
    u: Trace,
    p: PublicAddressRealizerView,
    p1: PublicAddressRealizerView,
) -> bool {
    &&& was_missing(t, u, "nft"@, table_words("list"@)) || carried_out(
        t,
        u,
        "nft"@,
        table_words("delete"@),
    )
    &&& exists|listing: Seq<char>|
        #![trigger address_listing(t, u, p.uplink, listing)]
        address_listing(t, u, p.uplink, listing) && forall|a: u32| #[trigger]
            p.owned_addresses.contains(a) && is_present(listing, a) ==> address_removed(
                t,
                u,
                p.uplink,
                a,
            )
    &&& !p1.owned && p1.owned_addresses.len() == 0 && p1.owned_bindings.len() == 0 && p1.uplink
        == p.uplink
}

/// Whether the host listed the addresses of a link.
pub open spec fn address_listing(
    t: Trace,
    u: Trace,
    uplink: Seq<char>,
    listing: Seq<char>,
) -> bool {
    told(t, u, "ip"@, seq!["-4"@, "addr"@, "show"@, "dev"@, uplink], true, listing)
}

/// Once the public addresses are removed, all is taken back.
pub proof fn lemma_all_is_taken_back(
    p: PublicAddressRealizerView,
    marked: bool,
    t: Trace,
    p1: PublicAddressRealizerView,
    u: Trace,
)
    requires
        p.owned || marked,
        remove_run(p, marked, t) == (p1, u, Ok::<(), Stop<PublicAddressError>>(())),
    ensures
        all_is_taken_back(t, u, p, p1),
{
    let failed = PublicAddressError::ProviderCommandFailed;
    let io = PublicAddressError::Storage;
    let a = table_list_cmd("o3k_public"@);
    let d = table_del_cmd("o3k_public"@);
    let ta = t.after(EffectView::Query(a));
    let t1 = drop_table_run(t).0;
    let (found, text) = queried(t.reply(), io)->Ok_0;
    lemma_extends_after(t, EffectView::Query(a));
    lemma_extends_after(ta, EffectView::Run(d));
    lemma_extends_transitive(t, ta, ta.after(EffectView::Run(d)));
    let c = addr_show_cmd(p.uplink);
    let t2 = t1.after(EffectView::Query(c));
    lemma_extends_after(t1, EffectView::Query(c));
    lemma_extends_transitive(t, t1, t2);
    let (shown, listing) = queried(t1.reply(), io)->Ok_0;
    let none = Seq::<u32>::empty();
    let cs = withdraw_cmds(p.uplink, p.owned_addresses, none, listing);
    let t3 = run_all(t2, cs, failed, io).0;
    lemma_run_all_extends(t2, cs, failed, io);
    lemma_extends_after(t3, EffectView::RemoveRecords);
    lemma_extends_transitive(t2, t3, u);
    lemma_extends_transitive(t1, t2, u);
    let words = seq!["-4"@, "addr"@, "show"@, "dev"@, p.uplink];
    lemma_told(t, t1, c, shown, listing, u, words);
    assert(address_listing(t, u, p.uplink, listing));
    if found {
        let gone = table_words("delete"@);
        assert(d.args =~= gone);
        lemma_one_carried_out(ta, d, failed, io);
        lemma_later(ta, t1, u, "nft"@, gone);
        lemma_earlier(t, ta, u, "nft"@, gone);
    } else {
        let asked = table_words("list"@);
        lemma_extends_self(t);
        lemma_extends_transitive(t, t1, u);
        lemma_told(t, t, a, found, text, u, asked);
        assert(told(t, u, "nft"@, asked, false, text));
    }
    assert forall|x: u32| #[trigger]
        p.owned_addresses.contains(x) && is_present(listing, x) implies address_removed(
        t,
        u,
        p.uplink,
        x,
    ) by {
        let k = lemma_withdraw_place(p.uplink, p.owned_addresses, none, listing, x);
        lemma_done(
            t,
            t2,
            cs,
            failed,
            io,
            u,
            k,
            seq!["addr"@, "del"@, ipv4_text(x) + "/32"@, "dev"@, p.uplink],
        );
    }
}

} // verus!
