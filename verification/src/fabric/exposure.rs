//! How the endpoints of a realm are reached from outside: what was carried out once the public
//! addresses of a plan are realized.
use super::backend::LinuxFabricBackendView;
use super::commands::{
    chain_add_cmd, dnat_rule_cmd, link_show_cmd, mark_rule_cmd, neigh_proxy_cmd, ns_chain_add_cmd,
    ns_link_show_cmd, ns_table_list_cmd, route_in_table_cmd, rule_list_cmd, snat_rule_cmd,
    table_list_cmd,
};
use super::config::{LinuxFabricConfigView, LinuxFabricError};
use super::course::{
    lemma_and_then, lemma_lists, lemma_runs, lemma_stage_succeeds, lemma_transit_extends,
};
use super::laws::lemma_stages_sorted;
use super::lifecycle::{apply_run, stages, stages_run, Stage};
use super::naming::{provider_name_text, public_mark_of, public_route_table_of, transit_base};
use super::plan::{locate, EndpointLocationView, NamespacedRoutedFabricPlanView};
use super::public::{
    binding_comment, binding_route_cmds, binding_valid, bindings_valid, build_public_run,
    ensure_public_run, ensure_public_veth_run, mark_cmds, public_clear_cmds,
    public_fingerprint_text, public_route_cmds, public_table_cmds, realize_public_run,
    realm_table_cmds, root_table_cmds, run_lists, transit_link_cmds, translation_cmds, with_public,
    PublicFound,
};
use super::reach::in_namespace;
use super::state::{ProviderStateView, RealmOwnership, RealmOwnershipView};
use crate::domain::PublicAddressBindingIntentView;
use crate::ipv4::ipv4_text;
use crate::json::quoted;
use crate::reading::{
    carried_out, lemma_done, lemma_extends_self, lemma_told, told, was_found, was_listed,
};
use crate::render::decimal;
use crate::session::{
    extends, lemma_extends_transitive, queried, run_all, CommandView, EffectView, Stop, Trace,
};
use crate::table::{id_sorted, lemma_id_put_get, lemma_id_slot};
use crate::text::contains;
use vstd::prelude::*;

verus! {

/// The words that send the packets to a public address into the realm: they are marked where they
/// come in.
#[verifier::opaque]
pub open spec fn mark_words(
    root: Seq<char>,
    uplink: Seq<char>,
    public: u32,
    mark: u32,
    comment: Seq<char>,
) -> Seq<Seq<char>> {
    seq![
        "add"@,
        "rule"@,
        "ip"@,
        root,
        "prerouting"@,
        "iifname"@,
        uplink,
        "ip"@,
        "daddr"@,
        ipv4_text(public),
        "meta"@,
        "mark"@,
        "set"@,
        decimal(mark as nat),
        "comment"@,
        comment,
    ]
}

/// The words that route a public address to the realm, in the table of the realm.
#[verifier::opaque]
pub open spec fn public_route_words(
    table: u32,
    public: u32,
    inner_end: u32,
    dev: Seq<char>,
) -> Seq<Seq<char>> {
    seq![
        "route"@,
        "replace"@,
        "table"@,
        decimal(table as nat),
        ipv4_text(public) + "/32"@,
        "via"@,
        ipv4_text(inner_end),
        "dev"@,
        dev,
    ]
}

/// The words that answer for a public address on the uplink.
#[verifier::opaque]
pub open spec fn answer_words(public: u32, uplink: Seq<char>) -> Seq<Seq<char>> {
    seq!["neigh"@, "replace"@, "proxy"@, ipv4_text(public), "dev"@, uplink]
}

/// The words that hand a packet to a public address on to a private one.
#[verifier::opaque]
pub open spec fn inward_words(
    ns: Seq<char>,
    inner: Seq<char>,
    public: u32,
    private: u32,
    comment: Seq<char>,
) -> Seq<Seq<char>> {
    in_namespace(
        ns,
        seq![
            "nft"@,
            "add"@,
            "rule"@,
            "ip"@,
            inner,
            "prerouting"@,
            "ip"@,
            "daddr"@,
            ipv4_text(public),
            "dnat"@,
            "to"@,
            ipv4_text(private),
            "comment"@,
            comment,
        ],
    )
}

/// The words that let a packet from a private address leave as one from a public address.
#[verifier::opaque]
pub open spec fn outward_words(
    ns: Seq<char>,
    inner: Seq<char>,
    dev: Seq<char>,
    public: u32,
    private: u32,
    comment: Seq<char>,
) -> Seq<Seq<char>> {
    in_namespace(
        ns,
        seq![
            "nft"@,
            "add"@,
            "rule"@,
            "ip"@,
            inner,
            "postrouting"@,
            "oifname"@,
            dev,
            "ip"@,
            "saddr"@,
            ipv4_text(private),
            "snat"@,
            "to"@,
            ipv4_text(public),
            "comment"@,
            comment,
        ],
    )
}

/// The words that make a chain of a table.
#[verifier::opaque]
pub open spec fn chain_words(
    table: Seq<char>,
    chain: Seq<char>,
    kind: Seq<char>,
    priority: Seq<char>,
) -> Seq<Seq<char>> {
    seq![
        "add"@,
        "chain"@,
        "ip"@,
        table,
        chain,
        "{"@,
        "type"@,
        kind,
        "hook"@,
        chain,
        "priority"@,
        priority,
        ";"@,
        "policy"@,
        "accept"@,
        ";"@,
        "}"@,
    ]
}

/// Whether one public address leads to a private one and back: its packets are marked where they
/// come in, routed by the recorded table to the realm, and translated there in both directions.
pub open spec fn exposed(
    t: Trace,
    u: Trace,
    own: RealmOwnershipView,
    uplink: Seq<char>,
    base: u32,
    b: PublicAddressBindingIntentView,
    private: u32,
) -> bool {
    let root = provider_name_text("u"@, own.realm_id, "public"@);
    let inner = provider_name_text("n"@, own.realm_id, "public"@);
    let comment = binding_comment(own.realm_id, b.endpoint_id);
    &&& carried_out(
        t,
        u,
        "nft"@,
        mark_words(root, uplink, b.public_address, own.public_mark, comment),
    )
    &&& carried_out(
        t,
        u,
        "ip"@,
        public_route_words(
            own.public_route_table,
            b.public_address,
            (base + 2) as u32,
            own.public_host_veth,
        ),
    )
    &&& carried_out(t, u, "ip"@, answer_words(b.public_address, uplink))
    &&& carried_out(
        t,
        u,
        "ip"@,
        inward_words(own.namespace, inner, b.public_address, private, comment),
    )
    &&& carried_out(
        t,
        u,
        "ip"@,
        outward_words(
            own.namespace,
            inner,
            own.public_realm_veth,
            b.public_address,
            private,
            comment,
        ),
    )
}

/// Whether the link between the host and the realm has its two addresses, the realm leaves by it,
/// and the host forwards and answers on the uplink.
pub open spec fn transit_stands(
    t: Trace,
    u: Trace,
    own: RealmOwnershipView,
    uplink: Seq<char>,
    base: u32,
) -> bool {
    let near = ipv4_text((base + 1) as u32);
    let far = ipv4_text((base + 2) as u32);
    let ns = own.namespace;
    &&& base % 4 == 0
    &&& 0x6440_0000 <= base < 0x6480_0000
    &&& carried_out(
        t,
        u,
        "ip"@,
        seq!["addr"@, "replace"@, near + "/30"@, "dev"@, own.public_host_veth],
    )
    &&& carried_out(
        t,
        u,
        "ip"@,
        in_namespace(
            ns,
            seq!["ip"@, "addr"@, "replace"@, far + "/30"@, "dev"@, own.public_realm_veth],
        ),
    )
    &&& carried_out(
        t,
        u,
        "ip"@,
        in_namespace(
            ns,
            seq![
                "ip"@,
                "route"@,
                "replace"@,
                "default"@,
                "via"@,
                near,
                "dev"@,
                own.public_realm_veth,
            ],
        ),
    )
    &&& carried_out(t, u, "sysctl"@, seq!["-w"@, "net.ipv4.ip_forward=1"@])
    &&& carried_out(
        t,
        u,
        "sysctl"@,
        seq!["-w"@, "net.ipv4.conf."@ + uplink + ".proxy_arp=1"@],
    )
}

/// Whether the two ends of the link were there, or were made, handed out and started.
pub open spec fn transit_is_there(t: Trace, u: Trace, own: RealmOwnershipView) -> bool {
    let near = own.public_host_veth;
    let far = own.public_realm_veth;
    let ns = own.namespace;
    ||| {
        &&& was_found(t, u, "ip"@, seq!["link"@, "show"@, "dev"@, near])
        &&& was_found(t, u, "ip"@, in_namespace(ns, seq!["ip"@, "link"@, "show"@, "dev"@, far]))
    }
    ||| {
        &&& carried_out(
            t,
            u,
            "ip"@,
            seq!["link"@, "add"@, near, "type"@, "veth"@, "peer"@, "name"@, far],
        )
        &&& carried_out(t, u, "ip"@, seq!["link"@, "set"@, far, "netns"@, ns])
        &&& carried_out(t, u, "ip"@, seq!["link"@, "set"@, "dev"@, near, "up"@])
        &&& carried_out(
            t,
            u,
            "ip"@,
            in_namespace(ns, seq!["ip"@, "link"@, "set"@, "dev"@, far, "up"@]),
        )
    }
}

/// Whether marked packets are routed by the recorded table: the host said so, or was made to.
pub open spec fn marked_is_routed(t: Trace, u: Trace, own: RealmOwnershipView) -> bool {
    let mark = decimal(own.public_mark as nat);
    let table = decimal(own.public_route_table as nat);
    ||| was_listed(
        t,
        u,
        "ip"@,
        seq!["rule"@, "list"@],
        "fwmark "@ + mark + " lookup "@ + table,
    )
    ||| carried_out(t, u, "ip"@, seq!["rule"@, "add"@, "fwmark"@, mark, "table"@, table])
}

/// Whether the two tables were made with their chains.
pub open spec fn public_tables_stand(t: Trace, u: Trace, own: RealmOwnershipView) -> bool {
    let root = provider_name_text("u"@, own.realm_id, "public"@);
    let inner = provider_name_text("n"@, own.realm_id, "public"@);
    let marker = quoted("o3k-p11-public"@ + ":"@ + own.public_fingerprint);
    let words = seq!["{"@, "comment"@, marker, ";"@, "}"@];
    &&& carried_out(t, u, "nft"@, seq!["add"@, "table"@, "ip"@, root] + words)
    &&& carried_out(t, u, "nft"@, chain_words(root, "prerouting"@, "filter"@, "-150"@))
    &&& carried_out(
        t,
        u,
        "ip"@,
        in_namespace(own.namespace, seq!["nft"@, "add"@, "table"@, "ip"@, inner] + words),
    )
    &&& carried_out(
        t,
        u,
        "ip"@,
        in_namespace(
            own.namespace,
            seq!["nft"@] + chain_words(inner, "prerouting"@, "nat"@, "-100"@),
        ),
    )
    &&& carried_out(
        t,
        u,
        "ip"@,
        in_namespace(
            own.namespace,
            seq!["nft"@] + chain_words(inner, "postrouting"@, "nat"@, "100"@),
        ),
    )
}

proof fn lemma_list_done(
    t: Trace,
    u: Trace,
    lists: Seq<Seq<CommandView>>,
    v: Trace,
    j: int,
    i: int,
    args: Seq<Seq<char>>,
)
    requires
        extends(t, u),
        run_lists(u, lists).1 is Ok,
        extends(run_lists(u, lists).0, v),
        0 <= j < lists.len(),
        0 <= i < lists[j].len(),
        lists[j][i].args =~= args,
    ensures
        carried_out(t, v, lists[j][i].program, args),
    decreases lists.len(),
{
    let failed = LinuxFabricError::CommandFailed;
    let io = LinuxFabricError::Storage;
    let w = run_lists(u, lists.drop_last()).0;
    if j == lists.len() - 1 {
        lemma_lists(t, u, lists.drop_last());
        lemma_done(t, w, lists.last(), failed, io, v, i, args);
    } else {
        lemma_extends_self(w);
        lemma_runs(w, w, lists.last());
        lemma_extends_transitive(w, run_lists(u, lists).0, v);
        lemma_list_done(t, u, lists.drop_last(), v, j, i, args);
    }
}

proof fn lemma_words_of_routing(
    table: u32,
    public: u32,
    far: u32,
    dev: Seq<char>,
    uplink: Seq<char>,
    root: Seq<char>,
    mark: u32,
    comment: Seq<char>,
)
    ensures
        route_in_table_cmd(
            decimal(table as nat),
            ipv4_text(public) + "/32"@,
            ipv4_text(far),
            dev,
        ).args == public_route_words(table, public, far, dev),
        neigh_proxy_cmd(ipv4_text(public), uplink).args == answer_words(public, uplink),
        mark_rule_cmd(
            root,
            uplink,
            ipv4_text(public),
            decimal(mark as nat),
            comment,
        ).args == mark_words(root, uplink, public, mark, comment),
{
    reveal(public_route_words);
    reveal(answer_words);
    reveal(mark_words);
    assert(route_in_table_cmd(
        decimal(table as nat),
        ipv4_text(public) + "/32"@,
        ipv4_text(far),
        dev,
    ).args =~= public_route_words(table, public, far, dev));
    assert(neigh_proxy_cmd(ipv4_text(public), uplink).args =~= answer_words(public, uplink));
    assert(mark_rule_cmd(
        root,
        uplink,
        ipv4_text(public),
        decimal(mark as nat),
        comment,
    ).args =~= mark_words(root, uplink, public, mark, comment));
}

proof fn lemma_words_of_translation(
    ns: Seq<char>,
    inner: Seq<char>,
    dev: Seq<char>,
    public: u32,
    private: u32,
    comment: Seq<char>,
)
    ensures
        dnat_rule_cmd(ns, inner, ipv4_text(public), ipv4_text(private), comment).args
            == inward_words(ns, inner, public, private, comment),
        snat_rule_cmd(ns, inner, dev, ipv4_text(private), ipv4_text(public), comment).args
            == outward_words(ns, inner, dev, public, private, comment),
{
    reveal(inward_words);
    reveal(outward_words);
    assert(dnat_rule_cmd(ns, inner, ipv4_text(public), ipv4_text(private), comment).args
        =~= inward_words(ns, inner, public, private, comment));
    assert(snat_rule_cmd(ns, inner, dev, ipv4_text(private), ipv4_text(public), comment).args
        =~= outward_words(ns, inner, dev, public, private, comment));
}

proof fn lemma_words_of_chains(ns: Seq<char>, table: Seq<char>, chain: Seq<char>, kind: Seq<char>, priority: Seq<char>)
    ensures
        chain_add_cmd(table, chain, kind, priority).args == chain_words(
            table,
            chain,
            kind,
            priority,
        ),
        ns_chain_add_cmd(ns, table, chain, kind, priority).args == in_namespace(
            ns,
            seq!["nft"@] + chain_words(table, chain, kind, priority),
        ),
{
    reveal(chain_words);
    assert(chain_add_cmd(table, chain, kind, priority).args =~= chain_words(
        table,
        chain,
        kind,
        priority,
    ));
    assert(ns_chain_add_cmd(ns, table, chain, kind, priority).args =~= in_namespace(
        ns,
        seq!["nft"@] + chain_words(table, chain, kind, priority),
    ));
}

proof fn lemma_binding_routes(
    own: RealmOwnershipView,
    uplink: Seq<char>,
    realm_id: u128,
    bs: Seq<PublicAddressBindingIntentView>,
    i: int,
)
    requires
        0 <= i < bs.len(),
    ensures
        ({
            let cs = binding_route_cmds(own, uplink, realm_id, bs);
            let p = ipv4_text(bs[i].public_address);
            &&& cs.len() == 2 * bs.len()
            &&& cs[2 * i] == route_in_table_cmd(
                decimal(public_route_table_of(realm_id) as nat),
                p + "/32"@,
                ipv4_text((transit_base(realm_id) + 2) as u32),
                own.public_host_veth,
            )
            &&& cs[2 * i + 1] == neigh_proxy_cmd(p, uplink)
        }),
    decreases bs.len(),
{
    if bs.len() == 1 {
        assert(bs.drop_last() =~= Seq::<PublicAddressBindingIntentView>::empty());
        assert(binding_route_cmds(own, uplink, realm_id, bs.drop_last()).len() == 0);
    } else {
        lemma_binding_routes(
            own,
            uplink,
            realm_id,
            bs.drop_last(),
            if i == bs.len() - 1 {
                0
            } else {
                i
            },
        );
    }
}

proof fn lemma_translations(
    own: RealmOwnershipView,
    realm_id: u128,
    bs: Seq<PublicAddressBindingIntentView>,
    entries: Seq<EndpointLocationView>,
    i: int,
)
    requires
        0 <= i < bs.len(),
        locate(entries, bs[i].endpoint_id) is Some,
    ensures
        ({
            let cs = translation_cmds(own, realm_id, bs, entries);
            let inner = provider_name_text("n"@, realm_id, "public"@);
            let comment = binding_comment(realm_id, bs[i].endpoint_id);
            let public = ipv4_text(bs[i].public_address);
            let private = ipv4_text(locate(entries, bs[i].endpoint_id)->Some_0.fixed_ip);
            &&& cs.len() == 2 * bs.len()
            &&& cs[2 * i] == dnat_rule_cmd(own.namespace, inner, public, private, comment)
            &&& cs[2 * i + 1] == snat_rule_cmd(
                own.namespace,
                inner,
                own.public_realm_veth,
                private,
                public,
                comment,
            )
        }),
    decreases bs.len(),
{
    lemma_translations_len(own, realm_id, bs.drop_last(), entries);
    if i < bs.len() - 1 {
        lemma_translations(own, realm_id, bs.drop_last(), entries, i);
    }
}

proof fn lemma_translations_len(
    own: RealmOwnershipView,
    realm_id: u128,
    bs: Seq<PublicAddressBindingIntentView>,
    entries: Seq<EndpointLocationView>,
)
    ensures
        translation_cmds(own, realm_id, bs, entries).len() == 2 * bs.len(),
    decreases bs.len(),
{
    if bs.len() > 0 {
        lemma_translations_len(own, realm_id, bs.drop_last(), entries);
    }
}

proof fn lemma_transit_is_there(
    t: Trace,
    t1: Trace,
    own: RealmOwnershipView,
    v: Trace,
)
    requires
        extends(t, t1),
        ensure_public_veth_run(own, t1).1 is Ok,
        extends(ensure_public_veth_run(own, t1).0, v),
    ensures
        transit_is_there(t, v, own),
{
    let failed = LinuxFabricError::CommandFailed;
    let io = LinuxFabricError::Storage;
    let near = own.public_host_veth;
    let far = own.public_realm_veth;
    let ns = own.namespace;
    let a = link_show_cmd(near);
    let b = ns_link_show_cmd(ns, far);
    let t2 = t1.after(EffectView::Query(a));
    let t3 = t2.after(EffectView::Query(b));
    lemma_and_then(t, t1, EffectView::Query(a));
    lemma_and_then(t, t2, EffectView::Query(b));
    let (found, text) = queried(t1.reply(), io)->Ok_0;
    let (found1, text1) = queried(t2.reply(), io)->Ok_0;
    let cs = transit_link_cmds(own);
    lemma_extends_self(t2);
    lemma_extends_self(t3);
    lemma_and_then(t2, t2, EffectView::Query(b));
    let w = ensure_public_veth_run(own, t1).0;
    if found {
        lemma_extends_transitive(t2, t3, v);
        let words = seq!["link"@, "show"@, "dev"@, near];
        let words1 = in_namespace(ns, seq!["ip"@, "link"@, "show"@, "dev"@, far]);
        lemma_told(t, t1, a, found, text, v, words);
        lemma_told(t, t2, b, found1, text1, v, words1);
        assert(was_found(t, v, "ip"@, words));
        assert(was_found(t, v, "ip"@, words1));
    } else {
        lemma_done(
            t,
            t3,
            cs,
            failed,
            io,
            v,
            0,
            seq!["link"@, "add"@, near, "type"@, "veth"@, "peer"@, "name"@, far],
        );
        lemma_done(t, t3, cs, failed, io, v, 1, seq!["link"@, "set"@, far, "netns"@, ns]);
        lemma_done(t, t3, cs, failed, io, v, 2, seq!["link"@, "set"@, "dev"@, near, "up"@]);
        lemma_done(
            t,
            t3,
            cs,
            failed,
            io,
            v,
            3,
            in_namespace(ns, seq!["ip"@, "link"@, "set"@, "dev"@, far, "up"@]),
        );
    }
}

proof fn lemma_transit_stands(
    t: Trace,
    t1: Trace,
    own: RealmOwnershipView,
    uplink: Seq<char>,
    plan: NamespacedRoutedFabricPlanView,
    v: Trace,
)
    requires
        extends(t, t1),
        run_all(
            t1,
            public_route_cmds(own, uplink, plan),
            LinuxFabricError::CommandFailed,
            LinuxFabricError::Storage,
        ).1 is Ok,
        extends(
            run_all(
                t1,
                public_route_cmds(own, uplink, plan),
                LinuxFabricError::CommandFailed,
                LinuxFabricError::Storage,
            ).0,
            v,
        ),
        plan.public_bindings.len() > 0,
    ensures
        transit_stands(t, v, own, uplink, transit_base(plan.realm_id) as u32),
{
    let failed = LinuxFabricError::CommandFailed;
    let io = LinuxFabricError::Storage;
    let cs = public_route_cmds(own, uplink, plan);
    let base = transit_base(plan.realm_id);
    assert(0x6440_0000 <= base < 0x6440_0000 + 64_000 && base % 4 == 0);
    let near = ipv4_text((base + 1) as u32);
    let far = ipv4_text((base + 2) as u32);
    let ns = own.namespace;
    lemma_binding_routes(own, uplink, plan.realm_id, plan.public_bindings, 0);
    let n = cs.len() as int;
    lemma_done(
        t,
        t1,
        cs,
        failed,
        io,
        v,
        0,
        seq!["addr"@, "replace"@, near + "/30"@, "dev"@, own.public_host_veth],
    );
    lemma_done(
        t,
        t1,
        cs,
        failed,
        io,
        v,
        1,
        in_namespace(
            ns,
            seq!["ip"@, "addr"@, "replace"@, far + "/30"@, "dev"@, own.public_realm_veth],
        ),
    );
    lemma_done(
        t,
        t1,
        cs,
        failed,
        io,
        v,
        2,
        in_namespace(
            ns,
            seq![
                "ip"@,
                "route"@,
                "replace"@,
                "default"@,
                "via"@,
                near,
                "dev"@,
                own.public_realm_veth,
            ],
        ),
    );
    lemma_done(t, t1, cs, failed, io, v, n - 2, seq!["-w"@, "net.ipv4.ip_forward=1"@]);
    lemma_done(
        t,
        t1,
        cs,
        failed,
        io,
        v,
        n - 1,
        seq!["-w"@, "net.ipv4.conf."@ + uplink + ".proxy_arp=1"@],
    );
}

proof fn lemma_tables_stand(
    t: Trace,
    t1: Trace,
    own: RealmOwnershipView,
    uplink: Seq<char>,
    plan: NamespacedRoutedFabricPlanView,
    found: PublicFound,
    v: Trace,
)
    requires
        extends(t, t1),
        own.realm_id == plan.realm_id,
        own.public_fingerprint == public_fingerprint_text(plan),
        run_lists(t1, public_table_cmds(own, uplink, plan, found)).1 is Ok,
        extends(run_lists(t1, public_table_cmds(own, uplink, plan, found)).0, v),
    ensures
        public_tables_stand(t, v, own),
{
    let lists = public_table_cmds(own, uplink, plan, found);
    let root = provider_name_text("u"@, own.realm_id, "public"@);
    let inner = provider_name_text("n"@, own.realm_id, "public"@);
    let marker = quoted("o3k-p11-public"@ + ":"@ + own.public_fingerprint);
    let words = seq!["{"@, "comment"@, marker, ";"@, "}"@];
    let ns = own.namespace;
    lemma_words_of_chains(ns, root, "prerouting"@, "filter"@, "-150"@);
    lemma_words_of_chains(ns, inner, "prerouting"@, "nat"@, "-100"@);
    lemma_words_of_chains(ns, inner, "postrouting"@, "nat"@, "100"@);
    assert(lists[1] == root_table_cmds(plan));
    assert(lists[3] == realm_table_cmds(own, plan));
    lemma_list_done(t, t1, lists, v, 1, 0, seq!["add"@, "table"@, "ip"@, root] + words);
    lemma_list_done(
        t,
        t1,
        lists,
        v,
        1,
        1,
        chain_words(root, "prerouting"@, "filter"@, "-150"@),
    );
    lemma_list_done(
        t,
        t1,
        lists,
        v,
        3,
        0,
        in_namespace(own.namespace, seq!["nft"@, "add"@, "table"@, "ip"@, inner] + words),
    );
    lemma_list_done(
        t,
        t1,
        lists,
        v,
        3,
        1,
        in_namespace(
            own.namespace,
            seq!["nft"@] + chain_words(inner, "prerouting"@, "nat"@, "-100"@),
        ),
    );
    lemma_list_done(
        t,
        t1,
        lists,
        v,
        3,
        2,
        in_namespace(
            own.namespace,
            seq!["nft"@] + chain_words(inner, "postrouting"@, "nat"@, "100"@),
        ),
    );
}

proof fn lemma_one_exposed(
    t: Trace,
    t1: Trace,
    t2: Trace,
    own: RealmOwnershipView,
    uplink: Seq<char>,
    plan: NamespacedRoutedFabricPlanView,
    found: PublicFound,
    v: Trace,
    i: int,
)
    requires
        extends(t, t1),
        extends(t, t2),
        own.realm_id == plan.realm_id,
        own.public_mark == public_mark_of(plan.realm_id),
        own.public_route_table == public_route_table_of(plan.realm_id),
        0 <= i < plan.public_bindings.len(),
        binding_valid(plan.public_bindings, plan.directory.entries, i),
        run_all(
            t1,
            public_route_cmds(own, uplink, plan),
            LinuxFabricError::CommandFailed,
            LinuxFabricError::Storage,
        ).1 is Ok,
        extends(
            run_all(
                t1,
                public_route_cmds(own, uplink, plan),
                LinuxFabricError::CommandFailed,
                LinuxFabricError::Storage,
            ).0,
            v,
        ),
        run_lists(t2, public_table_cmds(own, uplink, plan, found)).1 is Ok,
        extends(run_lists(t2, public_table_cmds(own, uplink, plan, found)).0, v),
    ensures
        exposed(
            t,
            v,
            own,
            uplink,
            transit_base(plan.realm_id) as u32,
            plan.public_bindings[i],
            locate(
                plan.directory.entries,
                plan.public_bindings[i].endpoint_id,
            )->Some_0.fixed_ip,
        ),
{
    let failed = LinuxFabricError::CommandFailed;
    let io = LinuxFabricError::Storage;
    let bs = plan.public_bindings;
    let b = bs[i];
    let entries = plan.directory.entries;
    let private = locate(entries, b.endpoint_id)->Some_0.fixed_ip;
    let cs = public_route_cmds(own, uplink, plan);
    let lists = public_table_cmds(own, uplink, plan, found);
    let base = transit_base(plan.realm_id);
    assert(0x6440_0000 <= base < 0x6440_0000 + 64_000);
    lemma_binding_routes(own, uplink, plan.realm_id, bs, i);
    lemma_translations(own, plan.realm_id, bs, entries, i);
    let routes = binding_route_cmds(own, uplink, plan.realm_id, bs);
    assert(cs[3 + 2 * i] == routes[2 * i]);
    assert(cs[3 + 2 * i + 1] == routes[2 * i + 1]);
    let root = provider_name_text("u"@, own.realm_id, "public"@);
    let inner = provider_name_text("n"@, own.realm_id, "public"@);
    let comment = binding_comment(own.realm_id, b.endpoint_id);
    lemma_words_of_routing(
        own.public_route_table,
        b.public_address,
        (base + 2) as u32,
        own.public_host_veth,
        uplink,
        root,
        own.public_mark,
        comment,
    );
    lemma_words_of_translation(
        own.namespace,
        inner,
        own.public_realm_veth,
        b.public_address,
        private,
        comment,
    );
    lemma_done(
        t,
        t1,
        cs,
        failed,
        io,
        v,
        3 + 2 * i,
        public_route_words(
            own.public_route_table,
            b.public_address,
            (base + 2) as u32,
            own.public_host_veth,
        ),
    );
    lemma_done(t, t1, cs, failed, io, v, 3 + 2 * i + 1, answer_words(b.public_address, uplink));
    assert(lists[2] == mark_cmds(uplink, plan.realm_id, bs));
    lemma_list_done(
        t,
        t2,
        lists,
        v,
        2,
        i,
        mark_words(root, uplink, b.public_address, own.public_mark, comment),
    );
    assert(lists[4] == translation_cmds(own, plan.realm_id, bs, entries));
    lemma_list_done(
        t,
        t2,
        lists,
        v,
        4,
        2 * i,
        inward_words(own.namespace, inner, b.public_address, private, comment),
    );
    lemma_list_done(
        t,
        t2,
        lists,
        v,
        4,
        2 * i + 1,
        outward_words(
            own.namespace,
            inner,
            own.public_realm_veth,
            b.public_address,
            private,
            comment,
        ),
    );
}

proof fn lemma_marked_is_routed(
    t: Trace,
    t1: Trace,
    own: RealmOwnershipView,
    uplink: Seq<char>,
    plan: NamespacedRoutedFabricPlanView,
    root_table: bool,
    realm_table: bool,
    v: Trace,
)
    requires
        extends(t, t1),
        own.public_mark == public_mark_of(plan.realm_id),
        own.public_route_table == public_route_table_of(plan.realm_id),
        queried(t1.reply(), LinuxFabricError::Storage) is Ok,
        ({
            let (listed, listing) = queried(t1.reply(), LinuxFabricError::Storage)->Ok_0;
            let rule = "fwmark "@ + decimal(public_mark_of(plan.realm_id) as nat) + " lookup "@
                + decimal(public_route_table_of(plan.realm_id) as nat);
            let found = PublicFound {
                rule: listed && contains(listing, rule),
                root_table,
                realm_table,
            };
            let t2 = t1.after(EffectView::Query(rule_list_cmd()));
            let lists = public_table_cmds(own, uplink, plan, found);
            run_lists(t2, lists).1 is Ok && extends(run_lists(t2, lists).0, v)
        }),
    ensures
        marked_is_routed(t, v, own),
{
    let (listed, listing) = queried(t1.reply(), LinuxFabricError::Storage)->Ok_0;
    let mark = decimal(public_mark_of(plan.realm_id) as nat);
    let table = decimal(public_route_table_of(plan.realm_id) as nat);
    let rule = "fwmark "@ + mark + " lookup "@ + table;
    let found = PublicFound { rule: listed && contains(listing, rule), root_table, realm_table };
    let q = EffectView::Query(rule_list_cmd());
    let t2 = t1.after(q);
    let lists = public_table_cmds(own, uplink, plan, found);
    lemma_and_then(t, t1, q);
    lemma_extends_self(t2);
    lemma_lists(t2, t2, lists);
    lemma_extends_transitive(t2, run_lists(t2, lists).0, v);
    if found.rule {
        let words = seq!["rule"@, "list"@];
        lemma_told(t, t1, rule_list_cmd(), listed, listing, v, words);
        assert(told(t, v, "ip"@, words, true, listing) && contains(listing, rule));
        assert(was_listed(t, v, "ip"@, words, rule));
    } else {
        assert(lists[0] == public_clear_cmds(own, plan.realm_id, found));
        let words = seq!["rule"@, "add"@, "fwmark"@, mark, "table"@, table];
        lemma_list_done(t, t2, lists, v, 0, 0, words);
    }
}

/// Whether a realm is reached from outside by its public addresses, all of them.
#[verifier::opaque]
pub open spec fn realm_is_exposed(
    t: Trace,
    u: Trace,
    own: RealmOwnershipView,
    uplink: Seq<char>,
    base: u32,
    bs: Seq<PublicAddressBindingIntentView>,
    entries: Seq<EndpointLocationView>,
) -> bool {
    &&& transit_is_there(t, u, own)
    &&& transit_stands(t, u, own, uplink, base)
    &&& marked_is_routed(t, u, own)
    &&& public_tables_stand(t, u, own)
    &&& forall|i: int|
        0 <= i < bs.len() ==> (locate(entries, (#[trigger] bs[i]).endpoint_id) matches Some(e)
            && exposed(t, u, own, uplink, base, bs[i], e.fixed_ip))
}

proof fn lemma_build_exposes(
    t: Trace,
    t1: Trace,
    own: RealmOwnershipView,
    uplink: Seq<char>,
    plan: NamespacedRoutedFabricPlanView,
    root_table: bool,
    realm_table: bool,
    v: Trace,
)
    requires
        extends(t, t1),
        own.realm_id == plan.realm_id,
        own.public_mark == public_mark_of(plan.realm_id),
        own.public_route_table == public_route_table_of(plan.realm_id),
        own.public_fingerprint == public_fingerprint_text(plan),
        plan.public_bindings.len() > 0,
        forall|i: int|
            0 <= i < plan.public_bindings.len() ==> #[trigger] binding_valid(
                plan.public_bindings,
                plan.directory.entries,
                i,
            ),
        build_public_run(own, uplink, plan, root_table, realm_table, t1).1 is Ok,
        extends(build_public_run(own, uplink, plan, root_table, realm_table, t1).0, v),
    ensures
        realm_is_exposed(
            t,
            v,
            own,
            uplink,
            transit_base(plan.realm_id) as u32,
            plan.public_bindings,
            plan.directory.entries,
        ),
{
    let failed = LinuxFabricError::CommandFailed;
    let io = LinuxFabricError::Storage;
    reveal(realm_is_exposed);
    let t2 = ensure_public_veth_run(own, t1).0;
    let cs = public_route_cmds(own, uplink, plan);
    let t3 = run_all(t2, cs, failed, io).0;
    let q = EffectView::Query(rule_list_cmd());
    let t4 = t3.after(q);
    let (listed, listing) = queried(t3.reply(), io)->Ok_0;
    let rule = "fwmark "@ + decimal(public_mark_of(plan.realm_id) as nat) + " lookup "@ + decimal(
        public_route_table_of(plan.realm_id) as nat,
    );
    let found = PublicFound { rule: listed && contains(listing, rule), root_table, realm_table };
    let lists = public_table_cmds(own, uplink, plan, found);
    let t5 = run_lists(t4, lists).0;
    assert(t5 == build_public_run(own, uplink, plan, root_table, realm_table, t1).0);
    lemma_transit_extends(own, t1);
    lemma_extends_transitive(t, t1, t2);
    lemma_runs(t, t2, cs);
    lemma_and_then(t, t3, q);
    lemma_extends_self(t2);
    lemma_extends_self(t3);
    lemma_runs(t2, t2, cs);
    lemma_and_then(t3, t3, q);
    lemma_lists(t3, t4, lists);
    lemma_extends_transitive(t3, t5, v);
    lemma_extends_transitive(t2, t3, v);
    lemma_transit_is_there(t, t1, own, v);
    lemma_transit_stands(t, t2, own, uplink, plan, v);
    lemma_marked_is_routed(t, t3, own, uplink, plan, root_table, realm_table, v);
    lemma_tables_stand(t, t4, own, uplink, plan, found, v);
    assert forall|i: int| 0 <= i < plan.public_bindings.len() implies (locate(
        plan.directory.entries,
        (#[trigger] plan.public_bindings[i]).endpoint_id,
    ) matches Some(e) && exposed(
        t,
        v,
        own,
        uplink,
        transit_base(plan.realm_id) as u32,
        plan.public_bindings[i],
        e.fixed_ip,
    )) by {
        assert(binding_valid(plan.public_bindings, plan.directory.entries, i));
        lemma_one_exposed(t, t2, t4, own, uplink, plan, found, v, i);
    }
}

proof fn lemma_realizing_builds(
    st: ProviderStateView,
    own: RealmOwnershipView,
    uplink: Seq<char>,
    plan: NamespacedRoutedFabricPlanView,
    t: Trace,
) -> (r: (Trace, bool, bool))
    requires
        realize_public_run(st, own, uplink, plan, t).2 is Ok,
    ensures
        extends(t, r.0),
        realize_public_run(st, own, uplink, plan, t).0 == st.with_realm(with_public(own, plan)),
        build_public_run(with_public(own, plan), uplink, plan, r.1, r.2, r.0).1 is Ok,
        realize_public_run(st, own, uplink, plan, t).1 == build_public_run(
            with_public(own, plan),
            uplink,
            plan,
            r.1,
            r.2,
            r.0,
        ).0,
{
    let io = LinuxFabricError::Storage;
    let a = EffectView::Query(table_list_cmd(provider_name_text("u"@, plan.realm_id, "public"@)));
    let b = EffectView::Query(
        ns_table_list_cmd(own.namespace, provider_name_text("n"@, plan.realm_id, "public"@)),
    );
    lemma_extends_self(t);
    lemma_and_then(t, t, a);
    lemma_and_then(t, t.after(a), b);
    lemma_and_then(t, t.after(a).after(b), EffectView::Save);
    let t3 = t.after(a).after(b).after(EffectView::Save);
    let x = queried(t.reply(), io)->Ok_0.0;
    let y = queried(t.after(a).reply(), io)->Ok_0.0;
    (t3, x, y)
}

proof fn lemma_ensuring_realizes(
    cfg: LinuxFabricConfigView,
    st: ProviderStateView,
    plan: NamespacedRoutedFabricPlanView,
    t: Trace,
)
    requires
        plan.public_bindings.len() > 0,
        ensure_public_run(cfg, st, plan, t).2 is Ok,
    ensures
        cfg.public_uplink is Some,
        bindings_valid(plan.public_bindings, plan.directory.entries),
        st.realm(plan.realm_id) is Some,
        ensure_public_run(cfg, st, plan, t) == realize_public_run(
            st,
            st.realm(plan.realm_id)->Some_0,
            cfg.public_uplink->Some_0,
            plan,
            t,
        ),
{
}

proof fn lemma_realizing_exposes(
    st: ProviderStateView,
    own: RealmOwnershipView,
    uplink: Seq<char>,
    plan: NamespacedRoutedFabricPlanView,
    t: Trace,
    st1: ProviderStateView,
    u: Trace,
)
    requires
        plan.public_bindings.len() > 0,
        id_sorted::<RealmOwnership>(st.realms),
        bindings_valid(plan.public_bindings, plan.directory.entries),
        st.realm(plan.realm_id) == Some(own),
        realize_public_run(st, own, uplink, plan, t) == (st1, u, Ok::<(), Stop<LinuxFabricError>>(())),
    ensures
        st1.realm(plan.realm_id) == Some(with_public(own, plan)),
        realm_is_exposed(
            t,
            u,
            with_public(own, plan),
            uplink,
            transit_base(plan.realm_id) as u32,
            plan.public_bindings,
            plan.directory.entries,
        ),
{
    lemma_id_slot::<RealmOwnership>(st.realms, plan.realm_id);
    let next = with_public(own, plan);
    lemma_id_put_get::<RealmOwnership>(st.realms, next, plan.realm_id);
    let (t3, x, y) = lemma_realizing_builds(st, own, uplink, plan, t);
    lemma_extends_self(u);
    lemma_build_exposes(t, t3, next, uplink, plan, x, y, u);
}

/// Whether a realm is reached by the public addresses that are recorded of it.
pub open spec fn recorded_is_exposed(
    t: Trace,
    u: Trace,
    own: RealmOwnershipView,
    uplink: Seq<char>,
    bs: Seq<PublicAddressBindingIntentView>,
    entries: Seq<EndpointLocationView>,
) -> bool {
    &&& own.public_addresses.len() == bs.len()
    &&& forall|i: int|
        0 <= i < bs.len() ==> (#[trigger] own.public_addresses[i]) == bs[i].public_address
    &&& exists|base: u32| #[trigger] realm_is_exposed(t, u, own, uplink, base, bs, entries)
}

/// Once public addresses are realized, each leads to the address of its endpoint and back: its
/// packets are marked, routed by the mark over the link to the realm and translated there. The
/// mark, the route table and the addresses are the recorded ones.
pub proof fn lemma_public_addresses_are_exposed(
    cfg: LinuxFabricConfigView,
    st: ProviderStateView,
    plan: NamespacedRoutedFabricPlanView,
    t: Trace,
    st1: ProviderStateView,
    u: Trace,
)
    requires
        plan.public_bindings.len() > 0,
        id_sorted::<RealmOwnership>(st.realms),
        ensure_public_run(cfg, st, plan, t) == (st1, u, Ok::<(), Stop<LinuxFabricError>>(())),
    ensures
        cfg.public_uplink is Some,
        st1.realm(plan.realm_id) is Some,
        recorded_is_exposed(
            t,
            u,
            st1.realm(plan.realm_id)->Some_0,
            cfg.public_uplink->Some_0,
            plan.public_bindings,
            plan.directory.entries,
        ),
{
    lemma_ensuring_realizes(cfg, st, plan, t);
    let own = st.realm(plan.realm_id)->Some_0;
    let uplink = cfg.public_uplink->Some_0;
    lemma_realizing_exposes(st, own, uplink, plan, t, st1, u);
}

/// Once a plan is applied, its public addresses lead to its endpoints and back.
pub proof fn lemma_applied_addresses_are_exposed(
    b: LinuxFabricBackendView,
    plan: NamespacedRoutedFabricPlanView,
    t: Trace,
)
    requires
        plan.public_bindings.len() > 0,
        b.sorted(),
        apply_run(b, plan, t).2 is Ok,
    ensures
        stages_run(8, b, plan, t).0.config.public_uplink is Some,
        stages_run(8, b, plan, t).0.state.realm(plan.realm_id) is Some,
        recorded_is_exposed(
            stages_run(7, b, plan, t).1,
            stages_run(8, b, plan, t).1,
            stages_run(8, b, plan, t).0.state.realm(plan.realm_id)->Some_0,
            stages_run(8, b, plan, t).0.config.public_uplink->Some_0,
            plan.public_bindings,
            plan.directory.entries,
        ),
        extends(t, stages_run(7, b, plan, t).1),
        extends(stages_run(8, b, plan, t).1, apply_run(b, plan, t).1),
{
    lemma_stage_succeeds(7, 9, b, plan, t);
    assert(stages()[7] == Stage::Public);
    let (b7, t7, r7) = stages_run(7, b, plan, t);
    let (b8, t8, r8) = stages_run(8, b, plan, t);
    lemma_stages_sorted(7, b, plan, t);
    lemma_public_addresses_are_exposed(b7.config, b7.state, plan, t7, b8.state, t8);
}

} // verus!
