//! The public addresses of a realm.
//!
//! Packets to a public address are marked in the host's own namespace, routed by their mark into
//! the realm's namespace and translated there, so that equal private addresses of different
//! realms never meet.
use super::backend::{FabricOutcome, LinuxFabricBackend};
use super::commands::{
    addr_replace, addr_replace_cmd, chain_add, chain_add_cmd, dnat_rule, dnat_rule_cmd, link_del,
    link_del_cmd, link_show, link_show_cmd, link_to_ns, link_to_ns_cmd, link_up, link_up_cmd,
    mark_rule, mark_rule_cmd, neigh_proxy, neigh_proxy_cmd, neigh_proxy_del, neigh_proxy_del_cmd,
    ns_addr_replace, ns_addr_replace_cmd, ns_chain_add, ns_chain_add_cmd, ns_default_via_dev,
    ns_default_via_dev_cmd, ns_link_show, ns_link_show_cmd, ns_link_up, ns_link_up_cmd,
    ns_table_add, ns_table_add_cmd, ns_table_del, ns_table_del_cmd, ns_table_list,
    ns_table_list_cmd, route_del, route_del_cmd, route_in_table, route_in_table_cmd, route_show,
    route_show_cmd, rule_add, rule_add_cmd, rule_del, rule_del_cmd, rule_list, rule_list_cmd,
    snat_rule, snat_rule_cmd, sysctl_write, sysctl_write_cmd, table_add, table_add_cmd, table_del,
    table_del_cmd, table_list, table_list_cmd, veth_add, veth_add_cmd,
};
use super::config::{LinuxFabricConfigView, LinuxFabricError};
use super::naming::{
    provider_name_text, public_mark, public_mark_of, public_realm_table_name,
    public_root_table_name, public_route_table, public_route_table_of, public_transit_addresses,
    transit_base,
};
use super::plan::{
    locate, EndpointLocationView, NamespacedRoutedFabricPlan, NamespacedRoutedFabricPlanView,
};
use super::policy::{drop_ns_table, drop_ns_table_run};
use super::state::{ProviderStateView, RealmOwnership, RealmOwnershipView};
use crate::digest::{sha256_text, sha256_text_of};
use crate::domain::{PublicAddressBindingIntent, PublicAddressBindingIntentView};
use crate::identity::{id_text, id_text_of};
use crate::ipv4::{ipv4_of, ipv4_text};
use crate::json::{json_bindings, json_bindings_of, quoted, quoted_of};
use crate::model::{copy_plain, views, Model};
use crate::render::{decimal, decimal_of};
use crate::session::{
    demanded, queried, run_all, CommandView, Commands, Effect, EffectView, Session, Stop, Trace,
};
use crate::table::{find_id, put_id};
use crate::text::{contains, join, join3, same, text_contains};
use vstd::prelude::*;
use vstd::string::StringExecFns;
use vstd::utf8::encode_utf8;

verus! {

// ---------------------------------------------------------------------------
// Validation and fingerprint
// ---------------------------------------------------------------------------

/// Whether the binding at `i` can be realized beside those before it.
pub open spec fn binding_valid(
    bs: Seq<PublicAddressBindingIntentView>,
    entries: Seq<EndpointLocationView>,
    i: int,
) -> bool {
    let b = bs[i];
    &&& b.id != 0
    &&& b.project_id.len() > 0
    &&& b.generation != 0
    &&& b.public_address != 0
    &&& locate(entries, b.endpoint_id) matches Some(e) && e.project_id == b.project_id
    &&& forall|k: int|
        0 <= k < i ==> (#[trigger] bs[k]).id != b.id && bs[k].public_address != b.public_address
            && bs[k].endpoint_id != b.endpoint_id
}

/// Whether the public addresses of a plan can be realized: every binding is complete and of its
/// endpoint's project, and no identity, address or endpoint occurs twice.
pub open spec fn bindings_valid(
    bs: Seq<PublicAddressBindingIntentView>,
    entries: Seq<EndpointLocationView>,
) -> bool {
    forall|i: int| 0 <= i < bs.len() ==> #[trigger] binding_valid(bs, entries, i)
}

fn binding_is_valid(plan: &NamespacedRoutedFabricPlan, i: usize) -> (r: bool)
    requires
        i < plan.public_bindings.len(),
    ensures
        r == binding_valid(plan@.public_bindings, plan@.directory.entries, i as int),
{
    let ghost bs = plan@.public_bindings;
    let b = &plan.public_bindings[i];
    assert(bs[i as int] == b@);
    if b.id == 0 || b.project_id.as_str().is_empty() || b.generation == 0 || b.public_address == 0 {
        return false;
    }
    match plan.directory.location(b.endpoint_id) {
        None => return false,
        Some(entry) => {
            if !same(entry.project_id.as_str(), b.project_id.as_str()) {
                return false;
            }
        },
    }
    for k in 0..i
        invariant
            i < plan.public_bindings.len(),
            bs == plan@.public_bindings,
            bs == views(plan.public_bindings@),
            b@ == bs[i as int],
            forall|j: int|
                0 <= j < k ==> (#[trigger] bs[j]).id != b@.id && bs[j].public_address
                    != b@.public_address && bs[j].endpoint_id != b@.endpoint_id,
    {
        let other = &plan.public_bindings[k];
        assert(bs[k as int] == other@);
        if other.id == b.id || other.public_address == b.public_address || other.endpoint_id
            == b.endpoint_id {
            return false;
        }
    }
    true
}

/// Rejects a plan whose public addresses cannot be realized.
pub fn validate_public_plan(plan: &NamespacedRoutedFabricPlan) -> (r: Result<(), LinuxFabricError>)
    ensures
        r == (if bindings_valid(plan@.public_bindings, plan@.directory.entries) {
            Ok(())
        } else {
            Err(LinuxFabricError::OwnershipConflict)
        }),
{
    let ghost bs = plan@.public_bindings;
    for i in 0..plan.public_bindings.len()
        invariant
            bs == plan@.public_bindings,
            bs.len() == plan.public_bindings@.len(),
            forall|k: int|
                0 <= k < i ==> #[trigger] binding_valid(bs, plan@.directory.entries, k),
    {
        if !binding_is_valid(plan, i) {
            return Err(LinuxFabricError::OwnershipConflict);
        }
    }
    Ok(())
}

/// The fingerprint of the public addresses of a plan.
pub open spec fn public_fingerprint_text(plan: NamespacedRoutedFabricPlanView) -> Seq<char> {
    sha256_text(encode_utf8(json_bindings(plan.public_bindings)))
}

/// Computes [`public_fingerprint_text`].
pub fn public_fingerprint(plan: &NamespacedRoutedFabricPlan) -> (r: String)
    ensures
        r@ == public_fingerprint_text(plan@),
        r@.len() == 64,
{
    let text = json_bindings_of(&plan.public_bindings);
    sha256_text_of(text.as_str().as_bytes())
}

/// Whether another realm already has one of the addresses.
pub open spec fn address_taken(
    realms: Seq<RealmOwnershipView>,
    realm_id: u128,
    bs: Seq<PublicAddressBindingIntentView>,
) -> bool {
    exists|i: int, j: int|
        0 <= i < realms.len() && 0 <= j < bs.len() && (#[trigger] realms[i]).realm_id != realm_id
            && realms[i].public_addresses.contains((#[trigger] bs[j]).public_address)
}

fn has_address(v: &Vec<u32>, a: u32) -> (r: bool)
    ensures
        r == v@.contains(a),
{
    for i in 0..v.len()
        invariant
            forall|k: int| 0 <= k < i ==> v@[k] != a,
    {
        if v[i] == a {
            assert(v@[i as int] == a);
            return true;
        }
    }
    false
}

fn address_is_taken(
    realms: &Vec<RealmOwnership>,
    realm_id: u128,
    bs: &Vec<PublicAddressBindingIntent>,
) -> (r: bool)
    ensures
        r == address_taken(views(realms@), realm_id, views(bs@)),
{
    let ghost rv = views(realms@);
    let ghost bv = views(bs@);
    for i in 0..realms.len()
        invariant
            rv == views(realms@),
            bv == views(bs@),
            forall|k: int, j: int|
                0 <= k < i && 0 <= j < bv.len() && (#[trigger] rv[k]).realm_id != realm_id
                    ==> !rv[k].public_addresses.contains((#[trigger] bv[j]).public_address),
    {
        assert(rv[i as int] == realms@[i as int]@);
        if realms[i].realm_id != realm_id {
            for j in 0..bs.len()
                invariant
                    i < realms.len(),
                    rv == views(realms@),
                    bv == views(bs@),
                    rv[i as int] == realms@[i as int]@,
                    realms@[i as int].realm_id != realm_id,
                    forall|m: int|
                        0 <= m < j ==> !rv[i as int].public_addresses.contains(
                            (#[trigger] bv[m]).public_address,
                        ),
            {
                assert(bv[j as int] == bs@[j as int]@);
                if has_address(&realms[i].public_addresses, bs[j].public_address) {
                    assert(rv[i as int].realm_id != realm_id);
                    assert(rv[i as int].public_addresses.contains(bv[j as int].public_address));
                    return true;
                }
            }
        }
    }
    false
}

// ---------------------------------------------------------------------------
// The record
// ---------------------------------------------------------------------------

/// The greatest generation among the first `n` bindings.
pub open spec fn newest(bs: Seq<PublicAddressBindingIntentView>, n: int) -> u64
    decreases n,
{
    if n <= 0 {
        0
    } else {
        let before = newest(bs, n - 1);
        if bs[n - 1].generation > before {
            bs[n - 1].generation
        } else {
            before
        }
    }
}

/// The addresses of bindings.
pub open spec fn addresses_of(bs: Seq<PublicAddressBindingIntentView>) -> Seq<u32> {
    bs.map_values(|b: PublicAddressBindingIntentView| b.public_address)
}

/// The record of a realm whose public addresses are those of a plan.
pub open spec fn with_public(
    own: RealmOwnershipView,
    plan: NamespacedRoutedFabricPlanView,
) -> RealmOwnershipView {
    RealmOwnershipView {
        public_generation: newest(plan.public_bindings, plan.public_bindings.len() as int),
        public_fingerprint: public_fingerprint_text(plan),
        public_mark: public_mark_of(plan.realm_id),
        public_route_table: public_route_table_of(plan.realm_id),
        public_addresses: addresses_of(plan.public_bindings),
        ..own
    }
}

/// The record of a realm without public addresses.
pub open spec fn without_public(own: RealmOwnershipView) -> RealmOwnershipView {
    RealmOwnershipView {
        public_generation: 0,
        public_fingerprint: Seq::empty(),
        public_mark: 0,
        public_route_table: 0,
        public_addresses: Seq::empty(),
        ..own
    }
}

fn set_public(own: &RealmOwnership, plan: &NamespacedRoutedFabricPlan) -> (r: RealmOwnership)
    ensures
        r@ == with_public(own@, plan@),
{
    let ghost bs = plan@.public_bindings;
    let mut generation: u64 = 0;
    let mut addresses: Vec<u32> = Vec::new();
    for i in 0..plan.public_bindings.len()
        invariant
            bs == plan@.public_bindings,
            bs == views(plan.public_bindings@),
            generation == newest(bs, i as int),
            addresses@ == addresses_of(bs).take(i as int),
    {
        let b = &plan.public_bindings[i];
        assert(bs[i as int] == b@);
        if b.generation > generation {
            generation = b.generation;
        }
        addresses.push(b.public_address);
        assert(addresses@ =~= addresses_of(bs).take(i + 1));
    }
    assert(addresses@ =~= addresses_of(bs));
    let mut r = own.copy();
    r.public_generation = generation;
    r.public_fingerprint = public_fingerprint(plan);
    r.public_mark = public_mark(plan.realm_id);
    r.public_route_table = public_route_table(plan.realm_id);
    r.public_addresses = addresses;
    r
}

// ---------------------------------------------------------------------------
// The transit link
// ---------------------------------------------------------------------------

/// The commands that make the transit link of a realm.
pub open spec fn transit_link_cmds(own: RealmOwnershipView) -> Seq<CommandView> {
    Seq::empty().push(veth_add_cmd(own.public_host_veth, own.public_realm_veth)).push(
        link_to_ns_cmd(own.public_realm_veth, own.namespace),
    ).push(link_up_cmd(own.public_host_veth)).push(
        ns_link_up_cmd(own.namespace, own.public_realm_veth),
    )
}

/// Makes sure that the transit link of a realm is there. Where only one of its ends is, it is
/// foreign.
pub open spec fn ensure_public_veth_run(own: RealmOwnershipView, t: Trace) -> (
    Trace,
    FabricOutcome,
) {
    let io = LinuxFabricError::Storage;
    let t1 = t.after(EffectView::Query(link_show_cmd(own.public_host_veth)));
    match queried(t.reply(), io) {
        Err(stop) => (t1, Err(stop)),
        Ok((host_exists, _)) => {
            let t2 = t1.after(
                EffectView::Query(ns_link_show_cmd(own.namespace, own.public_realm_veth)),
            );
            match queried(t1.reply(), io) {
                Err(stop) => (t2, Err(stop)),
                Ok((realm_exists, _)) => if host_exists != realm_exists {
                    (t2, Err(Stop::Failed(LinuxFabricError::ForeignState)))
                } else if host_exists {
                    (t2, Ok(()))
                } else {
                    run_all(t2, transit_link_cmds(own), LinuxFabricError::CommandFailed, io)
                },
            }
        },
    }
}

/// Performs [`ensure_public_veth_run`].
pub fn ensure_public_veth(own: &RealmOwnership, session: &mut Session) -> (r: FabricOutcome)
    ensures
        (final(session)@, r) == ensure_public_veth_run(own@, old(session)@),
{
    let io = LinuxFabricError::Storage;
    let host = own.public_host_veth.as_str();
    let realm = own.public_realm_veth.as_str();
    let ns = own.namespace.as_str();
    let host_exists = match session.query(link_show(host), io) {
        Err(stop) => return Err(stop),
        Ok((exists, _)) => exists,
    };
    let realm_exists = match session.query(ns_link_show(ns, realm), io) {
        Err(stop) => return Err(stop),
        Ok((exists, _)) => exists,
    };
    if host_exists != realm_exists {
        return Err(Stop::Failed(LinuxFabricError::ForeignState));
    }
    if host_exists {
        return Ok(());
    }
    let cs = Commands::none().push(veth_add(host, realm)).push(link_to_ns(realm, ns)).push(
        link_up(host),
    ).push(ns_link_up(ns, realm));
    session.run_all(&cs, LinuxFabricError::CommandFailed, io)
}

// ---------------------------------------------------------------------------
// Routes
// ---------------------------------------------------------------------------

/// The commands that route the public addresses of bindings to the realm.
pub open spec fn binding_route_cmds(
    own: RealmOwnershipView,
    uplink: Seq<char>,
    realm_id: u128,
    bs: Seq<PublicAddressBindingIntentView>,
) -> Seq<CommandView>
    decreases bs.len(),
{
    if bs.len() == 0 {
        Seq::empty()
    } else {
        let addr = ipv4_text(bs.last().public_address);
        binding_route_cmds(own, uplink, realm_id, bs.drop_last()).push(
            route_in_table_cmd(
                decimal(public_route_table_of(realm_id) as nat),
                addr + "/32"@,
                ipv4_text((transit_base(realm_id) + 2) as u32),
                own.public_host_veth,
            ),
        ).push(neigh_proxy_cmd(addr, uplink))
    }
}

/// The commands that give the transit link its addresses and route through it.
pub open spec fn public_route_cmds(
    own: RealmOwnershipView,
    uplink: Seq<char>,
    plan: NamespacedRoutedFabricPlanView,
) -> Seq<CommandView> {
    let root = ipv4_text((transit_base(plan.realm_id) + 1) as u32);
    let realm = ipv4_text((transit_base(plan.realm_id) + 2) as u32);
    let link = Seq::empty().push(addr_replace_cmd(root + "/30"@, own.public_host_veth)).push(
        ns_addr_replace_cmd(own.namespace, realm + "/30"@, own.public_realm_veth),
    ).push(ns_default_via_dev_cmd(own.namespace, root, own.public_realm_veth));
    (link + binding_route_cmds(own, uplink, plan.realm_id, plan.public_bindings)).push(
        sysctl_write_cmd("net.ipv4.ip_forward=1"@),
    ).push(sysctl_write_cmd("net.ipv4.conf."@ + uplink + ".proxy_arp=1"@))
}

fn public_route_commands(
    own: &RealmOwnership,
    uplink: &str,
    plan: &NamespacedRoutedFabricPlan,
) -> (r: Commands)
    ensures
        r@ == public_route_cmds(own@, uplink@, plan@),
{
    let (root_addr, realm_addr) = public_transit_addresses(plan.realm_id);
    let root = ipv4_of(root_addr);
    let realm = ipv4_of(realm_addr);
    let root_cidr = join(root.as_str(), "/30");
    let realm_cidr = join(realm.as_str(), "/30");
    let ns = own.namespace.as_str();
    let host_veth = own.public_host_veth.as_str();
    let realm_veth = own.public_realm_veth.as_str();
    let mut out = Commands::none().push(addr_replace(root_cidr.as_str(), host_veth)).push(
        ns_addr_replace(ns, realm_cidr.as_str(), realm_veth),
    ).push(ns_default_via_dev(ns, root.as_str(), realm_veth));
    let table = decimal_of(public_route_table(plan.realm_id) as u128);
    let ghost start = out@;
    let ghost bs = plan@.public_bindings;
    assert(bs.take(0) =~= Seq::<PublicAddressBindingIntentView>::empty());
    assert(out@ =~= start + binding_route_cmds(own@, uplink@, plan@.realm_id, bs.take(0)));
    for i in 0..plan.public_bindings.len()
        invariant
            bs == plan@.public_bindings,
            bs == views(plan.public_bindings@),
            table@ == decimal(public_route_table_of(plan@.realm_id) as nat),
            realm@ == ipv4_text((transit_base(plan@.realm_id) + 2) as u32),
            host_veth@ == own@.public_host_veth,
            out@ == start + binding_route_cmds(
                own@,
                uplink@,
                plan@.realm_id,
                bs.take(i as int),
            ),
    {
        assert(bs[i as int] == plan.public_bindings@[i as int]@);
        assert(bs.take(i + 1).drop_last() =~= bs.take(i as int));
        let addr = ipv4_of(plan.public_bindings[i].public_address);
        let dest = join(addr.as_str(), "/32");
        let ghost before = out@;
        out = out.push(
            route_in_table(table.as_str(), dest.as_str(), realm.as_str(), host_veth),
        ).push(neigh_proxy(addr.as_str(), uplink));
        assert(out@ =~= start + binding_route_cmds(
            own@,
            uplink@,
            plan@.realm_id,
            bs.take(i + 1),
        ));
    }
    assert(bs.take(bs.len() as int) =~= bs);
    let setting = join3("net.ipv4.conf.", uplink, ".proxy_arp=1");
    out.push(sysctl_write("net.ipv4.ip_forward=1")).push(sysctl_write(setting.as_str()))
}

// ---------------------------------------------------------------------------
// Tables
// ---------------------------------------------------------------------------

/// The comment of the rules of a binding.
pub open spec fn binding_comment(realm_id: u128, endpoint_id: u128) -> Seq<char> {
    quoted("o3k-p11-public"@ + ":"@ + id_text(realm_id) + ":"@ + id_text(endpoint_id))
}

fn binding_comment_of(realm_id: u128, endpoint_id: u128) -> (r: String)
    ensures
        r@ == binding_comment(realm_id, endpoint_id),
{
    let mut text = "o3k-p11-public".to_owned();
    text.append(":");
    text.append(id_text_of(realm_id).as_str());
    text.append(":");
    text.append(id_text_of(endpoint_id).as_str());
    quoted_of(text.as_str())
}

/// The rules that mark the packets to public addresses.
pub open spec fn mark_cmds(
    uplink: Seq<char>,
    realm_id: u128,
    bs: Seq<PublicAddressBindingIntentView>,
) -> Seq<CommandView> {
    bs.map_values(
        |b: PublicAddressBindingIntentView|
            mark_rule_cmd(
                provider_name_text("u"@, realm_id, "public"@),
                uplink,
                ipv4_text(b.public_address),
                decimal(public_mark_of(realm_id) as nat),
                binding_comment(realm_id, b.endpoint_id),
            ),
    )
}

fn mark_commands(uplink: &str, realm_id: u128, bs: &Vec<PublicAddressBindingIntent>) -> (r:
    Commands)
    ensures
        r@ == mark_cmds(uplink@, realm_id, views(bs@)),
{
    let table = public_root_table_name(realm_id);
    let mark = decimal_of(public_mark(realm_id) as u128);
    let mut out = Commands::none();
    let ghost all = mark_cmds(uplink@, realm_id, views(bs@));
    for i in 0..bs.len()
        invariant
            all == mark_cmds(uplink@, realm_id, views(bs@)),
            table@ == provider_name_text("u"@, realm_id, "public"@),
            mark@ == decimal(public_mark_of(realm_id) as nat),
            out@ == all.take(i as int),
    {
        assert(views(bs@)[i as int] == bs@[i as int]@);
        let addr = ipv4_of(bs[i].public_address);
        let comment = binding_comment_of(realm_id, bs[i].endpoint_id);
        out = out.push(
            mark_rule(table.as_str(), uplink, addr.as_str(), mark.as_str(), comment.as_str()),
        );
        assert(out@ =~= all.take(i + 1));
    }
    assert(all.take(all.len() as int) =~= all);
    out
}

/// The rules that translate between public addresses and endpoints.
pub open spec fn translation_cmds(
    own: RealmOwnershipView,
    realm_id: u128,
    bs: Seq<PublicAddressBindingIntentView>,
    entries: Seq<EndpointLocationView>,
) -> Seq<CommandView>
    decreases bs.len(),
{
    if bs.len() == 0 {
        Seq::empty()
    } else {
        let b = bs.last();
        let table = provider_name_text("n"@, realm_id, "public"@);
        let public = ipv4_text(b.public_address);
        let private = ipv4_text(locate(entries, b.endpoint_id)->0.fixed_ip);
        let comment = binding_comment(realm_id, b.endpoint_id);
        translation_cmds(own, realm_id, bs.drop_last(), entries).push(
            dnat_rule_cmd(own.namespace, table, public, private, comment),
        ).push(
            snat_rule_cmd(
                own.namespace,
                table,
                own.public_realm_veth,
                private,
                public,
                comment,
            ),
        )
    }
}

fn translation_commands(own: &RealmOwnership, plan: &NamespacedRoutedFabricPlan) -> (r: Commands)
    requires
        bindings_valid(plan@.public_bindings, plan@.directory.entries),
    ensures
        r@ == translation_cmds(
            own@,
            plan@.realm_id,
            plan@.public_bindings,
            plan@.directory.entries,
        ),
{
    let table = public_realm_table_name(plan.realm_id);
    let ns = own.namespace.as_str();
    let mut out = Commands::none();
    let ghost bs = plan@.public_bindings;
    let ghost entries = plan@.directory.entries;
    assert(bs.take(0) =~= Seq::<PublicAddressBindingIntentView>::empty());
    for i in 0..plan.public_bindings.len()
        invariant
            bindings_valid(bs, entries),
            bs == plan@.public_bindings,
            bs == views(plan.public_bindings@),
            entries == plan@.directory.entries,
            ns@ == own@.namespace,
            table@ == provider_name_text("n"@, plan@.realm_id, "public"@),
            out@ == translation_cmds(own@, plan@.realm_id, bs.take(i as int), entries),
    {
        assert(bs[i as int] == plan.public_bindings@[i as int]@);
        assert(bs.take(i + 1).drop_last() =~= bs.take(i as int));
        assert(binding_valid(bs, entries, i as int));
        let b = &plan.public_bindings[i];
        let fixed: u32 = match plan.directory.location(b.endpoint_id) {
            Some(entry) => entry.fixed_ip,
            None => 0,
        };
        let public = ipv4_of(b.public_address);
        let private = ipv4_of(fixed);
        let comment = binding_comment_of(plan.realm_id, b.endpoint_id);
        out = out.push(
            dnat_rule(ns, table.as_str(), public.as_str(), private.as_str(), comment.as_str()),
        ).push(
            snat_rule(
                ns,
                table.as_str(),
                own.public_realm_veth.as_str(),
                private.as_str(),
                public.as_str(),
                comment.as_str(),
            ),
        );
    }
    assert(bs.take(bs.len() as int) =~= bs);
    out
}

/// What is found of a realm's public addresses before they are made anew: the routing rule and
/// the two tables.
#[derive(Clone, Copy, Debug, PartialEq, Eq, Structural)]
pub struct PublicFound {
    pub rule: bool,
    pub root_table: bool,
    pub realm_table: bool,
}

/// The commands that route by the mark and clear the old tables.
pub open spec fn public_clear_cmds(
    own: RealmOwnershipView,
    realm_id: u128,
    found: PublicFound,
) -> Seq<CommandView> {
    let root = provider_name_text("u"@, realm_id, "public"@);
    let realm = provider_name_text("n"@, realm_id, "public"@);
    let c0 = if found.rule {
        Seq::empty()
    } else {
        Seq::empty().push(
            rule_add_cmd(
                decimal(public_mark_of(realm_id) as nat),
                decimal(public_route_table_of(realm_id) as nat),
            ),
        )
    };
    let c1 = if found.root_table {
        c0.push(table_del_cmd(root))
    } else {
        c0
    };
    if found.realm_table {
        c1.push(ns_table_del_cmd(own.namespace, realm))
    } else {
        c1
    }
}

fn public_clear_commands(own: &RealmOwnership, realm_id: u128, found: PublicFound) -> (r: Commands)
    ensures
        r@ == public_clear_cmds(own@, realm_id, found),
{
    let root = public_root_table_name(realm_id);
    let realm = public_realm_table_name(realm_id);
    let c0 = if found.rule {
        Commands::none()
    } else {
        let mark = decimal_of(public_mark(realm_id) as u128);
        let table = decimal_of(public_route_table(realm_id) as u128);
        Commands::none().push(rule_add(mark.as_str(), table.as_str()))
    };
    let c1 = if found.root_table {
        c0.push(table_del(root.as_str()))
    } else {
        c0
    };
    if found.realm_table {
        c1.push(ns_table_del(own.namespace.as_str(), realm.as_str()))
    } else {
        c1
    }
}

/// The commands that make the table in the host's own namespace.
pub open spec fn root_table_cmds(plan: NamespacedRoutedFabricPlanView) -> Seq<CommandView> {
    let root = provider_name_text("u"@, plan.realm_id, "public"@);
    Seq::empty().push(
        table_add_cmd(
            root,
            quoted("o3k-p11-public"@ + ":"@ + public_fingerprint_text(plan)),
        ),
    ).push(chain_add_cmd(root, "prerouting"@, "filter"@, "-150"@))
}

/// The commands that make the table in the realm's namespace.
pub open spec fn realm_table_cmds(
    own: RealmOwnershipView,
    plan: NamespacedRoutedFabricPlanView,
) -> Seq<CommandView> {
    let realm = provider_name_text("n"@, plan.realm_id, "public"@);
    Seq::empty().push(
        ns_table_add_cmd(
            own.namespace,
            realm,
            quoted("o3k-p11-public"@ + ":"@ + public_fingerprint_text(plan)),
        ),
    ).push(ns_chain_add_cmd(own.namespace, realm, "prerouting"@, "nat"@, "-100"@)).push(
        ns_chain_add_cmd(own.namespace, realm, "postrouting"@, "nat"@, "100"@),
    )
}

fn root_table_commands(plan: &NamespacedRoutedFabricPlan) -> (r: Commands)
    ensures
        r@ == root_table_cmds(plan@),
{
    let root = public_root_table_name(plan.realm_id);
    let marker = quoted_of(
        join3("o3k-p11-public", ":", public_fingerprint(plan).as_str()).as_str(),
    );
    Commands::none().push(table_add(root.as_str(), marker.as_str())).push(
        chain_add(root.as_str(), "prerouting", "filter", "-150"),
    )
}

fn realm_table_commands(own: &RealmOwnership, plan: &NamespacedRoutedFabricPlan) -> (r: Commands)
    ensures
        r@ == realm_table_cmds(own@, plan@),
{
    let realm = public_realm_table_name(plan.realm_id);
    let ns = own.namespace.as_str();
    let marker = quoted_of(
        join3("o3k-p11-public", ":", public_fingerprint(plan).as_str()).as_str(),
    );
    Commands::none().push(ns_table_add(ns, realm.as_str(), marker.as_str())).push(
        ns_chain_add(ns, realm.as_str(), "prerouting", "nat", "-100"),
    ).push(ns_chain_add(ns, realm.as_str(), "postrouting", "nat", "100"))
}

/// Runs lists of commands one after another, up to the first command that does not succeed.
pub open spec fn run_lists(t: Trace, lists: Seq<Seq<CommandView>>) -> (Trace, FabricOutcome)
    decreases lists.len(),
{
    if lists.len() == 0 {
        (t, Ok(()))
    } else {
        let (t1, r1) = run_lists(t, lists.drop_last());
        if r1 is Err {
            (t1, r1)
        } else {
            run_all(t1, lists.last(), LinuxFabricError::CommandFailed, LinuxFabricError::Storage)
        }
    }
}

/// The commands that make the tables of a realm's public addresses anew.
pub open spec fn public_table_cmds(
    own: RealmOwnershipView,
    uplink: Seq<char>,
    plan: NamespacedRoutedFabricPlanView,
    found: PublicFound,
) -> Seq<Seq<CommandView>> {
    let bs = plan.public_bindings;
    Seq::empty().push(public_clear_cmds(own, plan.realm_id, found)).push(
        root_table_cmds(plan),
    ).push(mark_cmds(uplink, plan.realm_id, bs)).push(realm_table_cmds(own, plan)).push(
        translation_cmds(own, plan.realm_id, bs, plan.directory.entries),
    )
}

fn make_public_tables(
    own: &RealmOwnership,
    uplink: &str,
    plan: &NamespacedRoutedFabricPlan,
    found: PublicFound,
    session: &mut Session,
) -> (r: FabricOutcome)
    requires
        bindings_valid(plan@.public_bindings, plan@.directory.entries),
    ensures
        (final(session)@, r) == run_lists(
            old(session)@,
            public_table_cmds(own@, uplink@, plan@, found),
        ),
{
    let failed = LinuxFabricError::CommandFailed;
    let io = LinuxFabricError::Storage;
    let ghost lists = public_table_cmds(own@, uplink@, plan@, found);
    proof {
        reveal_with_fuel(run_lists, 6);
        assert(lists.drop_last() =~= lists.take(4));
        assert(lists.take(4).drop_last() =~= lists.take(3));
        assert(lists.take(3).drop_last() =~= lists.take(2));
        assert(lists.take(2).drop_last() =~= lists.take(1));
        assert(lists.take(1).drop_last() =~= Seq::<Seq<CommandView>>::empty());
    }
    match session.run_all(&public_clear_commands(own, plan.realm_id, found), failed, io) {
        Err(stop) => return Err(stop),
        Ok(_) => {},
    }
    match session.run_all(&root_table_commands(plan), failed, io) {
        Err(stop) => return Err(stop),
        Ok(_) => {},
    }
    let marks = mark_commands(uplink, plan.realm_id, &plan.public_bindings);
    match session.run_all(&marks, failed, io) {
        Err(stop) => return Err(stop),
        Ok(_) => {},
    }
    match session.run_all(&realm_table_commands(own, plan), failed, io) {
        Err(stop) => return Err(stop),
        Ok(_) => {},
    }
    session.run_all(&translation_commands(own, plan), failed, io)
}

// ---------------------------------------------------------------------------
// Realizing
// ---------------------------------------------------------------------------

/// Changes the host to the public addresses of a plan.
pub open spec fn build_public_run(
    own: RealmOwnershipView,
    uplink: Seq<char>,
    plan: NamespacedRoutedFabricPlanView,
    root_table: bool,
    realm_table: bool,
    t: Trace,
) -> (Trace, FabricOutcome) {
    let io = LinuxFabricError::Storage;
    let (t1, r1) = ensure_public_veth_run(own, t);
    if r1 is Err {
        (t1, r1)
    } else {
        let (t2, r2) = run_all(
            t1,
            public_route_cmds(own, uplink, plan),
            LinuxFabricError::CommandFailed,
            io,
        );
        if r2 is Err {
            (t2, r2)
        } else {
            let t3 = t2.after(EffectView::Query(rule_list_cmd()));
            match queried(t2.reply(), io) {
                Err(stop) => (t3, Err(stop)),
                Ok((listed, listing)) => {
                    let rule = "fwmark "@ + decimal(public_mark_of(plan.realm_id) as nat)
                        + " lookup "@ + decimal(public_route_table_of(plan.realm_id) as nat);
                    run_lists(
                        t3,
                        public_table_cmds(
                            own,
                            uplink,
                            plan,
                            PublicFound {
                                rule: listed && contains(listing, rule),
                                root_table,
                                realm_table,
                            },
                        ),
                    )
                },
            }
        }
    }
}

fn build_public(
    own: &RealmOwnership,
    uplink: &str,
    plan: &NamespacedRoutedFabricPlan,
    root_table: bool,
    realm_table: bool,
    session: &mut Session,
) -> (r: FabricOutcome)
    requires
        bindings_valid(plan@.public_bindings, plan@.directory.entries),
    ensures
        (final(session)@, r) == build_public_run(
            own@,
            uplink@,
            plan@,
            root_table,
            realm_table,
            old(session)@,
        ),
{
    let io = LinuxFabricError::Storage;
    match ensure_public_veth(own, session) {
        Err(stop) => return Err(stop),
        Ok(_) => {},
    }
    let routes = public_route_commands(own, uplink, plan);
    match session.run_all(&routes, LinuxFabricError::CommandFailed, io) {
        Err(stop) => return Err(stop),
        Ok(_) => {},
    }
    let mut rule = "fwmark ".to_owned();
    rule.append(decimal_of(public_mark(plan.realm_id) as u128).as_str());
    rule.append(" lookup ");
    rule.append(decimal_of(public_route_table(plan.realm_id) as u128).as_str());
    match session.query(rule_list(), io) {
        Err(stop) => Err(stop),
        Ok((listed, listing)) => {
            let found = PublicFound {
                rule: listed && text_contains(listing.as_str(), rule.as_str()),
                root_table,
                realm_table,
            };
            make_public_tables(own, uplink, plan, found, session)
        },
    }
}

/// Realizes the public addresses of a plan. A table of one of the names without the marker is
/// foreign; the record is made durable before the host is changed.
pub open spec fn realize_public_run(
    st: ProviderStateView,
    own: RealmOwnershipView,
    uplink: Seq<char>,
    plan: NamespacedRoutedFabricPlanView,
    t: Trace,
) -> (ProviderStateView, Trace, FabricOutcome) {
    let io = LinuxFabricError::Storage;
    let foreign: FabricOutcome = Err(Stop::Failed(LinuxFabricError::ForeignState));
    let t1 = t.after(
        EffectView::Query(table_list_cmd(provider_name_text("u"@, plan.realm_id, "public"@))),
    );
    match queried(t.reply(), io) {
        Err(stop) => (st, t1, Err(stop)),
        Ok((root_table, root_listing)) => if root_table && !contains(
            root_listing,
            "o3k-p11-public"@,
        ) {
            (st, t1, foreign)
        } else {
            let t2 = t1.after(
                EffectView::Query(
                    ns_table_list_cmd(
                        own.namespace,
                        provider_name_text("n"@, plan.realm_id, "public"@),
                    ),
                ),
            );
            match queried(t1.reply(), io) {
                Err(stop) => (st, t2, Err(stop)),
                Ok((realm_table, realm_listing)) => if realm_table && !contains(
                    realm_listing,
                    "o3k-p11-public"@,
                ) {
                    (st, t2, foreign)
                } else {
                    let next = with_public(own, plan);
                    let st1 = st.with_realm(next);
                    let t3 = t2.after(EffectView::Save);
                    let r3 = demanded(t2.reply(), io, io);
                    if r3 is Err {
                        (st1, t3, r3)
                    } else {
                        let (t4, r4) = build_public_run(
                            next,
                            uplink,
                            plan,
                            root_table,
                            realm_table,
                            t3,
                        );
                        (st1, t4, r4)
                    }
                },
            }
        },
    }
}

/// Brings the public addresses of a realm in line with its plan. An address that another realm
/// has is a conflict.
pub open spec fn ensure_public_run(
    cfg: LinuxFabricConfigView,
    st: ProviderStateView,
    plan: NamespacedRoutedFabricPlanView,
    t: Trace,
) -> (ProviderStateView, Trace, FabricOutcome) {
    let bs = plan.public_bindings;
    if bs.len() == 0 {
        remove_public_run(cfg, st, plan, t)
    } else {
        match cfg.public_uplink {
            None => (st, t, Err(Stop::Failed(LinuxFabricError::InvalidConfiguration))),
            Some(uplink) => if !bindings_valid(bs, plan.directory.entries) || address_taken(
                st.realms,
                plan.realm_id,
                bs,
            ) {
                (st, t, Err(Stop::Failed(LinuxFabricError::OwnershipConflict)))
            } else {
                match st.realm(plan.realm_id) {
                    None => (st, t, Err(Stop::Failed(LinuxFabricError::CorruptState))),
                    Some(own) => realize_public_run(st, own, uplink, plan, t),
                }
            },
        }
    }
}

// ---------------------------------------------------------------------------
// Removing
// ---------------------------------------------------------------------------

/// Removes a table of the host's own namespace where it is there. One without the marker is
/// foreign and stays.
pub open spec fn drop_root_table_run(table: Seq<char>, t: Trace) -> (Trace, FabricOutcome) {
    let io = LinuxFabricError::Storage;
    let t1 = t.after(EffectView::Query(table_list_cmd(table)));
    match queried(t.reply(), io) {
        Err(stop) => (t1, Err(stop)),
        Ok((false, _)) => (t1, Ok(())),
        Ok((true, listing)) => if contains(listing, "o3k-p11-public"@) {
            (
                t1.after(EffectView::Run(table_del_cmd(table))),
                demanded(t1.reply(), LinuxFabricError::CommandFailed, io),
            )
        } else {
            (t1, Err(Stop::Failed(LinuxFabricError::ForeignState)))
        },
    }
}

fn drop_root_table(table: &str, session: &mut Session) -> (r: FabricOutcome)
    ensures
        (final(session)@, r) == drop_root_table_run(table@, old(session)@),
{
    let io = LinuxFabricError::Storage;
    match session.query(table_list(table), io) {
        Err(stop) => Err(stop),
        Ok((exists, listing)) => {
            if !exists {
                return Ok(());
            }
            if !text_contains(listing.as_str(), "o3k-p11-public") {
                return Err(Stop::Failed(LinuxFabricError::ForeignState));
            }
            session.demand(Effect::Run(table_del(table)), LinuxFabricError::CommandFailed, io)
        },
    }
}

/// The commands that stop routing public addresses; a route is removed only where it is listed.
pub open spec fn unroute_cmds(
    own: RealmOwnershipView,
    uplink: Seq<char>,
    addresses: Seq<u32>,
    listing: Seq<char>,
) -> Seq<CommandView>
    decreases addresses.len(),
{
    if addresses.len() == 0 {
        Seq::empty()
    } else {
        let addr = ipv4_text(addresses.last());
        let before = unroute_cmds(own, uplink, addresses.drop_last(), listing);
        let routed = if contains(listing, addr + "/32"@) {
            before.push(
                route_del_cmd(
                    decimal(own.public_route_table as nat),
                    addr + "/32"@,
                    own.public_host_veth,
                ),
            )
        } else {
            before
        };
        routed.push(neigh_proxy_del_cmd(addr, uplink))
    }
}

fn unroute_commands(own: &RealmOwnership, uplink: &str, addresses: &Vec<u32>, listing: &str) -> (r:
    Commands)
    ensures
        r@ == unroute_cmds(own@, uplink@, addresses@, listing@),
{
    let table = decimal_of(own.public_route_table as u128);
    let mut out = Commands::none();
    assert(addresses@.take(0) =~= Seq::<u32>::empty());
    for i in 0..addresses.len()
        invariant
            table@ == decimal(own@.public_route_table as nat),
            out@ == unroute_cmds(own@, uplink@, addresses@.take(i as int), listing@),
    {
        assert(addresses@.take(i + 1).drop_last() =~= addresses@.take(i as int));
        let addr = ipv4_of(addresses[i]);
        let dest = join(addr.as_str(), "/32");
        if text_contains(listing, dest.as_str()) {
            out = out.push(
                route_del(table.as_str(), dest.as_str(), own.public_host_veth.as_str()),
            );
        }
        out = out.push(neigh_proxy_del(addr.as_str(), uplink));
    }
    assert(addresses@.take(addresses@.len() as int) =~= addresses@);
    out
}

/// Stops routing the public addresses of a realm: those that are recorded, or those of the plan
/// where none are.
pub open spec fn unroute_run(
    own: RealmOwnershipView,
    uplink: Seq<char>,
    bs: Seq<PublicAddressBindingIntentView>,
    t: Trace,
) -> (Trace, FabricOutcome) {
    let io = LinuxFabricError::Storage;
    let t1 = t.after(EffectView::Query(route_show_cmd(decimal(own.public_route_table as nat))));
    match queried(t.reply(), io) {
        Err(stop) => (t1, Err(stop)),
        Ok((false, _)) => (t1, Ok(())),
        Ok((true, listing)) => {
            let addresses = if own.public_addresses.len() == 0 {
                addresses_of(bs)
            } else {
                own.public_addresses
            };
            run_all(
                t1,
                unroute_cmds(own, uplink, addresses, listing),
                LinuxFabricError::CommandFailed,
                io,
            )
        },
    }
}

fn unroute(
    own: &RealmOwnership,
    uplink: &str,
    bs: &Vec<PublicAddressBindingIntent>,
    session: &mut Session,
) -> (r: FabricOutcome)
    ensures
        (final(session)@, r) == unroute_run(own@, uplink@, views(bs@), old(session)@),
{
    let io = LinuxFabricError::Storage;
    let table = decimal_of(own.public_route_table as u128);
    match session.query(route_show(table.as_str()), io) {
        Err(stop) => Err(stop),
        Ok((listed, listing)) => {
            if !listed {
                return Ok(());
            }
            let mut addresses = copy_plain(&own.public_addresses);
            if addresses.len() == 0 {
                let ghost bv = views(bs@);
                for i in 0..bs.len()
                    invariant
                        bv == views(bs@),
                        addresses@ == addresses_of(bv).take(i as int),
                {
                    assert(bv[i as int] == bs@[i as int]@);
                    addresses.push(bs[i].public_address);
                    assert(addresses@ =~= addresses_of(bv).take(i + 1));
                }
                assert(addresses@ =~= addresses_of(bv));
            }
            let cs = unroute_commands(own, uplink, &addresses, listing.as_str());
            session.run_all(&cs, LinuxFabricError::CommandFailed, io)
        },
    }
}

/// Removes the routing rule and the transit link of a realm where they are there.
pub open spec fn drop_transit_run(own: RealmOwnershipView, t: Trace) -> (Trace, FabricOutcome) {
    let io = LinuxFabricError::Storage;
    let failed = LinuxFabricError::CommandFailed;
    let mark = decimal(own.public_mark as nat);
    let t1 = t.after(EffectView::Query(rule_list_cmd()));
    match queried(t.reply(), io) {
        Err(stop) => (t1, Err(stop)),
        Ok((listed, listing)) => {
            let (t2, r2) = if listed && contains(listing, "fwmark "@ + mark) {
                (
                    t1.after(
                        EffectView::Run(
                            rule_del_cmd(mark, decimal(own.public_route_table as nat)),
                        ),
                    ),
                    demanded(t1.reply(), failed, io),
                )
            } else {
                (t1, Ok(()))
            };
            if r2 is Err {
                (t2, r2)
            } else {
                let t3 = t2.after(EffectView::Query(link_show_cmd(own.public_host_veth)));
                match queried(t2.reply(), io) {
                    Err(stop) => (t3, Err(stop)),
                    Ok((false, _)) => (t3, Ok(())),
                    Ok((true, _)) => (
                        t3.after(EffectView::Run(link_del_cmd(own.public_host_veth))),
                        demanded(t3.reply(), failed, io),
                    ),
                }
            }
        },
    }
}

fn drop_transit(own: &RealmOwnership, session: &mut Session) -> (r: FabricOutcome)
    ensures
        (final(session)@, r) == drop_transit_run(own@, old(session)@),
{
    let io = LinuxFabricError::Storage;
    let failed = LinuxFabricError::CommandFailed;
    let mark = decimal_of(own.public_mark as u128);
    let table = decimal_of(own.public_route_table as u128);
    match session.query(rule_list(), io) {
        Err(stop) => return Err(stop),
        Ok((listed, listing)) => {
            let rule = join("fwmark ", mark.as_str());
            if listed && text_contains(listing.as_str(), rule.as_str()) {
                match session.demand(
                    Effect::Run(rule_del(mark.as_str(), table.as_str())),
                    failed,
                    io,
                ) {
                    Err(stop) => return Err(stop),
                    Ok(_) => {},
                }
            }
        },
    }
    match session.query(link_show(own.public_host_veth.as_str()), io) {
        Err(stop) => Err(stop),
        Ok((exists, _)) => {
            if !exists {
                return Ok(());
            }
            session.demand(Effect::Run(link_del(own.public_host_veth.as_str())), failed, io)
        },
    }
}

/// Changes the host to no public addresses of a realm.
pub open spec fn clear_public_run(
    own: RealmOwnershipView,
    uplink: Seq<char>,
    plan: NamespacedRoutedFabricPlanView,
    t: Trace,
) -> (Trace, FabricOutcome) {
    let (t1, r1) = drop_root_table_run(provider_name_text("u"@, plan.realm_id, "public"@), t);
    if r1 is Err {
        (t1, r1)
    } else {
        let (t2, r2) = drop_ns_table_run(
            own.namespace,
            provider_name_text("n"@, plan.realm_id, "public"@),
            "o3k-p11-public"@,
            t1,
        );
        if r2 is Err {
            (t2, r2)
        } else {
            let (t3, r3) = unroute_run(own, uplink, plan.public_bindings, t2);
            if r3 is Err {
                (t3, r3)
            } else {
                drop_transit_run(own, t3)
            }
        }
    }
}

/// Removes the public addresses of a realm.
pub open spec fn remove_public_run(
    cfg: LinuxFabricConfigView,
    st: ProviderStateView,
    plan: NamespacedRoutedFabricPlanView,
    t: Trace,
) -> (ProviderStateView, Trace, FabricOutcome) {
    let io = LinuxFabricError::Storage;
    match st.realm(plan.realm_id) {
        Some(own) if own.public_fingerprint.len() > 0 => match cfg.public_uplink {
            None => (st, t, Err(Stop::Failed(LinuxFabricError::InvalidConfiguration))),
            Some(uplink) => {
                let (t1, r1) = clear_public_run(own, uplink, plan, t);
                if r1 is Err {
                    (st, t1, r1)
                } else {
                    (
                        st.with_realm(without_public(own)),
                        t1.after(EffectView::Save),
                        demanded(t1.reply(), io, io),
                    )
                }
            },
        },
        _ => (st, t, Ok(())),
    }
}

impl LinuxFabricBackend {
    /// Performs [`remove_public_run`].
    pub fn remove_public(&mut self, plan: &NamespacedRoutedFabricPlan, session: &mut Session) -> (r:
        FabricOutcome)
        ensures
            (final(self)@.state, final(session)@, r) == remove_public_run(
                old(self)@.config,
                old(self)@.state,
                plan@,
                old(session)@,
            ),
            final(self)@ == old(self)@.with_state(final(self)@.state),
    {
        let mut own = match find_id(&self.state.realms, plan.realm_id) {
            None => return Ok(()),
            Some(i) => self.state.realms[i].copy(),
        };
        if own.public_fingerprint.as_str().is_empty() {
            return Ok(());
        }
        match &self.config.public_uplink {
            None => return Err(Stop::Failed(LinuxFabricError::InvalidConfiguration)),
            Some(uplink) => {
                let root = public_root_table_name(plan.realm_id);
                let realm = public_realm_table_name(plan.realm_id);
                match drop_root_table(root.as_str(), session) {
                    Err(stop) => return Err(stop),
                    Ok(_) => {},
                }
                match drop_ns_table(
                    own.namespace.as_str(),
                    realm.as_str(),
                    "o3k-p11-public",
                    session,
                ) {
                    Err(stop) => return Err(stop),
                    Ok(_) => {},
                }
                match unroute(&own, uplink.as_str(), &plan.public_bindings, session) {
                    Err(stop) => return Err(stop),
                    Ok(_) => {},
                }
                match drop_transit(&own, session) {
                    Err(stop) => return Err(stop),
                    Ok(_) => {},
                }
            },
        }
        own.public_generation = 0;
        own.public_fingerprint = String::new();
        own.public_mark = 0;
        own.public_route_table = 0;
        own.public_addresses = Vec::new();
        put_id(&mut self.state.realms, own);
        session.demand(Effect::Save, LinuxFabricError::Storage, LinuxFabricError::Storage)
    }

    fn realize_public(
        &mut self,
        own: &RealmOwnership,
        uplink: &str,
        plan: &NamespacedRoutedFabricPlan,
        session: &mut Session,
    ) -> (r: FabricOutcome)
        requires
            bindings_valid(plan@.public_bindings, plan@.directory.entries),
        ensures
            (final(self)@.state, final(session)@, r) == realize_public_run(
                old(self)@.state,
                own@,
                uplink@,
                plan@,
                old(session)@,
            ),
            final(self)@ == old(self)@.with_state(final(self)@.state),
    {
        let io = LinuxFabricError::Storage;
        let root = public_root_table_name(plan.realm_id);
        let realm = public_realm_table_name(plan.realm_id);
        let root_table = match session.query(table_list(root.as_str()), io) {
            Err(stop) => return Err(stop),
            Ok((exists, listing)) => {
                if exists && !text_contains(listing.as_str(), "o3k-p11-public") {
                    return Err(Stop::Failed(LinuxFabricError::ForeignState));
                }
                exists
            },
        };
        let list = ns_table_list(own.namespace.as_str(), realm.as_str());
        let realm_table = match session.query(list, io) {
            Err(stop) => return Err(stop),
            Ok((exists, listing)) => {
                if exists && !text_contains(listing.as_str(), "o3k-p11-public") {
                    return Err(Stop::Failed(LinuxFabricError::ForeignState));
                }
                exists
            },
        };
        let next = set_public(own, plan);
        put_id(&mut self.state.realms, next.copy());
        match session.demand(Effect::Save, io, io) {
            Err(stop) => return Err(stop),
            Ok(_) => {},
        }
        build_public(&next, uplink, plan, root_table, realm_table, session)
    }

    /// Performs [`ensure_public_run`].
    pub fn ensure_public(&mut self, plan: &NamespacedRoutedFabricPlan, session: &mut Session) -> (r:
        FabricOutcome)
        ensures
            (final(self)@.state, final(session)@, r) == ensure_public_run(
                old(self)@.config,
                old(self)@.state,
                plan@,
                old(session)@,
            ),
            final(self)@ == old(self)@.with_state(final(self)@.state),
    {
        assert(plan@.public_bindings.len() == plan.public_bindings@.len());
        if plan.public_bindings.len() == 0 {
            return self.remove_public(plan, session);
        }
        let uplink = match &self.config.public_uplink {
            None => return Err(Stop::Failed(LinuxFabricError::InvalidConfiguration)),
            Some(uplink) => uplink.clone(),
        };
        match validate_public_plan(plan) {
            Err(e) => return Err(Stop::Failed(e)),
            Ok(_) => {},
        }
        if address_is_taken(&self.state.realms, plan.realm_id, &plan.public_bindings) {
            return Err(Stop::Failed(LinuxFabricError::OwnershipConflict));
        }
        let own = match find_id(&self.state.realms, plan.realm_id) {
            None => return Err(Stop::Failed(LinuxFabricError::CorruptState)),
            Some(i) => self.state.realms[i].copy(),
        };
        self.realize_public(&own, uplink.as_str(), plan, session)
    }
}

} // verus!
