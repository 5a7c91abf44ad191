//! Public addresses of endpoints on the host's uplink.
//!
//! The host holds one table of translation rules for all realms. What was realized is recorded
//! durably; an address or a table that is not recorded is foreign and never adopted.
use crate::domain::OwnedBinding;
use crate::fabric::commands::{
    chain_add, chain_add_cmd, table_add, table_add_cmd, table_del, table_del_cmd, table_list,
    table_list_cmd,
};
use crate::identity::{id_text, id_text_of};
use crate::ipv4::{ipv4_of, ipv4_text};
use crate::json::{quoted, quoted_of};
use crate::model::{copy_plain, views};
use crate::plan::types::{NetworkPlanIntent, NetworkPlanIntentView};
use crate::session::{
    attempted, command, demanded, lemma_run_all_extends, queried, run_all, Command, CommandView,
    Commands, Effect, EffectView, ReplyView, Session, Stop, Trace,
};
use crate::text::{
    chars_of, contains, head, head_of, join, rows, spells, text_contains, words, words_of,
};
use vstd::prelude::*;
use vstd::string::StringExecFns;

verus! {

/// A way in which realizing public addresses fails.
#[derive(Clone, Copy, Debug, PartialEq, Eq, Structural)]
pub enum PublicAddressError {
    InvalidPool,
    MissingEndpoint,
    MissingRealm,
    AssociationConflict,
    ForeignProviderState,
    ProviderCommandFailed,
    CorruptState,
    Storage,
}

/// How an operation on public addresses ends.
pub type PublicOutcome = Result<(), Stop<PublicAddressError>>;

/// The public addresses of a host.
#[derive(Clone, Debug, PartialEq, Eq)]
pub struct PublicAddressRealizer {
    pub uplink: String,
    pub owned: bool,
    pub owned_addresses: Vec<u32>,
    pub owned_bindings: Vec<OwnedBinding>,
}

/// The view of [`PublicAddressRealizer`].
#[verifier::ext_equal]
pub struct PublicAddressRealizerView {
    pub uplink: Seq<char>,
    pub owned: bool,
    pub owned_addresses: Seq<u32>,
    pub owned_bindings: Seq<OwnedBinding>,
}

impl View for PublicAddressRealizer {
    type V = PublicAddressRealizerView;

    open spec fn view(&self) -> PublicAddressRealizerView {
        PublicAddressRealizerView {
            uplink: self.uplink@,
            owned: self.owned,
            owned_addresses: self.owned_addresses@,
            owned_bindings: self.owned_bindings@,
        }
    }
}

// ---------------------------------------------------------------------------
// Records
// ---------------------------------------------------------------------------

/// Whether bindings have identities, and no endpoint of a realm and no public address occurs
/// twice.
pub open spec fn bindings_sound(bs: Seq<OwnedBinding>) -> bool {
    &&& forall|i: int|
        0 <= i < bs.len() ==> (#[trigger] bs[i]).realm_id != 0 && bs[i].endpoint_id != 0
    &&& forall|i: int, j: int|
        0 <= i < j < bs.len() ==> (#[trigger] bs[i]).public_address != (
        #[trigger] bs[j]).public_address && !(bs[i].realm_id == bs[j].realm_id
            && bs[i].endpoint_id == bs[j].endpoint_id)
}

fn bindings_are_sound(bs: &Vec<OwnedBinding>) -> (r: bool)
    ensures
        r == bindings_sound(bs@),
{
    for i in 0..bs.len()
        invariant
            forall|k: int|
                0 <= k < i ==> (#[trigger] bs@[k]).realm_id != 0 && bs@[k].endpoint_id != 0,
            forall|k: int, j: int|
                0 <= k < j < i ==> (#[trigger] bs@[k]).public_address != (
                #[trigger] bs@[j]).public_address && !(bs@[k].realm_id == bs@[j].realm_id
                    && bs@[k].endpoint_id == bs@[j].endpoint_id),
    {
        let b = bs[i];
        if b.realm_id == 0 || b.endpoint_id == 0 {
            assert(bs@[i as int] == b);
            return false;
        }
        for k in 0..i
            invariant
                i < bs.len(),
                b == bs@[i as int],
                forall|j: int|
                    0 <= j < k ==> (#[trigger] bs@[j]).public_address != b.public_address && !(
                    bs@[j].realm_id == b.realm_id && bs@[j].endpoint_id == b.endpoint_id),
        {
            let o = bs[k];
            if o.public_address == b.public_address || (o.realm_id == b.realm_id && o.endpoint_id
                == b.endpoint_id) {
                assert(bs@[k as int] == o);
                return false;
            }
        }
    }
    true
}

impl PublicAddressRealizer {
    /// Opens the public addresses of a host with what was recorded of them.
    pub fn open(
        uplink: String,
        owned: bool,
        owned_addresses: Vec<u32>,
        owned_bindings: Vec<OwnedBinding>,
    ) -> (r: Result<PublicAddressRealizer, PublicAddressError>)
        ensures
            match r {
                Err(e) => e == (if uplink@.len() == 0 || vstd::utf8::encode_utf8(uplink@).len()
                    > 15 {
                    PublicAddressError::InvalidPool
                } else {
                    PublicAddressError::CorruptState
                }) && (uplink@.len() == 0 || vstd::utf8::encode_utf8(uplink@).len() > 15
                    || !bindings_sound(owned_bindings@)),
                Ok(p) => uplink@.len() > 0 && vstd::utf8::encode_utf8(uplink@).len() <= 15
                    && bindings_sound(owned_bindings@) && p@ == (PublicAddressRealizerView {
                    uplink: uplink@,
                    owned,
                    owned_addresses: owned_addresses@,
                    owned_bindings: owned_bindings@,
                }),
            },
    {
        if uplink.as_str().is_empty() || uplink.as_str().as_bytes().len() > 15 {
            return Err(PublicAddressError::InvalidPool);
        }
        if !bindings_are_sound(&owned_bindings) {
            return Err(PublicAddressError::CorruptState);
        }
        Ok(PublicAddressRealizer { uplink, owned, owned_addresses, owned_bindings })
    }
}

// ---------------------------------------------------------------------------
// What a plan asks for
// ---------------------------------------------------------------------------

/// The address that the last assignment among the first `n` intents gives an endpoint.
pub open spec fn assigned(intents: Seq<NetworkPlanIntentView>, endpoint: u128, n: int) -> Option<u32>
    decreases n,
{
    if n <= 0 {
        None
    } else {
        match intents[n - 1] {
            NetworkPlanIntentView::AddressAssignment { endpoint_id, address, .. } => if endpoint_id
                == endpoint {
                Some(address)
            } else {
                assigned(intents, endpoint, n - 1)
            },
            _ => assigned(intents, endpoint, n - 1),
        }
    }
}

fn assigned_of(intents: &Vec<NetworkPlanIntent>, endpoint: u128) -> (r: Option<u32>)
    ensures
        r == assigned(views(intents@), endpoint, views(intents@).len() as int),
{
    let ghost vs = views(intents@);
    let mut found: Option<u32> = None;
    for i in 0..intents.len()
        invariant
            vs == views(intents@),
            found == assigned(vs, endpoint, i as int),
    {
        assert(vs[i as int] == intents@[i as int]@);
        match &intents[i] {
            NetworkPlanIntent::AddressAssignment { endpoint_id, address, .. } => {
                if *endpoint_id == endpoint {
                    found = Some(*address);
                }
            },
            _ => {},
        }
    }
    found
}

/// Whether the intent at `i` binds a public address.
pub open spec fn is_binding(intents: Seq<NetworkPlanIntentView>, i: int) -> bool {
    intents[i] is PublicAddressBinding
}

/// Whether a plan binds public addresses at all.
pub open spec fn binds_any(intents: Seq<NetworkPlanIntentView>) -> bool {
    exists|i: int| 0 <= i < intents.len() && #[trigger] is_binding(intents, i)
}

/// Whether a plan binds a public address to an endpoint.
pub open spec fn binds_endpoint(intents: Seq<NetworkPlanIntentView>, endpoint: u128) -> bool {
    exists|i: int|
        0 <= i < intents.len() && #[trigger] is_binding(intents, i)
            && intents[i]->PublicAddressBinding_0.endpoint_id == endpoint
}

/// Whether a plan is for the realm `id`: some intent names it and none names another.
pub open spec fn is_plan_realm(intents: Seq<NetworkPlanIntentView>, id: u128) -> bool {
    &&& id != 0
    &&& exists|i: int|
        0 <= i < intents.len() && (#[trigger] intents[i]) is AddressRealm
            && intents[i]->AddressRealm_realm_id == id
    &&& forall|i: int|
        0 <= i < intents.len() && (#[trigger] intents[i]) is AddressRealm
            ==> intents[i]->AddressRealm_realm_id == id
}

/// The realm of a plan.
pub open spec fn plan_realm(intents: Seq<NetworkPlanIntentView>) -> Option<u128> {
    if exists|id: u128| is_plan_realm(intents, id) {
        Some(choose|id: u128| is_plan_realm(intents, id))
    } else {
        None
    }
}

fn plan_realm_of(intents: &Vec<NetworkPlanIntent>) -> (r: Option<u128>)
    ensures
        r == plan_realm(views(intents@)),
{
    let ghost vs = views(intents@);
    let mut found: Option<u128> = None;
    for i in 0..intents.len()
        invariant
            vs == views(intents@),
            match found {
                Some(id) => (exists|k: int|
                    0 <= k < i && (#[trigger] vs[k]) is AddressRealm
                        && vs[k]->AddressRealm_realm_id == id) && (forall|k: int|
                    0 <= k < i && (#[trigger] vs[k]) is AddressRealm
                        ==> vs[k]->AddressRealm_realm_id == id),
                None => forall|k: int| 0 <= k < i ==> !((#[trigger] vs[k]) is AddressRealm),
            },
    {
        assert(vs[i as int] == intents@[i as int]@);
        match &intents[i] {
            NetworkPlanIntent::AddressRealm { realm_id, .. } => {
                match found {
                    Some(id) => {
                        if id != *realm_id {
                            proof {
                                let k = choose|k: int|
                                    0 <= k < i && (#[trigger] vs[k]) is AddressRealm
                                        && vs[k]->AddressRealm_realm_id == id;
                                assert forall|x: u128| !is_plan_realm(vs, x) by {
                                    assert(vs[k] is AddressRealm);
                                    assert(vs[i as int] is AddressRealm);
                                }
                            }
                            return None;
                        }
                    },
                    None => {
                        found = Some(*realm_id);
                        assert(vs[i as int] is AddressRealm);
                    },
                }
            },
            _ => {},
        }
    }
    match found {
        Some(id) => {
            if id == 0 {
                assert forall|x: u128| !is_plan_realm(vs, x) by {
                    let k = choose|k: int|
                        0 <= k < vs.len() && (#[trigger] vs[k]) is AddressRealm
                            && vs[k]->AddressRealm_realm_id == id;
                    assert(vs[k] is AddressRealm);
                }
                return None;
            }
            proof {
                assert(is_plan_realm(vs, id));
                let c = choose|x: u128| is_plan_realm(vs, x);
                let k = choose|k: int|
                    0 <= k < vs.len() && (#[trigger] vs[k]) is AddressRealm
                        && vs[k]->AddressRealm_realm_id == c;
                assert(vs[k]->AddressRealm_realm_id == id);
            }
            Some(id)
        },
        None => {
            assert forall|x: u128| !is_plan_realm(vs, x) by {}
            None
        },
    }
}

// ---------------------------------------------------------------------------
// Merging what a plan asks for
// ---------------------------------------------------------------------------

/// The place of the binding of an endpoint of a realm, from the one at `i` on.
pub open spec fn binding_place(bs: Seq<OwnedBinding>, realm: u128, endpoint: u128, i: int) -> Option<
    int,
>
    decreases bs.len() - i,
{
    if i < 0 || i >= bs.len() {
        None
    } else if bs[i].realm_id == realm && bs[i].endpoint_id == endpoint {
        Some(i)
    } else {
        binding_place(bs, realm, endpoint, i + 1)
    }
}

/// Whether some binding has a public address.
pub open spec fn address_bound(bs: Seq<OwnedBinding>, public: u32) -> bool {
    exists|i: int| 0 <= i < bs.len() && (#[trigger] bs[i]).public_address == public
}

/// The bindings with one put among them: an endpoint keeps its public address, and a public
/// address its endpoint.
pub open spec fn put_binding(bs: Seq<OwnedBinding>, b: OwnedBinding) -> Option<Seq<OwnedBinding>> {
    match binding_place(bs, b.realm_id, b.endpoint_id, 0) {
        Some(k) => if bs[k].public_address == b.public_address {
            Some(bs.update(k, b))
        } else {
            None
        },
        None => if address_bound(bs, b.public_address) {
            None
        } else {
            Some(bs.push(b))
        },
    }
}

fn put_binding_of(bs: &mut Vec<OwnedBinding>, b: OwnedBinding) -> (r: bool)
    ensures
        match put_binding(old(bs)@, b) {
            Some(more) => r && final(bs)@ == more,
            None => !r,
        },
{
    let ghost start = bs@;
    let n: usize = bs.len();
    for i in 0..n
        invariant
            bs@ == start,
            n == bs.len(),
            start == old(bs)@,
            binding_place(start, b.realm_id, b.endpoint_id, 0) == binding_place(
                start,
                b.realm_id,
                b.endpoint_id,
                i as int,
            ),
    {
        if bs[i].realm_id == b.realm_id && bs[i].endpoint_id == b.endpoint_id {
            if bs[i].public_address != b.public_address {
                return false;
            }
            bs.set(i, b);
            return true;
        }
    }
    for i in 0..n
        invariant
            bs@ == start,
            n == bs.len(),
            start == old(bs)@,
            binding_place(start, b.realm_id, b.endpoint_id, 0) is None,
            forall|k: int| 0 <= k < i ==> (#[trigger] start[k]).public_address != b.public_address,
    {
        if bs[i].public_address == b.public_address {
            assert(start[i as int].public_address == b.public_address);
            return false;
        }
    }
    bs.push(b);
    true
}

/// The bindings with those that a plan asks for put among them, from its intent at `i` on.
pub open spec fn merge_bindings(
    bs: Seq<OwnedBinding>,
    realm: u128,
    intents: Seq<NetworkPlanIntentView>,
    i: int,
) -> Result<Seq<OwnedBinding>, PublicAddressError>
    decreases intents.len() - i,
{
    if i < 0 || i >= intents.len() {
        Ok(bs)
    } else {
        match intents[i] {
            NetworkPlanIntentView::PublicAddressBinding(p) => match assigned(
                intents,
                p.endpoint_id,
                intents.len() as int,
            ) {
                None => Err(PublicAddressError::MissingEndpoint),
                Some(private_address) => match put_binding(
                    bs,
                    OwnedBinding {
                        realm_id: realm,
                        endpoint_id: p.endpoint_id,
                        private_address,
                        public_address: p.public_address,
                    },
                ) {
                    None => Err(PublicAddressError::AssociationConflict),
                    Some(more) => merge_bindings(more, realm, intents, i + 1),
                },
            },
            _ => merge_bindings(bs, realm, intents, i + 1),
        }
    }
}

fn merge_bindings_of(bs: &mut Vec<OwnedBinding>, realm: u128, intents: &Vec<NetworkPlanIntent>) -> (r:
    Option<PublicAddressError>)
    ensures
        match merge_bindings(old(bs)@, realm, views(intents@), 0) {
            Ok(more) => r is None && final(bs)@ == more,
            Err(e) => r == Some(e),
        },
{
    let ghost vs = views(intents@);
    let ghost start = bs@;
    for i in 0..intents.len()
        invariant
            vs == views(intents@),
            start == old(bs)@,
            merge_bindings(start, realm, vs, 0) == merge_bindings(bs@, realm, vs, i as int),
    {
        assert(vs[i as int] == intents@[i as int]@);
        match &intents[i] {
            NetworkPlanIntent::PublicAddressBinding(p) => {
                let private_address: u32 = match assigned_of(intents, p.endpoint_id) {
                    None => return Some(PublicAddressError::MissingEndpoint),
                    Some(a) => a,
                };
                let b = OwnedBinding {
                    realm_id: realm,
                    endpoint_id: p.endpoint_id,
                    private_address,
                    public_address: p.public_address,
                };
                if !put_binding_of(bs, b) {
                    return Some(PublicAddressError::AssociationConflict);
                }
            },
            _ => {},
        }
    }
    None
}

/// Whether two neighbouring bindings have the same public address.
pub open spec fn neighbours_clash(bs: Seq<OwnedBinding>) -> bool {
    exists|i: int, j: int|
        0 <= i < bs.len() && j == i + 1 && j < bs.len() && (#[trigger] bs[i]).public_address == (
        #[trigger] bs[j]).public_address
}

fn do_neighbours_clash(bs: &Vec<OwnedBinding>) -> (r: bool)
    ensures
        r == neighbours_clash(bs@),
{
    let mut i: usize = 0;
    while i + 1 < bs.len()
        invariant
            i == 0 || i < bs.len(),
            forall|k: int, j: int|
                0 <= k < i && j == k + 1 && j < bs@.len() ==> (#[trigger] bs@[k]).public_address
                    != (#[trigger] bs@[j]).public_address,
        decreases bs.len() - i,
    {
        if bs[i].public_address == bs[i + 1].public_address {
            assert(bs@[i as int].public_address == bs@[i + 1].public_address);
            return true;
        }
        i = i + 1;
    }
    false
}

// ---------------------------------------------------------------------------
// Addresses on the uplink
// ---------------------------------------------------------------------------

/// Whether a listing of a link's addresses holds an address, with or without a length behind it.
pub open spec fn is_present(output: Seq<char>, addr: u32) -> bool {
    exists|i: int|
        0 <= i < words(output).len() && head(#[trigger] words(output)[i], '/') == ipv4_text(addr)
}

/// Decides [`is_present`].
pub fn address_present(output: &str, addr: u32) -> (r: bool)
    ensures
        r == is_present(output@, addr),
{
    let w = words_of(&chars_of(output));
    let text = ipv4_of(addr);
    let ghost ws = words(output@);
    assert(rows(w@).len() == w@.len());
    for i in 0..w.len()
        invariant
            rows(w@) == ws,
            ws == words(output@),
            ws.len() == w@.len(),
            text@ == ipv4_text(addr),
            forall|k: int| 0 <= k < i ==> head(#[trigger] ws[k], '/') != ipv4_text(addr),
    {
        assert(ws[i as int] == w@[i as int]@);
        let first = head_of(&w[i], '/');
        if spells(&first, text.as_str()) {
            return true;
        }
    }
    false
}

/// The place of an address in an ascending list.
pub open spec fn address_slot(s: Seq<u32>, a: u32) -> int
    decreases s.len(),
{
    if s.len() == 0 || s[0] >= a {
        0
    } else {
        1 + address_slot(s.drop_first(), a)
    }
}

/// An ascending list of addresses with one put among them.
pub open spec fn put_address(s: Seq<u32>, a: u32) -> Seq<u32> {
    let n = address_slot(s, a);
    if n < s.len() && s[n] == a {
        s
    } else {
        s.insert(n, a)
    }
}

/// The public addresses of the first `n` bindings, ascending and each once.
pub open spec fn public_addresses(bs: Seq<OwnedBinding>, n: int) -> Seq<u32>
    decreases n,
{
    if n <= 0 {
        Seq::empty()
    } else {
        put_address(public_addresses(bs, n - 1), bs[n - 1].public_address)
    }
}

proof fn lemma_address_slot_at(s: Seq<u32>, a: u32, n: int)
    requires
        0 <= n <= s.len(),
        forall|k: int| 0 <= k < n ==> s[k] < a,
        n < s.len() ==> s[n] >= a,
    ensures
        address_slot(s, a) == n,
    decreases n,
{
    if n > 0 {
        let rest = s.drop_first();
        assert forall|k: int| 0 <= k < n - 1 implies rest[k] < a by {
            assert(rest[k] == s[k + 1]);
        }
        lemma_address_slot_at(rest, a, n - 1);
    }
}

/// The public addresses of bindings are exactly those that occur, in ascending order.
pub proof fn lemma_public_addresses(bs: Seq<OwnedBinding>, n: int)
    requires
        0 <= n <= bs.len(),
    ensures
        forall|i: int, j: int|
            0 <= i < j < public_addresses(bs, n).len() ==> public_addresses(bs, n)[i]
                < public_addresses(bs, n)[j],
        forall|a: u32|
            public_addresses(bs, n).contains(a) <==> exists|i: int|
                0 <= i < n && (#[trigger] bs[i]).public_address == a,
    decreases n,
{
    if n > 0 {
        lemma_public_addresses(bs, n - 1);
        let s = public_addresses(bs, n - 1);
        let a = bs[n - 1].public_address;
        let r = public_addresses(bs, n);
        lemma_address_slot(s, a);
        let m = address_slot(s, a);
        if !(m < s.len() && s[m] == a) {
            assert forall|i: int, j: int| 0 <= i < j < r.len() implies r[i] < r[j] by {
                if i == m {
                    assert(r[j] == s[j - 1]);
                } else if j == m {
                    assert(r[i] == s[i]);
                } else {
                    let si = if i < m {
                        i
                    } else {
                        i - 1
                    };
                    let sj = if j < m {
                        j
                    } else {
                        j - 1
                    };
                    assert(r[i] == s[si] && r[j] == s[sj]);
                }
            }
        }
        assert forall|x: u32|
            r.contains(x) <==> exists|i: int| 0 <= i < n && (#[trigger] bs[i]).public_address == x by {
            if m < s.len() && s[m] == a {
            } else {
                assert(r[m] == a);
                if s.contains(x) {
                    let k = choose|k: int| 0 <= k < s.len() && s[k] == x;
                    let rk = if k < m {
                        k
                    } else {
                        k + 1
                    };
                    assert(r[rk] == x);
                }
                if r.contains(x) && x != a {
                    let k = choose|k: int| 0 <= k < r.len() && r[k] == x;
                    let sk = if k < m {
                        k
                    } else {
                        k - 1
                    };
                    assert(s[sk] == x);
                    assert(s.contains(x));
                }
            }
            if s.contains(x) {
                let i = choose|i: int| 0 <= i < n - 1 && (#[trigger] bs[i]).public_address == x;
                assert(0 <= i < n);
            }
            if exists|i: int| 0 <= i < n && (#[trigger] bs[i]).public_address == x {
                let i = choose|i: int| 0 <= i < n && (#[trigger] bs[i]).public_address == x;
                if i < n - 1 {
                    assert(s.contains(x));
                }
            }
            if x == a {
                assert(bs[n - 1].public_address == x);
            }
        }
    }
}

proof fn lemma_address_slot(s: Seq<u32>, a: u32)
    ensures
        0 <= address_slot(s, a) <= s.len(),
        forall|k: int| 0 <= k < address_slot(s, a) ==> s[k] < a,
        address_slot(s, a) < s.len() ==> s[address_slot(s, a)] >= a,
    decreases s.len(),
{
    if s.len() > 0 && s[0] < a {
        let rest = s.drop_first();
        lemma_address_slot(rest, a);
        let n = address_slot(s, a);
        assert forall|k: int| 0 <= k < n implies s[k] < a by {
            if k > 0 {
                assert(s[k] == rest[k - 1]);
            }
        }
        if n < s.len() {
            assert(s[n] == rest[n - 1]);
        }
    }
}

fn public_addresses_of(bs: &Vec<OwnedBinding>) -> (r: Vec<u32>)
    ensures
        r@ == public_addresses(bs@, bs@.len() as int),
{
    let mut out: Vec<u32> = Vec::new();
    for i in 0..bs.len()
        invariant
            out@ == public_addresses(bs@, i as int),
    {
        let a: u32 = bs[i].public_address;
        let ghost s = out@;
        let mut n: usize = 0;
        while n < out.len() && out[n] < a
            invariant
                n <= out.len(),
                out@ == s,
                forall|k: int| 0 <= k < n ==> s[k] < a,
            decreases out.len() - n,
        {
            n = n + 1;
        }
        proof {
            lemma_address_slot_at(s, a, n as int);
        }
        if n < out.len() && out[n] == a {
        } else {
            out.insert(n, a);
        }
    }
    out
}

fn list_has(v: &Vec<u32>, a: u32) -> (r: bool)
    ensures
        r == v@.contains(a),
{
    for i in 0..v.len()
        invariant
            forall|k: int| 0 <= k < i ==> v@[k] != a,
    {
        if v[i] == a {
            assert(v@[i as int] == a);
            return true;
        }
    }
    false
}

// ---------------------------------------------------------------------------
// Commands
// ---------------------------------------------------------------------------

/// Shows the addresses of a link.
pub open spec fn addr_show_cmd(dev: Seq<char>) -> CommandView {
    command("ip"@).arg("-4"@).arg("addr"@).arg("show"@).arg("dev"@).arg(dev)
}

fn addr_show(dev: &str) -> (r: Command)
    ensures
        r@ == addr_show_cmd(dev@),
{
    Command::new("ip").arg("-4").arg("addr").arg("show").arg("dev").arg(dev)
}

/// Gives a link a public address, or takes it away.
pub open spec fn addr_change_cmd(op: Seq<char>, addr: u32, dev: Seq<char>) -> CommandView {
    command("ip"@).arg("addr"@).arg(op).arg(ipv4_text(addr) + "/32"@).arg("dev"@).arg(dev)
}

fn addr_change(op: &str, addr: u32, dev: &str) -> (r: Command)
    ensures
        r@ == addr_change_cmd(op@, addr, dev@),
{
    let cidr = join(ipv4_of(addr).as_str(), "/32");
    Command::new("ip").arg("addr").arg(op).arg(cidr.as_str()).arg("dev").arg(dev)
}

/// The comment of the rules of a binding.
pub open spec fn owned_comment(b: OwnedBinding) -> Seq<char> {
    quoted("o3k-p9-public"@ + ":"@ + id_text(b.realm_id) + ":"@ + id_text(b.endpoint_id))
}

/// The rule that hands packets to a public address to its endpoint.
pub open spec fn owned_dnat_cmd(uplink: Seq<char>, b: OwnedBinding) -> CommandView {
    command("nft"@).arg("add"@).arg("rule"@).arg("ip"@).arg("o3k_public"@).arg("prerouting"@).arg(
        "iifname"@,
    ).arg(quoted(uplink)).arg("ip"@).arg("daddr"@).arg(ipv4_text(b.public_address)).arg(
        "dnat"@,
    ).arg("to"@).arg(ipv4_text(b.private_address)).arg("comment"@).arg(owned_comment(b))
}

/// The rule that sends the packets of an endpoint from its public address.
pub open spec fn owned_snat_cmd(uplink: Seq<char>, b: OwnedBinding) -> CommandView {
    command("nft"@).arg("add"@).arg("rule"@).arg("ip"@).arg("o3k_public"@).arg("postrouting"@).arg(
        "ip"@,
    ).arg("saddr"@).arg(ipv4_text(b.private_address)).arg("oifname"@).arg(quoted(uplink)).arg(
        "snat"@,
    ).arg("to"@).arg(ipv4_text(b.public_address)).arg("comment"@).arg(owned_comment(b))
}

fn owned_comment_of(b: &OwnedBinding) -> (r: String)
    ensures
        r@ == owned_comment(*b),
{
    let mut text = "o3k-p9-public".to_owned();
    text.append(":");
    text.append(id_text_of(b.realm_id).as_str());
    text.append(":");
    text.append(id_text_of(b.endpoint_id).as_str());
    quoted_of(text.as_str())
}

fn owned_dnat(uplink: &str, b: &OwnedBinding) -> (r: Command)
    ensures
        r@ == owned_dnat_cmd(uplink@, *b),
{
    let link = quoted_of(uplink);
    let public = ipv4_of(b.public_address);
    let private = ipv4_of(b.private_address);
    let comment = owned_comment_of(b);
    Command::new("nft").arg("add").arg("rule").arg("ip").arg("o3k_public").arg("prerouting").arg(
        "iifname",
    ).arg(link.as_str()).arg("ip").arg("daddr").arg(public.as_str()).arg("dnat").arg("to").arg(
        private.as_str(),
    ).arg("comment").arg(comment.as_str())
}

fn owned_snat(uplink: &str, b: &OwnedBinding) -> (r: Command)
    ensures
        r@ == owned_snat_cmd(uplink@, *b),
{
    let link = quoted_of(uplink);
    let public = ipv4_of(b.public_address);
    let private = ipv4_of(b.private_address);
    let comment = owned_comment_of(b);
    Command::new("nft").arg("add").arg("rule").arg("ip").arg("o3k_public").arg("postrouting").arg(
        "ip",
    ).arg("saddr").arg(private.as_str()).arg("oifname").arg(link.as_str()).arg("snat").arg("to").arg(
        public.as_str(),
    ).arg("comment").arg(comment.as_str())
}

/// The commands that take away the addresses that are present and no longer wanted.
pub open spec fn withdraw_cmds(
    uplink: Seq<char>,
    addresses: Seq<u32>,
    kept: Seq<u32>,
    listing: Seq<char>,
) -> Seq<CommandView>
    decreases addresses.len(),
{
    if addresses.len() == 0 {
        Seq::empty()
    } else {
        let a = addresses.last();
        let before = withdraw_cmds(uplink, addresses.drop_last(), kept, listing);
        if !kept.contains(a) && is_present(listing, a) {
            before.push(addr_change_cmd("del"@, a, uplink))
        } else {
            before
        }
    }
}

fn withdraw_commands(uplink: &str, addresses: &Vec<u32>, kept: &Vec<u32>, listing: &str) -> (r:
    Commands)
    ensures
        r@ == withdraw_cmds(uplink@, addresses@, kept@, listing@),
{
    let mut out = Commands::none();
    assert(addresses@.take(0) =~= Seq::<u32>::empty());
    for i in 0..addresses.len()
        invariant
            out@ == withdraw_cmds(uplink@, addresses@.take(i as int), kept@, listing@),
    {
        assert(addresses@.take(i + 1).drop_last() =~= addresses@.take(i as int));
        let a: u32 = addresses[i];
        if !list_has(kept, a) && address_present(listing, a) {
            out = out.push(addr_change("del", a, uplink));
        }
    }
    assert(addresses@.take(addresses@.len() as int) =~= addresses@);
    out
}

/// The commands that add the wanted addresses that are not present.
pub open spec fn provide_cmds(uplink: Seq<char>, wanted: Seq<u32>, listing: Seq<char>) -> Seq<
    CommandView,
>
    decreases wanted.len(),
{
    if wanted.len() == 0 {
        Seq::empty()
    } else {
        let before = provide_cmds(uplink, wanted.drop_last(), listing);
        if is_present(listing, wanted.last()) {
            before
        } else {
            before.push(addr_change_cmd("add"@, wanted.last(), uplink))
        }
    }
}

/// The rules of bindings.
pub open spec fn rule_cmds(uplink: Seq<char>, bs: Seq<OwnedBinding>) -> Seq<CommandView>
    decreases bs.len(),
{
    if bs.len() == 0 {
        Seq::empty()
    } else {
        rule_cmds(uplink, bs.drop_last()).push(owned_dnat_cmd(uplink, bs.last())).push(
            owned_snat_cmd(uplink, bs.last()),
        )
    }
}

/// The commands that make the table of public addresses.
pub open spec fn translation_table_cmds(
    uplink: Seq<char>,
    bs: Seq<OwnedBinding>,
    wanted: Seq<u32>,
    listing: Seq<char>,
) -> Seq<CommandView> {
    (Seq::empty().push(table_add_cmd("o3k_public"@, quoted("o3k-p9-public"@))) + provide_cmds(
        uplink,
        wanted,
        listing,
    )).push(chain_add_cmd("o3k_public"@, "prerouting"@, "nat"@, "-100"@)).push(
        chain_add_cmd("o3k_public"@, "postrouting"@, "nat"@, "100"@),
    ) + rule_cmds(uplink, bs)
}

fn translation_table_commands(
    uplink: &str,
    bs: &Vec<OwnedBinding>,
    wanted: &Vec<u32>,
    listing: &str,
) -> (r: Commands)
    ensures
        r@ == translation_table_cmds(uplink@, bs@, wanted@, listing@),
{
    let mut out = Commands::none().push(
        table_add("o3k_public", quoted_of("o3k-p9-public").as_str()),
    );
    let ghost start = out@;
    assert(wanted@.take(0) =~= Seq::<u32>::empty());
    assert(start + provide_cmds(uplink@, wanted@.take(0), listing@) =~= start);
    for i in 0..wanted.len()
        invariant
            out@ == start + provide_cmds(uplink@, wanted@.take(i as int), listing@),
    {
        assert(wanted@.take(i + 1).drop_last() =~= wanted@.take(i as int));
        if !address_present(listing, wanted[i]) {
            out = out.push(addr_change("add", wanted[i], uplink));
        }
        assert(out@ =~= start + provide_cmds(uplink@, wanted@.take(i + 1), listing@));
    }
    assert(wanted@.take(wanted@.len() as int) =~= wanted@);
    out = out.push(chain_add("o3k_public", "prerouting", "nat", "-100")).push(
        chain_add("o3k_public", "postrouting", "nat", "100"),
    );
    let ghost middle = out@;
    assert(bs@.take(0) =~= Seq::<OwnedBinding>::empty());
    assert(middle + rule_cmds(uplink@, bs@.take(0)) =~= middle);
    for i in 0..bs.len()
        invariant
            out@ == middle + rule_cmds(uplink@, bs@.take(i as int)),
    {
        assert(bs@.take(i + 1).drop_last() =~= bs@.take(i as int));
        out = out.push(owned_dnat(uplink, &bs[i])).push(owned_snat(uplink, &bs[i]));
        assert(out@ =~= middle + rule_cmds(uplink@, bs@.take(i + 1)));
    }
    assert(bs@.take(bs@.len() as int) =~= bs@);
    out
}

// ---------------------------------------------------------------------------
// Realizing
// ---------------------------------------------------------------------------

/// Whether a wanted address is on the uplink without being recorded.
pub open spec fn foreign_address(wanted: Seq<u32>, owned: Seq<u32>, listing: Seq<char>) -> bool {
    exists|i: int|
        0 <= i < wanted.len() && is_present(listing, #[trigger] wanted[i]) && !owned.contains(
            wanted[i],
        )
}

fn has_foreign_address(wanted: &Vec<u32>, owned: &Vec<u32>, listing: &str) -> (r: bool)
    ensures
        r == foreign_address(wanted@, owned@, listing@),
{
    for i in 0..wanted.len()
        invariant
            forall|k: int|
                0 <= k < i ==> !(is_present(listing@, #[trigger] wanted@[k]) && !owned@.contains(
                    wanted@[k],
                )),
    {
        if address_present(listing, wanted[i]) && !list_has(owned, wanted[i]) {
            assert(is_present(listing@, wanted@[i as int]));
            return true;
        }
    }
    false
}

/// Makes new bindings durable.
pub open spec fn record_run(
    p: PublicAddressRealizerView,
    bs: Seq<OwnedBinding>,
    wanted: Seq<u32>,
    t: Trace,
) -> (PublicAddressRealizerView, Trace, PublicOutcome) {
    let io = PublicAddressError::Storage;
    let t1 = t.after(EffectView::StoreMarker);
    let r1 = demanded(t.reply(), io, io);
    if r1 is Err {
        (p, t1, r1)
    } else {
        let p1 = PublicAddressRealizerView { owned: true, ..p };
        let t2 = t1.after(EffectView::StoreAddresses(wanted));
        let r2 = demanded(t1.reply(), io, io);
        if r2 is Err {
            (p1, t2, r2)
        } else {
            let t3 = t2.after(EffectView::StoreBindings(bs));
            let r3 = demanded(t2.reply(), io, io);
            if r3 is Err {
                (p1, t3, r3)
            } else {
                (
                    PublicAddressRealizerView { owned_addresses: wanted, owned_bindings: bs, ..p1 },
                    t3,
                    Ok(()),
                )
            }
        }
    }
}

/// Replaces the table of public addresses by that of the given bindings; without bindings the
/// record is forgotten.
pub open spec fn rebuild_run(
    p: PublicAddressRealizerView,
    bs: Seq<OwnedBinding>,
    wanted: Seq<u32>,
    listing: Seq<char>,
    table_exists: bool,
    t: Trace,
) -> (PublicAddressRealizerView, Trace, PublicOutcome) {
    let failed = PublicAddressError::ProviderCommandFailed;
    let io = PublicAddressError::Storage;
    let (t1, r1) = if table_exists {
        (
            t.after(EffectView::Run(table_del_cmd("o3k_public"@))),
            demanded(t.reply(), failed, io),
        )
    } else {
        (t, Ok(()))
    };
    if r1 is Err {
        (p, t1, r1)
    } else if bs.len() == 0 {
        let r2 = attempted::<PublicAddressError>(t1.reply());
        (
            if r2 is Ok {
                released(p)
            } else {
                p
            },
            t1.after(EffectView::RemoveRecords),
            r2,
        )
    } else {
        let (t2, r2) = run_all(
            t1,
            translation_table_cmds(p.uplink, bs, wanted, listing),
            failed,
            io,
        );
        (p, t2, r2)
    }
}

/// A host without public addresses.
pub open spec fn released(p: PublicAddressRealizerView) -> PublicAddressRealizerView {
    PublicAddressRealizerView {
        uplink: p.uplink,
        owned: false,
        owned_addresses: Seq::empty(),
        owned_bindings: Seq::empty(),
    }
}

/// Changes the host from the recorded public addresses to those of the given bindings. A table
/// without the marker, a table that is not recorded and a wanted address that is on the uplink
/// without being recorded are foreign.
pub open spec fn realize_run(p: PublicAddressRealizerView, bs: Seq<OwnedBinding>, t: Trace) -> (
    PublicAddressRealizerView,
    Trace,
    PublicOutcome,
) {
    let failed = PublicAddressError::ProviderCommandFailed;
    let io = PublicAddressError::Storage;
    let foreign: PublicOutcome = Err(Stop::Failed(PublicAddressError::ForeignProviderState));
    let wanted = public_addresses(bs, bs.len() as int);
    let t1 = t.after(EffectView::Query(table_list_cmd("o3k_public"@)));
    match queried(t.reply(), io) {
        Err(stop) => (p, t1, Err(stop)),
        Ok((exists, output)) => if exists && (!contains(output, "o3k-p9-public"@) || !p.owned) {
            (p, t1, foreign)
        } else {
            let t2 = t1.after(EffectView::Query(addr_show_cmd(p.uplink)));
            match queried(t1.reply(), io) {
                Err(stop) => (p, t2, Err(stop)),
                Ok((false, _)) => (p, t2, Err(Stop::Failed(failed))),
                Ok((true, listing)) => if foreign_address(wanted, p.owned_addresses, listing) {
                    (p, t2, foreign)
                } else {
                    let (t3, r3) = run_all(
                        t2,
                        withdraw_cmds(p.uplink, p.owned_addresses, wanted, listing),
                        failed,
                        io,
                    );
                    if r3 is Err {
                        (p, t3, r3)
                    } else {
                        let (p4, t4, r4) = record_run(p, bs, wanted, t3);
                        if r4 is Err {
                            (p4, t4, r4)
                        } else {
                            rebuild_run(p4, bs, wanted, listing, exists, t4)
                        }
                    }
                },
            }
        },
    }
}

/// Realizes the public addresses that a plan asks for beside those that are there. Nothing is
/// asked of the host before the plan is known to be sound.
pub open spec fn apply_run(
    p: PublicAddressRealizerView,
    intents: Seq<NetworkPlanIntentView>,
    t: Trace,
) -> (PublicAddressRealizerView, Trace, PublicOutcome) {
    if !binds_any(intents) {
        (p, t, Ok(()))
    } else {
        match plan_realm(intents) {
            None => (p, t, Err(Stop::Failed(PublicAddressError::MissingRealm))),
            Some(realm) => match merge_bindings(p.owned_bindings, realm, intents, 0) {
                Err(e) => (p, t, Err(Stop::Failed(e))),
                Ok(bs) => if neighbours_clash(bs) {
                    (p, t, Err(Stop::Failed(PublicAddressError::AssociationConflict)))
                } else if !bindings_sound(bs) {
                    (p, t, Err(Stop::Failed(PublicAddressError::CorruptState)))
                } else {
                    realize_run(p, bs, t)
                },
            },
        }
    }
}

/// The bindings without those of a realm's endpoints that a plan binds.
pub open spec fn retained(
    bs: Seq<OwnedBinding>,
    realm: u128,
    intents: Seq<NetworkPlanIntentView>,
) -> Seq<OwnedBinding>
    decreases bs.len(),
{
    if bs.len() == 0 {
        bs
    } else {
        let before = retained(bs.drop_last(), realm, intents);
        if bs.last().realm_id == realm && binds_endpoint(intents, bs.last().endpoint_id) {
            before
        } else {
            before.push(bs.last())
        }
    }
}

/// Takes back the public addresses that a plan asks for; all others stay.
pub open spec fn remove_for_plan_run(
    p: PublicAddressRealizerView,
    intents: Seq<NetworkPlanIntentView>,
    t: Trace,
) -> (PublicAddressRealizerView, Trace, PublicOutcome) {
    if !binds_any(intents) {
        (p, t, Ok(()))
    } else {
        match plan_realm(intents) {
            None => (p, t, Err(Stop::Failed(PublicAddressError::MissingRealm))),
            Some(realm) => realize_run(p, retained(p.owned_bindings, realm, intents), t),
        }
    }
}

fn binds_any_of(intents: &Vec<NetworkPlanIntent>) -> (r: bool)
    ensures
        r == binds_any(views(intents@)),
{
    let ghost vs = views(intents@);
    for i in 0..intents.len()
        invariant
            vs == views(intents@),
            forall|k: int| 0 <= k < i ==> !#[trigger] is_binding(vs, k),
    {
        assert(vs[i as int] == intents@[i as int]@);
        match &intents[i] {
            NetworkPlanIntent::PublicAddressBinding(_) => {
                assert(is_binding(vs, i as int));
                return true;
            },
            _ => {},
        }
    }
    false
}

fn binds_endpoint_of(intents: &Vec<NetworkPlanIntent>, endpoint: u128) -> (r: bool)
    ensures
        r == binds_endpoint(views(intents@), endpoint),
{
    let ghost vs = views(intents@);
    for i in 0..intents.len()
        invariant
            vs == views(intents@),
            forall|k: int|
                0 <= k < i && #[trigger] is_binding(vs, k)
                    ==> vs[k]->PublicAddressBinding_0.endpoint_id != endpoint,
    {
        assert(vs[i as int] == intents@[i as int]@);
        match &intents[i] {
            NetworkPlanIntent::PublicAddressBinding(b) => {
                if b.endpoint_id == endpoint {
                    assert(is_binding(vs, i as int));
                    return true;
                }
            },
            _ => {},
        }
    }
    false
}

fn retained_of(bs: &Vec<OwnedBinding>, realm: u128, intents: &Vec<NetworkPlanIntent>) -> (r: Vec<
    OwnedBinding,
>)
    ensures
        r@ == retained(bs@, realm, views(intents@)),
{
    let mut out: Vec<OwnedBinding> = Vec::new();
    assert(bs@.take(0) =~= Seq::<OwnedBinding>::empty());
    for i in 0..bs.len()
        invariant
            out@ == retained(bs@.take(i as int), realm, views(intents@)),
    {
        assert(bs@.take(i + 1).drop_last() =~= bs@.take(i as int));
        let b = bs[i];
        if !(b.realm_id == realm && binds_endpoint_of(intents, b.endpoint_id)) {
            out.push(b);
        }
    }
    assert(bs@.take(bs@.len() as int) =~= bs@);
    out
}

impl PublicAddressRealizer {
    fn record(&mut self, bs: &Vec<OwnedBinding>, wanted: &Vec<u32>, session: &mut Session) -> (r:
        PublicOutcome)
        ensures
            (final(self)@, final(session)@, r) == record_run(
                old(self)@,
                bs@,
                wanted@,
                old(session)@,
            ),
    {
        let io = PublicAddressError::Storage;
        match session.demand(Effect::StoreMarker, io, io) {
            Err(stop) => return Err(stop),
            Ok(_) => {},
        }
        self.owned = true;
        match session.demand(Effect::StoreAddresses(copy_plain(wanted)), io, io) {
            Err(stop) => return Err(stop),
            Ok(_) => {},
        }
        match session.demand(Effect::StoreBindings(copy_plain(bs)), io, io) {
            Err(stop) => return Err(stop),
            Ok(_) => {},
        }
        self.owned_addresses = copy_plain(wanted);
        self.owned_bindings = copy_plain(bs);
        Ok(())
    }

    fn release(&mut self)
        ensures
            final(self)@ == released(old(self)@),
    {
        self.owned = false;
        self.owned_addresses = Vec::new();
        self.owned_bindings = Vec::new();
    }

    fn rebuild(
        &mut self,
        bs: &Vec<OwnedBinding>,
        wanted: &Vec<u32>,
        listing: &str,
        table_exists: bool,
        session: &mut Session,
    ) -> (r: PublicOutcome)
        ensures
            (final(self)@, final(session)@, r) == rebuild_run(
                old(self)@,
                bs@,
                wanted@,
                listing@,
                table_exists,
                old(session)@,
            ),
    {
        let failed = PublicAddressError::ProviderCommandFailed;
        let io = PublicAddressError::Storage;
        if table_exists {
            match session.demand(Effect::Run(table_del("o3k_public")), failed, io) {
                Err(stop) => return Err(stop),
                Ok(_) => {},
            }
        }
        if bs.len() == 0 {
            match session.attempt_effect(Effect::RemoveRecords) {
                Err(stop) => return Err(stop),
                Ok(_) => {},
            }
            self.release();
            return Ok(());
        }
        let cs = translation_table_commands(self.uplink.as_str(), bs, wanted, listing);
        session.run_all(&cs, failed, io)
    }

    /// Performs [`realize_run`].
    pub fn realize_bindings(&mut self, bs: &Vec<OwnedBinding>, session: &mut Session) -> (r:
        PublicOutcome)
        ensures
            (final(self)@, final(session)@, r) == realize_run(old(self)@, bs@, old(session)@),
    {
        let failed = PublicAddressError::ProviderCommandFailed;
        let io = PublicAddressError::Storage;
        let foreign: PublicOutcome = Err(Stop::Failed(PublicAddressError::ForeignProviderState));
        let wanted = public_addresses_of(bs);
        let table_exists = match session.query(table_list("o3k_public"), io) {
            Err(stop) => return Err(stop),
            Ok((exists, output)) => {
                if exists && (!text_contains(output.as_str(), "o3k-p9-public") || !self.owned) {
                    return foreign;
                }
                exists
            },
        };
        let listing = match session.query(addr_show(self.uplink.as_str()), io) {
            Err(stop) => return Err(stop),
            Ok((success, listing)) => {
                if !success {
                    return Err(Stop::Failed(failed));
                }
                listing
            },
        };
        if has_foreign_address(&wanted, &self.owned_addresses, listing.as_str()) {
            return foreign;
        }
        let cs = withdraw_commands(
            self.uplink.as_str(),
            &self.owned_addresses,
            &wanted,
            listing.as_str(),
        );
        match session.run_all(&cs, failed, io) {
            Err(stop) => return Err(stop),
            Ok(_) => {},
        }
        match self.record(bs, &wanted, session) {
            Err(stop) => return Err(stop),
            Ok(_) => {},
        }
        self.rebuild(bs, &wanted, listing.as_str(), table_exists, session)
    }

    /// Performs [`apply_run`].
    pub fn apply(&mut self, intents: &Vec<NetworkPlanIntent>, session: &mut Session) -> (r:
        PublicOutcome)
        ensures
            (final(self)@, final(session)@, r) == apply_run(
                old(self)@,
                views(intents@),
                old(session)@,
            ),
    {
        if !binds_any_of(intents) {
            return Ok(());
        }
        let realm: u128 = match plan_realm_of(intents) {
            None => return Err(Stop::Failed(PublicAddressError::MissingRealm)),
            Some(realm) => realm,
        };
        let mut bs = copy_plain(&self.owned_bindings);
        match merge_bindings_of(&mut bs, realm, intents) {
            Some(e) => return Err(Stop::Failed(e)),
            None => {},
        }
        if do_neighbours_clash(&bs) {
            return Err(Stop::Failed(PublicAddressError::AssociationConflict));
        }
        if !bindings_are_sound(&bs) {
            return Err(Stop::Failed(PublicAddressError::CorruptState));
        }
        self.realize_bindings(&bs, session)
    }

    /// Performs [`remove_for_plan_run`].
    pub fn remove_for_plan(&mut self, intents: &Vec<NetworkPlanIntent>, session: &mut Session) -> (r:
        PublicOutcome)
        ensures
            (final(self)@, final(session)@, r) == remove_for_plan_run(
                old(self)@,
                views(intents@),
                old(session)@,
            ),
    {
        if !binds_any_of(intents) {
            return Ok(());
        }
        let realm: u128 = match plan_realm_of(intents) {
            None => return Err(Stop::Failed(PublicAddressError::MissingRealm)),
            Some(realm) => realm,
        };
        let kept = retained_of(&self.owned_bindings, realm, intents);
        self.realize_bindings(&kept, session)
    }

    /// Tells whether the table of public addresses is there and carries the marker.
    pub fn observe(&self, session: &mut Session) -> (r: Result<bool, Stop<PublicAddressError>>)
        ensures
            final(session)@ == old(session)@.after(EffectView::Query(table_list_cmd("o3k_public"@))),
            match queried(old(session)@.reply(), PublicAddressError::Storage) {
                Err(stop) => r == Err::<bool, Stop<PublicAddressError>>(stop),
                Ok((exists, output)) => r == Ok::<bool, Stop<PublicAddressError>>(
                    exists && contains(output, "o3k-p9-public"@),
                ),
            },
    {
        match session.query(table_list("o3k_public"), PublicAddressError::Storage) {
            Err(stop) => Err(stop),
            Ok((exists, output)) => Ok(exists && text_contains(output.as_str(), "o3k-p9-public")),
        }
    }
}

// ---------------------------------------------------------------------------
// Removing everything
// ---------------------------------------------------------------------------

/// Removes the table of public addresses where it is there. One without the marker is foreign and
/// stays.
pub open spec fn drop_table_run(t: Trace) -> (Trace, PublicOutcome) {
    let failed = PublicAddressError::ProviderCommandFailed;
    let io = PublicAddressError::Storage;
    let t1 = t.after(EffectView::Query(table_list_cmd("o3k_public"@)));
    match queried(t.reply(), io) {
        Err(stop) => (t1, Err(stop)),
        Ok((false, _)) => (t1, Ok(())),
        Ok((true, output)) => if contains(output, "o3k-p9-public"@) {
            (
                t1.after(EffectView::Run(table_del_cmd("o3k_public"@))),
                demanded(t1.reply(), failed, io),
            )
        } else {
            (t1, Err(Stop::Failed(PublicAddressError::ForeignProviderState)))
        },
    }
}

/// Removes all recorded public addresses from the host, and only those. `marked` tells whether
/// the durable marker is there.
pub open spec fn remove_run(p: PublicAddressRealizerView, marked: bool, t: Trace) -> (
    PublicAddressRealizerView,
    Trace,
    PublicOutcome,
) {
    let failed = PublicAddressError::ProviderCommandFailed;
    let io = PublicAddressError::Storage;
    let kept = PublicAddressRealizerView { owned: true, ..p };
    if !p.owned && !marked {
        (p, t, Ok(()))
    } else {
        let (t1, r1) = drop_table_run(t);
        if r1 is Err {
            (p, t1, r1)
        } else {
            let t2 = t1.after(EffectView::Query(addr_show_cmd(p.uplink)));
            match queried(t1.reply(), io) {
                Err(stop) => (p, t2, Err(stop)),
                Ok((false, _)) => (kept, t2, Err(Stop::Failed(failed))),
                Ok((true, listing)) => {
                    let (t3, r3) = run_all(
                        t2,
                        withdraw_cmds(p.uplink, p.owned_addresses, Seq::empty(), listing),
                        failed,
                        io,
                    );
                    if r3 is Err {
                        (
                            if r3 == Err::<(), Stop<PublicAddressError>>(Stop::Failed(failed)) {
                                kept
                            } else {
                                p
                            },
                            t3,
                            r3,
                        )
                    } else {
                        let r4 = attempted::<PublicAddressError>(t3.reply());
                        (
                            if r4 is Ok {
                                released(p)
                            } else {
                                p
                            },
                            t3.after(EffectView::RemoveRecords),
                            r4,
                        )
                    }
                },
            }
        }
    }
}

fn drop_table(session: &mut Session) -> (r: PublicOutcome)
    ensures
        (final(session)@, r) == drop_table_run(old(session)@),
{
    let failed = PublicAddressError::ProviderCommandFailed;
    let io = PublicAddressError::Storage;
    match session.query(table_list("o3k_public"), io) {
        Err(stop) => Err(stop),
        Ok((exists, output)) => {
            if !exists {
                return Ok(());
            }
            if !text_contains(output.as_str(), "o3k-p9-public") {
                return Err(Stop::Failed(PublicAddressError::ForeignProviderState));
            }
            session.demand(Effect::Run(table_del("o3k_public")), failed, io)
        },
    }
}

impl PublicAddressRealizer {
    /// Performs [`remove_run`].
    pub fn remove(&mut self, marked: bool, session: &mut Session) -> (r: PublicOutcome)
        ensures
            (final(self)@, final(session)@, r) == remove_run(old(self)@, marked, old(session)@),
    {
        let failed = PublicAddressError::ProviderCommandFailed;
        let io = PublicAddressError::Storage;
        if !self.owned && !marked {
            return Ok(());
        }
        match drop_table(session) {
            Err(stop) => return Err(stop),
            Ok(_) => {},
        }
        let listing = match session.query(addr_show(self.uplink.as_str()), io) {
            Err(stop) => return Err(stop),
            Ok((success, listing)) => {
                if !success {
                    self.owned = true;
                    return Err(Stop::Failed(failed));
                }
                listing
            },
        };
        let none: Vec<u32> = Vec::new();
        let cs = withdraw_commands(
            self.uplink.as_str(),
            &self.owned_addresses,
            &none,
            listing.as_str(),
        );
        match session.run_all(&cs, failed, io) {
            Err(stop) => {
                match stop {
                    Stop::Failed(e) => {
                        if e == failed {
                            self.owned = true;
                        }
                    },
                    Stop::Pending => {},
                }
                return Err(stop);
            },
            Ok(_) => {},
        }
        match session.attempt_effect(Effect::RemoveRecords) {
            Err(stop) => return Err(stop),
            Ok(_) => {},
        }
        self.release();
        Ok(())
    }
}

// ---------------------------------------------------------------------------
// Laws
// ---------------------------------------------------------------------------

pub(crate) proof fn lemma_binding_place(bs: Seq<OwnedBinding>, realm: u128, endpoint: u128, i: int)
    requires
        0 <= i,
    ensures
        binding_place(bs, realm, endpoint, i) matches Some(k) ==> i <= k < bs.len()
            && bs[k].realm_id == realm && bs[k].endpoint_id == endpoint,
        binding_place(bs, realm, endpoint, i) is None ==> forall|k: int|
            i <= k < bs.len() ==> !((#[trigger] bs[k]).realm_id == realm && bs[k].endpoint_id
                == endpoint),
    decreases bs.len() - i,
{
    if i < bs.len() && !(bs[i].realm_id == realm && bs[i].endpoint_id == endpoint) {
        lemma_binding_place(bs, realm, endpoint, i + 1);
    }
}

proof fn lemma_merge_keeps(
    bs: Seq<OwnedBinding>,
    realm: u128,
    intents: Seq<NetworkPlanIntentView>,
    i: int,
    b: OwnedBinding,
)
    requires
        bs.contains(b),
        b.realm_id != realm,
        merge_bindings(bs, realm, intents, i) is Ok,
    ensures
        merge_bindings(bs, realm, intents, i)->Ok_0.contains(b),
    decreases intents.len() - i,
{
    if 0 <= i < intents.len() {
        match intents[i] {
            NetworkPlanIntentView::PublicAddressBinding(p) => {
                let private_address = assigned(intents, p.endpoint_id, intents.len() as int)->0;
                let x = OwnedBinding {
                    realm_id: realm,
                    endpoint_id: p.endpoint_id,
                    private_address,
                    public_address: p.public_address,
                };
                let more = put_binding(bs, x)->0;
                lemma_binding_place(bs, realm, p.endpoint_id, 0);
                let k = choose|k: int| 0 <= k < bs.len() && bs[k] == b;
                assert(more[k] == b);
                lemma_merge_keeps(more, realm, intents, i + 1, b);
            },
            _ => {
                lemma_merge_keeps(bs, realm, intents, i + 1, b);
            },
        }
    }
}

pub(crate) proof fn lemma_realized(p: PublicAddressRealizerView, bs: Seq<OwnedBinding>, t: Trace)
    requires
        realize_run(p, bs, t).2 is Ok,
    ensures
        realize_run(p, bs, t).0.owned_bindings == bs,
{
    let io = PublicAddressError::Storage;
    let wanted = public_addresses(bs, bs.len() as int);
    let t1 = t.after(EffectView::Query(table_list_cmd("o3k_public"@)));
    let exists_table = queried(t.reply(), io)->Ok_0.0;
    let t2 = t1.after(EffectView::Query(addr_show_cmd(p.uplink)));
    let listing = queried(t1.reply(), io)->Ok_0.1;
    let t3 = run_all(
        t2,
        withdraw_cmds(p.uplink, p.owned_addresses, wanted, listing),
        PublicAddressError::ProviderCommandFailed,
        io,
    ).0;
    let (p4, t4, r4) = record_run(p, bs, wanted, t3);
    assert(p4.owned_bindings == bs);
    if bs.len() == 0 {
        assert(bs =~= Seq::<OwnedBinding>::empty());
    }
}

/// Realizing the public addresses of one realm keeps the bindings of every other realm.
pub proof fn lemma_apply_keeps_other_realms(
    p: PublicAddressRealizerView,
    intents: Seq<NetworkPlanIntentView>,
    t: Trace,
    b: OwnedBinding,
)
    requires
        apply_run(p, intents, t).2 is Ok,
        p.owned_bindings.contains(b),
        plan_realm(intents) != Some(b.realm_id),
    ensures
        apply_run(p, intents, t).0.owned_bindings.contains(b),
{
    if binds_any(intents) {
        let realm = plan_realm(intents)->0;
        lemma_merge_keeps(p.owned_bindings, realm, intents, 0, b);
        let bs = merge_bindings(p.owned_bindings, realm, intents, 0)->Ok_0;
        lemma_realized(p, bs, t);
    }
}

proof fn lemma_retained(
    bs: Seq<OwnedBinding>,
    realm: u128,
    intents: Seq<NetworkPlanIntentView>,
    b: OwnedBinding,
)
    ensures
        retained(bs, realm, intents).contains(b) <==> bs.contains(b) && !(b.realm_id == realm
            && binds_endpoint(intents, b.endpoint_id)),
    decreases bs.len(),
{
    if bs.len() > 0 {
        lemma_retained(bs.drop_last(), realm, intents, b);
        let before = retained(bs.drop_last(), realm, intents);
        let r = retained(bs, realm, intents);
        if bs.contains(b) {
            let k = choose|k: int| 0 <= k < bs.len() && bs[k] == b;
            if k < bs.len() - 1 {
                assert(bs.drop_last()[k] == b);
            }
        }
        if bs.drop_last().contains(b) {
            let k = choose|k: int| 0 <= k < bs.drop_last().len() && bs.drop_last()[k] == b;
            assert(bs[k] == b);
        }
        assert(bs[bs.len() - 1] == bs.last());
        if before.contains(b) {
            let k = choose|k: int| 0 <= k < before.len() && before[k] == b;
            assert(r[k] == b);
        }
        if r.len() > before.len() {
            assert(r[r.len() - 1] == bs.last());
            if r.contains(b) {
                let k = choose|k: int| 0 <= k < r.len() && r[k] == b;
                if k < before.len() {
                    assert(before[k] == b);
                }
            }
        }
    }
}

/// Taking back the public addresses of a plan removes exactly the bindings of its realm's
/// endpoints that it names.
pub proof fn lemma_remove_for_plan_is_exact(
    p: PublicAddressRealizerView,
    intents: Seq<NetworkPlanIntentView>,
    t: Trace,
    b: OwnedBinding,
)
    requires
        binds_any(intents),
        remove_for_plan_run(p, intents, t).2 is Ok,
    ensures
        remove_for_plan_run(p, intents, t).0.owned_bindings.contains(b)
            <==> p.owned_bindings.contains(b) && !(plan_realm(intents) == Some(b.realm_id)
            && binds_endpoint(intents, b.endpoint_id)),
{
    let realm = plan_realm(intents)->0;
    lemma_retained(p.owned_bindings, realm, intents, b);
    lemma_realized(p, retained(p.owned_bindings, realm, intents), t);
}

/// Applying a plan keeps the record sound, whatever the host replies.
pub proof fn lemma_apply_keeps_record_sound(
    p: PublicAddressRealizerView,
    intents: Seq<NetworkPlanIntentView>,
    t: Trace,
)
    requires
        bindings_sound(p.owned_bindings),
    ensures
        bindings_sound(apply_run(p, intents, t).0.owned_bindings),
{
}

/// A plan whose realm is not clear or whose endpoint has no address is rejected before anything
/// is asked of the host.
pub proof fn lemma_unclear_plan_changes_nothing(
    p: PublicAddressRealizerView,
    intents: Seq<NetworkPlanIntentView>,
    t: Trace,
)
    requires
        binds_any(intents),
        plan_realm(intents) is None || merge_bindings(
            p.owned_bindings,
            plan_realm(intents)->0,
            intents,
            0,
        ) is Err,
    ensures
        apply_run(p, intents, t).0 == p,
        apply_run(p, intents, t).1 == t,
        apply_run(p, intents, t).2 is Err,
{
}

proof fn lemma_retained_sound(
    bs: Seq<OwnedBinding>,
    realm: u128,
    intents: Seq<NetworkPlanIntentView>,
)
    requires
        bindings_sound(bs),
    ensures
        bindings_sound(retained(bs, realm, intents)),
    decreases bs.len(),
{
    if bs.len() > 0 {
        let head = bs.drop_last();
        assert forall|i: int| 0 <= i < head.len() implies (#[trigger] head[i]).realm_id != 0
            && head[i].endpoint_id != 0 by {
            assert(head[i] == bs[i]);
        }
        assert forall|i: int, j: int| 0 <= i < j < head.len() implies (
        #[trigger] head[i]).public_address != (#[trigger] head[j]).public_address && !(
        head[i].realm_id == head[j].realm_id && head[i].endpoint_id == head[j].endpoint_id) by {
            assert(head[i] == bs[i] && head[j] == bs[j]);
        }
        lemma_retained_sound(head, realm, intents);
        let before = retained(head, realm, intents);
        let x = bs.last();
        assert(bs[bs.len() - 1] == x);
        assert forall|i: int| 0 <= i < before.len() implies (#[trigger] before[i]).public_address
            != x.public_address && !(before[i].realm_id == x.realm_id && before[i].endpoint_id
            == x.endpoint_id) by {
            lemma_retained(head, realm, intents, before[i]);
            assert(before.contains(before[i]));
            let k = choose|k: int| 0 <= k < head.len() && head[k] == before[i];
            assert(bs[k] == before[i]);
        }
    }
}

/// Taking back the public addresses of a plan keeps the record sound, whatever the host replies.
pub proof fn lemma_remove_for_plan_keeps_record_sound(
    p: PublicAddressRealizerView,
    intents: Seq<NetworkPlanIntentView>,
    t: Trace,
)
    requires
        bindings_sound(p.owned_bindings),
    ensures
        bindings_sound(remove_for_plan_run(p, intents, t).0.owned_bindings),
{
    if binds_any(intents) && plan_realm(intents) is Some {
        lemma_retained_sound(p.owned_bindings, plan_realm(intents)->0, intents);
    }
}

proof fn lemma_run_all_failure(
    t: Trace,
    cs: Seq<CommandView>,
    failed: PublicAddressError,
    io: PublicAddressError,
)
    ensures
        run_all(t, cs, failed, io).1 matches Err(Stop::Failed(e)) ==> e == failed || e == io,
    decreases cs.len(),
{
    if cs.len() > 0 {
        lemma_run_all_failure(t, cs.drop_last(), failed, io);
    }
}

/// Whether nothing but questions was asked of the host behind a trace.
pub open spec fn only_asked(t: Trace, u: Trace) -> bool {
    forall|i: int| t.issued.len() <= i < u.issued.len() ==> (#[trigger] u.issued[i]) is Query
}

proof fn lemma_foreign_is_seen_first(p: PublicAddressRealizerView, bs: Seq<OwnedBinding>, t: Trace)
    requires
        realize_run(p, bs, t).2 == Err::<(), Stop<PublicAddressError>>(
            Stop::Failed(PublicAddressError::ForeignProviderState),
        ),
    ensures
        realize_run(p, bs, t).0 == p,
        only_asked(t, realize_run(p, bs, t).1),
{
    let failed = PublicAddressError::ProviderCommandFailed;
    let io = PublicAddressError::Storage;
    let wanted = public_addresses(bs, bs.len() as int);
    let t1 = t.after(EffectView::Query(table_list_cmd("o3k_public"@)));
    let t2 = t1.after(EffectView::Query(addr_show_cmd(p.uplink)));
    match queried(t.reply(), io) {
        Err(_) => {},
        Ok((exists, output)) => match queried(t1.reply(), io) {
            Ok((true, listing)) => {
                lemma_run_all_failure(
                    t2,
                    withdraw_cmds(p.uplink, p.owned_addresses, wanted, listing),
                    failed,
                    io,
                );
                let t3 = run_all(
                    t2,
                    withdraw_cmds(p.uplink, p.owned_addresses, wanted, listing),
                    failed,
                    io,
                ).0;
                let (p4, t4, r4) = record_run(p, bs, wanted, t3);
                let t5 = t4.after(EffectView::Run(table_del_cmd("o3k_public"@)));
                let cs = translation_table_cmds(p4.uplink, bs, wanted, listing);
                lemma_run_all_failure(t4, cs, failed, io);
                lemma_run_all_failure(t5, cs, failed, io);
            },
            _ => {},
        },
    }
}

/// Where the table or an address on the uplink is foreign, the request is refused with nothing
/// but questions asked: neither the host nor the record is changed.
pub proof fn lemma_foreign_state_stays(
    p: PublicAddressRealizerView,
    intents: Seq<NetworkPlanIntentView>,
    marked: bool,
    t: Trace,
)
    ensures
        apply_run(p, intents, t).2 == Err::<(), Stop<PublicAddressError>>(
            Stop::Failed(PublicAddressError::ForeignProviderState),
        ) ==> apply_run(p, intents, t).0 == p && only_asked(t, apply_run(p, intents, t).1),
        remove_for_plan_run(p, intents, t).2 == Err::<(), Stop<PublicAddressError>>(
            Stop::Failed(PublicAddressError::ForeignProviderState),
        ) ==> remove_for_plan_run(p, intents, t).0 == p && only_asked(
            t,
            remove_for_plan_run(p, intents, t).1,
        ),
        remove_run(p, marked, t).2 == Err::<(), Stop<PublicAddressError>>(
            Stop::Failed(PublicAddressError::ForeignProviderState),
        ) ==> remove_run(p, marked, t).0 == p && only_asked(t, remove_run(p, marked, t).1),
{
    let foreign = Err::<(), Stop<PublicAddressError>>(
        Stop::Failed(PublicAddressError::ForeignProviderState),
    );
    match plan_realm(intents) {
        Some(realm) => {
            let bs = retained(p.owned_bindings, realm, intents);
            if realize_run(p, bs, t).2 == foreign {
                lemma_foreign_is_seen_first(p, bs, t);
            }
            match merge_bindings(p.owned_bindings, realm, intents, 0) {
                Ok(merged) => {
                    if realize_run(p, merged, t).2 == foreign {
                        lemma_foreign_is_seen_first(p, merged, t);
                    }
                },
                Err(_) => {},
            }
        },
        None => {},
    }
    let t1 = drop_table_run(t).0;
    let t2 = t1.after(EffectView::Query(addr_show_cmd(p.uplink)));
    match queried(t1.reply(), PublicAddressError::Storage) {
        Ok((true, listing)) => lemma_run_all_failure(
            t2,
            withdraw_cmds(p.uplink, p.owned_addresses, Seq::empty(), listing),
            PublicAddressError::ProviderCommandFailed,
            PublicAddressError::Storage,
        ),
        _ => {},
    }
}

/// Whether a command takes an address from a link.
pub open spec fn withdraws(c: CommandView, uplink: Seq<char>) -> bool {
    exists|a: u32| c == #[trigger] addr_change_cmd("del"@, a, uplink)
}

pub(crate) proof fn lemma_withdraw_cmds(
    uplink: Seq<char>,
    addresses: Seq<u32>,
    kept: Seq<u32>,
    listing: Seq<char>,
)
    ensures
        forall|i: int|
            0 <= i < withdraw_cmds(uplink, addresses, kept, listing).len() ==> withdraws(
                #[trigger] withdraw_cmds(uplink, addresses, kept, listing)[i],
                uplink,
            ),
    decreases addresses.len(),
{
    if addresses.len() > 0 {
        lemma_withdraw_cmds(uplink, addresses.drop_last(), kept, listing);
        let before = withdraw_cmds(uplink, addresses.drop_last(), kept, listing);
        let all = withdraw_cmds(uplink, addresses, kept, listing);
        let last = addr_change_cmd("del"@, addresses.last(), uplink);
        assert(withdraws(last, uplink));
        assert forall|i: int| 0 <= i < all.len() implies withdraws(#[trigger] all[i], uplink) by {
            if i < before.len() {
                assert(all[i] == before[i]);
            } else {
                assert(all[i] == last);
            }
        }
    }
}

/// Whether bindings were made durable before the effect at `i` of what was asked behind a trace.
pub open spec fn bindings_stored(t: Trace, u: Trace, bs: Seq<OwnedBinding>, i: int) -> bool {
    exists|j: int|
        t.issued.len() <= j < i && j < u.replies.len() && #[trigger] u.issued[j]
            == EffectView::StoreBindings(bs) && u.replies[j] == ReplyView::Finished(true)
}

/// The new bindings are durable before the host is changed in any way but that addresses which
/// are no longer wanted are taken away.
pub proof fn lemma_bindings_are_recorded_first(
    p: PublicAddressRealizerView,
    bs: Seq<OwnedBinding>,
    t: Trace,
    i: int,
)
    requires
        t.issued.len() <= i < realize_run(p, bs, t).1.issued.len(),
        realize_run(p, bs, t).1.issued[i] matches EffectView::Run(c) && !withdraws(c, p.uplink),
    ensures
        bindings_stored(t, realize_run(p, bs, t).1, bs, i),
{
    let failed = PublicAddressError::ProviderCommandFailed;
    let io = PublicAddressError::Storage;
    let wanted = public_addresses(bs, bs.len() as int);
    let u = realize_run(p, bs, t).1;
    let t1 = t.after(EffectView::Query(table_list_cmd("o3k_public"@)));
    let t2 = t1.after(EffectView::Query(addr_show_cmd(p.uplink)));
    let exists = queried(t.reply(), io)->Ok_0.0;
    let listing = queried(t1.reply(), io)->Ok_0.1;
    let cs = withdraw_cmds(p.uplink, p.owned_addresses, wanted, listing);
    let t3 = run_all(t2, cs, failed, io).0;
    lemma_withdraw_cmds(p.uplink, p.owned_addresses, wanted, listing);
    lemma_run_all_extends(t2, cs, failed, io);
    let (p4, t4, r4) = record_run(p, bs, wanted, t3);
    assert(t2.issued[t.issued.len() as int] is Query);
    assert(t2.issued[t.issued.len() as int + 1] is Query);
    assert forall|k: int| 0 <= k < t2.issued.len() implies t3.issued[k] == t2.issued[k] by {
        assert(t3.issued[k] == t3.issued.take(t2.issued.len() as int)[k]);
    }
    assert forall|k: int| t.issued.len() <= k < t3.issued.len() implies !(
    (#[trigger] t3.issued[k]) matches EffectView::Run(c) && !withdraws(c, p.uplink)) by {
        if k >= t2.issued.len() {
            assert(t3.issued[k] == EffectView::Run(cs[k - t2.issued.len()]));
        }
    }
    if r4 is Ok {
        let n = t4.issued.len() - 1;
        assert(t4.issued[n] == EffectView::StoreBindings(bs));
        assert(t4.replies[n] == ReplyView::Finished(true));
        let table = translation_table_cmds(p4.uplink, bs, wanted, listing);
        let t5 = t4.after(EffectView::Run(table_del_cmd("o3k_public"@)));
        lemma_run_all_extends(t4, table, failed, io);
        lemma_run_all_extends(t5, table, failed, io);
        let ran = run_all(t4, table, failed, io).0;
        let ran_behind = run_all(t5, table, failed, io).0;
        assert forall|k: int| 0 <= k < t4.issued.len() implies ran.issued[k] == t4.issued[k]
            && ran_behind.issued[k] == t4.issued[k] by {
            assert(ran.issued[k] == ran.issued.take(t4.issued.len() as int)[k]);
            assert(ran_behind.issued[k] == ran_behind.issued.take(t5.issued.len() as int)[k]);
        }
        assert(u.issued.len() >= t4.issued.len());
        assert(u.issued[n] == EffectView::StoreBindings(bs));
        assert(i > n);
    }
}

} // verus!
