//! The canonical JSON encoding under which fingerprints are taken.
//!
//! Objects hold their fields in the order of the type's definition, without white space. An
//! enumeration is the name of its variant; a variant with contents is an object with one field.
use crate::domain::{
    NetworkProtocol, PolicyAction, PolicyDefaultIntent, PolicyDirection, PolicyIntent,
    PolicyStatefulMode, PortRange, PublicAddressBindingIntent, PublicAddressBindingIntentView,
};
use crate::identity::{id_text, id_text_of};
use crate::ipv4::{ipv4_of, ipv4_text, Ipv4Prefix};
use crate::model::views;
use crate::render::{decimal, decimal_of, hex_byte};
use crate::text::join3;
use vstd::prelude::*;
use vstd::string::StringExecFns;

verus! {

/// A character inside a JSON string: quotation marks, backslashes and control characters are
/// escaped, by a letter where there is one for it.
pub open spec fn json_char(c: char) -> Seq<char> {
    if c == '"' || c == '\\' {
        seq!['\\', c]
    } else if c as int == 0x08 {
        "\\b"@
    } else if c as int == 0x09 {
        "\\t"@
    } else if c as int == 0x0a {
        "\\n"@
    } else if c as int == 0x0c {
        "\\f"@
    } else if c as int == 0x0d {
        "\\r"@
    } else if (c as int) < 0x20 {
        "\\u00"@ + hex_byte(c as u8)
    } else {
        seq![c]
    }
}

/// The characters inside a JSON string.
pub open spec fn json_chars(s: Seq<char>) -> Seq<char>
    decreases s.len(),
{
    if s.len() == 0 {
        s
    } else {
        json_chars(s.drop_last()) + json_char(s.last())
    }
}

/// A text as a JSON string.
pub open spec fn json_text(s: Seq<char>) -> Seq<char> {
    quoted(json_chars(s))
}

/// Calls `serde_json::to_string` on a text: the text in quotation marks, with every character as
/// [`json_char`] says.
#[verifier::external_body]
pub(crate) fn json_text_of(s: &str) -> (r: String)
    ensures
        r@ == json_text(s@),
{
    serde_json::to_string(s).unwrap_or_default()
}

/// A text without characters that need an escape, in quotation marks.
pub open spec fn quoted(s: Seq<char>) -> Seq<char> {
    "\""@ + s + "\""@
}

/// Computes [`quoted`].
pub fn quoted_of(s: &str) -> (r: String)
    ensures
        r@ == quoted(s@),
{
    join3("\"", s, "\"")
}

/// Texts with commas between them.
pub open spec fn comma_joined(items: Seq<Seq<char>>) -> Seq<char>
    decreases items.len(),
{
    if items.len() == 0 {
        Seq::empty()
    } else if items.len() == 1 {
        items[0]
    } else {
        comma_joined(items.drop_last()) + ","@ + items.last()
    }
}

/// Texts to be put together.
#[derive(Clone, Debug, PartialEq, Eq)]
pub struct Texts {
    pub list: Vec<String>,
}

impl View for Texts {
    type V = Seq<Seq<char>>;

    open spec fn view(&self) -> Seq<Seq<char>> {
        views(self.list@)
    }
}

impl Texts {
    /// No texts.
    pub fn none() -> (r: Texts)
        ensures
            r@ == Seq::<Seq<char>>::empty(),
    {
        let r = Texts { list: Vec::new() };
        assert(r@ =~= Seq::<Seq<char>>::empty());
        r
    }

    /// The texts with one more at the end.
    pub fn push(self, s: String) -> (r: Texts)
        ensures
            r@ == self@.push(s@),
    {
        let ghost before = self@;
        let mut list = self.list;
        list.push(s);
        let r = Texts { list };
        assert(r@ =~= before.push(s@));
        r
    }
}

/// Computes [`comma_joined`].
pub fn comma_joined_of(items: &Vec<String>) -> (r: String)
    ensures
        r@ == comma_joined(views(items@)),
{
    let mut out = String::new();
    let ghost all = views(items@);
    assert(all.take(0) =~= Seq::<Seq<char>>::empty());
    for i in 0..items.len()
        invariant
            all == views(items@),
            out@ == comma_joined(all.take(i as int)),
    {
        proof {
            assert(all[i as int] == items@[i as int]@);
            assert(all.take(i + 1).drop_last() =~= all.take(i as int));
            assert(all.take(i + 1).last() == all[i as int]);
        }
        if i > 0 {
            out.append(",");
        } else {
            assert(out@ + all[0] =~= all[0]);
        }
        out.append(items[i].as_str());
    }
    assert(all.take(all.len() as int) =~= all);
    out
}

/// A JSON array of encoded items.
pub open spec fn json_list(items: Seq<Seq<char>>) -> Seq<char> {
    "["@ + comma_joined(items) + "]"@
}

/// Computes [`json_list`].
pub fn json_list_of(items: &Vec<String>) -> (r: String)
    ensures
        r@ == json_list(views(items@)),
{
    join3("[", comma_joined_of(items).as_str(), "]")
}

/// A JSON object of encoded fields.
pub open spec fn json_object(fields: Seq<Seq<char>>) -> Seq<char> {
    "{"@ + comma_joined(fields) + "}"@
}

/// Computes [`json_object`].
pub fn json_object_of(fields: &Texts) -> (r: String)
    ensures
        r@ == json_object(fields@),
{
    join3("{", comma_joined_of(&fields.list).as_str(), "}")
}

/// A field of a JSON object.
pub open spec fn json_field(name: Seq<char>, value: Seq<char>) -> Seq<char> {
    quoted(name) + ":"@ + value
}

/// Computes [`json_field`].
pub fn json_field_of(name: &str, value: &str) -> (r: String)
    ensures
        r@ == json_field(name@, value@),
{
    join3(quoted_of(name).as_str(), ":", value)
}

// ---------------------------------------------------------------------------
// Plain values
// ---------------------------------------------------------------------------

/// An identifier.
pub open spec fn json_id(id: u128) -> Seq<char> {
    quoted(id_text(id))
}

/// Computes [`json_id`].
pub fn json_id_of(id: u128) -> (r: String)
    ensures
        r@ == json_id(id),
{
    quoted_of(id_text_of(id).as_str())
}

/// An address.
pub open spec fn json_ip(addr: u32) -> Seq<char> {
    quoted(ipv4_text(addr))
}

/// Computes [`json_ip`].
pub fn json_ip_of(addr: u32) -> (r: String)
    ensures
        r@ == json_ip(addr),
{
    quoted_of(ipv4_of(addr).as_str())
}

/// A truth value.
pub open spec fn json_bool(b: bool) -> Seq<char> {
    if b {
        "true"@
    } else {
        "false"@
    }
}

/// Computes [`json_bool`].
pub fn json_bool_of(b: bool) -> (r: String)
    ensures
        r@ == json_bool(b),
{
    if b {
        "true".to_owned()
    } else {
        "false".to_owned()
    }
}

/// A prefix.
pub open spec fn json_prefix(p: Ipv4Prefix) -> Seq<char> {
    json_object(
        Seq::empty().push(json_field("network"@, json_ip(p.network))).push(
            json_field("prefix_len"@, decimal(p.prefix_len as nat)),
        ),
    )
}

/// Computes [`json_prefix`].
pub fn json_prefix_of(p: Ipv4Prefix) -> (r: String)
    ensures
        r@ == json_prefix(p),
{
    json_object_of(
        &Texts::none().push(json_field_of("network", json_ip_of(p.network).as_str())).push(
            json_field_of("prefix_len", decimal_of(p.prefix_len as u128).as_str()),
        ),
    )
}

/// An optional prefix.
pub open spec fn json_opt_prefix(p: Option<Ipv4Prefix>) -> Seq<char> {
    match p {
        Some(p) => json_prefix(p),
        None => "null"@,
    }
}

/// Computes [`json_opt_prefix`].
pub fn json_opt_prefix_of(p: Option<Ipv4Prefix>) -> (r: String)
    ensures
        r@ == json_opt_prefix(p),
{
    match p {
        Some(p) => json_prefix_of(p),
        None => "null".to_owned(),
    }
}

/// An optional address.
pub open spec fn json_opt_ip(a: Option<u32>) -> Seq<char> {
    match a {
        Some(a) => json_ip(a),
        None => "null"@,
    }
}

/// Computes [`json_opt_ip`].
pub fn json_opt_ip_of(a: Option<u32>) -> (r: String)
    ensures
        r@ == json_opt_ip(a),
{
    match a {
        Some(a) => json_ip_of(a),
        None => "null".to_owned(),
    }
}

// ---------------------------------------------------------------------------
// Policies
// ---------------------------------------------------------------------------

/// The name of a direction.
pub open spec fn direction_name(d: PolicyDirection) -> Seq<char> {
    match d {
        PolicyDirection::Ingress => "Ingress"@,
        PolicyDirection::Egress => "Egress"@,
    }
}

/// Computes [`direction_name`].
pub fn direction_name_of(d: PolicyDirection) -> (r: &'static str)
    ensures
        r@ == direction_name(d),
{
    match d {
        PolicyDirection::Ingress => "Ingress",
        PolicyDirection::Egress => "Egress",
    }
}

/// The name of a protocol.
pub open spec fn protocol_name(p: NetworkProtocol) -> Seq<char> {
    match p {
        NetworkProtocol::Any => "Any"@,
        NetworkProtocol::Tcp => "Tcp"@,
        NetworkProtocol::Udp => "Udp"@,
        NetworkProtocol::Icmp => "Icmp"@,
    }
}

/// Computes [`protocol_name`].
pub fn protocol_name_of(p: NetworkProtocol) -> (r: &'static str)
    ensures
        r@ == protocol_name(p),
{
    match p {
        NetworkProtocol::Any => "Any",
        NetworkProtocol::Tcp => "Tcp",
        NetworkProtocol::Udp => "Udp",
        NetworkProtocol::Icmp => "Icmp",
    }
}

/// The name of an action.
pub open spec fn action_name(a: PolicyAction) -> Seq<char> {
    match a {
        PolicyAction::Allow => "Allow"@,
        PolicyAction::Deny => "Deny"@,
    }
}

/// Computes [`action_name`].
pub fn action_name_of(a: PolicyAction) -> (r: &'static str)
    ensures
        r@ == action_name(a),
{
    match a {
        PolicyAction::Allow => "Allow",
        PolicyAction::Deny => "Deny",
    }
}

/// The name of a mode.
pub open spec fn mode_name(m: PolicyStatefulMode) -> Seq<char> {
    match m {
        PolicyStatefulMode::Stateful => "Stateful"@,
        PolicyStatefulMode::Stateless => "Stateless"@,
    }
}

/// Computes [`mode_name`].
pub fn mode_name_of(m: PolicyStatefulMode) -> (r: &'static str)
    ensures
        r@ == mode_name(m),
{
    match m {
        PolicyStatefulMode::Stateful => "Stateful",
        PolicyStatefulMode::Stateless => "Stateless",
    }
}

/// An optional range of ports.
pub open spec fn json_ports(p: Option<PortRange>) -> Seq<char> {
    match p {
        Some(p) => json_object(
            Seq::empty().push(json_field("start"@, decimal(p.start as nat))).push(
                json_field("end"@, decimal(p.end as nat)),
            ),
        ),
        None => "null"@,
    }
}

/// Computes [`json_ports`].
pub fn json_ports_of(p: Option<PortRange>) -> (r: String)
    ensures
        r@ == json_ports(p),
{
    match p {
        Some(p) => json_object_of(
            &Texts::none().push(json_field_of("start", decimal_of(p.start as u128).as_str())).push(
                json_field_of("end", decimal_of(p.end as u128).as_str()),
            ),
        ),
        None => "null".to_owned(),
    }
}

/// A policy.
pub open spec fn json_policy(p: PolicyIntent) -> Seq<char> {
    json_object(
        Seq::empty().push(json_field("id"@, json_id(p.id))).push(
            json_field("endpoint_id"@, json_id(p.endpoint_id)),
        ).push(json_field("direction"@, quoted(direction_name(p.direction)))).push(
            json_field("protocol"@, quoted(protocol_name(p.protocol))),
        ).push(json_field("ports"@, json_ports(p.ports))).push(
            json_field("source"@, json_opt_prefix(p.source)),
        ).push(json_field("destination"@, json_opt_prefix(p.destination))).push(
            json_field("action"@, quoted(action_name(p.action))),
        ),
    )
}

/// Computes [`json_policy`].
pub fn json_policy_of(p: PolicyIntent) -> (r: String)
    ensures
        r@ == json_policy(p),
{
    json_object_of(
        &Texts::none().push(json_field_of("id", json_id_of(p.id).as_str())).push(
            json_field_of("endpoint_id", json_id_of(p.endpoint_id).as_str()),
        ).push(
            json_field_of("direction", quoted_of(direction_name_of(p.direction)).as_str()),
        ).push(json_field_of("protocol", quoted_of(protocol_name_of(p.protocol)).as_str())).push(
            json_field_of("ports", json_ports_of(p.ports).as_str()),
        ).push(json_field_of("source", json_opt_prefix_of(p.source).as_str())).push(
            json_field_of("destination", json_opt_prefix_of(p.destination).as_str()),
        ).push(json_field_of("action", quoted_of(action_name_of(p.action)).as_str())),
    )
}

/// The default of an endpoint.
pub open spec fn json_policy_default(d: PolicyDefaultIntent) -> Seq<char> {
    json_object(
        Seq::empty().push(json_field("policy_id"@, json_id(d.policy_id))).push(
            json_field("endpoint_id"@, json_id(d.endpoint_id)),
        ).push(json_field("unmatched_action"@, quoted(action_name(d.unmatched_action)))).push(
            json_field("stateful_mode"@, quoted(mode_name(d.stateful_mode))),
        ).push(json_field("generation"@, decimal(d.generation as nat))),
    )
}

/// Computes [`json_policy_default`].
pub fn json_policy_default_of(d: PolicyDefaultIntent) -> (r: String)
    ensures
        r@ == json_policy_default(d),
{
    json_object_of(
        &Texts::none().push(json_field_of("policy_id", json_id_of(d.policy_id).as_str())).push(
            json_field_of("endpoint_id", json_id_of(d.endpoint_id).as_str()),
        ).push(
            json_field_of(
                "unmatched_action",
                quoted_of(action_name_of(d.unmatched_action)).as_str(),
            ),
        ).push(
            json_field_of("stateful_mode", quoted_of(mode_name_of(d.stateful_mode)).as_str()),
        ).push(json_field_of("generation", decimal_of(d.generation as u128).as_str())),
    )
}

/// The binding of a public address.
pub open spec fn json_binding(b: PublicAddressBindingIntentView) -> Seq<char> {
    json_object(
        Seq::empty().push(json_field("id"@, json_id(b.id))).push(
            json_field("project_id"@, json_text(b.project_id)),
        ).push(json_field("public_address"@, json_ip(b.public_address))).push(
            json_field("endpoint_id"@, json_id(b.endpoint_id)),
        ).push(json_field("generation"@, decimal(b.generation as nat))),
    )
}

/// Computes [`json_binding`].
pub fn json_binding_of(b: &PublicAddressBindingIntent) -> (r: String)
    ensures
        r@ == json_binding(b@),
{
    json_object_of(
        &Texts::none().push(json_field_of("id", json_id_of(b.id).as_str())).push(
            json_field_of("project_id", json_text_of(b.project_id.as_str()).as_str()),
        ).push(json_field_of("public_address", json_ip_of(b.public_address).as_str())).push(
            json_field_of("endpoint_id", json_id_of(b.endpoint_id).as_str()),
        ).push(json_field_of("generation", decimal_of(b.generation as u128).as_str())),
    )
}

/// A list of policies.
pub open spec fn json_policies(ps: Seq<PolicyIntent>) -> Seq<char> {
    json_list(ps.map_values(|p: PolicyIntent| json_policy(p)))
}

/// Computes [`json_policies`].
pub fn json_policies_of(ps: &Vec<PolicyIntent>) -> (r: String)
    ensures
        r@ == json_policies(views(ps@)),
{
    let mut out = Texts::none();
    let ghost all = views(ps@).map_values(|p: PolicyIntent| json_policy(p));
    for i in 0..ps.len()
        invariant
            all == views(ps@).map_values(|p: PolicyIntent| json_policy(p)),
            out@ == all.take(i as int),
    {
        out = out.push(json_policy_of(ps[i]));
        assert(out@ =~= all.take(i + 1));
    }
    assert(all.take(all.len() as int) =~= all);
    json_list_of(&out.list)
}

/// A list of defaults.
pub open spec fn json_policy_defaults(ds: Seq<PolicyDefaultIntent>) -> Seq<char> {
    json_list(ds.map_values(|d: PolicyDefaultIntent| json_policy_default(d)))
}

/// Computes [`json_policy_defaults`].
pub fn json_policy_defaults_of(ds: &Vec<PolicyDefaultIntent>) -> (r: String)
    ensures
        r@ == json_policy_defaults(views(ds@)),
{
    let mut out = Texts::none();
    let ghost all = views(ds@).map_values(|d: PolicyDefaultIntent| json_policy_default(d));
    for i in 0..ds.len()
        invariant
            all == views(ds@).map_values(|d: PolicyDefaultIntent| json_policy_default(d)),
            out@ == all.take(i as int),
    {
        out = out.push(json_policy_default_of(ds[i]));
        assert(out@ =~= all.take(i + 1));
    }
    assert(all.take(all.len() as int) =~= all);
    json_list_of(&out.list)
}

/// A list of bindings.
pub open spec fn json_bindings(bs: Seq<PublicAddressBindingIntentView>) -> Seq<char> {
    json_list(bs.map_values(|b: PublicAddressBindingIntentView| json_binding(b)))
}

/// Computes [`json_bindings`].
pub fn json_bindings_of(bs: &Vec<PublicAddressBindingIntent>) -> (r: String)
    ensures
        r@ == json_bindings(views(bs@)),
{
    let mut out = Texts::none();
    let ghost all = views(bs@).map_values(|b: PublicAddressBindingIntentView| json_binding(b));
    for i in 0..bs.len()
        invariant
            all == views(bs@).map_values(|b: PublicAddressBindingIntentView| json_binding(b)),
            out@ == all.take(i as int),
    {
        assert(views(bs@)[i as int] == bs@[i as int]@);
        out = out.push(json_binding_of(&bs[i]));
        assert(out@ =~= all.take(i + 1));
    }
    assert(all.take(all.len() as int) =~= all);
    json_list_of(&out.list)
}

} // verus!
