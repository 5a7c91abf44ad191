//! Names and addresses that are derived from identifiers.
//!
//! Every object that is made on the host has a name that depends only on the realm and on what
//! the object is for, so that an operation that is run again finds what it made before.
use crate::digest::{fnv, fnv_of, sha256, sha256_of};
use crate::domain::NetworkProtocol;
use crate::identity::{id_bytes, id_bytes_of, simple_of, simple_text};
use crate::render::{be_bytes, be_bytes_of, hex, hex_byte, hex_byte_of, hex_of, nibble};
use crate::text::{
    char_is_alphanumeric, char_is_hex_digit, chars_of, is_alphanumeric, is_hex_digit, rows, split,
    split_of,
};
use vstd::prelude::*;
use vstd::string::StringExecFns;
use vstd::utf8::encode_utf8;

verus! {

// ---------------------------------------------------------------------------
// What is accepted as a name, an address or a key
// ---------------------------------------------------------------------------

/// Whether a character can stand in the name of an interface or a host.
pub open spec fn is_name_char(c: char) -> bool {
    is_alphanumeric(c) || c == '-' || c == '_'
}

/// Whether all characters of a text can stand in a name.
pub open spec fn name_chars(s: Seq<char>) -> bool {
    forall|i: int| 0 <= i < s.len() ==> is_name_char(#[trigger] s[i])
}

/// Whether a text can name an interface or a namespace.
pub open spec fn is_name(s: Seq<char>) -> bool {
    1 <= s.len() <= 15 && name_chars(s)
}

/// Decides whether a text has between one and `limit` characters that can stand in a name.
pub fn bounded_name(value: &str, limit: usize) -> (r: bool)
    ensures
        r == (1 <= value@.len() <= limit && name_chars(value@)),
{
    let chars = chars_of(value);
    if chars.len() == 0 || chars.len() > limit {
        return false;
    }
    for i in 0..chars.len()
        invariant
            chars@ == value@,
            forall|k: int| 0 <= k < i ==> is_name_char(#[trigger] value@[k]),
    {
        let c: char = chars[i];
        if !(char_is_alphanumeric(c) || c == '-' || c == '_') {
            assert(!is_name_char(value@[i as int]));
            return false;
        }
    }
    true
}

/// Decides [`is_name`].
pub fn valid_name(value: &str) -> (r: bool)
    ensures
        r == is_name(value@),
{
    bounded_name(value, 15)
}

/// Whether a text is a pair of hexadecimal digits.
pub open spec fn is_hex_pair(s: Seq<char>) -> bool {
    s.len() == 2 && is_hex_digit(s[0]) && is_hex_digit(s[1])
}

/// Whether a text is six pairs of hexadecimal digits with colons between them.
pub open spec fn is_mac(s: Seq<char>) -> bool {
    let parts = split(s, ':');
    parts.len() == 6 && forall|i: int| 0 <= i < 6 ==> is_hex_pair(#[trigger] parts[i])
}

/// Decides [`is_mac`].
pub fn valid_mac(value: &str) -> (r: bool)
    ensures
        r == is_mac(value@),
{
    let chars = chars_of(value);
    let parts = split_of(&chars, ':');
    let ghost p = split(value@, ':');
    assert(rows(parts@).len() == parts@.len());
    if parts.len() != 6 {
        return false;
    }
    for i in 0..6
        invariant
            p == split(value@, ':'),
            rows(parts@) == p,
            parts@.len() == 6,
            forall|k: int| 0 <= k < i ==> is_hex_pair(#[trigger] p[k]),
    {
        assert(p[i as int] == parts@[i as int]@);
        if parts[i].len() != 2 || !char_is_hex_digit(parts[i][0]) || !char_is_hex_digit(
            parts[i][1],
        ) {
            assert(!is_hex_pair(p[i as int]));
            return false;
        }
    }
    true
}

/// Whether a character is one of the base64 alphabet.
pub open spec fn is_base64(c: char) -> bool {
    is_alphanumeric(c) || c == '+' || c == '/'
}

/// Whether a text is a WireGuard key: 43 characters of the base64 alphabet and an equals sign.
pub open spec fn is_wireguard_key(s: Seq<char>) -> bool {
    s.len() == 44 && s[43] == '=' && forall|i: int| 0 <= i < 43 ==> is_base64(#[trigger] s[i])
}

/// Decides [`is_wireguard_key`].
pub fn valid_wireguard_key(value: &str) -> (r: bool)
    ensures
        r == is_wireguard_key(value@),
{
    let chars = chars_of(value);
    if chars.len() != 44 || chars[43] != '=' {
        return false;
    }
    for i in 0..43
        invariant
            chars@ == value@,
            chars@.len() == 44,
            forall|k: int| 0 <= k < i ==> is_base64(#[trigger] value@[k]),
    {
        let c: char = chars[i];
        if !(char_is_alphanumeric(c) || c == '+' || c == '/') {
            assert(!is_base64(value@[i as int]));
            return false;
        }
    }
    true
}

// ---------------------------------------------------------------------------
// Names of links and tables
// ---------------------------------------------------------------------------

/// The lower half of a 64-bit number in eight hexadecimal digits.
pub open spec fn low_hex(h: u64) -> Seq<char> {
    hex(be_bytes((h % 0x1_0000_0000) as u32))
}

fn low_hex_of(h: u64) -> (r: String)
    ensures
        r@ == low_hex(h),
{
    let bytes = be_bytes_of((h % 0x1_0000_0000) as u32);
    hex_of(bytes.as_slice())
}

/// The bytes of a realm's identifier and of a text behind them.
pub open spec fn scoped(realm_id: u128, text: Seq<char>) -> Seq<u8> {
    id_bytes(realm_id) + encode_utf8(text)
}

fn add_bytes(out: &mut Vec<u8>, more: &[u8])
    ensures
        final(out)@ == old(out)@ + more@,
{
    let ghost start = out@;
    for i in 0..more.len()
        invariant
            out@ == start + more@.take(i as int),
    {
        out.push(more[i]);
        assert(out@ =~= start + more@.take(i + 1));
    }
    assert(out@ =~= start + more@);
}

fn scoped_of(realm_id: u128, text: &str) -> (r: Vec<u8>)
    ensures
        r@ == scoped(realm_id, text@),
{
    let mut out = id_bytes_of(realm_id);
    add_bytes(&mut out, text.as_bytes());
    out
}

/// The name of the tunnel of a realm to a host.
pub open spec fn geneve_name_text(realm_id: u128, target_host: Seq<char>) -> Seq<char> {
    "o3k-g-"@ + low_hex(fnv(scoped(realm_id, target_host)))
}

/// Computes [`geneve_name_text`].
pub fn geneve_name(realm_id: u128, target_host: &str) -> (r: String)
    ensures
        r@ == geneve_name_text(realm_id, target_host@),
{
    let bytes = scoped_of(realm_id, target_host);
    let mut out = "o3k-g-".to_owned();
    out.append(low_hex_of(fnv_of(&bytes)).as_str());
    out
}

/// The name of an object of the kind `prefix` that a realm has for a host.
pub open spec fn provider_name_text(
    prefix: Seq<char>,
    realm_id: u128,
    target_host: Seq<char>,
) -> Seq<char> {
    "o3k-"@ + prefix + "-"@ + low_hex(fnv(encode_utf8(prefix) + scoped(realm_id, target_host)))
}

/// Computes [`provider_name_text`].
pub fn provider_name(prefix: &str, realm_id: u128, target_host: &str) -> (r: String)
    ensures
        r@ == provider_name_text(prefix@, realm_id, target_host@),
{
    let mut bytes: Vec<u8> = Vec::new();
    add_bytes(&mut bytes, prefix.as_bytes());
    let rest = scoped_of(realm_id, target_host);
    add_bytes(&mut bytes, rest.as_slice());
    assert(bytes@ =~= encode_utf8(prefix@) + scoped(realm_id, target_host@));
    let mut out = "o3k-".to_owned();
    out.append(prefix);
    out.append("-");
    out.append(low_hex_of(fnv_of(&bytes)).as_str());
    out
}

/// The name of the table of a realm's policies.
pub fn policy_table_name(realm_id: u128) -> (r: String)
    ensures
        r@ == provider_name_text("p"@, realm_id, "policy"@),
{
    provider_name("p", realm_id, "policy")
}

/// The name of the table of a realm's public addresses in the host's own namespace.
pub fn public_root_table_name(realm_id: u128) -> (r: String)
    ensures
        r@ == provider_name_text("u"@, realm_id, "public"@),
{
    provider_name("u", realm_id, "public")
}

/// The name of the table of a realm's public addresses in the realm's namespace.
pub fn public_realm_table_name(realm_id: u128) -> (r: String)
    ensures
        r@ == provider_name_text("n"@, realm_id, "public"@),
{
    provider_name("n", realm_id, "public")
}

/// The name of the bridge between a tunnel and its realm.
pub fn geneve_bridge_name(realm_id: u128, target_host: &str) -> (r: String)
    ensures
        r@ == provider_name_text("c"@, realm_id, target_host@),
{
    provider_name("c", realm_id, target_host)
}

/// The name of the end in the realm of the link between a tunnel and its realm.
pub fn geneve_realm_veth_name(realm_id: u128, target_host: &str) -> (r: String)
    ensures
        r@ == provider_name_text("e"@, realm_id, target_host@),
{
    provider_name("e", realm_id, target_host)
}

/// The name of the end in the fabric of the link between a tunnel and its realm.
pub fn geneve_fabric_veth_name(realm_id: u128, target_host: &str) -> (r: String)
    ensures
        r@ == provider_name_text("i"@, realm_id, target_host@),
{
    provider_name("i", realm_id, target_host)
}

/// The hash of a realm and one of its endpoints.
pub open spec fn endpoint_hash(realm_id: u128, endpoint_id: u128) -> u64 {
    fnv(id_bytes(realm_id) + id_bytes(endpoint_id))
}

fn endpoint_hash_of(realm_id: u128, endpoint_id: u128) -> (r: u64)
    ensures
        r == endpoint_hash(realm_id, endpoint_id),
{
    let mut bytes = id_bytes_of(realm_id);
    let more = id_bytes_of(endpoint_id);
    add_bytes(&mut bytes, more.as_slice());
    fnv_of(&bytes)
}

/// The name of the tap device of an endpoint.
pub open spec fn endpoint_tap_name_text(realm_id: u128, endpoint_id: u128) -> Seq<char> {
    "o3k-t-"@ + low_hex(endpoint_hash(realm_id, endpoint_id))
}

/// Computes [`endpoint_tap_name_text`].
pub fn endpoint_tap_name(realm_id: u128, endpoint_id: u128) -> (r: String)
    ensures
        r@ == endpoint_tap_name_text(realm_id, endpoint_id),
{
    let mut out = "o3k-t-".to_owned();
    out.append(low_hex_of(endpoint_hash_of(realm_id, endpoint_id)).as_str());
    out
}

/// A name made of a fixed part and the first eight digits of a realm's identifier.
pub open spec fn realm_name_text(prefix: Seq<char>, realm_id: u128) -> Seq<char> {
    prefix + simple_text(realm_id).subrange(0, 8)
}

/// Computes [`realm_name_text`].
pub fn realm_name(prefix: &str, realm_id: u128) -> (r: String)
    ensures
        r@ == realm_name_text(prefix@, realm_id),
{
    let digits = simple_of(realm_id);
    proof {
        crate::render::lemma_hex_len(id_bytes(realm_id));
    }
    let mut out = prefix.to_owned();
    out.append(digits.as_str().substring_char(0, 8));
    out
}

// ---------------------------------------------------------------------------
// Hardware addresses
// ---------------------------------------------------------------------------

/// The octet of a 64-bit number at the given place, the first being the most significant.
pub open spec fn octet64(h: u64, place: int) -> u8 {
    (h as int / crate::identity::pow256(7 - place) % 256) as u8
}

/// A locally administered hardware address with the given last five octets.
pub open spec fn local_mac(a: u8, b: u8, c: u8, d: u8, e: u8) -> Seq<char> {
    "02:"@ + hex_byte(a) + ":"@ + hex_byte(b) + ":"@ + hex_byte(c) + ":"@ + hex_byte(d) + ":"@
        + hex_byte(e)
}

/// Computes [`local_mac`].
pub fn local_mac_of(a: u8, b: u8, c: u8, d: u8, e: u8) -> (r: String)
    ensures
        r@ == local_mac(a, b, c, d, e),
{
    let mut out = "02:".to_owned();
    out.append(hex_byte_of(a).as_str());
    out.append(":");
    out.append(hex_byte_of(b).as_str());
    out.append(":");
    out.append(hex_byte_of(c).as_str());
    out.append(":");
    out.append(hex_byte_of(d).as_str());
    out.append(":");
    out.append(hex_byte_of(e).as_str());
    out
}

/// The hardware address that the middle octets of a hash give.
pub open spec fn hash_mac(h: u64) -> Seq<char> {
    local_mac(octet64(h, 2), octet64(h, 3), octet64(h, 4), octet64(h, 5), octet64(h, 6))
}

fn hash_mac_of(h: u64) -> (r: String)
    ensures
        r@ == hash_mac(h),
{
    proof {
        reveal_with_fuel(crate::identity::pow256, 8);
    }
    local_mac_of(
        (h / 0x100_0000_0000 % 256) as u8,
        (h / 0x1_0000_0000 % 256) as u8,
        (h / 0x100_0000 % 256) as u8,
        (h / 0x1_0000 % 256) as u8,
        (h / 0x100 % 256) as u8,
    )
}

/// The hardware address of the tap device of an endpoint. It differs from the address that the
/// guest carries, so that the bridge does not take frames of the guest for its own.
pub fn endpoint_tap_mac(realm_id: u128, endpoint_id: u128) -> (r: String)
    ensures
        r@ == hash_mac(endpoint_hash(realm_id, endpoint_id)),
{
    hash_mac_of(endpoint_hash_of(realm_id, endpoint_id))
}

/// The hardware address of a host's end of the tunnels of a realm.
pub open spec fn tunnel_mac_text(realm_id: u128, host_id: Seq<char>) -> Seq<char> {
    hash_mac(fnv(scoped(realm_id, host_id)))
}

/// Computes [`tunnel_mac_text`].
pub fn tunnel_mac(realm_id: u128, host_id: &str) -> (r: String)
    ensures
        r@ == tunnel_mac_text(realm_id, host_id@),
{
    let bytes = scoped_of(realm_id, host_id);
    hash_mac_of(fnv_of(&bytes))
}

// ---------------------------------------------------------------------------
// Marks, route tables and transit addresses
// ---------------------------------------------------------------------------

/// The packet mark of a realm: the first four octets of the digest of its identifier, made odd.
pub open spec fn public_mark_of(realm_id: u128) -> u32 {
    let d = sha256(id_bytes(realm_id));
    let n = crate::ipv4::address(d[0] as int, d[1] as int, d[2] as int, d[3] as int) as u32;
    if n % 2 == 0 {
        (n + 1) as u32
    } else {
        n
    }
}

/// Computes [`public_mark_of`].
pub fn public_mark(realm_id: u128) -> (r: u32)
    ensures
        r == public_mark_of(realm_id),
        r % 2 == 1,
{
    let d = sha256_of(id_bytes_of(realm_id).as_slice());
    let n: u32 = crate::ipv4::ipv4(d[0], d[1], d[2], d[3]);
    if n % 2 == 0 {
        n + 1
    } else {
        n
    }
}

/// The number of the route table of a realm's public addresses.
pub open spec fn public_route_table_of(realm_id: u128) -> u32 {
    (20_000 + public_mark_of(realm_id) % 10_000) as u32
}

/// Computes [`public_route_table_of`].
pub fn public_route_table(realm_id: u128) -> (r: u32)
    ensures
        r == public_route_table_of(realm_id),
        20_000 <= r < 30_000,
{
    20_000 + public_mark(realm_id) % 10_000
}

/// The first address of the transit link of a realm, in 100.64.0.0/10.
pub open spec fn transit_base(realm_id: u128) -> int {
    let d = sha256(id_bytes(realm_id));
    0x6440_0000 + (d[0] as int * 0x100 + d[1] as int) % 16_000 * 4
}

/// The addresses of the two ends of the transit link of a realm: the host's and the realm's.
pub fn public_transit_addresses(realm_id: u128) -> (r: (u32, u32))
    ensures
        r.0 == transit_base(realm_id) + 1,
        r.1 == transit_base(realm_id) + 2,
{
    let d = sha256_of(id_bytes_of(realm_id).as_slice());
    let subnet: u32 = (d[0] as u32 * 0x100 + d[1] as u32) % 16_000;
    let base: u32 = 0x6440_0000 + subnet * 4;
    (base + 1, base + 2)
}

/// The keyword of a protocol in a rule; none where any protocol is meant.
pub open spec fn protocol_word(protocol: NetworkProtocol) -> Option<Seq<char>> {
    match protocol {
        NetworkProtocol::Any => None,
        NetworkProtocol::Tcp => Some("tcp"@),
        NetworkProtocol::Udp => Some("udp"@),
        NetworkProtocol::Icmp => Some("icmp"@),
    }
}

/// Computes [`protocol_word`].
pub fn policy_protocol(protocol: NetworkProtocol) -> (r: Option<&'static str>)
    ensures
        match r {
            Some(word) => protocol_word(protocol) == Some(word@),
            None => protocol_word(protocol) is None,
        },
{
    match protocol {
        NetworkProtocol::Any => None,
        NetworkProtocol::Tcp => Some("tcp"),
        NetworkProtocol::Udp => Some("udp"),
        NetworkProtocol::Icmp => Some("icmp"),
    }
}

// ---------------------------------------------------------------------------
// Laws
// ---------------------------------------------------------------------------

proof fn lemma_nibble(d: int)
    requires
        0 <= d < 16,
    ensures
        is_hex_digit(nibble(d)),
        is_name_char(nibble(d)),
        nibble(d) != ':',
{
}

/// Hexadecimal digits can stand in names.
pub proof fn lemma_hex_chars(bytes: Seq<u8>)
    ensures
        hex(bytes).len() == 2 * bytes.len(),
        name_chars(hex(bytes)),
    decreases bytes.len(),
{
    if bytes.len() > 0 {
        lemma_hex_chars(bytes.drop_last());
        let b = bytes.last() as int;
        lemma_nibble(b / 16);
        lemma_nibble(b % 16);
        let h = hex(bytes.drop_last());
        assert forall|i: int| 0 <= i < hex(bytes).len() implies is_name_char(
            #[trigger] hex(bytes)[i],
        ) by {
            if i < h.len() {
                assert(hex(bytes)[i] == h[i]);
            }
        }
    }
}

/// A generated name with a one-character kind is a name, so the host accepts it.
pub proof fn lemma_provider_name_valid(prefix: Seq<char>, realm_id: u128, target_host: Seq<char>)
    requires
        prefix.len() == 1,
        name_chars(prefix),
    ensures
        is_name(provider_name_text(prefix, realm_id, target_host)),
{
    reveal_strlit("o3k-");
    reveal_strlit("-");
    let h = fnv(encode_utf8(prefix) + scoped(realm_id, target_host));
    lemma_hex_chars(be_bytes((h % 0x1_0000_0000) as u32));
    let s = provider_name_text(prefix, realm_id, target_host);
    assert forall|i: int| 0 <= i < s.len() implies is_name_char(#[trigger] s[i]) by {
        if i == 4 {
            assert(s[i] == prefix[0]);
        } else if i > 5 {
            assert(s[i] == low_hex(h)[i - 6]);
        }
    }
}

/// The names of tunnels and tap devices are names.
pub proof fn lemma_link_names_valid(realm_id: u128, target_host: Seq<char>, endpoint_id: u128)
    ensures
        is_name(geneve_name_text(realm_id, target_host)),
        is_name(endpoint_tap_name_text(realm_id, endpoint_id)),
{
    reveal_strlit("o3k-g-");
    reveal_strlit("o3k-t-");
    let h = fnv(scoped(realm_id, target_host));
    let e = endpoint_hash(realm_id, endpoint_id);
    lemma_hex_chars(be_bytes((h % 0x1_0000_0000) as u32));
    lemma_hex_chars(be_bytes((e % 0x1_0000_0000) as u32));
    let s = geneve_name_text(realm_id, target_host);
    assert forall|i: int| 0 <= i < s.len() implies is_name_char(#[trigger] s[i]) by {
        if i > 5 {
            assert(s[i] == low_hex(h)[i - 6]);
        }
    }
    let t = endpoint_tap_name_text(realm_id, endpoint_id);
    assert forall|i: int| 0 <= i < t.len() implies is_name_char(#[trigger] t[i]) by {
        if i > 5 {
            assert(t[i] == low_hex(e)[i - 6]);
        }
    }
}

proof fn lemma_pair_split(pair: Seq<char>, rest: Seq<char>)
    requires
        is_hex_pair(pair),
    ensures
        split(pair + (seq![':'] + rest), ':') == seq![pair] + split(rest, ':'),
        split(pair, ':') == seq![pair],
{
    let s = pair + (seq![':'] + rest);
    crate::text::lemma_head_len_at(s, ':', 2);
    assert(s.take(2) =~= pair);
    assert(s.skip(3) =~= rest);
    crate::text::lemma_head_len_at(pair, ':', 2);
}

/// A generated hardware address is well formed.
pub proof fn lemma_local_mac_valid(a: u8, b: u8, c: u8, d: u8, e: u8)
    ensures
        is_mac(local_mac(a, b, c, d, e)),
{
    reveal_strlit("02:");
    reveal_strlit(":");
    let p0 = seq!['0', '2'];
    let (p1, p2, p3, p4, p5) = (hex_byte(a), hex_byte(b), hex_byte(c), hex_byte(d), hex_byte(e));
    lemma_nibble(a as int / 16);
    lemma_nibble(a as int % 16);
    lemma_nibble(b as int / 16);
    lemma_nibble(b as int % 16);
    lemma_nibble(c as int / 16);
    lemma_nibble(c as int % 16);
    lemma_nibble(d as int / 16);
    lemma_nibble(d as int % 16);
    lemma_nibble(e as int / 16);
    lemma_nibble(e as int % 16);
    let s4 = p4 + (seq![':'] + p5);
    let s3 = p3 + (seq![':'] + s4);
    let s2 = p2 + (seq![':'] + s3);
    let s1 = p1 + (seq![':'] + s2);
    let s0 = p0 + (seq![':'] + s1);
    lemma_pair_split(p5, s0);
    lemma_pair_split(p4, p5);
    lemma_pair_split(p3, s4);
    lemma_pair_split(p2, s3);
    lemma_pair_split(p1, s2);
    lemma_pair_split(p0, s1);
    assert(local_mac(a, b, c, d, e) =~= s0);
    assert(split(s0, ':') =~= seq![p0, p1, p2, p3, p4, p5]);
}

} // verus!
