//! IPv4 addresses and prefixes. An address is its 32-bit number.
use crate::render::{
    decimal, decimal_of, is_number, lemma_decimal_value, lemma_value_decimal, number_text,
    parse_number,
};
use crate::text::{
    chars_of, head_len, is_digit, lemma_head_len, lemma_head_len_at, rows, split, split_of, text_of,
};
use vstd::prelude::*;
use vstd::string::StringExecFns;

verus! {

// ---------------------------------------------------------------------------
// Addresses
// ---------------------------------------------------------------------------

/// The address with the given four octets.
pub open spec fn address(a: int, b: int, c: int, d: int) -> int {
    ((a * 0x100 + b) * 0x100 + c) * 0x100 + d
}

/// The octet of an address at the given place, the first being the most significant.
pub open spec fn octet(addr: u32, place: int) -> nat {
    if place == 0 {
        (addr / 0x100_0000) as nat
    } else if place == 1 {
        (addr / 0x1_0000 % 0x100) as nat
    } else if place == 2 {
        (addr / 0x100 % 0x100) as nat
    } else {
        (addr % 0x100) as nat
    }
}

/// An address in dotted decimal notation.
pub open spec fn ipv4_text(addr: u32) -> Seq<char> {
    dotted(
        decimal(octet(addr, 0)),
        decimal(octet(addr, 1)),
        decimal(octet(addr, 2)),
        decimal(octet(addr, 3)),
    )
}

/// Four texts with dots between them.
pub open spec fn dotted(a: Seq<char>, b: Seq<char>, c: Seq<char>, d: Seq<char>) -> Seq<char> {
    a + (seq!['.'] + (b + (seq!['.'] + (c + (seq!['.'] + d)))))
}

/// The address with the given four octets.
pub fn ipv4(a: u8, b: u8, c: u8, d: u8) -> (r: u32)
    ensures
        r == address(a as int, b as int, c as int, d as int),
{
    ((a as u32 * 0x100 + b as u32) * 0x100 + c as u32) * 0x100 + d as u32
}

/// Computes [`ipv4_text`].
pub fn ipv4_of(addr: u32) -> (r: String)
    ensures
        r@ == ipv4_text(addr),
{
    let mut out = decimal_of((addr / 0x100_0000) as u128);
    let b = decimal_of((addr / 0x1_0000 % 0x100) as u128);
    let c = decimal_of((addr / 0x100 % 0x100) as u128);
    let d = decimal_of((addr % 0x100) as u128);
    proof {
        reveal_strlit(".");
        assert("."@ =~= seq!['.']);
    }
    out.append(".");
    out.append(b.as_str());
    out.append(".");
    out.append(c.as_str());
    out.append(".");
    out.append(d.as_str());
    assert(out@ =~= ipv4_text(addr));
    out
}

/// A text that holds no `sep`.
pub open spec fn plain(s: Seq<char>, sep: char) -> bool {
    forall|k: int| 0 <= k < s.len() ==> s[k] != sep
}

proof fn lemma_split_once(a: Seq<char>, rest: Seq<char>, sep: char)
    requires
        plain(a, sep),
    ensures
        split(a + (seq![sep] + rest), sep) == seq![a] + split(rest, sep),
{
    let s = a + (seq![sep] + rest);
    lemma_head_len_at(s, sep, a.len() as int);
    assert(s.take(a.len() as int) =~= a);
    assert(s.skip(a.len() as int + 1) =~= rest);
}

proof fn lemma_split_plain(a: Seq<char>, sep: char)
    requires
        plain(a, sep),
    ensures
        split(a, sep) == seq![a],
{
    lemma_head_len_at(a, sep, a.len() as int);
}

proof fn lemma_split_dotted(a: Seq<char>, b: Seq<char>, c: Seq<char>, d: Seq<char>)
    requires
        plain(a, '.'),
        plain(b, '.'),
        plain(c, '.'),
        plain(d, '.'),
    ensures
        split(dotted(a, b, c, d), '.') == seq![a, b, c, d],
{
    let s3 = c + (seq!['.'] + d);
    let s2 = b + (seq!['.'] + s3);
    lemma_split_once(a, s2, '.');
    lemma_split_once(b, s3, '.');
    lemma_split_once(c, d, '.');
    lemma_split_plain(d, '.');
    assert(split(dotted(a, b, c, d), '.') =~= seq![a, b, c, d]);
}

proof fn lemma_unsplit(s: Seq<char>, sep: char)
    ensures
        split(s, sep).len() == 1 ==> split(s, sep)[0] == s,
        split(s, sep).len() > 1 ==> exists|rest: Seq<char>|
            #![trigger split(rest, sep)]
            s == split(s, sep)[0] + (seq![sep] + rest) && split(s, sep).drop_first() == split(
                rest,
                sep,
            ),
{
    lemma_head_len(s, sep);
    let n = head_len(s, sep) as int;
    if n < s.len() {
        let rest = s.skip(n + 1);
        crate::text::lemma_split_nonempty(rest, sep);
        assert(s =~= s.take(n) + (seq![sep] + rest));
        assert(split(s, sep).drop_first() =~= split(rest, sep));
    }
}

proof fn lemma_unsplit_dotted(s: Seq<char>)
    requires
        split(s, '.').len() == 4,
    ensures
        s == dotted(
            split(s, '.')[0],
            split(s, '.')[1],
            split(s, '.')[2],
            split(s, '.')[3],
        ),
{
    let p = split(s, '.');
    lemma_unsplit(s, '.');
    let r1 = choose|rest: Seq<char>|
        #![trigger split(rest, '.')]
        s == p[0] + (seq!['.'] + rest) && p.drop_first() == split(rest, '.');
    lemma_unsplit(r1, '.');
    let r2 = choose|rest: Seq<char>|
        #![trigger split(rest, '.')]
        r1 == split(r1, '.')[0] + (seq!['.'] + rest) && split(r1, '.').drop_first() == split(
            rest,
            '.',
        );
    lemma_unsplit(r2, '.');
    let r3 = choose|rest: Seq<char>|
        #![trigger split(rest, '.')]
        r2 == split(r2, '.')[0] + (seq!['.'] + rest) && split(r2, '.').drop_first() == split(
            rest,
            '.',
        );
    lemma_unsplit(r3, '.');
    assert(split(r1, '.')[0] == p[1]);
    assert(split(r2, '.')[0] == p[2]);
    assert(split(r3, '.')[0] == p[3]);
}

proof fn lemma_number_plain(s: Seq<char>)
    requires
        is_number(s),
    ensures
        plain(s, '.'),
{
    assert forall|k: int| 0 <= k < s.len() implies s[k] != '.' by {
        assert(crate::text::is_digit(s[k]));
    }
}

proof fn lemma_ipv4_split(addr: u32)
    ensures
        split(ipv4_text(addr), '.') == seq![
            decimal(octet(addr, 0)),
            decimal(octet(addr, 1)),
            decimal(octet(addr, 2)),
            decimal(octet(addr, 3)),
        ],
{
    lemma_decimal_value(octet(addr, 0));
    lemma_decimal_value(octet(addr, 1));
    lemma_decimal_value(octet(addr, 2));
    lemma_decimal_value(octet(addr, 3));
    lemma_number_plain(decimal(octet(addr, 0)));
    lemma_number_plain(decimal(octet(addr, 1)));
    lemma_number_plain(decimal(octet(addr, 2)));
    lemma_number_plain(decimal(octet(addr, 3)));
    lemma_split_dotted(
        decimal(octet(addr, 0)),
        decimal(octet(addr, 1)),
        decimal(octet(addr, 2)),
        decimal(octet(addr, 3)),
    );
}

proof fn lemma_address_of_octets(a: u32)
    ensures
        a == address(
            octet(a, 0) as int,
            octet(a, 1) as int,
            octet(a, 2) as int,
            octet(a, 3) as int,
        ),
{
}

/// Different addresses are written differently.
pub proof fn lemma_ipv4_text_injective(a: u32, b: u32)
    requires
        ipv4_text(a) == ipv4_text(b),
    ensures
        a == b,
{
    lemma_ipv4_split(a);
    lemma_ipv4_split(b);
    let p = split(ipv4_text(a), '.');
    assert forall|k: int| 0 <= k < 4 implies #[trigger] octet(a, k) == octet(b, k) by {
        assert(p[k] == decimal(octet(a, k)) && p[k] == decimal(octet(b, k)));
        lemma_decimal_value(octet(a, k));
        lemma_decimal_value(octet(b, k));
    }
    assert(octet(a, 0) == octet(b, 0) && octet(a, 1) == octet(b, 1));
    assert(octet(a, 2) == octet(b, 2) && octet(a, 3) == octet(b, 3));
    lemma_address_of_octets(a);
    lemma_address_of_octets(b);
}

/// The octet that a row of digits stands for, where it is written without a superfluous zero.
fn parse_octet(row: &Vec<char>) -> (r: Option<u32>)
    ensures
        r matches Some(n) ==> n < 256 && row@ == decimal(n as nat),
        r is None ==> forall|n: nat| n < 256 ==> row@ != #[trigger] decimal(n),
{
    let mut copy: Vec<char> = Vec::new();
    for i in 0..row.len()
        invariant
            copy@ == row@.take(i as int),
    {
        copy.push(row[i]);
    }
    assert(copy@ =~= row@);
    if row.len() == 0 || row[0] == '+' || (row.len() > 1 && row[0] == '0') {
        assert forall|n: nat| n < 256 implies row@ != #[trigger] decimal(n) by {
            lemma_decimal_value(n);
            if row@ == decimal(n) {
                assert(crate::text::is_digit(decimal(n)[0]));
            }
        }
        return None;
    }
    let text = text_of(copy);
    match parse_number(text.as_str(), 256) {
        Some(n) => {
            proof {
                lemma_value_decimal(row@);
            }
            Some(n as u32)
        },
        None => {
            assert forall|n: nat| n < 256 implies row@ != #[trigger] decimal(n) by {
                lemma_decimal_value(n);
            }
            None
        },
    }
}

proof fn lemma_octets(addr: u32, a: int, b: int, c: int, d: int)
    requires
        0 <= a < 256,
        0 <= b < 256,
        0 <= c < 256,
        0 <= d < 256,
        addr == address(a, b, c, d),
    ensures
        octet(addr, 0) == a,
        octet(addr, 1) == b,
        octet(addr, 2) == c,
        octet(addr, 3) == d,
{
}

/// Reads an address in dotted decimal notation: exactly the texts that [`ipv4_text`] gives are
/// accepted.
pub fn parse_ipv4(s: &str) -> (r: Option<u32>)
    ensures
        r matches Some(addr) ==> s@ == ipv4_text(addr),
        r is None ==> forall|addr: u32| s@ != #[trigger] ipv4_text(addr),
{
    let chars = chars_of(s);
    let parts = split_of(&chars, '.');
    let ghost p = split(s@, '.');
    assert(rows(parts@).len() == parts@.len());
    if parts.len() != 4 {
        assert forall|addr: u32| s@ != #[trigger] ipv4_text(addr) by {
            lemma_ipv4_split(addr);
        }
        return None;
    }
    assert(p[0] == parts@[0]@ && p[1] == parts@[1]@ && p[2] == parts@[2]@ && p[3] == parts@[3]@);
    let a = parse_octet(&parts[0]);
    let b = parse_octet(&parts[1]);
    let c = parse_octet(&parts[2]);
    let d = parse_octet(&parts[3]);
    match (a, b, c, d) {
        (Some(a), Some(b), Some(c), Some(d)) => {
            let addr: u32 = ((a * 0x100 + b) * 0x100 + c) * 0x100 + d;
            proof {
                lemma_unsplit_dotted(s@);
                lemma_octets(addr, a as int, b as int, c as int, d as int);
            }
            Some(addr)
        },
        _ => {
            assert forall|addr: u32| s@ != #[trigger] ipv4_text(addr) by {
                lemma_ipv4_split(addr);
                if s@ == ipv4_text(addr) {
                    assert(p[0] == decimal(octet(addr, 0)));
                    assert(p[1] == decimal(octet(addr, 1)));
                    assert(p[2] == decimal(octet(addr, 2)));
                    assert(p[3] == decimal(octet(addr, 3)));
                }
            }
            None
        },
    }
}

/// The address that stands for no particular host.
pub open spec fn is_unspecified(addr: u32) -> bool {
    addr == 0
}

/// Whether an address is in 127.0.0.0/8.
pub open spec fn is_loopback(addr: u32) -> bool {
    octet(addr, 0) == 127
}

/// Decides whether an address is unspecified or a loopback address.
pub fn is_unusable_transport(addr: u32) -> (r: bool)
    ensures
        r == (is_unspecified(addr) || is_loopback(addr)),
{
    addr == 0 || addr / 0x100_0000 == 127
}

// ---------------------------------------------------------------------------
// Prefixes
// ---------------------------------------------------------------------------

/// The number of addresses under a prefix of the given length.
pub open spec fn block(len: int) -> int
    decreases 32 - len,
{
    if len >= 32 {
        1
    } else {
        2 * block(len + 1)
    }
}

/// Computes [`block`].
pub fn block_of(len: u8) -> (r: u64)
    ensures
        r == block(len as int),
        1 <= r <= 0x1_0000_0000,
{
    if len >= 32 {
        return 1;
    }
    let mut n: u8 = 32;
    let mut size: u64 = 1;
    while n > len
        invariant
            len <= n <= 32,
            size == block(n as int),
            1 <= size,
        decreases n,
    {
        proof {
            lemma_block_bound(n as int);
        }
        n = n - 1;
        size = 2 * size;
    }
    proof {
        lemma_block_bound(n as int);
    }
    size
}

/// Block sizes lie between one address and all of them.
pub proof fn lemma_block_bound(n: int)
    requires
        0 <= n <= 32,
    ensures
        1 <= block(n) <= 0x1_0000_0000,
        n >= 1 ==> 1 <= block(n) <= 0x8000_0000,
{
    reveal_with_fuel(block, 34);
}

/// A shorter prefix covers a whole number of blocks of a longer one.
pub proof fn lemma_block_divides(short: int, long: int)
    requires
        0 <= short <= long <= 32,
    ensures
        block(short) == block(long) * (block(short) / block(long)),
        block(short) / block(long) >= 1,
        block(short) >= block(long),
    decreases long - short,
{
    lemma_block_bound(long);
    if short < long {
        lemma_block_divides(short + 1, long);
        let q = block(short + 1) / block(long);
        assert(block(short) == block(long) * (2 * q)) by (nonlinear_arith)
            requires
                block(short) == 2 * block(short + 1),
                block(short + 1) == block(long) * q,
        ;
        assert((block(long) * (2 * q)) / block(long) == 2 * q) by (nonlinear_arith)
            requires
                block(long) >= 1,
        ;
        assert(block(long) * (2 * q) >= block(long)) by (nonlinear_arith)
            requires
                block(long) >= 1,
                q >= 1,
        ;
    } else {
        assert(block(long) / block(long) == 1) by (nonlinear_arith)
            requires
                block(long) >= 1,
        ;
        assert(block(long) * 1 == block(long));
    }
}

/// An IPv4 prefix: a network address and the number of its leading bits that count.
#[derive(Clone, Copy, Debug, PartialEq, Eq, Structural)]
pub struct Ipv4Prefix {
    pub network: u32,
    pub prefix_len: u8,
}

impl Ipv4Prefix {
    /// A prefix has at most 32 bits and no bits set behind them.
    pub open spec fn wf(self) -> bool {
        self.prefix_len <= 32 && self.network as int % block(self.prefix_len as int) == 0
    }

    /// Whether an address lies under the prefix.
    pub open spec fn has(self, addr: u32) -> bool {
        addr as int / block(self.prefix_len as int) == self.network as int / block(
            self.prefix_len as int,
        )
    }

    /// Whether the shorter of two prefixes covers the longer one.
    pub open spec fn meets(self, other: Self) -> bool {
        let len = if self.prefix_len <= other.prefix_len {
            self.prefix_len as int
        } else {
            other.prefix_len as int
        };
        self.network as int / block(len) == other.network as int / block(len)
    }

    /// The prefix in the notation `network/length`.
    pub open spec fn cidr(self) -> Seq<char> {
        ipv4_text(self.network) + "/"@ + decimal(self.prefix_len as nat)
    }

    /// Makes a prefix, unless it is too long or bits behind it are set.
    pub fn new(network: u32, prefix_len: u8) -> (r: Option<Self>)
        ensures
            r == (if (Ipv4Prefix { network, prefix_len }).wf() {
                Some(Ipv4Prefix { network, prefix_len })
            } else {
                None
            }),
    {
        if prefix_len > 32 {
            return None;
        }
        let size: u64 = block_of(prefix_len);
        if network as u64 % size == 0 {
            Some(Ipv4Prefix { network, prefix_len })
        } else {
            None
        }
    }

    /// Decides [`Self::has`].
    pub fn contains(&self, addr: u32) -> (r: bool)
        ensures
            r == self.has(addr),
    {
        let size: u64 = block_of(self.prefix_len);
        addr as u64 / size == self.network as u64 / size
    }

    /// Decides [`Self::meets`].
    pub fn overlaps(&self, other: &Self) -> (r: bool)
        ensures
            r == self.meets(*other),
    {
        let len: u8 = if self.prefix_len <= other.prefix_len {
            self.prefix_len
        } else {
            other.prefix_len
        };
        let size: u64 = block_of(len);
        self.network as u64 / size == other.network as u64 / size
    }

    /// Computes [`Self::cidr`].
    pub fn cidr_text(&self) -> (r: String)
        ensures
            r@ == self.cidr(),
    {
        let mut out = ipv4_of(self.network);
        out.append("/");
        let len = decimal_of(self.prefix_len as u128);
        out.append(len.as_str());
        out
    }
}

/// An address lies under a prefix exactly if it is one of the block that starts at the network
/// address.
pub proof fn lemma_prefix_range(p: Ipv4Prefix, addr: u32)
    requires
        p.wf(),
    ensures
        p.has(addr) <==> p.network <= addr < p.network + block(p.prefix_len as int),
{
    let b = block(p.prefix_len as int);
    lemma_block_bound(p.prefix_len as int);
    let n = p.network as int;
    let a = addr as int;
    assert(a / b == n / b <==> n <= a < n + b) by (nonlinear_arith)
        requires
            b >= 1,
            n % b == 0,
            0 <= a,
            0 <= n,
    {
        assert(n == b * (n / b));
        assert(a == b * (a / b) + a % b);
        if a / b == n / b {
        } else if a / b > n / b {
            assert(b * (a / b) >= b * (n / b) + b);
        } else {
            assert(b * (a / b) <= b * (n / b) - b);
        }
    }
}

/// Overlap does not depend on the order of the two prefixes.
pub proof fn lemma_overlap_symmetric(p: Ipv4Prefix, q: Ipv4Prefix)
    ensures
        p.meets(q) == q.meets(p),
{
}

proof fn lemma_overlap_ordered(p: Ipv4Prefix, q: Ipv4Prefix)
    requires
        p.wf(),
        q.wf(),
        p.prefix_len <= q.prefix_len,
    ensures
        p.meets(q) <==> exists|addr: u32| p.has(addr) && q.has(addr),
{
    let short = p.prefix_len as int;
    let long = q.prefix_len as int;
    lemma_block_divides(short, long);
    lemma_block_bound(long);
    lemma_block_bound(short);
    let m = block(short) / block(long);
    if p.meets(q) {
        assert(p.has(q.network) && q.has(q.network));
    }
    if exists|addr: u32| p.has(addr) && q.has(addr) {
        let addr = choose|addr: u32| p.has(addr) && q.has(addr);
        let bl = block(long);
        let bs = block(short);
        let x = addr as int;
        let n = q.network as int;
        assert(x / bs == (x / bl) / m && n / bs == (n / bl) / m) by {
            vstd::arithmetic::div_mod::lemma_div_denominator(x, bl, m);
            vstd::arithmetic::div_mod::lemma_div_denominator(n, bl, m);
        }
    }
}

/// Two prefixes overlap exactly if some address lies under both.
pub proof fn lemma_overlap_shares_address(p: Ipv4Prefix, q: Ipv4Prefix)
    requires
        p.wf(),
        q.wf(),
    ensures
        p.meets(q) <==> exists|addr: u32| p.has(addr) && q.has(addr),
{
    if p.prefix_len <= q.prefix_len {
        lemma_overlap_ordered(p, q);
    } else {
        lemma_overlap_ordered(q, p);
        if exists|addr: u32| q.has(addr) && p.has(addr) {
            let addr = choose|addr: u32| q.has(addr) && p.has(addr);
            assert(p.has(addr) && q.has(addr));
        }
        if exists|addr: u32| p.has(addr) && q.has(addr) {
            let addr = choose|addr: u32| p.has(addr) && q.has(addr);
            assert(q.has(addr) && p.has(addr));
        }
    }
}

// ---------------------------------------------------------------------------
// Reading prefixes
// ---------------------------------------------------------------------------

/// The address that a text stands for.
pub open spec fn ipv4_value(s: Seq<char>) -> Option<u32> {
    if exists|a: u32| s == #[trigger] ipv4_text(a) {
        Some(choose|a: u32| s == #[trigger] ipv4_text(a))
    } else {
        None
    }
}

/// Computes [`ipv4_value`].
pub fn ipv4_value_of(s: &str) -> (r: Option<u32>)
    ensures
        r == ipv4_value(s@),
{
    match parse_ipv4(s) {
        Some(a) => {
            proof {
                assert(s@ == ipv4_text(a));
                let b = choose|b: u32| s@ == #[trigger] ipv4_text(b);
                lemma_ipv4_text_injective(a, b);
            }
            Some(a)
        },
        None => None,
    }
}

/// Reading an address gives back what was written.
pub proof fn lemma_ipv4_round_trip(a: u32)
    ensures
        ipv4_value(ipv4_text(a)) == Some(a),
{
    let b = choose|b: u32| ipv4_text(a) == #[trigger] ipv4_text(b);
    lemma_ipv4_text_injective(a, b);
}

/// The text of an address consists of digits and dots.
pub proof fn lemma_ipv4_text_chars(a: u32)
    ensures
        forall|i: int|
            0 <= i < ipv4_text(a).len() ==> is_digit(#[trigger] ipv4_text(a)[i]) || ipv4_text(a)[i]
                == '.',
{
    reveal_strlit(".");
    lemma_decimal_value(octet(a, 0));
    lemma_decimal_value(octet(a, 1));
    lemma_decimal_value(octet(a, 2));
    lemma_decimal_value(octet(a, 3));
}

/// An address and a length with a slash between them, as they are written: the part before the
/// first slash and the part behind it.
pub open spec fn cidr_parts(s: Seq<char>) -> Option<(u32, u8)> {
    let n = head_len(s, '/') as int;
    if n >= s.len() {
        None
    } else {
        match (ipv4_value(s.take(n)), number_text(s.skip(n + 1), 256)) {
            (Some(addr), Some(len)) => Some((addr, len as u8)),
            _ => None,
        }
    }
}

/// An address and a length that are written with a slash between them are read back as they
/// were.
pub proof fn lemma_cidr_round_trip(network: u32, len: u8)
    ensures
        cidr_parts(ipv4_text(network) + "/"@ + decimal(len as nat)) == Some((network, len)),
{
    let a = ipv4_text(network);
    let d = decimal(len as nat);
    let s = a + "/"@ + d;
    reveal_strlit("/");
    lemma_ipv4_round_trip(network);
    lemma_ipv4_text_chars(network);
    assert(s =~= a + seq!['/'] + d);
    assert forall|k: int| 0 <= k < a.len() implies s[k] != '/' by {
        assert(s[k] == a[k]);
    }
    assert(s[a.len() as int] == '/');
    lemma_head_len_at(s, '/', a.len() as int);
    assert(s.take(a.len() as int) =~= a);
    assert(s.skip(a.len() as int + 1) =~= d);
    lemma_decimal_value(len as nat);
    assert(is_number(d));
    assert(is_digit(d[0]));
}

/// A prefix that is written is read back as it was.
pub proof fn lemma_prefix_round_trip(p: Ipv4Prefix)
    requires
        p.wf(),
    ensures
        prefix_value(p.cidr()) == Some(p),
{
    lemma_cidr_round_trip(p.network, p.prefix_len);
}

/// Computes [`cidr_parts`].
pub fn cidr_parts_of(s: &str) -> (r: Option<(u32, u8)>)
    ensures
        r == cidr_parts(s@),
{
    let chars = chars_of(s);
    let ghost n = head_len(s@, '/') as int;
    proof {
        lemma_head_len(s@, '/');
    }
    let mut i: usize = 0;
    let mut addr: Vec<char> = Vec::new();
    while i < chars.len() && chars[i] != '/'
        invariant
            chars@ == s@,
            i <= chars.len(),
            addr@ == s@.take(i as int),
            forall|k: int| 0 <= k < i ==> s@[k] != '/',
        decreases chars.len() - i,
    {
        addr.push(chars[i]);
        i = i + 1;
        assert(addr@ =~= s@.take(i as int));
    }
    proof {
        lemma_head_len_at(s@, '/', i as int);
    }
    if i >= chars.len() {
        return None;
    }
    let from: usize = i + 1;
    let mut rest: Vec<char> = Vec::new();
    let mut j: usize = from;
    while j < chars.len()
        invariant
            chars@ == s@,
            from <= j <= chars.len(),
            rest@ == s@.subrange(from as int, j as int),
        decreases chars.len() - j,
    {
        rest.push(chars[j]);
        j = j + 1;
        assert(rest@ =~= s@.subrange(from as int, j as int));
    }
    assert(rest@ =~= s@.skip(n + 1));
    let addr_text = text_of(addr);
    let len_text = text_of(rest);
    match (ipv4_value_of(addr_text.as_str()), parse_number(len_text.as_str(), 256)) {
        (Some(a), Some(l)) => Some((a, l as u8)),
        _ => None,
    }
}

/// The prefix that a text stands for.
pub open spec fn prefix_value(s: Seq<char>) -> Option<Ipv4Prefix> {
    match cidr_parts(s) {
        Some((network, prefix_len)) => if (Ipv4Prefix { network, prefix_len }).wf() {
            Some(Ipv4Prefix { network, prefix_len })
        } else {
            None
        },
        None => None,
    }
}

/// Computes [`prefix_value`].
pub fn prefix_value_of(s: &str) -> (r: Option<Ipv4Prefix>)
    ensures
        r == prefix_value(s@),
{
    match cidr_parts_of(s) {
        Some((network, prefix_len)) => Ipv4Prefix::new(network, prefix_len),
        None => None,
    }
}

} // verus!
