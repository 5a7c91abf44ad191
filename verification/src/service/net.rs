//! The networks of subnets and realms.
use super::errors::{NetworkError, NetworkErrorView};
use crate::ipv4::{
    block, block_of, cidr_parts, cidr_parts_of, ipv4_of, ipv4_text, lemma_block_divides,
    lemma_cidr_round_trip,
};
use crate::render::{decimal, decimal_of};
use crate::text::join3;
use vstd::prelude::*;

verus! {

/// A network with room for at least two hosts.
#[derive(Clone, Copy, Debug, PartialEq, Eq, Structural)]
pub struct Ipv4Net {
    pub network: u32,
    pub broadcast: u32,
    pub prefix: u8,
}

impl Ipv4Net {
    /// The network of an address and the length of its prefix.
    pub open spec fn of(address: u32, prefix: u8) -> Ipv4Net {
        let size = block(prefix as int);
        let network = address - address as int % size;
        Ipv4Net { network: network as u32, broadcast: (network + size - 1) as u32, prefix }
    }

    /// The network lies on a border of its size, and ends before the next.
    pub open spec fn wf(self) -> bool {
        &&& self.prefix <= 30
        &&& self.network as int % block(self.prefix as int) == 0
        &&& self.broadcast == self.network + block(self.prefix as int) - 1
    }

    /// Whether an address lies in the network.
    pub open spec fn has(self, address: u32) -> bool {
        self.network <= address <= self.broadcast
    }

    /// The network in the notation `network/length`.
    pub open spec fn text(self) -> Seq<char> {
        ipv4_text(self.network) + "/"@ + decimal(self.prefix as nat)
    }
}

/// The network that a text stands for. Bits behind the prefix may be set; they are cleared.
pub open spec fn net_value(s: Seq<char>) -> Option<Ipv4Net> {
    match cidr_parts(s) {
        Some((address, prefix)) => if prefix <= 30 {
            Some(Ipv4Net::of(address, prefix))
        } else {
            None
        },
        None => None,
    }
}

/// The size of a network with room for two hosts divides the address space.
pub proof fn lemma_net_of(address: u32, prefix: u8)
    requires
        prefix <= 30,
    ensures
        Ipv4Net::of(address, prefix).wf(),
        Ipv4Net::of(address, prefix).has(address),
        block(prefix as int) >= 4,
        Ipv4Net::of(address, prefix).network == address - address as int % block(prefix as int),
{
    let b = block(prefix as int);
    lemma_net_block(prefix as int);
    let k = 0x1_0000_0000int / b;
    let a = address as int;
    let n = a - a % b;
    assert(0 <= n && n + b <= 0x1_0000_0000 && n % b == 0 && n <= a < n + b) by (nonlinear_arith)
        requires
            b >= 4,
            0 <= a < 0x1_0000_0000,
            0x1_0000_0000 == b * k,
            n == a - a % b,
    {
        let q = a / b;
        assert(a == b * q + a % b);
        assert(n == b * q);
        assert(0 <= a % b < b);
        assert(q < k) by {
            if q >= k {
                assert(b * q >= b * k);
            }
        }
        assert(b * q + b <= b * k) by {
            assert(b * (q + 1) <= b * k);
        }
        assert((b * q) % b == 0);
    }
}

proof fn lemma_net_block(len: int)
    requires
        0 <= len <= 30,
    ensures
        block(len) >= 4,
        0x1_0000_0000 == block(len) * (0x1_0000_0000int / block(len)),
{
    assert(block(30) == 4) by {
        reveal_with_fuel(block, 4);
    }
    assert(block(0) == 0x1_0000_0000) by {
        reveal_with_fuel(block, 34);
    }
    lemma_block_divides(len, 30);
    lemma_block_divides(0, len);
}

impl Ipv4Net {
    /// Computes [`net_value`].
    pub fn parse(value: &str) -> (r: Result<Ipv4Net, NetworkError>)
        ensures
            match r {
                Ok(net) => net_value(value@) == Some(net) && net.wf(),
                Err(e) => net_value(value@) is None && e@ == NetworkErrorView::InvalidRequest,
            },
    {
        match cidr_parts_of(value) {
            None => Err(NetworkError::InvalidRequest),
            Some((address, prefix)) => {
                if prefix > 30 {
                    return Err(NetworkError::InvalidRequest);
                }
                proof {
                    lemma_net_of(address, prefix);
                }
                let size: u64 = block_of(prefix);
                let network: u64 = address as u64 - address as u64 % size;
                Ok(
                    Ipv4Net {
                        network: network as u32,
                        broadcast: (network + size - 1) as u32,
                        prefix,
                    },
                )
            },
        }
    }

    /// Computes [`Self::text`].
    pub fn canonical(&self) -> (r: String)
        ensures
            r@ == self.text(),
    {
        let network = ipv4_of(self.network);
        let prefix = decimal_of(self.prefix as u128);
        join3(network.as_str(), "/", prefix.as_str())
    }

    /// Decides [`Self::has`].
    pub fn contains(&self, address: u32) -> (r: bool)
        ensures
            r == self.has(address),
    {
        address >= self.network && address <= self.broadcast
    }

    /// The first address that a host can have.
    pub fn first_host(&self) -> (r: u32)
        requires
            self.wf(),
        ensures
            r == self.network + 1,
    {
        proof {
            lemma_net_block(self.prefix as int);
        }
        self.network + 1
    }

    /// The last address that a host can have.
    pub fn last_host(&self) -> (r: u32)
        requires
            self.wf(),
        ensures
            r == self.broadcast - 1,
    {
        proof {
            lemma_net_block(self.prefix as int);
        }
        self.broadcast - 1
    }
}

/// A network is written in one way, and that way is read back as the same network.
pub proof fn lemma_net_round_trip(net: Ipv4Net)
    requires
        net.wf(),
    ensures
        net_value(net.text()) == Some(net),
{
    lemma_cidr_round_trip(net.network, net.prefix);
    assert(net.network as int % block(net.prefix as int) == 0);
    assert(Ipv4Net::of(net.network, net.prefix) == net);
}

} // verus!
