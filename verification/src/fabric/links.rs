//! What the host prints about links, compared with what is recorded of them.
use super::state::{EndpointTapOwnership, EndpointTapOwnershipView, GeneveOwnership, GeneveOwnershipView};
use crate::ipv4::{ipv4_of, ipv4_text};
use crate::render::{decimal, decimal_of};
use crate::text::{
    after_first, after_first_of, chars_of, contains, drop_end_chars, head, head_of, join, lines,
    lines_of, rows, spells, text_contains, trim_end_char, words, words_of,
};
use vstd::prelude::*;

verus! {

/// The name of the link in one line of a link listing.
pub open spec fn port_name(line: Seq<char>) -> Option<Seq<char>> {
    match after_first(line, ": "@) {
        None => None,
        Some(rest) => {
            let w = words(rest);
            if w.len() == 0 {
                None
            } else {
                Some(head(trim_end_char(w[0], ':'), '@'))
            }
        },
    }
}

/// Whether a link listing names exactly the two links that a tunnel's bridge has.
pub open spec fn ports_owned(output: Seq<char>, geneve: GeneveOwnershipView) -> bool {
    let all = lines(output);
    &&& forall|i: int| 0 <= i < all.len() ==> (port_name(#[trigger] all[i]) matches Some(name) ==> name
        == geneve.interface || name == geneve.fabric_veth)
    &&& exists|i: int| 0 <= i < all.len() && port_name(#[trigger] all[i]) == Some(geneve.interface)
    &&& exists|i: int| 0 <= i < all.len() && port_name(#[trigger] all[i]) == Some(geneve.fabric_veth)
}

fn port_name_of(line: &Vec<char>) -> (r: Option<Vec<char>>)
    ensures
        match r {
            Some(name) => port_name(line@) == Some(name@),
            None => port_name(line@) is None,
        },
{
    match after_first_of(line, ": ") {
        None => None,
        Some(rest) => {
            let mut w = words_of(&rest);
            assert(rows(w@).len() == w@.len());
            if w.len() == 0 {
                return None;
            }
            assert(rows(w@)[0] == w@[0]@);
            let mut first = w.swap_remove(0);
            drop_end_chars(&mut first, ':');
            Some(head_of(&first, '@'))
        },
    }
}

/// Decides [`ports_owned`].
pub fn bridge_ports_are_owned(output: &str, geneve: &GeneveOwnership) -> (r: bool)
    ensures
        r == ports_owned(output@, geneve@),
{
    let chars = chars_of(output);
    let all = lines_of(&chars);
    let ghost ls = lines(output@);
    let mut interface_seen = false;
    let mut veth_seen = false;
    assert(rows(all@).len() == all@.len());
    for i in 0..all.len()
        invariant
            rows(all@) == ls,
            ls == lines(output@),
            ls.len() == all@.len(),
            forall|k: int| 0 <= k < i ==> (port_name(#[trigger] ls[k]) matches Some(name) ==> name
                == geneve@.interface || name == geneve@.fabric_veth),
            interface_seen == exists|k: int|
                0 <= k < i && port_name(#[trigger] ls[k]) == Some(geneve@.interface),
            veth_seen == exists|k: int|
                0 <= k < i && port_name(#[trigger] ls[k]) == Some(geneve@.fabric_veth),
    {
        assert(ls[i as int] == all@[i as int]@);
        match port_name_of(&all[i]) {
            Some(name) => {
                let is_interface = spells(&name, geneve.interface.as_str());
                let is_veth = spells(&name, geneve.fabric_veth.as_str());
                if !is_interface && !is_veth {
                    return false;
                }
                if is_interface {
                    assert(port_name(ls[i as int]) == Some(geneve@.interface));
                    interface_seen = true;
                }
                if is_veth {
                    assert(port_name(ls[i as int]) == Some(geneve@.fabric_veth));
                    veth_seen = true;
                }
            },
            None => {},
        }
    }
    interface_seen && veth_seen
}

/// Whether the description of a link is that of a recorded tunnel.
pub open spec fn geneve_matches(output: Seq<char>, g: GeneveOwnershipView, port: u16) -> bool {
    &&& contains(output, "geneve"@)
    &&& contains(output, "id "@ + decimal(g.vni as nat))
    &&& contains(output, "remote "@ + ipv4_text(g.remote_transport_ip))
    &&& contains(output, "dstport "@ + decimal(port as nat))
}

/// Decides [`geneve_matches`].
pub fn geneve_link_matches(output: &str, ownership: &GeneveOwnership, port: u16) -> (r: bool)
    ensures
        r == geneve_matches(output@, ownership@, port),
{
    let id = join("id ", decimal_of(ownership.vni as u128).as_str());
    let remote = join("remote ", ipv4_of(ownership.remote_transport_ip).as_str());
    let dstport = join("dstport ", decimal_of(port as u128).as_str());
    text_contains(output, "geneve") && text_contains(output, id.as_str()) && text_contains(
        output,
        remote.as_str(),
    ) && text_contains(output, dstport.as_str())
}

/// Whether the description of a link is that of a recorded tap device on the given bridge.
pub open spec fn tap_matches(
    output: Seq<char>,
    tap: EndpointTapOwnershipView,
    bridge: Seq<char>,
) -> bool {
    &&& contains(output, "tun"@)
    &&& contains(output, "link/ether "@ + tap.mac)
    &&& contains(output, "master "@ + bridge)
}

/// Decides [`tap_matches`].
pub fn tap_link_matches(output: &str, ownership: &EndpointTapOwnership, bridge: &str) -> (r: bool)
    ensures
        r == tap_matches(output@, ownership@, bridge@),
{
    let ether = join("link/ether ", ownership.mac.as_str());
    let master = join("master ", bridge);
    text_contains(output, "tun") && text_contains(output, ether.as_str()) && text_contains(
        output,
        master.as_str(),
    )
}

} // verus!
